use max7456::not_null_writer::{revert, NotNullWriter};

fn blank_screen(rows: usize, columns: usize) -> Vec<Vec<u8>> {
    vec![vec![0u8; columns]; rows]
}

#[test]
fn not_null_writer_test_low_address() {
    let mut output = vec![0u8; 32];
    let mut screen = blank_screen(16, 30);
    screen[7][29] = b't';
    let mut writer = NotNullWriter::new(&screen, Default::default());
    let expected = "[4, 0, 5, 0, 6, ef, 7, 74]";
    let n = writer.write(&mut output);
    let actual = format!("{:x?}", &output[..n]);
    assert_eq!(actual, expected);
}

#[test]
fn not_null_writer_test_high_address() {
    let mut output = vec![0u8; 32];
    let mut screen = blank_screen(16, 30);
    screen[8][29] = b't';
    let mut writer = NotNullWriter::new(&screen, Default::default());
    let expected = "[4, 0, 5, 1, 6, d, 7, 74]";
    let n = writer.write(&mut output);
    let actual = format!("{:x?}", &output[..n]);
    assert_eq!(actual, expected);
}

#[test]
fn not_null_writer_test_within_addreess() {
    let mut output = vec![0u8; 32];
    let mut screen = blank_screen(16, 30);
    screen[7][29] = b't';
    screen[8][15] = b't';
    let mut writer = NotNullWriter::new(&screen, Default::default());
    let expected = "[4, 0, 5, 0, 6, ef, 7, 74, 6, ff, 7, 74]";
    let n = writer.write(&mut output);
    let actual = format!("{:x?}", &output[..n]);
    assert_eq!(actual, expected);
}

#[test]
fn not_null_writer_test_cross_address() {
    let mut output = vec![0u8; 32];
    let mut screen = blank_screen(16, 30);
    screen[7][29] = b't';
    screen[8][29] = b't';
    let mut writer = NotNullWriter::new(&screen, Default::default());
    let expected = "[4, 0, 5, 0, 6, ef, 7, 74, 5, 1, 6, d, 7, 74]";
    let n = writer.write(&mut output);
    let actual = format!("{:x?}", &output[..n]);
    assert_eq!(actual, expected);
}

#[test]
fn not_null_writer_test_exactly_one_buffer() {
    let mut output = vec![0u8; 14];
    let mut screen = blank_screen(16, 30);
    screen[7][29] = b't';
    screen[8][29] = b't';
    let mut writer = NotNullWriter::new(&screen, Default::default());
    let expected = "[4, 0, 5, 0, 6, ef, 7, 74, 5, 1, 6, d, 7, 74]";
    let n = writer.write(&mut output);
    let actual = format!("{:x?}", &output[..n]);
    assert_eq!(actual, expected);

    assert_eq!(writer.write(&mut output), 0)
}

#[test]
fn not_null_writer_test_multiple_buffer() {
    let mut output = vec![0u8; 8];
    let mut screen = blank_screen(16, 30);
    screen[7][29] = b't';
    screen[8][29] = b't';
    let mut writer = NotNullWriter::new(&screen, Default::default());
    let expected = "[4, 0, 5, 0, 6, ef, 7, 74]";
    let n = writer.write(&mut output);
    let actual = format!("{:x?}", &output[..n]);
    assert_eq!(actual, expected);

    let expected = "[4, 0, 5, 1, 6, d, 7, 74]";
    let n = writer.write(&mut output);
    let actual = format!("{:x?}", &output[..n]);
    assert_eq!(actual, expected);
}

#[test]
fn not_null_writer_test_non_standard_screen() {
    let mut output = vec![0u8; 8];
    let mut screen = blank_screen(15, 29);
    screen[7][28] = b't';
    screen[8][28] = b't';
    let mut writer = NotNullWriter::new(&screen, Default::default());
    let expected = "[4, 0, 5, 0, 6, ee, 7, 74]";
    let n = writer.write(&mut output);
    let actual = format!("{:x?}", &output[..n]);
    assert_eq!(actual, expected);

    let expected = "[4, 0, 5, 1, 6, c, 7, 74]";
    let n = writer.write(&mut output);
    let actual = format!("{:x?}", &output[..n]);
    assert_eq!(actual, expected);
}

#[test]
fn not_null_revert_matches_lines_revert() {
    let mut buffer = vec![0x04, 0x00, 0x06, 0x10, 0x07, 0x42];
    let n = revert(&mut buffer);
    assert_eq!(n, 6);
    assert_eq!(&buffer[..n], &[0x04, 0x00, 0x06, 0x10, 0x07, 0x00]);
}
