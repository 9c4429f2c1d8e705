use max7456::lines_writer::{revert, LinesWriter};

fn blank_screen(rows: usize, columns: usize) -> Vec<Vec<u8>> {
    vec![vec![0u8; columns]; rows]
}

#[test]
fn lines_writer_test_low_address() {
    let mut output = vec![0u8; 32];
    let mut lines = blank_screen(16, 30);
    lines[7][29] = b't';
    let mut writer = LinesWriter::new(&lines, Default::default());
    let expected = [0x04, 0x00, 0x05, 0x00, 0x06, 0xEF, 0x07, 0x74];
    let n = writer.write(&mut output);
    assert_eq!(&output[..n], &expected);
}

#[test]
fn lines_writer_test_high_address() {
    let mut output = vec![0u8; 32];
    let mut lines = blank_screen(16, 30);
    lines[8][29] = b't';
    let mut writer = LinesWriter::new(&lines, Default::default());
    let expected = [0x04, 0x00, 0x05, 0x01, 0x06, 0x0D, 0x07, 0x74];
    let n = writer.write(&mut output);
    assert_eq!(&output[..n], &expected);
}

#[test]
fn lines_writer_test_within_addreess() {
    let mut output = vec![0u8; 32];
    let mut lines = blank_screen(16, 30);
    lines[7][29] = b't';
    lines[8][15] = b't';
    let mut writer = LinesWriter::new(&lines, Default::default());
    let expected = [0x04, 0x00, 0x05, 0x00, 0x06, 0xEF, 0x07, 0x74, 0x06, 0xFF, 0x07, 0x74];
    let n = writer.write(&mut output);
    assert_eq!(&output[..n], &expected);
}

#[test]
fn lines_writer_test_cross_address() {
    let mut output = vec![0u8; 32];
    let mut lines = blank_screen(16, 30);
    lines[7][29] = b't';
    lines[8][29] = b't';
    let mut writer = LinesWriter::new(&lines, Default::default());
    let expected = [
        0x04, 0x00, 0x05, 0x00, 0x06, 0xEF, 0x07, 0x74, 0x05, 0x01, 0x06, 0x0D, 0x07, 0x74,
    ];
    let n = writer.write(&mut output);
    assert_eq!(&output[..n], &expected);
}

#[test]
fn lines_writer_test_exactly_one_buffer() {
    let mut output = vec![0u8; 14];
    let mut lines = blank_screen(16, 30);
    lines[7][29] = b't';
    lines[8][29] = b't';
    let mut writer = LinesWriter::new(&lines, Default::default());
    let expected = [
        0x04, 0x00, 0x05, 0x00, 0x06, 0xEF, 0x07, 0x74, 0x05, 0x01, 0x06, 0x0D, 0x07, 0x74,
    ];
    let n = writer.write(&mut output);
    assert_eq!(&output[..n], &expected);
    assert_eq!(writer.write(&mut output), 0)
}

#[test]
fn lines_writer_test_multiple_buffer() {
    let mut output = vec![0u8; 8];
    let mut lines = blank_screen(16, 30);
    lines[7][29] = b't';
    lines[8][29] = b't';
    let mut writer = LinesWriter::new(&lines, Default::default());
    let expected = [0x04, 0x00, 0x05, 0x00, 0x06, 0xEF, 0x07, 0x74];
    let n = writer.write(&mut output);
    assert_eq!(&output[..n], &expected);

    let expected = [0x04, 0x00, 0x05, 0x01, 0x06, 0x0D, 0x07, 0x74];
    let n = writer.write(&mut output);
    assert_eq!(&output[..n], &expected);
}

#[test]
fn lines_writer_test_non_standard_screen() {
    let mut output = vec![0u8; 8];
    let mut lines = blank_screen(15, 29);
    lines[7][28] = b't';
    lines[8][28] = b't';
    let mut writer = LinesWriter::new(&lines, Default::default());
    let expected = [0x04, 0x00, 0x05, 0x00, 0x06, 0xEE, 0x07, 0x74];
    let n = writer.write(&mut output);
    assert_eq!(&output[..n], &expected);

    let expected = [0x04, 0x00, 0x05, 0x01, 0x06, 0x0C, 0x07, 0x74];
    let n = writer.write(&mut output);
    assert_eq!(&output[..n], &expected);
}

#[test]
fn lines_writer_resume_matches_single_call() {
    // the data pairs of the chunks of two 8-byte buffers, concatenated,
    // are the data pairs of the one big-buffer chunk
    let mut lines = blank_screen(max7456::ROW, max7456::COLUMN);
    lines[7][29] = b't';
    lines[8][29] = b'u';

    let mut big = vec![0u8; 64];
    let mut writer = LinesWriter::new(&lines, Default::default());
    let n = writer.write(&mut big);
    assert_eq!(
        &big[..n],
        &[0x04, 0x00, 0x05, 0x00, 0x06, 0xEF, 0x07, 0x74, 0x05, 0x01, 0x06, 0x0D, 0x07, 0x75]
    );

    let mut small = vec![0u8; 8];
    let mut writer = LinesWriter::new(&lines, Default::default());
    let n1 = writer.write(&mut small);
    assert_eq!(&small[..n1], &[0x04, 0x00, 0x05, 0x00, 0x06, 0xEF, 0x07, 0x74]);
    let n2 = writer.write(&mut small);
    assert_eq!(&small[..n2], &[0x04, 0x00, 0x05, 0x01, 0x06, 0x0D, 0x07, 0x75]);
    assert_eq!(writer.write(&mut small), 0);
}

#[test]
fn lines_writer_mode_byte_carries_attributes() {
    let mut output = vec![0u8; 32];
    let mut lines = blank_screen(max7456::ROW, max7456::COLUMN);
    lines[0][0] = b'a';
    let attributes = max7456::Attributes { local_background_control: true, blink: true, revert: true };
    let mut writer = LinesWriter::new(&lines, attributes);
    let n = writer.write(&mut output);
    // local background control 0x20, blink 0x10, invert 0x08
    assert_eq!(&output[..n], &[0x04, 0x38, 0x05, 0x00, 0x06, 0x00, 0x07, 0x61]);
}

#[test]
fn revert_zeroes_data_pairs() {
    let mut buffer = vec![
        0x04, 0x00, 0x05, 0x00, 0x06, 0xEF, 0x07, 0x74, 0x05, 0x01, 0x06, 0x0D, 0x07, 0x74,
    ];
    let n = revert(&mut buffer);
    assert_eq!(n, 14);
    assert_eq!(
        &buffer[..n],
        &[0x04, 0x00, 0x05, 0x00, 0x06, 0xEF, 0x07, 0x00, 0x05, 0x01, 0x06, 0x0D, 0x07, 0x00]
    );
}

#[test]
fn revert_truncates_at_zero_register() {
    // the writer's trailing bookkeeping byte ends the transaction early
    let mut buffer = vec![0x04, 0x00, 0x06, 0x10, 0x07, 0x42, 0x00, 0x99, 0x07, 0x43];
    let n = revert(&mut buffer);
    assert_eq!(n, 6);
    assert_eq!(&buffer[..n], &[0x04, 0x00, 0x06, 0x10, 0x07, 0x00]);
}

#[test]
fn revert_rejects_wrong_leading_register() {
    let mut buffer = vec![0x05, 0x00, 0x06, 0x10, 0x07, 0x42];
    assert_eq!(revert(&mut buffer), 0);
}

#[test]
fn revert_rejects_unknown_register() {
    let mut buffer = vec![0x04, 0x00, 0x09, 0x10, 0x07, 0x42];
    assert_eq!(revert(&mut buffer), 0);
}

#[test]
fn revert_of_written_buffer_erases_cells() {
    // encode, then revert the written buffer in place: the reverted
    // transaction addresses the same cells with value zero
    let mut output = vec![0u8; 32];
    let mut lines = blank_screen(16, 30);
    lines[7][29] = b't';
    lines[8][15] = b'u';
    let mut writer = LinesWriter::new(&lines, Default::default());
    let n = writer.write(&mut output);
    assert_eq!(&output[..n], &[0x04, 0x00, 0x05, 0x00, 0x06, 0xEF, 0x07, 0x74, 0x06, 0xFF, 0x07, 0x75]);
    // the bookkeeping terminator follows the chunk
    assert_eq!(output[n], 0x00);
    let m = revert(&mut output);
    assert_eq!(m, n);
    assert_eq!(&output[..m], &[0x04, 0x00, 0x05, 0x00, 0x06, 0xEF, 0x07, 0x00, 0x06, 0xFF, 0x07, 0x00]);
}
