use max7456::incremental_writer::IncrementalWriter;

#[test]
fn test_functional() {
    let mut output = vec![0u8; 32];
    let mut writer = IncrementalWriter::new(b"test", 0, 0, Default::default());
    let expected = [
        0x04, 0x01, 0x05, 0x00, 0x06, 0x00, 0x07, 0x74, 0x07, 0x65, 0x07, 0x73, 0x07, 0x74, 0x07,
        0xFF,
    ];
    let n = writer.write(&mut output).unwrap();
    assert_eq!(&output[..n], &expected);
}

#[test]
fn test_breaks() {
    let mut output = vec![0u8; 6 + 26 + 2];
    let upper_letters = b"ABCDEFGHIJKLMNOPQRSTUVWXYZ";
    let mut writer = IncrementalWriter::new(upper_letters, 0, 0, Default::default());
    let expected = [
        0x04, 0x01, 0x05, 0x00, 0x06, 0x00, 0x07, 0x41, 0x07, 0x42, 0x07, 0x43, 0x07, 0x44, 0x07,
        0x45, 0x07, 0x46, 0x07, 0x47, 0x07, 0x48, 0x07, 0x49, 0x07, 0x4A, 0x07, 0x4B, 0x07, 0x4C,
        0x07, 0x4D, 0x07, 0xFF,
    ];
    let n = writer.write(&mut output).unwrap();
    assert_eq!(&output[..n], &expected);
    assert_eq!(writer.remain() > 0, true);
    let expected = [
        0x04, 0x01, 0x05, 0x00, 0x06, 0x0D, 0x07, 0x4E, 0x07, 0x4F, 0x07, 0x50, 0x07, 0x51, 0x07,
        0x52, 0x07, 0x53, 0x07, 0x54, 0x07, 0x55, 0x07, 0x56, 0x07, 0x57, 0x07, 0x58, 0x07, 0x59,
        0x07, 0x5A, 0x07, 0xFF,
    ];
    let n = writer.write(&mut output).unwrap();
    assert_eq!(&output[..n], &expected);
    assert_eq!(writer.remain(), 0);
}

#[test]
fn test_sentinel_collision_at_truncation() {
    // a 10-byte buffer takes exactly one data byte per call; the first
    // byte to go out is the sentinel value, so the call must refuse
    let mut output = vec![0u8; 10];
    let mut writer = IncrementalWriter::new(&[0xFF, 0x41], 0, 0, Default::default());
    assert_eq!(writer.write(&mut output), None);
    assert_eq!(writer.remain(), 2);
}

#[test]
fn test_sentinel_collision_at_end() {
    // the run fits whole, but its last byte is the sentinel value
    let mut output = vec![0u8; 32];
    let mut writer = IncrementalWriter::new(&[0x41, 0xFF], 0, 0, Default::default());
    assert_eq!(writer.write(&mut output), None);
    assert_eq!(writer.remain(), 2);
}

#[test]
fn test_sentinel_resolved_by_smaller_buffer() {
    // with a 10-byte buffer the chunk stops before the sentinel byte
    let mut output = vec![0u8; 10];
    let mut writer = IncrementalWriter::new(&[0x41, 0xFF, 0x42], 0, 0, Default::default());
    let n = writer.write(&mut output).unwrap();
    assert_eq!(&output[..n], &[0x04, 0x01, 0x05, 0x00, 0x06, 0x00, 0x07, 0x41, 0x07, 0xFF]);
    assert_eq!(writer.remain(), 2);
}

#[test]
fn test_empty_run_emits_header_and_terminator() {
    let mut output = vec![0u8; 16];
    let mut writer = IncrementalWriter::new(&[], 3, 5, Default::default());
    let n = writer.write(&mut output).unwrap();
    // address 3 * 30 + 5 = 95 = 0x5F
    assert_eq!(&output[..n], &[0x04, 0x01, 0x05, 0x00, 0x06, 0x5F, 0x07, 0xFF]);
}

#[test]
fn test_high_start_address_header() {
    // row 9 gives address 9 * 30 = 270, on page 1
    let mut output = vec![0u8; 12];
    let mut writer = IncrementalWriter::new(b"z", 9, 0, Default::default());
    let n = writer.write(&mut output).unwrap();
    assert_eq!(&output[..n], &[0x04, 0x01, 0x05, 0x01, 0x06, 0x0E, 0x07, 0x7A, 0x07, 0xFF]);
}
