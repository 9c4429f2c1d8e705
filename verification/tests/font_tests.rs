use max7456::font::{char_block_to_byte, validate_header};

#[test]
fn header_accepts_magic_line() {
    assert_eq!(validate_header(b"MAX7456\n"), true);
}

#[test]
fn header_rejects_other_lines() {
    assert_eq!(validate_header(b"MAX7456 "), false);
    assert_eq!(validate_header(b"MAX7455\n"), false);
}

#[test]
fn char_block_decodes_binary_digits() {
    assert_eq!(char_block_to_byte(b"01000001\n"), Some(0x41));
    assert_eq!(char_block_to_byte(b"00000000\n"), Some(0x00));
    assert_eq!(char_block_to_byte(b"11111111\n"), Some(0xFF));
}

#[test]
fn char_block_rejects_missing_newline() {
    assert_eq!(char_block_to_byte(b"010000011"), None);
}
