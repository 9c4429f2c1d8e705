use max7456::character_memory::{
    build_load_char_operation, build_store_char_operation, CharData, CHAR_DATA_SIZE,
    STORE_CHAR_BUFFER_SIZE,
};
use max7456::registers::{CharacterMemoryMode, Registers};

#[test]
fn test_write_store_char_operation() {
    let data: CharData = [0x55u8; CHAR_DATA_SIZE];
    let mut output = vec![0u8; STORE_CHAR_BUFFER_SIZE];
    assert_eq!(build_store_char_operation(&data, 10, &mut output), true);
    assert_eq!(output[0], Registers::CharacterMemoryAddressHigh.address());
    assert_eq!(output[2], Registers::CharacterMemoryAddressLow.address());
    assert_eq!(output[2 + CHAR_DATA_SIZE * 4 - 4], Registers::CharacterMemoryAddressLow.address());
    assert_eq!(output[2 + CHAR_DATA_SIZE * 4], Registers::CharacterMemoryMode.address());
    assert_eq!(output[2 + CHAR_DATA_SIZE * 4 + 1], CharacterMemoryMode::WriteToNVM.value());
}

#[test]
fn test_store_char_operation_layout() {
    let mut data: CharData = [0u8; CHAR_DATA_SIZE];
    data[0] = 0xAA;
    data[63] = 0x0F;
    let mut output = vec![0u8; STORE_CHAR_BUFFER_SIZE + 3];
    output[STORE_CHAR_BUFFER_SIZE] = 0xEE;
    assert_eq!(build_store_char_operation(&data, 3, &mut output), true);
    assert_eq!(&output[..6], &[0x09, 0x03, 0x0A, 0x00, 0x0B, 0xAA]);
    assert_eq!(&output[2 + 63 * 4..2 + 64 * 4], &[0x0A, 63, 0x0B, 0x0F]);
    assert_eq!(&output[258..260], &[0x08, 0xA0]);
    // bytes past the transaction are untouched
    assert_eq!(output[STORE_CHAR_BUFFER_SIZE], 0xEE);
}

#[test]
fn test_store_char_operation_short_buffer() {
    let data: CharData = [0u8; CHAR_DATA_SIZE];
    let mut output = vec![0x77u8; STORE_CHAR_BUFFER_SIZE - 1];
    assert_eq!(build_store_char_operation(&data, 1, &mut output), false);
    assert!(output.iter().all(|&b| b == 0x77));
}

#[test]
fn test_load_char_operation() {
    let request = build_load_char_operation(7);
    assert_eq!(&request[..], &[0x09, 0x07, 0x08, 0x50]);
}
