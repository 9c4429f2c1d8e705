use max7456::registers::{
    display_memory_address, CharacterMemoryMode, CharacterMemoryStatus, OperationMode, Pixel,
    Registers, Standard, SyncMode, VerticalSync,
};
use max7456::Attributes;

#[test]
fn register_addresses_match_the_device() {
    assert_eq!(Registers::VideoMode0.address(), 0x00);
    assert_eq!(Registers::DisplayMemoryMode.address(), 0x04);
    assert_eq!(Registers::DisplayMemoryAddressHigh.address(), 0x05);
    assert_eq!(Registers::DisplayMemoryAddressLow.address(), 0x06);
    assert_eq!(Registers::DisplayMemoryDataIn.address(), 0x07);
    assert_eq!(Registers::Status.address(), 0xA0);
}

#[test]
fn read_address_sets_the_high_bit() {
    assert_eq!(Registers::VideoMode0.read_address(), 0x80);
    assert_eq!(Registers::DisplayMemoryMode.read_address(), 0x84);
    assert_eq!(Registers::DisplayMemoryDataOut.read_address(), 0xB0);
}

#[test]
fn screen_dimensions_match_the_device() {
    assert_eq!(max7456::ROW, 16);
    assert_eq!(max7456::COLUMN, 30);
}

#[test]
fn display_memory_address_is_row_major() {
    assert_eq!(display_memory_address(0, 0), 0);
    assert_eq!(display_memory_address(7, 29), 239);
    assert_eq!(display_memory_address(8, 29), 269);
    assert_eq!(display_memory_address(15, 29), 479);
}

#[test]
fn mode_byte_packs_each_attribute() {
    let default = Attributes::default();
    assert_eq!(default.mode_byte(false), 0x00);
    assert_eq!(default.mode_byte(true), 0x01);
    let lbc = Attributes { local_background_control: true, blink: false, revert: false };
    assert_eq!(lbc.mode_byte(false), 0x20);
    let blink = Attributes { local_background_control: false, blink: true, revert: false };
    assert_eq!(blink.mode_byte(false), 0x10);
    let inverted = Attributes { local_background_control: false, blink: false, revert: true };
    assert_eq!(inverted.mode_byte(false), 0x08);
    let all = Attributes { local_background_control: true, blink: true, revert: true };
    assert_eq!(all.mode_byte(true), 0x39);
}

#[test]
fn enum_values_match_the_datasheet() {
    assert_eq!(SyncMode::AutoSyncDetect.value(), 0);
    assert_eq!(SyncMode::External.value(), 2);
    assert_eq!(SyncMode::Internal.value(), 3);
    assert_eq!(VerticalSync::Immediately.value(), 0);
    assert_eq!(VerticalSync::NextVSync.value(), 1);
    assert_eq!(Standard::NTSC.value(), 0);
    assert_eq!(Standard::PAL.value(), 1);
    assert_eq!(OperationMode::Mode16Bit.value(), 0);
    assert_eq!(OperationMode::Mode8Bit.value(), 1);
    assert_eq!(Pixel::Black.value(), 0);
    assert_eq!(Pixel::Transparent.value(), 1);
    assert_eq!(Pixel::White.value(), 2);
    assert_eq!(CharacterMemoryStatus::Available.value(), 0);
    assert_eq!(CharacterMemoryStatus::Unavailable.value(), 1);
    assert_eq!(CharacterMemoryMode::WriteToNVM.value(), 0xA0);
    assert_eq!(CharacterMemoryMode::ReadFromNVM.value(), 0x50);
}
