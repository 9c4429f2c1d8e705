//! Register model of the MAX7456: bus addresses of the registers and the
//! small value enumerations the driver writes into them.

use vstd::prelude::*;

verus! {

/// The registers of the controller, by symbolic name.
#[derive(Clone, Copy, PartialEq, Eq, Structural)]
pub enum Registers {
    VideoMode0,
    VideoMode1,
    HorizentalOffset,
    VerticalOffset,
    DisplayMemoryMode,
    DisplayMemoryAddressHigh,
    DisplayMemoryAddressLow,
    DisplayMemoryDataIn,
    CharacterMemoryMode,
    CharacterMemoryAddressHigh,
    CharacterMemoryAddressLow,
    CharacterMemoryDataIn,
    OSDInsertionMux,
    Row0Bridghtness,
    Status,
    DisplayMemoryDataOut,
    CharacterMemoryDataOut,
}

impl Registers {
    /// The bus address a write to this register is sent to.
    pub open spec fn spec_address(&self) -> u8 {
        match self {
            Registers::VideoMode0 => 0x00,
            Registers::VideoMode1 => 0x01,
            Registers::HorizentalOffset => 0x02,
            Registers::VerticalOffset => 0x03,
            Registers::DisplayMemoryMode => 0x04,
            Registers::DisplayMemoryAddressHigh => 0x05,
            Registers::DisplayMemoryAddressLow => 0x06,
            Registers::DisplayMemoryDataIn => 0x07,
            Registers::CharacterMemoryMode => 0x08,
            Registers::CharacterMemoryAddressHigh => 0x09,
            Registers::CharacterMemoryAddressLow => 0x0A,
            Registers::CharacterMemoryDataIn => 0x0B,
            Registers::OSDInsertionMux => 0x0C,
            Registers::Row0Bridghtness => 0x10,
            Registers::Status => 0xA0,
            Registers::DisplayMemoryDataOut => 0xB0,
            Registers::CharacterMemoryDataOut => 0xC0,
        }
    }

    /// The bus address of a write to this register.
    #[verifier::when_used_as_spec(spec_address)]
    pub fn address(&self) -> (a: u8)
        ensures
            a == self.spec_address(),
    {
        match self {
            Registers::VideoMode0 => 0x00,
            Registers::VideoMode1 => 0x01,
            Registers::HorizentalOffset => 0x02,
            Registers::VerticalOffset => 0x03,
            Registers::DisplayMemoryMode => 0x04,
            Registers::DisplayMemoryAddressHigh => 0x05,
            Registers::DisplayMemoryAddressLow => 0x06,
            Registers::DisplayMemoryDataIn => 0x07,
            Registers::CharacterMemoryMode => 0x08,
            Registers::CharacterMemoryAddressHigh => 0x09,
            Registers::CharacterMemoryAddressLow => 0x0A,
            Registers::CharacterMemoryDataIn => 0x0B,
            Registers::OSDInsertionMux => 0x0C,
            Registers::Row0Bridghtness => 0x10,
            Registers::Status => 0xA0,
            Registers::DisplayMemoryDataOut => 0xB0,
            Registers::CharacterMemoryDataOut => 0xC0,
        }
    }

    /// The bus address a read of this register is requested at: the write
    /// address with bit 7 set.
    pub fn read_address(&self) -> (a: u8)
        ensures
            a == (self.spec_address() | 0x80u8),
    {
        self.address() | 0x80
    }
}

/// The linear display-memory address of a cell, row-major with 30 columns
/// per row.
pub open spec fn spec_display_memory_address(row: u8, column: u8) -> u16 {
    (row * 30 + column) as u16
}

/// Linear display-memory address of the cell at `(row, column)` of the
/// 16 x 30 grid.
#[verifier::when_used_as_spec(spec_display_memory_address)]
pub fn display_memory_address(row: u8, column: u8) -> (address: u16)
    ensures
        address == row as u16 * 30 + column as u16,
        address == spec_display_memory_address(row, column),
{
    row as u16 * 30 + column as u16
}

/// Sync selection of the video mode register.
pub enum SyncMode {
    AutoSyncDetect,
    External,
    Internal,
}

impl SyncMode {
    /// The field value written into the video mode register.
    pub fn value(&self) -> (v: u8)
        ensures
            v == match *self {
                SyncMode::AutoSyncDetect => 0u8,
                SyncMode::External => 0b10u8,
                SyncMode::Internal => 0b11u8,
            },
    {
        match self {
            SyncMode::AutoSyncDetect => 0,
            SyncMode::External => 0b10,
            SyncMode::Internal => 0b11,
        }
    }
}

/// When an enable takes effect.
pub enum VerticalSync {
    Immediately,
    NextVSync,
}

impl VerticalSync {
    /// The field value written into the video mode register.
    pub fn value(&self) -> (v: u8)
        ensures
            v == match *self {
                VerticalSync::Immediately => 0u8,
                VerticalSync::NextVSync => 1u8,
            },
    {
        match self {
            VerticalSync::Immediately => 0,
            VerticalSync::NextVSync => 1,
        }
    }
}

/// Video standard of the input signal.
pub enum Standard {
    NTSC,
    PAL,
}

impl Standard {
    /// The field value written into the video mode register.
    pub fn value(&self) -> (v: u8)
        ensures
            v == match *self {
                Standard::NTSC => 0u8,
                Standard::PAL => 1u8,
            },
    {
        match self {
            Standard::NTSC => 0,
            Standard::PAL => 1,
        }
    }
}

/// Width of one display-memory operation.
pub enum OperationMode {
    Mode16Bit,
    Mode8Bit,
}

impl OperationMode {
    /// The field value written into the display memory mode register.
    pub fn value(&self) -> (v: u8)
        ensures
            v == match *self {
                OperationMode::Mode16Bit => 0u8,
                OperationMode::Mode8Bit => 1u8,
            },
    {
        match self {
            OperationMode::Mode16Bit => 0,
            OperationMode::Mode8Bit => 1,
        }
    }
}

/// One two-bit pixel of glyph memory.
pub enum Pixel {
    Black,
    Transparent,
    White,
}

impl Pixel {
    /// The two-bit pixel value as stored in glyph memory.
    pub fn value(&self) -> (v: u8)
        ensures
            v == match *self {
                Pixel::Black => 0u8,
                Pixel::Transparent => 1u8,
                Pixel::White => 2u8,
            },
    {
        match self {
            Pixel::Black => 0,
            Pixel::Transparent => 1,
            Pixel::White => 2,
        }
    }
}

/// The busy flag of the glyph memory, as read from the status register.
pub enum CharacterMemoryStatus {
    Available,
    Unavailable,
}

impl CharacterMemoryStatus {
    /// The one-bit status field value.
    pub fn value(&self) -> (v: u8)
        ensures
            v == match *self {
                CharacterMemoryStatus::Available => 0u8,
                CharacterMemoryStatus::Unavailable => 1u8,
            },
    {
        match self {
            CharacterMemoryStatus::Available => 0,
            CharacterMemoryStatus::Unavailable => 1,
        }
    }
}

/// Commands of the glyph memory mode register.
pub enum CharacterMemoryMode {
    WriteToNVM,
    ReadFromNVM,
}

impl CharacterMemoryMode {
    /// The command byte written into the glyph memory mode register.
    pub fn value(&self) -> (v: u8)
        ensures
            v == match *self {
                CharacterMemoryMode::WriteToNVM => 0xA0u8,
                CharacterMemoryMode::ReadFromNVM => 0x50u8,
            },
    {
        match self {
            CharacterMemoryMode::WriteToNVM => 0xA0,
            CharacterMemoryMode::ReadFromNVM => 0x50,
        }
    }
}

/// The mask of a register field `width` bits wide.
pub open spec fn spec_field_mask(width: u8) -> u16 {
    ((1u16 << (width as u16)) - 1) as u16
}

/// The value of the field of `value` that is `width` bits wide with its
/// least significant bit at `lsb`.
pub open spec fn spec_get_field(value: u8, lsb: u8, width: u8) -> u8 {
    (((value as u16) >> (lsb as u16)) & spec_field_mask(width)) as u8
}

/// `value` with the field `width` bits wide at `lsb` replaced by `field`
/// (masked to the field's width).
pub open spec fn spec_set_field(value: u8, lsb: u8, width: u8, field: u8) -> u8 {
    ((((value as u16) & !(spec_field_mask(width) << (lsb as u16))) | (((field as u16)
        & spec_field_mask(width)) << (lsb as u16))) as u8)
}

/// Read one bitfield out of a register value.
pub fn get_field(value: u8, lsb: u8, width: u8) -> (r: u8)
    requires
        lsb < 8,
        0 < width,
        lsb + width <= 8,
    ensures
        r == spec_get_field(value, lsb, width),
{
    let pow: u16 = 1u16 << (width as u16);
    proof {
        assert(pow >= 1) by (bit_vector)
            requires
                pow == 1u16 << (width as u16) && width <= 8u8,
        ;
    }
    let mask: u16 = pow - 1;
    let shifted: u16 = (value as u16) >> (lsb as u16);
    let r16: u16 = shifted & mask;
    proof {
        assert(shifted & mask <= mask) by (bit_vector);
        assert(mask <= 255) by (bit_vector)
            requires
                mask == (1u16 << (width as u16)) - 1 && width <= 8u8,
        ;
    }
    r16 as u8
}

/// Write one bitfield into a register value, leaving the other bits as
/// they were.
pub fn set_field(value: u8, lsb: u8, width: u8, field: u8) -> (r: u8)
    requires
        lsb < 8,
        0 < width,
        lsb + width <= 8,
    ensures
        r == spec_set_field(value, lsb, width, field),
{
    let pow: u16 = 1u16 << (width as u16);
    proof {
        assert(pow >= 1) by (bit_vector)
            requires
                pow == 1u16 << (width as u16) && width <= 8u8,
        ;
    }
    let mask: u16 = pow - 1;
    let cleared: u16 = (value as u16) & !(mask << (lsb as u16));
    let inserted: u16 = cleared | (((field as u16) & mask) << (lsb as u16));
    proof {
        assert(inserted <= 255) by (bit_vector)
            requires
                inserted == (((value as u16) & !(mask << (lsb as u16))) | (((field as u16) & mask)
                    << (lsb as u16))) && mask == (1u16 << (width as u16)) - 1 && lsb < 8u8 && 0u8
                    < width && (lsb as u16) + (width as u16) <= 8,
        ;
    }
    inserted as u8
}

/// Reading a field back after writing it yields the written value, masked
/// to the field's width.
pub proof fn lemma_field_set_get(value: u8, lsb: u8, width: u8, field: u8)
    by (bit_vector)
    requires
        lsb < 8,
        0 < width,
        (lsb as u16) + (width as u16) <= 8,
    ensures
        spec_get_field(spec_set_field(value, lsb, width, field), lsb, width) == ((field as u16)
            & spec_field_mask(width)) as u8,
{
}

/// Writing one field leaves every bit outside it unchanged.
pub proof fn lemma_field_set_frame(value: u8, lsb: u8, width: u8, field: u8, i: u8)
    by (bit_vector)
    requires
        lsb < 8,
        0 < width,
        (lsb as u16) + (width as u16) <= 8,
        i < 8,
        i < lsb || lsb + width <= i,
    ensures
        (spec_set_field(value, lsb, width, field) >> i) & 1 == (value >> i) & 1,
{
}

/// Bitfields of the video mode register.
pub enum VideoMode0 {
    Standard,
    SyncMode,
    EnableDisplay,
    VerticalSync,
    SoftwareReset,
    VideoBufferEnable,
}

impl VideoMode0 {
    /// Position of the field's least significant bit.
    pub fn lsb(&self) -> (r: u8)
        ensures
            r == match *self {
                VideoMode0::Standard => 6u8,
                VideoMode0::SyncMode => 4u8,
                VideoMode0::EnableDisplay => 3u8,
                VideoMode0::VerticalSync => 2u8,
                VideoMode0::SoftwareReset => 1u8,
                VideoMode0::VideoBufferEnable => 0u8,
            },
    {
        match self {
            VideoMode0::Standard => 6,
            VideoMode0::SyncMode => 4,
            VideoMode0::EnableDisplay => 3,
            VideoMode0::VerticalSync => 2,
            VideoMode0::SoftwareReset => 1,
            VideoMode0::VideoBufferEnable => 0,
        }
    }

    /// Width of the field in bits.
    pub fn width(&self) -> (r: u8)
        ensures
            r == match *self {
                VideoMode0::SyncMode => 2u8,
                _ => 1u8,
            },
    {
        match self {
            VideoMode0::SyncMode => 2,
            _ => 1,
        }
    }
}

/// Bitfields of the display memory mode register.
pub enum DisplayMemoryMode {
    OperationMode,
    LocalBackgroundControl,
    Blink,
    Invert,
    Clear,
    VerticalSyncClear,
    AutoIncrement,
}

impl DisplayMemoryMode {
    /// Position of the field's least significant bit.
    pub fn lsb(&self) -> (r: u8)
        ensures
            r == match *self {
                DisplayMemoryMode::OperationMode => 6u8,
                DisplayMemoryMode::LocalBackgroundControl => 5u8,
                DisplayMemoryMode::Blink => 4u8,
                DisplayMemoryMode::Invert => 3u8,
                DisplayMemoryMode::Clear => 2u8,
                DisplayMemoryMode::VerticalSyncClear => 1u8,
                DisplayMemoryMode::AutoIncrement => 0u8,
            },
    {
        match self {
            DisplayMemoryMode::OperationMode => 6,
            DisplayMemoryMode::LocalBackgroundControl => 5,
            DisplayMemoryMode::Blink => 4,
            DisplayMemoryMode::Invert => 3,
            DisplayMemoryMode::Clear => 2,
            DisplayMemoryMode::VerticalSyncClear => 1,
            DisplayMemoryMode::AutoIncrement => 0,
        }
    }

    /// Width of the field in bits.
    pub fn width(&self) -> (r: u8)
        ensures
            r == 1u8,
    {
        1
    }
}

/// Bitfields of the status register.
pub enum Status {
    ResetMode,
    CharacterMemoryStatus,
    VSyncOutputLevel,
    HSyncOutputLevel,
    LossOfSync,
    NTSCSignal,
    PALSignal,
}

impl Status {
    /// Position of the field's least significant bit.
    pub fn lsb(&self) -> (r: u8)
        ensures
            r == match *self {
                Status::ResetMode => 6u8,
                Status::CharacterMemoryStatus => 5u8,
                Status::VSyncOutputLevel => 4u8,
                Status::HSyncOutputLevel => 3u8,
                Status::LossOfSync => 2u8,
                Status::NTSCSignal => 1u8,
                Status::PALSignal => 0u8,
            },
    {
        match self {
            Status::ResetMode => 6,
            Status::CharacterMemoryStatus => 5,
            Status::VSyncOutputLevel => 4,
            Status::HSyncOutputLevel => 3,
            Status::LossOfSync => 2,
            Status::NTSCSignal => 1,
            Status::PALSignal => 0,
        }
    }

    /// Width of the field in bits.
    pub fn width(&self) -> (r: u8)
        ensures
            r == 1u8,
    {
        1
    }
}

} // verus!
