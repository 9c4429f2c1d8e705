//! Driver core for the MAX7456 on-screen-display controller.
//!
//! The controller exposes a 480-cell character display memory addressed over a
//! register-oriented serial bus.  This crate holds the verified core of the
//! driver: the register model, the display-mode byte builder, and the
//! transaction encoders that turn logical screen contents into bounded-size
//! sequences of `(register, value)` byte pairs.

pub mod character_memory;
pub mod encoder;
pub mod font;
pub mod incremental_writer;
pub mod lines_writer;
pub mod not_null_writer;
pub mod proofs;
pub mod registers;

use vstd::prelude::*;

verus! {

/// Number of character rows of the display memory.
pub const ROW: usize = 16;

/// Number of character columns of one row.
pub const COLUMN: usize = 30;

/// Per-session display attributes, copied into the mode byte of every
/// emitted chunk.
pub struct Attributes {
    pub local_background_control: bool,
    pub blink: bool,
    pub revert: bool,
}

impl Attributes {
    /// The display-memory-mode control byte for these attributes:
    /// local background control at bit 5, blink at bit 4, invert at bit 3,
    /// auto-increment at bit 0.  The 16-bit operation mode contributes 0 at
    /// bit 6.
    pub open spec fn spec_mode_byte(&self, auto_increment: bool) -> u8 {
        ((if self.local_background_control { 32int } else { 0int })
            + (if self.blink { 16int } else { 0int })
            + (if self.revert { 8int } else { 0int })
            + (if auto_increment { 1int } else { 0int })) as u8
    }

    /// Assemble the display-memory-mode control byte.
    pub fn mode_byte(&self, auto_increment: bool) -> (b: u8)
        ensures
            b == self.spec_mode_byte(auto_increment),
    {
        let mut b: u8 = 0;
        if self.local_background_control {
            b = b + 32;
        }
        if self.blink {
            b = b + 16;
        }
        if self.revert {
            b = b + 8;
        }
        if auto_increment {
            b = b + 1;
        }
        b
    }
}

impl Default for Attributes {
    /// All attributes off.
    fn default() -> (a: Self)
        ensures
            !a.local_background_control,
            !a.blink,
            !a.revert,
    {
        Attributes { local_background_control: false, blink: false, revert: false }
    }
}

/// One encoded transaction: a borrowed run of `(register, value)` byte pairs
/// ready to be sent over the bus.
pub struct Display<'a>(pub &'a [u8]);

} // verus!
