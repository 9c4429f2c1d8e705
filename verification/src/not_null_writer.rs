//! Sparse full-frame writer: walks the whole screen from the persisted
//! cursor and emits every non-zero cell, for full-frame sparse redraws.

use vstd::prelude::*;

use crate::encoder::{
    chunk_truncated, revert_scratch, revert_transaction, screen_chunk, screen_wf, write_screen,
    MAX_ADDRESS,
};
use crate::Attributes;

verus! {

/// Encodes the non-zero cells of a screen chunk by chunk; the cursor
/// persists between calls so one redraw can span several output buffers.
pub struct NotNullWriter<'a> {
    screen: &'a [Vec<u8>],
    attributes: Attributes,
    address: u16,
}

impl<'a> NotNullWriter<'a> {
    /// The screen this writer reads.
    pub closed spec fn grid(&self) -> Seq<Seq<u8>> {
        self.screen.deep_view()
    }

    /// The linear address the next call resumes at.
    pub closed spec fn cursor(&self) -> int {
        self.address as int
    }

    /// The mode byte of every chunk this writer emits: the attributes with
    /// auto-increment off.
    pub closed spec fn mode(&self) -> u8 {
        self.attributes.spec_mode_byte(false)
    }

    pub closed spec fn wf(&self) -> bool {
        screen_wf(self.grid()) && self.address <= MAX_ADDRESS
    }

    /// A writer over `screen` with its cursor at address 0.
    pub fn new(screen: &'a [Vec<u8>], attributes: Attributes) -> (w: Self)
        requires
            screen_wf(screen.deep_view()),
        ensures
            w.wf(),
            w.grid() == screen.deep_view(),
            w.cursor() == 0,
            w.mode() == attributes.spec_mode_byte(false),
    {
        Self { screen, attributes, address: 0 }
    }

    /// Encode the next chunk of non-zero cells into `buffer`, exactly as
    /// `screen_chunk` states it, and advance the cursor; returns the
    /// number of bytes of the chunk, 0 once nothing remains to encode.
    pub fn write(&mut self, buffer: &mut Vec<u8>) -> (len: usize)
        requires
            old(self).wf(),
            old(buffer).len() >= 8,
        ensures
            final(self).wf(),
            final(self).grid() == old(self).grid(),
            final(self).mode() == old(self).mode(),
            final(buffer).len() == old(buffer).len(),
            old(self).cursor() <= final(self).cursor(),
            ({
                let r = screen_chunk(
                    old(self).grid(),
                    old(self).cursor(),
                    old(self).mode(),
                    old(buffer).len() as int,
                );
                &&& len == r.0.len()
                &&& final(self).cursor() == r.1
                &&& final(buffer)@.subrange(0, len as int) == r.0
                &&& (!chunk_truncated(old(self).grid(), old(self).cursor(), old(buffer).len() as int)
                    && 0 < len < old(buffer).len()) ==> final(buffer)@[len as int] == 0
            }),
    {
        let mode = self.attributes.mode_byte(false);
        let mut a = self.address;
        let len = write_screen(self.screen, &mut a, mode, buffer);
        self.address = a;
        len
    }
}

/// Rebuild, in place, the erase transaction of a previously emitted
/// buffer; identical to the lines writer's revert.
pub fn revert(buffer: &mut Vec<u8>) -> (len: usize)
    requires
        old(buffer).len() >= 1,
    ensures
        final(buffer).len() == old(buffer).len(),
        final(buffer)@ == revert_scratch(old(buffer)@),
        len as int == revert_transaction(old(buffer)@).len(),
        final(buffer)@.subrange(0, len as int) == revert_transaction(old(buffer)@),
        len <= final(buffer).len(),
{
    crate::lines_writer::revert(buffer)
}

} // verus!
