//! Full-screen writer over a grid of lines: every non-zero cell of the
//! supplied lines is emitted, zero cells are skipped, and lines narrower
//! than the physical column count leave their padding columns untouched.

use vstd::prelude::*;

use crate::encoder::{
    chunk_truncated, revert_scan, revert_scratch, revert_transaction, screen_chunk, screen_wf,
    write_screen, MAX_ADDRESS,
};
use crate::Attributes;

verus! {

/// Encodes a whole grid of lines chunk by chunk; the cursor persists
/// between calls so one screen can span several output buffers.
pub struct LinesWriter<'a> {
    lines: &'a [Vec<u8>],
    attributes: Attributes,
    address: u16,
}

impl<'a> LinesWriter<'a> {
    /// The grid this writer reads.
    pub closed spec fn screen(&self) -> Seq<Seq<u8>> {
        self.lines.deep_view()
    }

    /// The linear address the next call resumes at.
    pub closed spec fn cursor(&self) -> int {
        self.address as int
    }

    /// The mode byte of every chunk this writer emits: the attributes with
    /// auto-increment off.
    pub closed spec fn mode(&self) -> u8 {
        self.attributes.spec_mode_byte(false)
    }

    pub closed spec fn wf(&self) -> bool {
        screen_wf(self.screen()) && self.address <= MAX_ADDRESS
    }

    /// A writer over `lines` with its cursor at address 0.
    pub fn new(lines: &'a [Vec<u8>], attributes: Attributes) -> (w: Self)
        requires
            screen_wf(lines.deep_view()),
        ensures
            w.wf(),
            w.screen() == lines.deep_view(),
            w.cursor() == 0,
            w.mode() == attributes.spec_mode_byte(false),
    {
        Self { lines, attributes, address: 0 }
    }

    /// Encode the next chunk of the grid into `buffer`, exactly as
    /// `screen_chunk` states it, and advance the cursor; returns the
    /// number of bytes of the chunk, 0 once nothing remains to encode.
    pub fn write(&mut self, buffer: &mut Vec<u8>) -> (len: usize)
        requires
            old(self).wf(),
            old(buffer).len() >= 8,
        ensures
            final(self).wf(),
            final(self).screen() == old(self).screen(),
            final(self).mode() == old(self).mode(),
            final(buffer).len() == old(buffer).len(),
            old(self).cursor() <= final(self).cursor(),
            ({
                let r = screen_chunk(
                    old(self).screen(),
                    old(self).cursor(),
                    old(self).mode(),
                    old(buffer).len() as int,
                );
                &&& len == r.0.len()
                &&& final(self).cursor() == r.1
                &&& final(buffer)@.subrange(0, len as int) == r.0
                &&& (!chunk_truncated(old(self).screen(), old(self).cursor(), old(buffer).len() as int)
                    && 0 < len < old(buffer).len()) ==> final(buffer)@[len as int] == 0
            }),
    {
        let mode = self.attributes.mode_byte(false);
        let mut a = self.address;
        let len = write_screen(self.lines, &mut a, mode, buffer);
        self.address = a;
        len
    }
}

/// Rebuild, in place, the erase transaction of a previously emitted buffer:
/// address pairs are kept, data pairs have their value forced to 0, a bare
/// `0` register byte truncates the transaction before its pair, and a
/// buffer that is malformed — not opening with the display-memory-mode
/// register, or holding an unrecognized register id — yields length 0.
/// Returns the length of the reverted transaction at the front of `buffer`.
pub fn revert(buffer: &mut Vec<u8>) -> (len: usize)
    requires
        old(buffer).len() >= 1,
    ensures
        final(buffer).len() == old(buffer).len(),
        final(buffer)@ == revert_scratch(old(buffer)@),
        len as int == revert_transaction(old(buffer)@).len(),
        final(buffer)@.subrange(0, len as int) == revert_transaction(old(buffer)@),
        len <= final(buffer).len(),
{
    if buffer[0] != 4 {
        return 0;
    }
    let half = buffer.len() / 2;
    let mut i: usize = 1;
    while i < half
        invariant
            1 <= i,
            i <= half || i == 1,
            half == buffer.len() / 2,
            buffer.len() == old(buffer).len(),
            old(buffer)@[0] == 4,
            revert_scan(old(buffer)@, 1) == revert_scan(buffer@, i as int),
        decreases half - i,
    {
        let reg = buffer[2 * i];
        if reg == 7 {
            buffer[2 * i + 1] = 0;
        } else if reg == 5 || reg == 6 {
        } else if reg == 0 {
            proof {
                assert(buffer@.subrange(0, 2 * i as int) =~= buffer@.take(2 * i as int));
            }
            return 2 * i;
        } else {
            return 0;
        }
        i = i + 1;
    }
    proof {
        assert(buffer@.subrange(0, buffer.len() as int) =~= buffer@);
    }
    buffer.len()
}

} // verus!
