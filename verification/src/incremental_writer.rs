//! Append-only incremental writer: a flat run of bytes is written
//! left-to-right from a starting cell, using the device's auto-increment
//! mode, so only one address header is sent per chunk.  The data stream is
//! closed by a sentinel data byte `0xFF`; a chunk whose last real data byte
//! would itself be `0xFF` is ambiguous and is refused rather than emitted.

use vstd::prelude::*;

use crate::Attributes;

verus! {

/// How many data pairs fit in a buffer of `cap` bytes: the six header
/// bytes and the two terminator bytes are reserved.
pub open spec fn inc_pair_capacity(cap: int) -> int {
    (cap - 8) / 2
}

/// How many bytes one call takes from the remaining data.
pub open spec fn inc_take(remain: int, cap: int) -> int {
    if remain <= inc_pair_capacity(cap) {
        remain
    } else {
        inc_pair_capacity(cap)
    }
}

/// The data pairs of a chunk: bytes `index .. index + k`, each prefixed
/// by the display-memory-data-in register.
pub open spec fn inc_data_pairs(bytes: Seq<u8>, index: int, k: int) -> Seq<u8>
    decreases k,
{
    if k <= 0 {
        seq![]
    } else {
        inc_data_pairs(bytes, index, k - 1) + seq![7u8, bytes[index + k - 1]]
    }
}

/// The whole chunk of one incremental call: mode pair with auto-increment
/// on, one high- and one low-address pair, the data pairs, and the
/// sentinel terminator pair.
pub open spec fn inc_chunk(bytes: Seq<u8>, index: int, address: int, mode: u8, cap: int) -> Seq<
    u8,
> {
    let k = inc_take(bytes.len() - index, cap);
    seq![4u8, mode, 5u8, (address / 256) as u8, 6u8, (address % 256) as u8] + inc_data_pairs(
        bytes,
        index,
        k,
    ) + seq![7u8, 255u8]
}

/// Whether this call's chunk would be ambiguous: its last real data byte
/// equals the sentinel.
pub open spec fn inc_collision(bytes: Seq<u8>, index: int, cap: int) -> bool {
    let k = inc_take(bytes.len() - index, cap);
    k > 0 && bytes[index + k - 1] == 255
}

/// Writes a flat byte run from a given cell onward, resumably: the data
/// index and device address persist between calls.
pub struct IncrementalWriter<'a> {
    bytes: &'a [u8],
    address: u16,
    attributes: Attributes,
    index: usize,
}

impl<'a> IncrementalWriter<'a> {
    /// The data this writer transmits.
    pub closed spec fn data(&self) -> Seq<u8> {
        self.bytes@
    }

    /// How many leading data bytes earlier calls have consumed.
    pub closed spec fn taken(&self) -> int {
        self.index as int
    }

    /// The display-memory address the next chunk starts at.
    pub closed spec fn cursor(&self) -> int {
        self.address as int
    }

    /// The mode byte of every chunk this writer emits: the attributes with
    /// auto-increment on.
    pub closed spec fn mode(&self) -> u8 {
        self.attributes.spec_mode_byte(true)
    }

    pub closed spec fn wf(&self) -> bool {
        self.index <= self.bytes@.len() && self.address + (self.bytes@.len() - self.index)
            <= u16::MAX
    }

    /// A writer that sends `bytes` starting at cell `(row, column)`.
    pub fn new(bytes: &'a [u8], row: u8, column: u8, attributes: Attributes) -> (w: Self)
        requires
            row as int * 30 + column as int + bytes@.len() <= u16::MAX as int,
        ensures
            w.wf(),
            w.data() == bytes@,
            w.taken() == 0,
            w.cursor() == row as int * 30 + column as int,
            w.mode() == attributes.spec_mode_byte(true),
    {
        Self {
            bytes,
            address: crate::registers::display_memory_address(row, column),
            attributes,
            index: 0,
        }
    }

    /// How many data bytes are still to be written.
    pub fn remain(&self) -> (r: usize)
        requires
            self.wf(),
        ensures
            r == self.data().len() - self.taken(),
    {
        self.bytes.len() - self.index
    }

    /// Encode the next chunk into `buffer`.  On success the returned
    /// length covers the header, `inc_take` data pairs and the sentinel
    /// terminator, and the writer advances by the data pairs emitted; when
    /// the last data byte of the would-be chunk equals the sentinel, no
    /// result is produced and the writer is left unchanged.
    #[verifier::loop_isolation(false)]
    pub fn write(&mut self, buffer: &mut Vec<u8>) -> (r: Option<usize>)
        requires
            old(self).wf(),
            old(buffer).len() >= 10,
            old(buffer).len() % 2 == 0,
        ensures
            final(self).wf(),
            final(buffer).len() == old(buffer).len(),
            final(self).data() == old(self).data(),
            final(self).mode() == old(self).mode(),
            r is None <==> inc_collision(
                old(self).data(),
                old(self).taken(),
                old(buffer).len() as int,
            ),
            r is None ==> *final(self) == *old(self),
            ({
                let k = inc_take(
                    old(self).data().len() - old(self).taken(),
                    old(buffer).len() as int,
                );
                r matches Some(len) ==> {
                    &&& len as int == 8 + 2 * k
                    &&& final(buffer)@.subrange(0, len as int) == inc_chunk(
                        old(self).data(),
                        old(self).taken(),
                        old(self).cursor(),
                        old(self).mode(),
                        old(buffer).len() as int,
                    )
                    &&& final(self).taken() == old(self).taken() + k
                    &&& final(self).cursor() == old(self).cursor() + k
                }
            }),
    {
        let ghost bs = self.bytes@;
        let ghost i0 = self.index as int;
        let ghost cap = buffer.len() as int;
        let mode = self.attributes.mode_byte(true);
        buffer[0] = 4;
        buffer[1] = mode;
        buffer[2] = 5;
        buffer[3] = (self.address / 256) as u8;
        buffer[4] = 6;
        buffer[5] = (self.address % 256) as u8;
        let ghost header = seq![
            4u8,
            mode,
            5u8,
            (self.address as int / 256) as u8,
            6u8,
            (self.address as int % 256) as u8,
        ];
        proof {
            assert(buffer@.subrange(0, 6) =~= header);
        }
        let kmax = (buffer.len() - 8) / 2;
        let remain = self.bytes.len() - self.index;
        let k = if remain <= kmax {
            remain
        } else {
            kmax
        };
        assert(k as int == inc_take(bs.len() - i0, cap));
        assert(k <= bs.len() - i0);
        assert(8 + 2 * k <= buffer.len());
        let mut j: usize = 0;
        let mut collision = false;
        while j < k
            invariant
                j <= k,
                buffer.len() == old(buffer).len(),
                buffer@.subrange(0, 6 + 2 * (j as int)) == header + inc_data_pairs(bs, i0, j as int),
                collision <==> (j > 0 && bs[i0 + j - 1] == 255),
            decreases k - j,
        {
            let ghost pre = buffer@;
            let byte = self.bytes[self.index + j];
            buffer[6 + 2 * j] = 7;
            buffer[6 + 2 * j + 1] = byte;
            collision = byte == 255;
            j = j + 1;
            proof {
                assert(buffer@.subrange(0, 6 + 2 * (j as int)) =~= pre.subrange(
                    0,
                    6 + 2 * (j as int) - 2,
                ) + seq![7u8, bs[i0 + j - 1]]);
            }
        }
        if collision {
            return None;
        }
        let ghost pre = buffer@;
        buffer[6 + 2 * k] = 7;
        buffer[6 + 2 * k + 1] = 255;
        proof {
            assert(buffer@.subrange(0, 8 + 2 * (k as int)) =~= pre.subrange(0, 6 + 2 * (k as int))
                + seq![7u8, 255u8]);
        }
        self.index = self.index + k;
        proof {
            assert(k <= u16::MAX);
        }
        self.address = self.address + (k as u16);
        Some(8 + 2 * k)
    }
}

} // verus!
