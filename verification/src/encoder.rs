//! Shared core of the display-memory transaction encoders.
//!
//! A screen is a grid of byte cells, at most 16 rows of at most 30 active
//! columns; cell value 0 means "no glyph here" and is never transmitted.
//! Display-memory addresses are linear, row-major, and split by the device
//! into a one-bit page (address 256 boundary) and a 7-bit offset.  An encoder
//! call turns the visible cells from a cursor onward into one chunk of
//! `(register, value)` byte pairs that fits a caller-supplied buffer:
//!
//! ```text
//! [04 mode] [05 page] ([06 low] [07 cell])* ([05 1] ([06 low] [07 cell])*)?
//! ```
//!
//! The spec functions in this module are the mathematical model of that
//! format; the writer types in the neighbouring modules are proved against
//! them.

use vstd::prelude::*;

verus! {

/// Largest linear display-memory address plus one: 16 rows of 30 columns.
pub const MAX_ADDRESS: u16 = 480;

/// Number of leading cells of each row that are active: the width of the
/// first row, capped at the physical column count.
pub open spec fn active_width(screen: Seq<Seq<u8>>) -> int {
    if screen[0].len() <= 30 {
        screen[0].len() as int
    } else {
        30
    }
}

/// One past the largest linear address the screen supplies.
pub open spec fn address_limit(screen: Seq<Seq<u8>>) -> int {
    (screen.len() - 1) * 30 + active_width(screen)
}

/// A well-formed screen: between 1 and 16 rows, each row at least as wide
/// as the active width.
pub open spec fn screen_wf(screen: Seq<Seq<u8>>) -> bool {
    &&& 0 < screen.len() <= 16
    &&& forall|i: int| 0 <= i < screen.len() ==> #[trigger] screen[i].len() >= active_width(screen)
}

/// The cell stored at linear address `a`.
pub open spec fn cell_value(screen: Seq<Seq<u8>>, a: int) -> u8 {
    screen[a / 30][a % 30]
}

/// Whether the cell at linear address `a` is emitted: it lies within the
/// active width and holds a non-zero glyph.
pub open spec fn cell_visible(screen: Seq<Seq<u8>>, a: int) -> bool {
    a % 30 < active_width(screen) && cell_value(screen, a) != 0
}

/// The visible cells with addresses in `[a, b)`, in address order.
pub open spec fn cells_between(screen: Seq<Seq<u8>>, a: int, b: int) -> Seq<(int, u8)>
    decreases b - a,
{
    if a >= b {
        seq![]
    } else if cell_visible(screen, a) {
        seq![(a, cell_value(screen, a))] + cells_between(screen, a + 1, b)
    } else {
        cells_between(screen, a + 1, b)
    }
}

/// One data run of a chunk, and the cursor after it.  Starting at address
/// `a` with `off` bytes of the data area already filled, each visible cell
/// below `limit` becomes the four bytes `[06 low] [07 cell]`; the run stops
/// early right after the quad that leaves fewer than 8 spare bytes in the
/// data area of size `room` (room is reserved for the chunk terminator).
pub open spec fn dump_seq(screen: Seq<Seq<u8>>, a: int, limit: int, room: int, off: int) -> (Seq<
    u8,
>, int)
    decreases limit - a,
{
    if a >= limit {
        (seq![], a)
    } else if !cell_visible(screen, a) {
        dump_seq(screen, a + 1, limit, room, off)
    } else {
        let quad = seq![6u8, (a % 256) as u8, 7u8, cell_value(screen, a)];
        if off + 8 >= room {
            (quad, a + 1)
        } else {
            let rest = dump_seq(screen, a + 1, limit, room, off + 4);
            (quad + rest.0, rest.1)
        }
    }
}

/// The page-0 dump limit: addresses below 256, capped by the screen.
pub open spec fn page_zero_limit(screen: Seq<Seq<u8>>) -> int {
    if address_limit(screen) <= 256 {
        address_limit(screen)
    } else {
        256
    }
}

/// The whole chunk one encoder call starting at cursor `a0` emits into a
/// buffer of `cap` bytes, and the cursor after the call.  The chunk opens
/// with the mode pair; a page-0 header and data run come first while the
/// cursor is below 256; a page-1 header and run follow if room remains; a
/// chunk that carries no data at all is empty.
pub open spec fn screen_chunk(screen: Seq<Seq<u8>>, a0: int, mode: u8, cap: int) -> (Seq<u8>, int) {
    let head = seq![4u8, mode];
    if a0 < 256 {
        let r0 = dump_seq(screen, a0, page_zero_limit(screen), cap - 4, 0);
        let d0 = r0.0;
        if d0.len() > 0 && d0.len() + 10 > cap {
            // no room for a page-1 header and quad: the chunk is done
            (head + seq![5u8, 0u8] + d0, r0.1)
        } else {
            let off = if d0.len() > 0 {
                d0.len() as int + 4
            } else {
                2int
            };
            let r1 = dump_seq(screen, r0.1, address_limit(screen), cap - off - 2, 0);
            let d1 = r1.0;
            if d1.len() > 0 {
                (
                    (if d0.len() > 0 {
                        head + seq![5u8, 0u8] + d0
                    } else {
                        head
                    }) + seq![5u8, 1u8] + d1,
                    r1.1,
                )
            } else if d0.len() > 0 {
                (head + seq![5u8, 0u8] + d0, r1.1)
            } else {
                (seq![], r1.1)
            }
        }
    } else {
        let r1 = dump_seq(screen, a0, address_limit(screen), cap - 4, 0);
        let d1 = r1.0;
        if d1.len() > 0 {
            (head + seq![5u8, 1u8] + d1, r1.1)
        } else {
            (seq![], r1.1)
        }
    }
}

/// Whether the call was cut short by the buffer: the page-0 run filled the
/// buffer too far to fit a page-1 header, so the chunk was returned without
/// the trailing bookkeeping byte.
pub open spec fn chunk_truncated(screen: Seq<Seq<u8>>, a0: int, cap: int) -> bool {
    a0 < 256 && {
        let d0 = dump_seq(screen, a0, page_zero_limit(screen), cap - 4, 0).0;
        d0.len() > 0 && d0.len() + 10 > cap
    }
}

/// What the device writes when it consumes `pairs`, its page and low
/// address registers holding `page` and `low`: a mode pair changes no
/// cell, an address pair moves the registers, a data pair writes its value
/// at the selected cell `page * 256 + low`, and an unknown register stops
/// the device model.
pub open spec fn replay_writes(pairs: Seq<u8>, page: int, low: int) -> Seq<(int, u8)>
    decreases pairs.len(),
{
    if pairs.len() < 2 {
        seq![]
    } else {
        let reg = pairs[0];
        let val = pairs[1];
        let rest = pairs.skip(2);
        if reg == 4 {
            replay_writes(rest, page, low)
        } else if reg == 5 {
            replay_writes(rest, val as int, low)
        } else if reg == 6 {
            replay_writes(rest, page, val as int)
        } else if reg == 7 {
            seq![(page * 256 + low, val)] + replay_writes(rest, page, low)
        } else {
            seq![]
        }
    }
}

/// One step of the revert scan: pair `i` of `b` is rewritten in place.
/// A data pair keeps its register and loses its value; an address pair is
/// kept; a `0` register byte ends the transaction before pair `i`; any
/// other register byte makes the whole input malformed.  Returns the
/// reverted transaction and the buffer the scan leaves behind.
pub open spec fn revert_scan(b: Seq<u8>, i: int) -> (Seq<u8>, Seq<u8>)
    decreases b.len() / 2 - i,
{
    if i <= 0 {
        (seq![], b)
    } else if i >= b.len() / 2 {
        (b, b)
    } else if b[2 * i] == 7 {
        revert_scan(b.update(2 * i + 1, 0u8), i + 1)
    } else if b[2 * i] == 5 || b[2 * i] == 6 {
        revert_scan(b, i + 1)
    } else if b[2 * i] == 0 {
        (b.take(2 * i), b)
    } else {
        (seq![], b)
    }
}

/// The erase transaction reconstructed from a previously emitted buffer:
/// empty unless the buffer opens with the display-memory-mode register.
pub open spec fn revert_transaction(b: Seq<u8>) -> Seq<u8> {
    if b.len() == 0 || b[0] != 4 {
        seq![]
    } else {
        revert_scan(b, 1).0
    }
}

/// The buffer contents after the in-place revert scan.
pub open spec fn revert_scratch(b: Seq<u8>) -> Seq<u8> {
    if b.len() == 0 || b[0] != 4 {
        b
    } else {
        revert_scan(b, 1).1
    }
}

/// The cursor a data run leaves behind never moves backwards and never
/// passes the run's limit.
pub proof fn lemma_dump_seq_range(screen: Seq<Seq<u8>>, a: int, limit: int, room: int, off: int)
    ensures
        a <= dump_seq(screen, a, limit, room, off).1,
        dump_seq(screen, a, limit, room, off).1 <= if a >= limit {
            a
        } else {
            limit
        },
    decreases limit - a,
{
    if a >= limit {
    } else if !cell_visible(screen, a) {
        lemma_dump_seq_range(screen, a + 1, limit, room, off);
    } else if off + 8 >= room {
    } else {
        lemma_dump_seq_range(screen, a + 1, limit, room, off + 4);
    }
}

/// Emit the visible cells from `*address` up to `limit` (capped by the
/// screen) as `[06 low] [07 cell]` quads into `buffer[base..]`, stopping
/// early when the data area is nearly full; returns the number of bytes
/// written and advances the cursor.
#[verifier::loop_isolation(false)]
pub(crate) fn dump_cells(
    screen: &[Vec<u8>],
    address: &mut u16,
    limit: u16,
    buffer: &mut Vec<u8>,
    base: usize,
) -> (len: usize)
    requires
        screen_wf(screen.deep_view()),
        base + 4 <= old(buffer).len(),
    ensures
        ({
            let r = dump_seq(
                screen.deep_view(),
                *old(address) as int,
                if limit as int <= address_limit(screen.deep_view()) {
                    limit as int
                } else {
                    address_limit(screen.deep_view())
                },
                old(buffer).len() - base,
                0,
            );
            &&& len == r.0.len()
            &&& *final(address) as int == r.1
            &&& final(buffer)@.subrange(base as int, base + len) == r.0
        }),
        base + len <= old(buffer).len(),
        final(buffer).len() == old(buffer).len(),
        final(buffer)@.subrange(0, base as int) == old(buffer)@.subrange(0, base as int),
        final(buffer)@.subrange(base + len, final(buffer).len() as int) == old(buffer)@.subrange(
            base + len,
            old(buffer).len() as int,
        ),
        *old(address) <= *final(address),
{
    let ghost dv = screen.deep_view();
    let ghost room = old(buffer).len() - base;
    let max_column: usize = if screen[0].len() <= crate::COLUMN {
        screen[0].len()
    } else {
        crate::COLUMN
    };
    assert(max_column == active_width(dv));
    let total: u16 = ((screen.len() - 1) * crate::COLUMN + max_column) as u16;
    assert(total as int == address_limit(dv));
    let real_limit: u16 = if limit <= total {
        limit
    } else {
        total
    };
    let ghost rl = real_limit as int;
    let ghost a0 = *address as int;
    let mut offset: usize = 0;
    let mut full = false;
    while *address < real_limit && !full
        invariant
            *old(address) <= *address,
            base + offset <= buffer.len(),
            !full ==> base + offset + 4 <= buffer.len(),
            buffer.len() == old(buffer).len(),
            buffer@.subrange(0, base as int) == old(buffer)@.subrange(0, base as int),
            buffer@.subrange(base + offset, buffer.len() as int) == old(buffer)@.subrange(
                base + offset,
                old(buffer).len() as int,
            ),
            full ==> dump_seq(dv, a0, rl, room, 0).0 == buffer@.subrange(
                base as int,
                base + offset,
            ) && dump_seq(dv, a0, rl, room, 0).1 == *address as int,
            !full ==> dump_seq(dv, a0, rl, room, 0).0 == buffer@.subrange(
                base as int,
                base + offset,
            ) + dump_seq(dv, *address as int, rl, room, offset as int).0,
            !full ==> dump_seq(dv, a0, rl, room, 0).1 == dump_seq(
                dv,
                *address as int,
                rl,
                room,
                offset as int,
            ).1,
        decreases real_limit - *address,
    {
        let a = *address;
        let row: usize = (a as usize) / crate::COLUMN;
        let column: usize = (a as usize) % crate::COLUMN;
        assert(a as int == 30 * (a as int / 30) + a as int % 30);
        assert(a as int / 30 < dv.len());
        assert(dv[row as int] == screen@[row as int].deep_view());
        if column >= max_column {
            assert(!cell_visible(dv, a as int));
            *address = a + 1;
        } else {
            let byte = screen[row][column];
            assert(byte == cell_value(dv, a as int));
            if byte == 0 {
                assert(!cell_visible(dv, a as int));
                *address = a + 1;
            } else {
                assert(cell_visible(dv, a as int));
                let ghost pre = buffer@;
                let ghost off0 = offset as int;
                buffer[base + offset] = 6;
                buffer[base + offset + 1] = (a % 256) as u8;
                buffer[base + offset + 2] = 7;
                buffer[base + offset + 3] = byte;
                proof {
                    assert(buffer@.subrange(0, base as int) =~= pre.subrange(0, base as int));
                    assert(buffer@.subrange(base + off0 + 4, buffer.len() as int) =~= pre.subrange(
                        base + off0 + 4,
                        pre.len() as int,
                    ));
                    assert(buffer@.subrange(base as int, base + off0) =~= pre.subrange(
                        base as int,
                        base + off0,
                    ));
                    assert(buffer@.subrange(base as int, base + off0 + 4) =~= pre.subrange(
                        base as int,
                        base + off0,
                    ) + seq![6u8, (a as int % 256) as u8, 7u8, cell_value(dv, a as int)]);
                    assert forall|j: int| base + off0 + 4 <= j < buffer.len() implies buffer@[j]
                        == old(buffer)@[j] by {
                        assert(pre[j] == pre.subrange(base + off0, pre.len() as int)[j - base
                            - off0]);
                        assert(old(buffer)@[j] == old(buffer)@.subrange(
                            base + off0,
                            old(buffer).len() as int,
                        )[j - base - off0]);
                    };
                    assert(buffer@.subrange(base + off0 + 4, buffer.len() as int) =~= old(
                        buffer,
                    )@.subrange(base + off0 + 4, old(buffer).len() as int));
                }
                offset = offset + 4;
                *address = a + 1;
                if buffer.len() - base - offset <= 4 {
                    full = true;
                }
            }
        }
    }
    proof {
        if !full {
            assert(dump_seq(dv, *address as int, rl, room, offset as int).0 =~= Seq::<
                u8,
            >::empty());
            assert(buffer@.subrange(base as int, base + offset) + Seq::<u8>::empty()
                =~= buffer@.subrange(base as int, base + offset));
        }
    }
    offset
}

/// Encode one chunk of the screen from `*address` onward into `buffer`,
/// exactly as `screen_chunk` states it, and append the bookkeeping `0` byte
/// after the chunk when the buffer was not cut short.  Returns the number
/// of bytes of the chunk; 0 means no data remained to encode.
#[verifier::rlimit(100)]
pub(crate) fn write_screen(
    screen: &[Vec<u8>],
    address: &mut u16,
    mode: u8,
    buffer: &mut Vec<u8>,
) -> (len: usize)
    requires
        screen_wf(screen.deep_view()),
        old(buffer).len() >= 8,
        *old(address) <= MAX_ADDRESS,
    ensures
        ({
            let r = screen_chunk(
                screen.deep_view(),
                *old(address) as int,
                mode,
                old(buffer).len() as int,
            );
            &&& len == r.0.len()
            &&& *final(address) as int == r.1
            &&& final(buffer)@.subrange(0, len as int) == r.0
            &&& (!chunk_truncated(screen.deep_view(), *old(address) as int, old(buffer).len() as int)
                && 0 < len < old(buffer).len()) ==> final(buffer)@[len as int] == 0
        }),
        final(buffer).len() == old(buffer).len(),
        *old(address) <= *final(address) <= MAX_ADDRESS,
{
    let ghost dv = screen.deep_view();
    let ghost cap = buffer.len() as int;
    let ghost a0 = *address as int;
    proof {
        assert(address_limit(dv) <= 480);
    }
    buffer[0] = 4;
    buffer[1] = mode;
    let mut offset: usize = 2;
    let ghost mut d0: Seq<u8> = seq![];
    if *address < 0x100 {
        buffer[2] = 5;
        buffer[3] = 0;
        let ghost pre = buffer@;
        let length = dump_cells(screen, address, 0x100, buffer, 4);
        proof {
            d0 = dump_seq(dv, a0, page_zero_limit(dv), cap - 4, 0).0;
            lemma_dump_seq_range(dv, a0, page_zero_limit(dv), cap - 4, 0);
            assert(buffer@.subrange(0, 4) =~= pre.subrange(0, 4));
        }
        if length > 0 {
            offset += length + 2;
            if buffer.len() - offset < 6 {
                proof {
                    assert(buffer@.subrange(0, offset as int) =~= seq![4u8, mode, 5u8, 0u8] + d0);
                }
                return offset;
            }
        }
    }
    // a new high-address pair selects page 1 for the rest of the address space
    let ghost a1 = *address as int;
    let ghost chunk0 = buffer@.subrange(0, offset as int);
    let ghost pre1 = buffer@;
    buffer[offset] = 5;
    buffer[offset + 1] = 1;
    proof {
        assert(buffer@.subrange(0, offset as int) =~= pre1.subrange(0, offset as int));
    }
    let ghost pre2 = buffer@;
    let length1 = dump_cells(screen, address, MAX_ADDRESS, buffer, offset + 2);
    proof {
        lemma_dump_seq_range(dv, a1, address_limit(dv), cap - offset - 2, 0);
        assert(buffer@.subrange(0, offset as int) =~= pre2.subrange(0, offset + 2).subrange(
            0,
            offset as int,
        ));
        assert(pre2.subrange(0, offset + 2).subrange(0, offset as int) =~= pre2.subrange(
            0,
            offset as int,
        ));
        assert(buffer@.subrange(0, offset as int) == chunk0);
        assert(buffer@[offset as int] == 5u8 && buffer@[offset + 1] == 1u8) by {
            assert(buffer@.subrange(0, offset + 2)[offset as int] == pre2[offset as int]);
            assert(buffer@.subrange(0, offset + 2)[offset + 1] == pre2[offset + 1]);
        };
    }
    let ghost d1 = dump_seq(dv, a1, address_limit(dv), cap - offset - 2, 0).0;
    if length1 > 0 {
        proof {
            assert(buffer@.subrange(0, offset + 2 + length1) =~= chunk0 + seq![5u8, 1u8] + d1);
        }
        offset += length1 + 2;
    }
    let ghost chunk = buffer@.subrange(0, offset as int);
    if offset < buffer.len() {
        let ghost pre3 = buffer@;
        buffer[offset] = 0;
        proof {
            assert(buffer@.subrange(0, offset as int) =~= pre3.subrange(0, offset as int));
        }
    }
    proof {
        let r = screen_chunk(dv, a0, mode, cap);
        if offset > 2 {
            assert(chunk =~= r.0);
        } else {
            assert(r.0 =~= Seq::<u8>::empty());
        }
    }
    if offset > 2 {
        offset
    } else {
        0
    }
}

} // verus!
