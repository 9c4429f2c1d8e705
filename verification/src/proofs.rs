//! The encoder's guarantees, proved over the spec model: what a chunk's
//! data pairs write to the device, that nothing is lost or duplicated
//! across buffer boundaries, and what the revert transform erases.

use vstd::prelude::*;

use crate::encoder::{
    address_limit, cell_value, cell_visible, cells_between, dump_seq, page_zero_limit,
    replay_writes, revert_scan, revert_transaction, screen_chunk, screen_wf,
};

verus! {

/// Splitting an address interval splits its visible cells: the cells of
/// `[a, b)` are those of `[a, m)` followed by those of `[m, b)`.
pub proof fn lemma_cells_concat(screen: Seq<Seq<u8>>, a: int, m: int, b: int)
    requires
        a <= m <= b,
    ensures
        cells_between(screen, a, b) == cells_between(screen, a, m) + cells_between(screen, m, b),
    decreases m - a,
{
    if a == m {
        assert(cells_between(screen, a, m) =~= Seq::<(int, u8)>::empty());
        assert(cells_between(screen, a, m) + cells_between(screen, m, b) =~= cells_between(
            screen,
            m,
            b,
        ));
    } else {
        lemma_cells_concat(screen, a + 1, m, b);
        if cell_visible(screen, a) {
            assert(seq![(a, cell_value(screen, a))] + (cells_between(screen, a + 1, m)
                + cells_between(screen, m, b)) =~= (seq![(a, cell_value(screen, a))]
                + cells_between(screen, a + 1, m)) + cells_between(screen, m, b));
        }
    }
}

/// A data run that emitted nothing scanned its whole range.
pub proof fn lemma_dump_empty(screen: Seq<Seq<u8>>, a: int, limit: int, room: int, off: int)
    requires
        dump_seq(screen, a, limit, room, off).0.len() == 0,
        a < limit,
    ensures
        dump_seq(screen, a, limit, room, off).1 == limit,
    decreases limit - a,
{
    if !cell_visible(screen, a) {
        if a + 1 < limit {
            lemma_dump_empty(screen, a + 1, limit, room, off);
        } else {
            assert(dump_seq(screen, a + 1, limit, room, off).1 == a + 1);
        }
    }
}

/// A data run short enough not to trip the early stop scanned its whole
/// range.
pub proof fn lemma_dump_complete(screen: Seq<Seq<u8>>, a: int, limit: int, room: int, off: int)
    requires
        dump_seq(screen, a, limit, room, off).0.len() + off + 4 < room,
        a < limit,
    ensures
        dump_seq(screen, a, limit, room, off).1 == limit,
    decreases limit - a,
{
    if !cell_visible(screen, a) {
        if a + 1 < limit {
            lemma_dump_complete(screen, a + 1, limit, room, off);
        } else {
            assert(dump_seq(screen, a + 1, limit, room, off).1 == a + 1);
        }
    } else {
        if off + 8 >= room {
        } else {
            if a + 1 < limit {
                lemma_dump_complete(screen, a + 1, limit, room, off + 4);
            } else {
                assert(dump_seq(screen, a + 1, limit, room, off + 4).1 == a + 1);
            }
        }
    }
}

/// The four-byte quads of a run of cells.
pub open spec fn cell_quads(cells: Seq<(int, u8)>) -> Seq<u8>
    decreases cells.len(),
{
    if cells.len() == 0 {
        seq![]
    } else {
        seq![6u8, (cells[0].0 % 256) as u8, 7u8, cells[0].1] + cell_quads(cells.skip(1))
    }
}

/// A data run emits exactly the quads of the visible cells it scanned
/// past: the cells between its start and the cursor it stops at.
pub proof fn lemma_dump_quads(screen: Seq<Seq<u8>>, a: int, limit: int, room: int, off: int)
    ensures
        dump_seq(screen, a, limit, room, off).0 == cell_quads(
            cells_between(screen, a, dump_seq(screen, a, limit, room, off).1),
        ),
    decreases limit - a,
{
    let r = dump_seq(screen, a, limit, room, off);
    if a >= limit {
        assert(cells_between(screen, a, r.1) =~= Seq::<(int, u8)>::empty());
    } else if !cell_visible(screen, a) {
        lemma_dump_quads(screen, a + 1, limit, room, off);
        crate::encoder::lemma_dump_seq_range(screen, a + 1, limit, room, off);
    } else {
        let quad = seq![6u8, (a % 256) as u8, 7u8, cell_value(screen, a)];
        if off + 8 >= room {
            let single = seq![(a, cell_value(screen, a))];
            assert(cells_between(screen, a + 1, a + 1) =~= Seq::<(int, u8)>::empty());
            assert(single + Seq::<(int, u8)>::empty() =~= single);
            assert(cells_between(screen, a, a + 1) == single);
            assert(single.skip(1) =~= Seq::<(int, u8)>::empty());
            assert(cell_quads(Seq::<(int, u8)>::empty()) == Seq::<u8>::empty());
            assert(cell_quads(single) == quad + Seq::<u8>::empty());
            assert(quad + Seq::<u8>::empty() =~= quad);
        } else {
            lemma_dump_quads(screen, a + 1, limit, room, off + 4);
            crate::encoder::lemma_dump_seq_range(screen, a + 1, limit, room, off + 4);
            let rest = dump_seq(screen, a + 1, limit, room, off + 4);
            let cells = cells_between(screen, a, r.1);
            assert(cells == seq![(a, cell_value(screen, a))] + cells_between(screen, a + 1, r.1));
            assert(cells.len() > 0);
            assert(cells[0] == (a, cell_value(screen, a)));
            assert(cells.skip(1) =~= cells_between(screen, a + 1, r.1));
            assert(cell_quads(cells) == quad + cell_quads(cells_between(screen, a + 1, r.1)));
        }
    }
}

/// The quads of `k` cells are `4 * k` bytes long.
pub proof fn lemma_cell_quads_len(cells: Seq<(int, u8)>)
    ensures
        cell_quads(cells).len() == 4 * cells.len(),
    decreases cells.len(),
{
    if cells.len() > 0 {
        lemma_cell_quads_len(cells.skip(1));
    }
}

/// Replaying a data run followed by `rest` writes exactly the run's cells
/// and then whatever `rest` writes, provided the whole run lies on the
/// device's current page and `rest` writes the same cells whatever low
/// address it starts from.
pub proof fn lemma_dump_replay(
    screen: Seq<Seq<u8>>,
    a: int,
    limit: int,
    room: int,
    off: int,
    page: int,
    low: int,
    rest: Seq<u8>,
    tail: Seq<(int, u8)>,
)
    requires
        256 * page <= a,
        limit <= 256 * page + 256,
        forall|l: int| replay_writes(rest, page, l) == tail,
    ensures
        replay_writes(dump_seq(screen, a, limit, room, off).0 + rest, page, low) == cells_between(
            screen,
            a,
            dump_seq(screen, a, limit, room, off).1,
        ) + tail,
    decreases limit - a,
{
    let r = dump_seq(screen, a, limit, room, off);
    if a >= limit {
        assert(r.0 + rest =~= rest);
        assert(cells_between(screen, a, a) + tail =~= tail);
        assert(replay_writes(rest, page, low) == tail);
    } else if !cell_visible(screen, a) {
        lemma_dump_replay(screen, a + 1, limit, room, off, page, low, rest, tail);
        crate::encoder::lemma_dump_seq_range(screen, a + 1, limit, room, off);
    } else {
        let v = cell_value(screen, a);
        let quad = seq![6u8, (a % 256) as u8, 7u8, v];
        assert(a / 256 == page);
        assert(page * 256 + a % 256 == a);
        if off + 8 >= room {
            let b = quad + rest;
            assert(b[0] == 6u8 && b[1] == (a % 256) as u8);
            assert(b.len() >= 4);
            let b2 = seq![7u8, v] + rest;
            assert(b.skip(2) =~= b2);
            assert(b2[0] == 7u8 && b2[1] == v);
            assert(b2.skip(2) =~= rest);
            assert(replay_writes(b2, page, a % 256) == seq![(a, v)] + replay_writes(
                rest,
                page,
                a % 256,
            ));
            assert(replay_writes(b, page, low) == seq![(a, v)] + tail);
            assert(cells_between(screen, a + 1, a + 1) =~= Seq::<(int, u8)>::empty());
            assert(cells_between(screen, a, a + 1) =~= seq![(a, v)]);
            assert(cells_between(screen, a, a + 1) + tail =~= seq![(a, v)] + tail);
        } else {
            let r2 = dump_seq(screen, a + 1, limit, room, off + 4);
            lemma_dump_replay(screen, a + 1, limit, room, off + 4, page, a % 256, rest, tail);
            crate::encoder::lemma_dump_seq_range(screen, a + 1, limit, room, off + 4);
            let b = r.0 + rest;
            assert(b =~= quad + (r2.0 + rest));
            assert(b[0] == 6u8 && b[1] == (a % 256) as u8);
            assert(b.len() >= 4);
            let b2 = seq![7u8, v] + (r2.0 + rest);
            assert(b.skip(2) =~= b2);
            assert(b2[0] == 7u8 && b2[1] == v);
            assert(b2.skip(2) =~= r2.0 + rest);
            assert(replay_writes(b2, page, a % 256) == seq![(a, v)] + replay_writes(
                r2.0 + rest,
                page,
                a % 256,
            ));
            assert(replay_writes(b, page, low) == seq![(a, v)] + (cells_between(screen, a + 1, r2.1)
                + tail));
            assert(cells_between(screen, a, r.1) =~= seq![(a, v)] + cells_between(
                screen,
                a + 1,
                r.1,
            ));
            assert(seq![(a, v)] + (cells_between(screen, a + 1, r2.1) + tail) =~= (seq![(a, v)]
                + cells_between(screen, a + 1, r2.1)) + tail);
        }
    }
}

/// One device step: consuming a leading mode or address pair.
pub proof fn lemma_replay_step(x0: u8, x1: u8, y: Seq<u8>, page: int, low: int)
    ensures
        x0 == 4 ==> replay_writes(seq![x0, x1] + y, page, low) == replay_writes(y, page, low),
        x0 == 5 ==> replay_writes(seq![x0, x1] + y, page, low) == replay_writes(y, x1 as int, low),
        x0 == 6 ==> replay_writes(seq![x0, x1] + y, page, low) == replay_writes(y, page, x1 as int),
{
    let b = seq![x0, x1] + y;
    assert(b[0] == x0 && b[1] == x1);
    assert(b.skip(2) =~= y);
}

/// The chunk of one encoder call, consumed by the device from any register
/// state, writes exactly the visible cells between the old cursor and the
/// new one, in address order: no cell is lost, duplicated, or reordered,
/// whatever the buffer size.
pub proof fn lemma_chunk_replay(
    screen: Seq<Seq<u8>>,
    a0: int,
    mode: u8,
    cap: int,
    page: int,
    low: int,
)
    requires
        screen_wf(screen),
        0 <= a0,
    ensures
        ({
            let r = screen_chunk(screen, a0, mode, cap);
            replay_writes(r.0, page, low) == cells_between(screen, a0, r.1)
        }),
{
    let al = address_limit(screen);
    let pzl = page_zero_limit(screen);
    assert(al <= 480);
    let head = seq![4u8, mode];
    let r = screen_chunk(screen, a0, mode, cap);
    let empty_pairs = Seq::<u8>::empty();
    let empty_writes = Seq::<(int, u8)>::empty();
    assert(forall|l: int| replay_writes(empty_pairs, 0, l) == empty_writes);
    if a0 < 256 {
        let r0 = dump_seq(screen, a0, pzl, cap - 4, 0);
        let d0 = r0.0;
        let a1 = r0.1;
        crate::encoder::lemma_dump_seq_range(screen, a0, pzl, cap - 4, 0);
        lemma_dump_quads(screen, a0, pzl, cap - 4, 0);
        lemma_cell_quads_len(cells_between(screen, a0, a1));
        lemma_dump_replay(screen, a0, pzl, cap - 4, 0, 0, low, empty_pairs, empty_writes);
        assert(d0 + empty_pairs =~= d0);
        assert(cells_between(screen, a0, a1) + empty_writes =~= cells_between(screen, a0, a1));
        assert(replay_writes(d0, 0, low) == cells_between(screen, a0, a1));
        if d0.len() > 0 && d0.len() + 10 > cap {
            assert(r.0 =~= head + (seq![5u8, 0u8] + d0));
            lemma_replay_step(4u8, mode, seq![5u8, 0u8] + d0, page, low);
            lemma_replay_step(5u8, 0u8, d0, page, low);
        } else {
            let off = if d0.len() > 0 {
                d0.len() as int + 4
            } else {
                2int
            };
            let r1 = dump_seq(screen, a1, al, cap - off - 2, 0);
            let d1 = r1.0;
            let a2 = r1.1;
            crate::encoder::lemma_dump_seq_range(screen, a1, al, cap - off - 2, 0);
            lemma_dump_quads(screen, a1, al, cap - off - 2, 0);
            lemma_cell_quads_len(cells_between(screen, a1, a2));
            lemma_cells_concat(screen, a0, a1, a2);
            if d1.len() > 0 {
                // the page-0 run stopped exactly at the page boundary
                assert(a1 < al);
                if d0.len() > 0 {
                    assert(a0 < pzl);
                    lemma_dump_complete(screen, a0, pzl, cap - 4, 0);
                } else {
                    if a0 < pzl {
                        lemma_dump_empty(screen, a0, pzl, cap - 4, 0);
                    }
                }
                assert(a1 == pzl);
                assert(al > 256) by {
                    if al <= 256 {
                        assert(a1 == al);
                    }
                }
                assert(a1 == 256);
                let rest = seq![5u8, 1u8] + d1;
                assert forall|l: int| replay_writes(rest, 0, l) == cells_between(
                    screen,
                    a1,
                    a2,
                ) by {
                    lemma_replay_step(5u8, 1u8, d1, 0, l);
                    lemma_dump_replay(
                        screen,
                        a1,
                        al,
                        cap - off - 2,
                        0,
                        1,
                        l,
                        empty_pairs,
                        empty_writes,
                    );
                    assert(d1 + empty_pairs =~= d1);
                    assert(cells_between(screen, a1, a2) + empty_writes =~= cells_between(
                        screen,
                        a1,
                        a2,
                    ));
                }
                if d0.len() > 0 {
                    lemma_dump_replay(
                        screen,
                        a0,
                        pzl,
                        cap - 4,
                        0,
                        0,
                        low,
                        rest,
                        cells_between(screen, a1, a2),
                    );
                    assert(r.0 =~= head + (seq![5u8, 0u8] + (d0 + rest)));
                    lemma_replay_step(4u8, mode, seq![5u8, 0u8] + (d0 + rest), page, low);
                    lemma_replay_step(5u8, 0u8, d0 + rest, page, low);
                    assert(replay_writes(r.0, page, low) == cells_between(screen, a0, a1)
                        + cells_between(screen, a1, a2));
                } else {
                    assert(cells_between(screen, a0, a1) =~= empty_writes);
                    assert(r.0 =~= head + rest);
                    lemma_replay_step(4u8, mode, rest, page, low);
                    lemma_replay_step(5u8, 1u8, d1, page, low);
                    lemma_dump_replay(
                        screen,
                        a1,
                        al,
                        cap - off - 2,
                        0,
                        1,
                        low,
                        empty_pairs,
                        empty_writes,
                    );
                    assert(d1 + empty_pairs =~= d1);
                    assert(cells_between(screen, a1, a2) + empty_writes =~= cells_between(
                        screen,
                        a1,
                        a2,
                    ));
                    assert(replay_writes(r.0, page, low) == cells_between(screen, a1, a2));
                    assert(cells_between(screen, a0, a2) =~= cells_between(screen, a1, a2));
                }
            } else {
                assert(cells_between(screen, a1, a2) =~= empty_writes);
                assert(cells_between(screen, a0, a2) =~= cells_between(screen, a0, a1));
                if d0.len() > 0 {
                    assert(r.0 =~= head + (seq![5u8, 0u8] + d0));
                    lemma_replay_step(4u8, mode, seq![5u8, 0u8] + d0, page, low);
                    lemma_replay_step(5u8, 0u8, d0, page, low);
                } else {
                    assert(r.0.len() < 2);
                    assert(cells_between(screen, a0, a1) =~= empty_writes);
                }
            }
        }
    } else {
        let r1 = dump_seq(screen, a0, al, cap - 4, 0);
        let d1 = r1.0;
        let a2 = r1.1;
        crate::encoder::lemma_dump_seq_range(screen, a0, al, cap - 4, 0);
        lemma_dump_quads(screen, a0, al, cap - 4, 0);
        lemma_cell_quads_len(cells_between(screen, a0, a2));
        lemma_dump_replay(screen, a0, al, cap - 4, 0, 1, low, empty_pairs, empty_writes);
        assert(d1 + empty_pairs =~= d1);
        assert(cells_between(screen, a0, a2) + empty_writes =~= cells_between(screen, a0, a2));
        if d1.len() > 0 {
            assert(r.0 =~= head + (seq![5u8, 1u8] + d1));
            lemma_replay_step(4u8, mode, seq![5u8, 1u8] + d1, page, low);
            lemma_replay_step(5u8, 1u8, d1, page, low);
        } else {
            assert(r.0.len() < 2);
            assert(cells_between(screen, a0, a2) =~= empty_writes);
        }
    }
}

/// On a screen whose only visible cell is `addr`, the cells of `[a, b)`
/// are that one cell when the interval covers it, and nothing otherwise.
pub proof fn lemma_cells_single(screen: Seq<Seq<u8>>, a: int, b: int, addr: int, v: u8)
    requires
        cell_visible(screen, addr),
        cell_value(screen, addr) == v,
        forall|x: int| a <= x < b && x != addr ==> !cell_visible(screen, x),
    ensures
        cells_between(screen, a, b) == if a <= addr < b {
            seq![(addr, v)]
        } else {
            Seq::<(int, u8)>::empty()
        },
    decreases b - a,
{
    if a >= b {
        assert(cells_between(screen, a, b) =~= Seq::<(int, u8)>::empty());
    } else {
        lemma_cells_single(screen, a + 1, b, addr, v);
        if a == addr {
            assert(cells_between(screen, a, b) =~= seq![(addr, v)] + cells_between(
                screen,
                a + 1,
                b,
            ));
            assert(seq![(addr, v)] + Seq::<(int, u8)>::empty() =~= seq![(addr, v)]);
        }
    }
}

/// A screen with exactly one visible cell, encoded from cursor 0 into any
/// buffer of at least the minimum size, emits exactly one mode pair, one
/// high-address pair selecting the cell's page, one low-address pair with
/// the cell's page offset, and one data pair with the cell's value, in
/// that order.
pub proof fn lemma_single_cell_chunk(screen: Seq<Seq<u8>>, mode: u8, cap: int, addr: int, v: u8)
    requires
        screen_wf(screen),
        cap >= 8,
        0 <= addr < address_limit(screen),
        cell_visible(screen, addr),
        cell_value(screen, addr) == v,
        forall|x: int| 0 <= x < address_limit(screen) && x != addr ==> !cell_visible(screen, x),
    ensures
        screen_chunk(screen, 0, mode, cap).0 == seq![
            4u8,
            mode,
            5u8,
            (addr / 256) as u8,
            6u8,
            (addr % 256) as u8,
            7u8,
            v,
        ],
{
    let al = address_limit(screen);
    let pzl = page_zero_limit(screen);
    assert(al <= 480);
    let head = seq![4u8, mode];
    let quad = seq![6u8, (addr % 256) as u8, 7u8, v];
    let single = seq![(addr, v)];
    assert(cell_quads(single) == quad) by {
        assert(single.skip(1) =~= Seq::<(int, u8)>::empty());
        assert(cell_quads(Seq::<(int, u8)>::empty()) == Seq::<u8>::empty());
        assert(quad + Seq::<u8>::empty() =~= quad);
    }
    let r0 = dump_seq(screen, 0, pzl, cap - 4, 0);
    let d0 = r0.0;
    let a1 = r0.1;
    crate::encoder::lemma_dump_seq_range(screen, 0, pzl, cap - 4, 0);
    lemma_dump_quads(screen, 0, pzl, cap - 4, 0);
    lemma_cell_quads_len(cells_between(screen, 0, a1));
    lemma_cells_single(screen, 0, a1, addr, v);
    if addr < pzl {
        // the cell lies on page 0
        if a1 <= addr {
            assert(d0.len() == 0);
            lemma_dump_empty(screen, 0, pzl, cap - 4, 0);
            assert(false);
        }
        assert(cells_between(screen, 0, a1) == single);
        assert(d0 == quad);
        assert(addr / 256 == 0);
        if d0.len() + 10 > cap {
            assert(screen_chunk(screen, 0, mode, cap).0 =~= seq![
                4u8,
                mode,
                5u8,
                (addr / 256) as u8,
                6u8,
                (addr % 256) as u8,
                7u8,
                v,
            ]);
        } else {
            let r1 = dump_seq(screen, a1, al, cap - 10, 0);
            lemma_dump_quads(screen, a1, al, cap - 10, 0);
            lemma_cell_quads_len(cells_between(screen, a1, r1.1));
            crate::encoder::lemma_dump_seq_range(screen, a1, al, cap - 10, 0);
            lemma_cells_single(screen, a1, r1.1, addr, v);
            assert(cells_between(screen, a1, r1.1) =~= Seq::<(int, u8)>::empty());
            assert(r1.0.len() == 0);
            assert(screen_chunk(screen, 0, mode, cap).0 =~= seq![
                4u8,
                mode,
                5u8,
                (addr / 256) as u8,
                6u8,
                (addr % 256) as u8,
                7u8,
                v,
            ]);
        }
    } else {
        // the cell lies on page 1: the page-0 run finds nothing
        assert(pzl == 256 && addr >= 256) by {
            if al <= 256 {
                assert(pzl == al);
            }
        }
        assert(cells_between(screen, 0, a1) =~= Seq::<(int, u8)>::empty());
        assert(d0.len() == 0);
        lemma_dump_empty(screen, 0, pzl, cap - 4, 0);
        assert(a1 == 256);
        let r1 = dump_seq(screen, a1, al, cap - 4, 0);
        let d1 = r1.0;
        let a2 = r1.1;
        crate::encoder::lemma_dump_seq_range(screen, a1, al, cap - 4, 0);
        lemma_dump_quads(screen, a1, al, cap - 4, 0);
        lemma_cell_quads_len(cells_between(screen, a1, a2));
        lemma_cells_single(screen, a1, a2, addr, v);
        if a2 <= addr {
            assert(d1.len() == 0);
            lemma_dump_empty(screen, a1, al, cap - 4, 0);
            assert(false);
        }
        assert(cells_between(screen, a1, a2) == single);
        assert(d1 == quad);
        assert(addr / 256 == 1);
        assert(screen_chunk(screen, 0, mode, cap).0 =~= seq![
            4u8,
            mode,
            5u8,
            (addr / 256) as u8,
            6u8,
            (addr % 256) as u8,
            7u8,
            v,
        ]);
    }
}

/// The bytes of `b` with every data value zeroed: the value byte of each
/// pair whose register is display-memory-data-in.
pub open spec fn zero_data(b: Seq<u8>) -> Seq<u8> {
    Seq::new(
        b.len(),
        |j: int|
            if j % 2 == 1 && b[j - 1] == 7 {
                0u8
            } else {
                b[j]
            },
    )
}

/// A buffer the revert scan accepts whole: properly paired, opened by the
/// mode register, all later registers address or data registers.
pub open spec fn revertible_pairs(b: Seq<u8>) -> bool {
    &&& b.len() % 2 == 0
    &&& b.len() >= 2
    &&& b[0] == 4
    &&& forall|i: int|
        1 <= i < b.len() / 2 ==> ((#[trigger] b[2 * i]) == 5 || b[2 * i] == 6 || b[2 * i] == 7)
}

/// Pair registers the device model recognizes.
pub open spec fn known_pairs(b: Seq<u8>) -> bool {
    &&& b.len() % 2 == 0
    &&& forall|i: int|
        0 <= i < b.len() / 2 ==> ((#[trigger] b[2 * i]) == 4 || b[2 * i] == 5 || b[2 * i] == 6 || b[
            2 * i
        ] == 7)
}

/// `b` with the data values of its first `i` pairs zeroed.
pub open spec fn zero_data_below(b: Seq<u8>, i: int) -> Seq<u8> {
    Seq::new(
        b.len(),
        |j: int|
            if j % 2 == 1 && j < 2 * i && b[j - 1] == 7 {
                0u8
            } else {
                b[j]
            },
    )
}

/// The revert scan of a revertible buffer, resumed at pair `i` with the
/// earlier data values already zeroed, runs to the end and zeroes the rest.
pub proof fn lemma_scan_zero(b: Seq<u8>, i: int)
    requires
        revertible_pairs(b),
        1 <= i <= b.len() / 2,
    ensures
        revert_scan(zero_data_below(b, i), i) == (zero_data(b), zero_data(b)),
    decreases b.len() / 2 - i,
{
    let bi = zero_data_below(b, i);
    assert(bi.len() == b.len());
    if i == b.len() / 2 {
        assert(bi =~= zero_data(b));
    } else {
        assert(bi[2 * i] == b[2 * i]);
        if b[2 * i] == 7 {
            assert(bi.update(2 * i + 1, 0u8) =~= zero_data_below(b, i + 1));
            lemma_scan_zero(b, i + 1);
        } else {
            assert(bi =~= zero_data_below(b, i + 1));
            lemma_scan_zero(b, i + 1);
        }
    }
}

/// Reverting a revertible buffer zeroes exactly its data values: the whole
/// buffer is the transaction and no truncation or failure occurs.
pub proof fn lemma_revert_zeroes(b: Seq<u8>)
    requires
        revertible_pairs(b),
    ensures
        revert_transaction(b) == zero_data(b),
        crate::encoder::revert_scratch(b) == zero_data(b),
{
    assert(b =~= zero_data_below(b, 1));
    lemma_scan_zero(b, 1);
}

/// Cell quads carry only address-low and data registers at pair positions.
pub proof fn lemma_quads_regs(cells: Seq<(int, u8)>)
    ensures
        forall|i: int|
            0 <= i < cell_quads(cells).len() / 2 ==> ((#[trigger] cell_quads(cells)[2 * i]) == 6
                || cell_quads(cells)[2 * i] == 7),
    decreases cells.len(),
{
    lemma_cell_quads_len(cells);
    let q = cell_quads(cells);
    if cells.len() > 0 {
        lemma_quads_regs(cells.skip(1));
        lemma_cell_quads_len(cells.skip(1));
        let rest = cell_quads(cells.skip(1));
        assert forall|i: int| 0 <= i < q.len() / 2 implies ((#[trigger] q[2 * i]) == 6 || q[2 * i]
            == 7) by {
            if i >= 2 {
                assert(q[2 * i] == rest[2 * (i - 2)]);
            }
        }
    }
}

/// A non-empty chunk is revertible: properly paired, opened by the mode
/// register, everything after it address and data pairs.
pub proof fn lemma_chunk_revertible(screen: Seq<Seq<u8>>, a0: int, mode: u8, cap: int)
    requires
        screen_wf(screen),
        0 <= a0,
        screen_chunk(screen, a0, mode, cap).0.len() > 0,
    ensures
        revertible_pairs(screen_chunk(screen, a0, mode, cap).0),
{
    let al = address_limit(screen);
    let pzl = page_zero_limit(screen);
    let r = screen_chunk(screen, a0, mode, cap);
    let c = r.0;
    if a0 < 256 {
        let r0 = dump_seq(screen, a0, pzl, cap - 4, 0);
        let d0 = r0.0;
        let a1 = r0.1;
        lemma_dump_quads(screen, a0, pzl, cap - 4, 0);
        lemma_cell_quads_len(cells_between(screen, a0, a1));
        lemma_quads_regs(cells_between(screen, a0, a1));
        if d0.len() > 0 && d0.len() + 10 > cap {
            assert forall|i: int| 1 <= i < c.len() / 2 implies ((#[trigger] c[2 * i]) == 5 || c[2
                * i] == 6 || c[2 * i] == 7) by {
                if i >= 2 {
                    assert(c[2 * i] == d0[2 * i - 4]);
                    assert(d0[2 * (i - 2)] == 6 || d0[2 * (i - 2)] == 7);
                }
            }
        } else {
            let off = if d0.len() > 0 {
                d0.len() as int + 4
            } else {
                2int
            };
            let r1 = dump_seq(screen, a1, al, cap - off - 2, 0);
            let d1 = r1.0;
            lemma_dump_quads(screen, a1, al, cap - off - 2, 0);
            lemma_cell_quads_len(cells_between(screen, a1, r1.1));
            lemma_quads_regs(cells_between(screen, a1, r1.1));
            if d1.len() > 0 {
                if d0.len() > 0 {
                    let h0: int = 2 + (d0.len() as int) / 2;  // pair index of the page-1 header
                    assert forall|i: int| 1 <= i < c.len() / 2 implies ((#[trigger] c[2 * i]) == 5
                        || c[2 * i] == 6 || c[2 * i] == 7) by {
                        if 2 <= i < h0 {
                            assert(c[2 * i] == d0[2 * i - 4]);
                            assert(d0[2 * (i - 2)] == 6 || d0[2 * (i - 2)] == 7);
                        } else if i > h0 {
                            assert(c[2 * i] == d1[2 * i - (6 + d0.len())]);
                            assert(d1[2 * (i - h0 - 1)] == 6 || d1[2 * (i - h0 - 1)] == 7);
                        }
                    }
                } else {
                    assert forall|i: int| 1 <= i < c.len() / 2 implies ((#[trigger] c[2 * i]) == 5
                        || c[2 * i] == 6 || c[2 * i] == 7) by {
                        if i >= 2 {
                            assert(c[2 * i] == d1[2 * i - 4]);
                            assert(d1[2 * (i - 2)] == 6 || d1[2 * (i - 2)] == 7);
                        }
                    }
                }
            } else {
                assert(d0.len() > 0);
                assert forall|i: int| 1 <= i < c.len() / 2 implies ((#[trigger] c[2 * i]) == 5 || c[
                    2 * i] == 6 || c[2 * i] == 7) by {
                    if i >= 2 {
                        assert(c[2 * i] == d0[2 * i - 4]);
                        assert(d0[2 * (i - 2)] == 6 || d0[2 * (i - 2)] == 7);
                    }
                }
            }
        }
    } else {
        let r1 = dump_seq(screen, a0, al, cap - 4, 0);
        let d1 = r1.0;
        lemma_dump_quads(screen, a0, al, cap - 4, 0);
        lemma_cell_quads_len(cells_between(screen, a0, r1.1));
        lemma_quads_regs(cells_between(screen, a0, r1.1));
        assert(d1.len() > 0);
        assert forall|i: int| 1 <= i < c.len() / 2 implies ((#[trigger] c[2 * i]) == 5 || c[2 * i]
            == 6 || c[2 * i] == 7) by {
            if i >= 2 {
                assert(c[2 * i] == d1[2 * i - 4]);
                assert(d1[2 * (i - 2)] == 6 || d1[2 * (i - 2)] == 7);
            }
        }
    }
}

/// Zeroing the data values of a recognized pair run zeroes what it writes
/// and moves the device's registers just the same.
pub proof fn lemma_replay_zero_data(b: Seq<u8>, page: int, low: int)
    requires
        known_pairs(b),
    ensures
        replay_writes(zero_data(b), page, low) == Seq::new(
            replay_writes(b, page, low).len(),
            |i: int| ((replay_writes(b, page, low)[i]).0, 0u8),
        ),
    decreases b.len(),
{
    let z = zero_data(b);
    let w = replay_writes(b, page, low);
    if b.len() < 2 {
        assert(replay_writes(z, page, low) =~= Seq::new(w.len(), |i: int| ((w[i]).0, 0u8)));
    } else {
        assert(b[2 * 0int] == 4 || b[2 * 0int] == 5 || b[2 * 0int] == 6 || b[2 * 0int] == 7);
        assert(b[0] == 4 || b[0] == 5 || b[0] == 6 || b[0] == 7);
        assert(z[0] == b[0]);
        assert(z.skip(2) =~= zero_data(b.skip(2)));
        assert(known_pairs(b.skip(2))) by {
            assert(b.skip(2).len() % 2 == 0);
            assert forall|i: int|
                0 <= i < b.skip(2).len() / 2 implies ((#[trigger] b.skip(2)[2 * i]) == 4 || b.skip(
                2,
            )[2 * i] == 5 || b.skip(2)[2 * i] == 6 || b.skip(2)[2 * i] == 7) by {
                assert(b.skip(2)[2 * i] == b[2 * (i + 1)]);
            }
        }
        if b[0] == 7 {
            assert(z[1] == 0u8);
            lemma_replay_zero_data(b.skip(2), page, low);
            let wr = replay_writes(b.skip(2), page, low);
            assert(w == seq![(page * 256 + low, b[1])] + wr);
            assert(replay_writes(z, page, low) == seq![(page * 256 + low, 0u8)] + replay_writes(
                zero_data(b.skip(2)),
                page,
                low,
            ));
            assert(replay_writes(z, page, low) =~= Seq::new(w.len(), |i: int| ((w[i]).0, 0u8)));
        } else {
            assert(z[1] == b[1]);
            if b[0] == 4 {
                lemma_replay_zero_data(b.skip(2), page, low);
            } else if b[0] == 5 {
                lemma_replay_zero_data(b.skip(2), b[1] as int, low);
            } else {
                lemma_replay_zero_data(b.skip(2), page, b[1] as int);
            }
        }
    }
}

/// A revertible buffer's pairs are all recognized by the device model.
pub proof fn lemma_revertible_known(b: Seq<u8>)
    requires
        revertible_pairs(b),
    ensures
        known_pairs(b),
{
    assert forall|i: int|
        0 <= i < b.len() / 2 implies ((#[trigger] b[2 * i]) == 4 || b[2 * i] == 5 || b[2 * i] == 6
        || b[2 * i] == 7) by {
        if i == 0 {
            assert(b[0] == 4);
        }
    }
}

/// Reverting a chunk and replaying the result writes zero to exactly the
/// cells the chunk wrote, in the same order: a previous draw is erased
/// without retaining the prior screen contents.
pub proof fn lemma_revert_erases(
    screen: Seq<Seq<u8>>,
    a0: int,
    mode: u8,
    cap: int,
    page: int,
    low: int,
)
    requires
        screen_wf(screen),
        0 <= a0,
        screen_chunk(screen, a0, mode, cap).0.len() > 0,
    ensures
        ({
            let r = screen_chunk(screen, a0, mode, cap);
            let cells = cells_between(screen, a0, r.1);
            replay_writes(revert_transaction(r.0), page, low) == Seq::new(
                cells.len(),
                |i: int| ((cells[i]).0, 0u8),
            )
        }),
{
    let r = screen_chunk(screen, a0, mode, cap);
    let cells = cells_between(screen, a0, r.1);
    lemma_chunk_revertible(screen, a0, mode, cap);
    lemma_revert_zeroes(r.0);
    lemma_revertible_known(r.0);
    lemma_replay_zero_data(r.0, page, low);
    lemma_chunk_replay(screen, a0, mode, cap, page, low);
    assert(Seq::new(replay_writes(r.0, page, low).len(), |i: int| ((replay_writes(r.0, page, low)[i]).0, 0u8))
        =~= Seq::new(cells.len(), |i: int| ((cells[i]).0, 0u8)));
}

/// An encoder call never moves the cursor backwards.
pub proof fn lemma_chunk_cursor(screen: Seq<Seq<u8>>, a0: int, mode: u8, cap: int)
    ensures
        a0 <= screen_chunk(screen, a0, mode, cap).1,
{
    let al = address_limit(screen);
    let pzl = page_zero_limit(screen);
    if a0 < 256 {
        let r0 = dump_seq(screen, a0, pzl, cap - 4, 0);
        crate::encoder::lemma_dump_seq_range(screen, a0, pzl, cap - 4, 0);
        let d0 = r0.0;
        if d0.len() > 0 && d0.len() + 10 > cap {
        } else {
            let off = if d0.len() > 0 {
                d0.len() as int + 4
            } else {
                2int
            };
            crate::encoder::lemma_dump_seq_range(screen, r0.1, al, cap - off - 2, 0);
        }
    } else {
        crate::encoder::lemma_dump_seq_range(screen, a0, al, cap - 4, 0);
    }
}

/// Resumability: two consecutive encoder calls on the same screen write,
/// between them, exactly the visible cells from the first call's cursor to
/// the second call's final cursor — concatenating the chunks of a
/// multi-buffer encode loses nothing and repeats nothing, whatever the
/// buffer sizes.
pub proof fn lemma_chunks_resume(
    screen: Seq<Seq<u8>>,
    a0: int,
    mode: u8,
    cap1: int,
    cap2: int,
    page: int,
    low: int,
)
    requires
        screen_wf(screen),
        0 <= a0,
    ensures
        ({
            let r1 = screen_chunk(screen, a0, mode, cap1);
            let r2 = screen_chunk(screen, r1.1, mode, cap2);
            replay_writes(r1.0, page, low) + replay_writes(r2.0, page, low) == cells_between(
                screen,
                a0,
                r2.1,
            )
        }),
{
    let r1 = screen_chunk(screen, a0, mode, cap1);
    let r2 = screen_chunk(screen, r1.1, mode, cap2);
    lemma_chunk_cursor(screen, a0, mode, cap1);
    lemma_chunk_cursor(screen, r1.1, mode, cap2);
    lemma_chunk_replay(screen, a0, mode, cap1, page, low);
    lemma_chunk_replay(screen, r1.1, mode, cap2, page, low);
    lemma_cells_concat(screen, a0, r1.1, r2.1);
}

} // verus!
