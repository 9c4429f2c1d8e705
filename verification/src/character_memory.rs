//! Glyph (character) memory transactions: uploading one 64-byte glyph
//! bitmap into the controller's non-volatile memory, and requesting one
//! back out of it.

use vstd::prelude::*;

verus! {

/// Bytes of one glyph bitmap: 64 rows of four 2-bit pixels.
pub const CHAR_DATA_SIZE: usize = 64;

/// Bytes of a complete glyph upload transaction: the index pair, four
/// bytes per glyph byte, and the write-to-NVM command pair.
pub const STORE_CHAR_BUFFER_SIZE: usize = 2 + CHAR_DATA_SIZE * 4 + 2;

/// One glyph bitmap.
pub type CharData = [u8; CHAR_DATA_SIZE];

/// The first `k` glyph-byte quads of an upload transaction: each glyph
/// byte is addressed by a low-address pair and carried by a data pair.
pub open spec fn glyph_pairs(data: Seq<u8>, k: int) -> Seq<u8>
    decreases k,
{
    if k <= 0 {
        seq![]
    } else {
        glyph_pairs(data, k - 1) + seq![10u8, (k - 1) as u8, 11u8, data[k - 1]]
    }
}

/// A complete glyph upload transaction for glyph `index`.
pub open spec fn store_char_transaction(data: Seq<u8>, index: u8) -> Seq<u8> {
    seq![9u8, index] + glyph_pairs(data, 64) + seq![8u8, 0xA0u8]
}

/// Build the upload transaction for glyph `index` into the front of
/// `output`; fails, leaving `output` unchanged, only when `output` is
/// shorter than `STORE_CHAR_BUFFER_SIZE`.
#[verifier::loop_isolation(false)]
pub fn build_store_char_operation(data: &CharData, index: u8, output: &mut Vec<u8>) -> (r: bool)
    ensures
        r <==> old(output).len() >= STORE_CHAR_BUFFER_SIZE,
        final(output).len() == old(output).len(),
        !r ==> final(output)@ == old(output)@,
        r ==> final(output)@.subrange(0, STORE_CHAR_BUFFER_SIZE as int) == store_char_transaction(
            data@,
            index,
        ),
        r ==> final(output)@.subrange(STORE_CHAR_BUFFER_SIZE as int, final(output).len() as int)
            == old(output)@.subrange(STORE_CHAR_BUFFER_SIZE as int, old(output).len() as int),
{
    if output.len() < STORE_CHAR_BUFFER_SIZE {
        return false;
    }
    output[0] = 9;
    output[1] = index;
    let mut i: usize = 0;
    while i < CHAR_DATA_SIZE
        invariant
            i <= CHAR_DATA_SIZE,
            output.len() == old(output).len(),
            output@.subrange(0, 2 + 4 * (i as int)) == seq![9u8, index] + glyph_pairs(
                data@,
                i as int,
            ),
            output@.subrange(2 + 4 * (i as int), output.len() as int) == old(output)@.subrange(
                2 + 4 * (i as int),
                old(output).len() as int,
            ),
        decreases CHAR_DATA_SIZE - i,
    {
        let ghost pre = output@;
        output[2 + 4 * i] = 10;
        output[2 + 4 * i + 1] = i as u8;
        output[2 + 4 * i + 2] = 11;
        output[2 + 4 * i + 3] = data[i];
        i = i + 1;
        proof {
            assert(output@.subrange(0, 2 + 4 * (i as int)) =~= pre.subrange(
                0,
                2 + 4 * (i as int) - 4,
            ) + seq![10u8, (i - 1) as u8, 11u8, data@[i - 1]]);
            assert(output@.subrange(2 + 4 * (i as int), output.len() as int) =~= pre.subrange(
                2 + 4 * (i as int),
                pre.len() as int,
            ));
            assert(pre.subrange(2 + 4 * (i as int), pre.len() as int) =~= pre.subrange(
                2 + 4 * (i as int) - 4,
                pre.len() as int,
            ).subrange(4, pre.len() - (2 + 4 * (i as int) - 4)));
            assert(old(output)@.subrange(2 + 4 * (i as int), old(output).len() as int)
                =~= old(output)@.subrange(2 + 4 * (i as int) - 4, old(output).len() as int)
                .subrange(4, old(output).len() - (2 + 4 * (i as int) - 4)));
        }
    }
    let ghost pre = output@;
    output[2 + CHAR_DATA_SIZE * 4] = 8;
    output[2 + CHAR_DATA_SIZE * 4 + 1] = 0xA0;
    proof {
        assert(output@.subrange(0, STORE_CHAR_BUFFER_SIZE as int) =~= pre.subrange(0, 258)
            + seq![8u8, 0xA0u8]);
        assert(output@.subrange(STORE_CHAR_BUFFER_SIZE as int, output.len() as int)
            =~= pre.subrange(260, pre.len() as int));
        assert(pre.subrange(260, pre.len() as int) =~= pre.subrange(258, pre.len() as int)
            .subrange(2, pre.len() - 258));
        assert(old(output)@.subrange(260, old(output).len() as int) =~= old(output)@.subrange(
            258,
            old(output).len() as int,
        ).subrange(2, old(output).len() - 258));
    }
    true
}

/// The four-byte request that makes the controller copy glyph `index`
/// out of non-volatile memory for reading.
pub fn build_load_char_operation(index: u8) -> (v: Vec<u8>)
    ensures
        v@ == seq![9u8, index, 8u8, 0x50u8],
{
    let mut v: Vec<u8> = Vec::new();
    v.push(9);
    v.push(index);
    v.push(8);
    v.push(0x50);
    proof {
        assert(v@ =~= seq![9u8, index, 8u8, 0x50u8]);
    }
    v
}

} // verus!
