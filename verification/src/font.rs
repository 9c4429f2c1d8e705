//! Parsing of the textual glyph font format: a magic header line and one
//! line of eight ASCII binary digits per glyph byte.

use vstd::prelude::*;

verus! {

/// One header line of the font file.
pub type HeaderBlock = [u8; 8];

/// One glyph-byte line of the font file: eight digit characters and a
/// newline.
pub type ByteBlock = [u8; 9];

/// The expected header line: the ASCII bytes of `MAX7456` and a newline.
pub open spec fn header_magic() -> Seq<u8> {
    seq![0x4Du8, 0x41u8, 0x58u8, 0x37u8, 0x34u8, 0x35u8, 0x36u8, 0x0Au8]
}

/// Whether `block` is the expected font header line.
pub fn validate_header(block: &HeaderBlock) -> (r: bool)
    ensures
        r <==> block@ == header_magic(),
{
    let r = block[0] == 0x4D && block[1] == 0x41 && block[2] == 0x58 && block[3] == 0x37
        && block[4] == 0x34 && block[5] == 0x35 && block[6] == 0x36 && block[7] == 0x0A;
    proof {
        if r {
            assert(block@ =~= header_magic());
        }
    }
    r
}

/// The value of the first `i` digit characters of a glyph-byte line read
/// as a big-endian binary number, each character contributing its low bit.
pub open spec fn block_value(block: Seq<u8>, i: int) -> int
    decreases i,
{
    if i <= 0 {
        0
    } else {
        2 * block_value(block, i - 1) + (block[i - 1] - 48) % 2
    }
}

/// Decode one glyph-byte line: `None` unless the line ends with a newline,
/// otherwise the eight digit characters read as a binary number.
pub fn char_block_to_byte(block: &ByteBlock) -> (r: Option<u8>)
    requires
        forall|i: int| 0 <= i < 8 ==> block@[i] >= 48,
    ensures
        r is Some <==> block@[8] == 10,
        r matches Some(b) ==> b as int == block_value(block@, 8),
{
    if block[8] != 10 {
        return None;
    }
    let ghost bs = block@;
    let mut b: u8 = 0;
    assert(block_value(bs, 0) == 0);
    b = b * 2 + (block[0] - 48) % 2;
    assert(b as int == block_value(bs, 1));
    b = b * 2 + (block[1] - 48) % 2;
    assert(b as int == block_value(bs, 2));
    b = b * 2 + (block[2] - 48) % 2;
    assert(b as int == block_value(bs, 3));
    b = b * 2 + (block[3] - 48) % 2;
    assert(b as int == block_value(bs, 4));
    b = b * 2 + (block[4] - 48) % 2;
    assert(b as int == block_value(bs, 5));
    b = b * 2 + (block[5] - 48) % 2;
    assert(b as int == block_value(bs, 6));
    b = b * 2 + (block[6] - 48) % 2;
    assert(b as int == block_value(bs, 7));
    b = b * 2 + (block[7] - 48) % 2;
    assert(b as int == block_value(bs, 8));
    Some(b)
}

} // verus!
