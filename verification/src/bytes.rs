//! Little-endian words in byte strings.
use vstd::prelude::*;

verus! {

/// The little-endian 32-bit word made of four bytes.
pub open spec fn le_u32(b0: u8, b1: u8, b2: u8, b3: u8) -> int {
    b0 + 0x100 * b1 + 0x10000 * b2 + 0x1000000 * b3
}

/// The little-endian word that starts at byte `i` of `data`.
pub open spec fn le_word_at(data: Seq<u8>, i: int) -> int {
    le_u32(data[i], data[i + 1], data[i + 2], data[i + 3])
}

/// Byte `k` (0 = least significant) of a 32-bit word.
pub open spec fn word_byte(w: u32, k: int) -> u8 {
    ((w as int) / pow256(k) % 0x100) as u8
}

/// The weight of byte `k` (0 to 3) of a little-endian word.
pub open spec fn pow256(k: int) -> int {
    if k <= 0 {
        1
    } else if k == 1 {
        0x100
    } else if k == 2 {
        0x10000
    } else {
        0x1000000
    }
}

/// The word built from four little-endian bytes.
pub fn u32_from_le(b0: u8, b1: u8, b2: u8, b3: u8) -> (r: u32)
    ensures
        r == le_u32(b0, b1, b2, b3),
{
    let (a, b, c, d) = (b0 as u32, b1 as u32, b2 as u32, b3 as u32);
    a + 0x100 * b + 0x10000 * c + 0x1000000 * d
}

/// The four little-endian bytes of a word.
pub fn u32_to_le(w: u32) -> (r: [u8; 4])
    ensures
        r@ == seq![word_byte(w, 0), word_byte(w, 1), word_byte(w, 2), word_byte(w, 3)],
        le_u32(r@[0], r@[1], r@[2], r@[3]) == w,
{
    let r = [
        (w % 0x100) as u8,
        (w / 0x100 % 0x100) as u8,
        (w / 0x10000 % 0x100) as u8,
        (w / 0x1000000 % 0x100) as u8,
    ];
    assert(r@ == seq![word_byte(w, 0), word_byte(w, 1), word_byte(w, 2), word_byte(w, 3)]);
    r
}

} // verus!
