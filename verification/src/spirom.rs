//! Helpers for the tables stored in the Blackhole SPI ROM.
use crate::bytes::{le_word_at, u32_from_le};
use vstd::prelude::*;

verus! {

/// Why the padding of a stored table could not be removed.
#[derive(Clone, Copy, Debug, PartialEq, Eq, Structural)]
pub enum PaddingError {
    /// The input is empty.
    Empty,
    /// The input is shorter than the padding its last byte announces.
    TooShort,
}

/// Strip the padding of a table stored in the SPI ROM.  Tables are padded to
/// a multiple of four bytes: the last byte holds `n` and the last `n + 1`
/// bytes are padding.
pub fn remove_padding_proto_bin(proto_bin: &[u8]) -> (r: Result<&[u8], PaddingError>)
    ensures
        proto_bin@.len() == 0 ==> r == Err::<&[u8], PaddingError>(PaddingError::Empty),
        proto_bin@.len() > 0 ==> {
            let last = proto_bin@.last() as int;
            if proto_bin@.len() < last + 1 {
                r == Err::<&[u8], PaddingError>(PaddingError::TooShort)
            } else {
                r matches Ok(s) && s@ == proto_bin@.subrange(0, proto_bin@.len() - last - 1)
            }
        },
{
    if proto_bin.len() == 0 {
        return Err(PaddingError::Empty);
    }
    let last_byte = proto_bin[proto_bin.len() - 1] as usize;
    if proto_bin.len() < last_byte + 1 {
        return Err(PaddingError::TooShort);
    }
    Ok(vstd::slice::slice_subrange(proto_bin, 0, proto_bin.len() - last_byte - 1))
}

/// Sum of the first `n` little-endian words of `data`.
pub open spec fn word_sum(data: Seq<u8>, n: int) -> int
    decreases n,
{
    if n <= 0 {
        0
    } else {
        word_sum(data, n - 1) + le_word_at(data, 4 * (n - 1))
    }
}

/// Checksum of a table: the sum of its little-endian words, modulo 2^32.
pub open spec fn checksum_spec(data: Seq<u8>) -> int {
    word_sum(data, (data.len() / 4) as int) % 0x1_0000_0000
}

/// The wrapping sum of the little-endian words of `data`, whose length is a
/// multiple of four.
pub fn calculate_checksum(data: &[u8]) -> (r: u32)
    requires
        data@.len() % 4 == 0,
    ensures
        r == checksum_spec(data@),
{
    let mut calculate_checksum: u32 = 0;
    let mut i: usize = 0;
    while i < data.len()
        invariant
            data@.len() % 4 == 0,
            i % 4 == 0,
            i <= data@.len(),
            calculate_checksum == word_sum(data@, (i / 4) as int) % 0x1_0000_0000,
        decreases data@.len() - i,
    {
        let value = u32_from_le(data[i], data[i + 1], data[i + 2], data[i + 3]);
        proof {
            assert((i + 4) / 4 - 1 == i / 4);
            vstd::arithmetic::div_mod::lemma_add_mod_noop(
                word_sum(data@, (i / 4) as int),
                value as int,
                0x1_0000_0000,
            );
            vstd::arithmetic::div_mod::lemma_mod_twice(value as int, 0x1_0000_0000);
        }
        calculate_checksum = calculate_checksum.wrapping_add(value);
        i = i + 4;
    }
    calculate_checksum
}

} // verus!
