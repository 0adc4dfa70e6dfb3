//! Reading and writing bit fields that span a little-endian byte string.
//!
//! A register field is described by an inclusive bit range `[lower, upper]`
//! counted from bit 0 of byte 0.  `read_modify` extracts such a field and
//! `write_modify` places a value into it while leaving every other bit alone.
use vstd::prelude::*;

verus! {

/// Bit `p` (0 = least significant) of a byte.
pub open spec fn bit8(b: u8, p: u8) -> bool {
    (b >> p) & 1u8 == 1u8
}

/// A mask with the `n` low bits set (all bits when `n >= 8`).
pub open spec fn low_mask(n: u8) -> u8 {
    if n >= 8 {
        0xffu8
    } else {
        ((1u8 << n) - 1u8) as u8
    }
}

/// Bit `i` of a little-endian byte string; bits past the end read as zero.
pub open spec fn bit_of(bytes: Seq<u8>, i: int) -> bool {
    0 <= i < 8 * bytes.len() && bit8(bytes[i / 8], (i % 8) as u8)
}

/// Bit `j` of the field `[lower, upper]` of `bytes` (zero past the field's width).
pub open spec fn field_bit(bytes: Seq<u8>, lower: int, upper: int, j: int) -> bool {
    0 <= j <= upper - lower && bit_of(bytes, lower + j)
}

/// Bit `i` of `existing` once `value` has been placed into the field `[lower, upper]`.
pub open spec fn written_bit(existing: Seq<u8>, value: Seq<u8>, lower: int, upper: int, i: int) -> bool {
    if lower <= i <= upper {
        bit_of(value, i - lower)
    } else {
        bit_of(existing, i)
    }
}

/// Number of bytes that hold a field of `width` bits.
pub open spec fn bytes_for_bits(width: int) -> int {
    (width + 7) / 8
}

proof fn lemma_bit_index(bytes: Seq<u8>, k: int, p: int)
    requires
        0 <= p < 8,
        0 <= k,
    ensures
        bit_of(bytes, 8 * k + p) == (k < bytes.len() && bit8(bytes[k], p as u8)),
{
    assert((8 * k + p) / 8 == k);
    assert((8 * k + p) % 8 == p);
}

proof fn lemma_bit8_zero(p: u8)
    ensures
        !bit8(0u8, p),
        0u8 & low_mask(p) == 0u8,
{
    assert(!bit8(0u8, p) && 0u8 & low_mask(p) == 0u8) by (bit_vector);
}

proof fn lemma_and_zero_mask(x: u8)
    ensures
        x & low_mask(0) == 0u8,
{
    assert(x & low_mask(0) == 0u8) by (bit_vector);
}

proof fn lemma_low_mask_nonzero(n: u8)
    requires
        1 <= n < 8,
    ensures
        (1u8 << n) >= 1,
{
    assert((1u8 << n) >= 1) by (bit_vector)
        requires
            1 <= n < 8,
    ;
}

proof fn lemma_first_byte(x: u8, a: u8, ws: u8, wc: u8, p: u8)
    requires
        ws < 8,
        1 <= wc,
        wc + ws <= 8,
        p < 8,
    ensures
        bit8(
            (((a << ws) | (x & low_mask(ws))) & low_mask((wc + ws) as u8)) | (x & !low_mask(
                (wc + ws) as u8,
            )),
            p,
        ) == if p < ws {
            bit8(x, p)
        } else if p < ws + wc {
            bit8(a, (p - ws) as u8)
        } else {
            bit8(x, p)
        },
{
    assert(bit8(
        (((a << ws) | (x & low_mask(ws))) & low_mask((wc + ws) as u8)) | (x & !low_mask(
            (wc + ws) as u8,
        )),
        p,
    ) == if p < ws {
        bit8(x, p)
    } else if p < ws + wc {
        bit8(a, (p - ws) as u8)
    } else {
        bit8(x, p)
    }) by (bit_vector)
        requires
            ws < 8,
            1 <= wc,
            wc + ws <= 8,
            p < 8,
    ;
}

proof fn lemma_later_byte(x: u8, a: u8, carry: u8, b: u8, ws: u8, wc: u8, p: u8)
    requires
        ws < 8,
        1 <= wc <= 8,
        p < 8,
        ws > 0 ==> carry == (b >> ((8 - ws) as u8)) & low_mask(ws),
        ws == 0 ==> carry == 0,
    ensures
        bit8((((a << ws) | carry) & low_mask(wc)) | (x & !low_mask(wc)), p) == if p < wc {
            if p < ws {
                bit8(b, (p + 8 - ws) as u8)
            } else {
                bit8(a, (p - ws) as u8)
            }
        } else {
            bit8(x, p)
        },
{
    assert(bit8((((a << ws) | carry) & low_mask(wc)) | (x & !low_mask(wc)), p) == if p < wc {
        if p < ws {
            bit8(b, (p + 8 - ws) as u8)
        } else {
            bit8(a, (p - ws) as u8)
        }
    } else {
        bit8(x, p)
    }) by (bit_vector)
        requires
            ws < 8,
            1 <= wc <= 8,
            p < 8,
            ws > 0 ==> carry == (b >> ((8 - ws) as u8)) & low_mask(ws),
            ws == 0 ==> carry == 0,
    ;
}

proof fn lemma_read_byte(x: u8, y: u8, rs: u8, wc: u8, p: u8)
    requires
        rs < 8,
        1 <= wc <= 8,
        p < 8,
    ensures
        bit8(
            (if rs > 0 {
                (x >> rs) | (y << ((8 - rs) as u8))
            } else {
                x >> rs
            }) & low_mask(wc),
            p,
        ) == (p < wc && if p + rs < 8 {
            bit8(x, (p + rs) as u8)
        } else {
            bit8(y, (p + rs - 8) as u8)
        }),
{
    assert(bit8(
        (if rs > 0 {
            (x >> rs) | (y << ((8 - rs) as u8))
        } else {
            x >> rs
        }) & low_mask(wc),
        p,
    ) == (p < wc && if p + rs < 8 {
        bit8(x, (p + rs) as u8)
    } else {
        bit8(y, (p + rs - 8) as u8)
    })) by (bit_vector)
        requires
            rs < 8,
            1 <= wc <= 8,
            p < 8,
    ;
}

pub(crate) fn mask_low(n: u32) -> (m: u8)
    requires
        n <= 8,
    ensures
        m == low_mask(n as u8),
{
    if n >= 8 {
        0xff
    } else if n == 0 {
        assert(low_mask(0) == 0) by (bit_vector);
        0
    } else {
        proof {
            lemma_low_mask_nonzero(n as u8);
        }
        (1u8 << (n as u8)) - 1
    }
}

/// Extract the field `[lower, upper]` of `existing`.
///
/// The field is packed, starting at bit 0, into the first bytes of `existing`
/// (overwriting them); the returned slice covers exactly those bytes.  Bits of
/// the last byte past the field's width are zero.
pub fn read_modify(existing: &mut [u8], lower: u32, upper: u32) -> (r: &[u8])
    requires
        lower <= upper,
        upper < 8 * old(existing)@.len(),
    ensures
        r@.len() == bytes_for_bits(upper - lower + 1),
        final(existing)@.len() == old(existing)@.len(),
        r@ == final(existing)@.subrange(0, r@.len() as int),
        final(existing)@.subrange(r@.len() as int, old(existing)@.len() as int) == old(
            existing,
        )@.subrange(r@.len() as int, old(existing)@.len() as int),
        forall|j: int|
            0 <= j < 8 * r@.len() ==> #[trigger] bit_of(r@, j) == field_bit(
                old(existing)@,
                lower as int,
                upper as int,
                j,
            ),
{
    let ghost old_e = existing@;
    let ghost width: int = upper - lower + 1;
    let mut shift_count: u64 = (upper - lower) as u64 + 1;
    let mut read_ptr: usize = (lower / 8) as usize;
    let read_shift: u32 = lower % 8;
    let mut write_ptr: usize = 0;
    while shift_count > 0
        invariant
            lower <= upper,
            upper < 8 * old_e.len(),
            width == upper - lower + 1,
            read_shift == lower % 8,
            read_ptr == lower / 8 + write_ptr,
            shift_count > 0 ==> shift_count == width - 8 * write_ptr,
            shift_count == 0 ==> 8 * write_ptr >= width && 8 * (write_ptr - 1) < width,
            existing@.len() == old_e.len(),
            forall|idx: int| write_ptr <= idx < old_e.len() ==> existing@[idx] == old_e[idx],
            forall|j: int|
                0 <= j < 8 * write_ptr ==> #[trigger] bit_of(existing@, j) == field_bit(
                    old_e,
                    lower as int,
                    upper as int,
                    j,
                ),
        decreases shift_count,
    {
        assert(read_ptr < existing@.len()) by {
            assert(8 * (lower / 8) <= lower);
        }
        let x = existing[read_ptr];
        let y: u8 = if read_ptr + 1 < existing.len() {
            existing[read_ptr + 1]
        } else {
            0
        };
        let mut to_write: u8 = x >> (read_shift as u8);
        if read_shift > 0 {
            to_write = to_write | (y << ((8 - read_shift) as u8));
        }
        let write_count: u64 = if shift_count < 8 {
            shift_count
        } else {
            8
        };
        let write_mask = mask_low(write_count as u32);
        let ghost prev = existing@;
        existing[write_ptr] = to_write & write_mask;
        proof {
            let k = write_ptr as int;
            assert forall|j: int| 0 <= j < 8 * (write_ptr + 1) implies #[trigger] bit_of(
                existing@,
                j,
            ) == field_bit(old_e, lower as int, upper as int, j) by {
                if j >= 8 * k {
                    let p = j - 8 * k;
                    lemma_bit_index(existing@, k, p);
                    lemma_read_byte(x, y, read_shift as u8, write_count as u8, p as u8);
                    let lb = (lower / 8) as int;
                    let rs = read_shift as int;
                    assert(lower as int == 8 * lb + rs);
                    if p + rs < 8 {
                        lemma_bit_index(old_e, lb + k, p + rs);
                        assert(lower + j == 8 * (lb + k) + (p + rs));
                    } else {
                        lemma_bit_index(old_e, lb + k + 1, p + rs - 8);
                        assert(lower + j == 8 * (lb + k + 1) + (p + rs - 8));
                    }
                } else {
                    let kk = j / 8;
                    let pp = j % 8;
                    lemma_bit_index(existing@, kk, pp);
                    lemma_bit_index(prev, kk, pp);
                    assert(j == 8 * kk + pp);
                }
            }
        }
        read_ptr = read_ptr + 1;
        write_ptr = write_ptr + 1;
        shift_count = shift_count - write_count;
    }
    let r = vstd::slice::slice_subrange(existing, 0, write_ptr);
    proof {
        assert(r@.len() == bytes_for_bits(width));
        assert forall|j: int| 0 <= j < 8 * r@.len() implies #[trigger] bit_of(r@, j) == field_bit(
            old_e,
            lower as int,
            upper as int,
            j,
        ) by {
            lemma_bit_index(r@, j / 8, j % 8);
            lemma_bit_index(existing@, j / 8, j % 8);
            assert(j == 8 * (j / 8) + j % 8);
        }
    }
    r
}

} // verus!

verus! {

/// Place the low `upper - lower + 1` bits of `value` (bytes past its end read
/// as zero) into the field `[lower, upper]` of `existing`, keeping every bit
/// outside the field.
pub fn write_modify(existing: &mut [u8], value: &[u8], lower: u32, upper: u32)
    requires
        lower <= upper,
        upper < 8 * old(existing)@.len(),
        upper - lower < u32::MAX,
    ensures
        final(existing)@.len() == old(existing)@.len(),
        forall|i: int|
            0 <= i < 8 * old(existing)@.len() ==> #[trigger] bit_of(final(existing)@, i)
                == written_bit(old(existing)@, value@, lower as int, upper as int, i),
{
    let ghost old_e = existing@;
    let ghost width: int = upper - lower + 1;
    let ghost lb: int = (lower / 8) as int;
    let mut shift_count: u32 = upper - lower + 1;
    let mut read_ptr: usize = 0;
    let mut write_ptr: u32 = lower / 8;
    let write_shift: u32 = lower % 8;
    let mut first_time_lengthen: u32 = write_shift;
    let ghost mut prev_byte: u8 = 0;
    assert(8 * lb <= lower);
    let mut carry: u8 = existing[write_ptr as usize] & mask_low(write_shift);
    proof {
        if write_shift == 0 {
            lemma_and_zero_mask(old_e[lb]);
        }
    }
    while shift_count > 0
        invariant
            lower <= upper,
            upper < 8 * old_e.len(),
            width == upper - lower + 1,
            lb == lower / 8,
            write_shift == lower % 8,
            write_ptr == lb + read_ptr,
            existing@.len() == old_e.len(),
            read_ptr == 0 ==> shift_count == width && first_time_lengthen == write_shift
                && carry == old_e[lb] & low_mask(write_shift as u8),
            read_ptr > 0 ==> first_time_lengthen == 0,
            read_ptr > 0 && shift_count > 0 ==> shift_count == width - (8 - write_shift) - 8 * (
            read_ptr - 1),
            read_ptr > 0 && shift_count == 0 ==> (8 - write_shift) + 8 * (read_ptr - 1) >= width,
            read_ptr > 0 ==> prev_byte == (if read_ptr - 1 < value@.len() {
                value@[read_ptr - 1]
            } else {
                0u8
            }),
            read_ptr > 0 && write_shift > 0 ==> carry == (prev_byte >> ((8 - write_shift) as u8))
                & low_mask(write_shift as u8),
            write_shift == 0 ==> carry == 0,
            forall|idx: int| write_ptr <= idx < old_e.len() ==> existing@[idx] == old_e[idx],
            forall|i: int|
                0 <= i < 8 * old_e.len() ==> #[trigger] bit_of(existing@, i) == if i < 8
                    * write_ptr {
                    written_bit(old_e, value@, lower as int, upper as int, i)
                } else {
                    bit_of(old_e, i)
                },
        decreases shift_count,
    {
        assert(write_ptr < existing@.len());
        let a: u8 = if read_ptr < value.len() {
            value[read_ptr]
        } else {
            0
        };
        let to_write: u8 = (a << (write_shift as u8)) | carry;
        let old_carry = carry;
        if write_shift > 0 {
            carry = (a >> ((8 - write_shift) as u8)) & mask_low(write_shift);
        }
        let room: u32 = 8 - first_time_lengthen;
        let write_count: u32 = if shift_count < room {
            shift_count
        } else {
            room
        };
        let mask_bits: u32 = if write_count + first_time_lengthen < 8 {
            write_count + first_time_lengthen
        } else {
            8
        };
        let write_mask = mask_low(mask_bits);
        let x = existing[write_ptr as usize];
        let ghost prev = existing@;
        existing[write_ptr as usize] = (to_write & write_mask) | (x & !write_mask);
        proof {
            let k = read_ptr as int;
            let wp = write_ptr as int;
            let ws = write_shift as int;
            assert(lower as int == 8 * lb + ws);
            assert forall|i: int| 0 <= i < 8 * old_e.len() implies #[trigger] bit_of(
                existing@,
                i,
            ) == if i < 8 * (write_ptr + 1) {
                written_bit(old_e, value@, lower as int, upper as int, i)
            } else {
                bit_of(old_e, i)
            } by {
                let kk = i / 8;
                let pp = i % 8;
                assert(i == 8 * kk + pp);
                lemma_bit_index(existing@, kk, pp);
                lemma_bit_index(prev, kk, pp);
                lemma_bit_index(old_e, kk, pp);
                if kk == wp {
                    assert(x == old_e[wp]);
                    lemma_bit8_zero((pp - ws) as u8);
                    lemma_bit8_zero((pp + 8 - ws) as u8);
                    if k == 0 {
                        lemma_first_byte(
                            x,
                            a,
                            write_shift as u8,
                            write_count as u8,
                            pp as u8,
                        );
                        if ws <= pp < ws + write_count {
                            assert(i - lower == pp - ws);
                            if 0 < value@.len() {
                                lemma_bit_index(value@, 0, pp - ws);
                            }
                        }
                    } else {
                        lemma_later_byte(
                            x,
                            a,
                            old_carry,
                            prev_byte,
                            write_shift as u8,
                            write_count as u8,
                            pp as u8,
                        );
                        if pp < write_count {
                            if pp < ws {
                                if k - 1 < value@.len() {
                                    lemma_bit_index(value@, k - 1, pp + 8 - ws);
                                }
                                assert(i - lower == 8 * (k - 1) + (pp + 8 - ws));
                            } else {
                                if k < value@.len() {
                                    lemma_bit_index(value@, k, pp - ws);
                                }
                                assert(i - lower == 8 * k + (pp - ws));
                            }
                        }
                    }
                }
            }
            prev_byte = a;
        }
        read_ptr = read_ptr + 1;
        write_ptr = write_ptr + 1;
        first_time_lengthen = 0;
        shift_count = shift_count - write_count;
    }
    proof {
        assert forall|i: int| 0 <= i < 8 * old_e.len() implies #[trigger] bit_of(existing@, i)
            == written_bit(old_e, value@, lower as int, upper as int, i) by {
            if i >= 8 * write_ptr {
                assert(i > upper);
            }
        }
    }
}

/// Reading a field back after a write gives what was written: once
/// `written` holds the bits `write_modify` leaves when it puts `value` into
/// the field `[lower, upper]` of `existing`, every bit of the field read
/// from `written` is the matching bit of `value`, and every bit outside the
/// field is still that of `existing`.
pub proof fn lemma_read_after_write(
    existing: Seq<u8>,
    value: Seq<u8>,
    written: Seq<u8>,
    lower: int,
    upper: int,
)
    requires
        0 <= lower <= upper < 8 * existing.len(),
        written.len() == existing.len(),
        forall|i: int|
            0 <= i < 8 * existing.len() ==> #[trigger] bit_of(written, i) == written_bit(
                existing,
                value,
                lower,
                upper,
                i,
            ),
    ensures
        forall|j: int|
            0 <= j <= upper - lower ==> #[trigger] field_bit(written, lower, upper, j) == bit_of(
                value,
                j,
            ),
        forall|i: int|
            0 <= i < 8 * existing.len() && !(lower <= i <= upper) ==> #[trigger] bit_of(written, i)
                == bit_of(existing, i),
{
    assert forall|j: int| 0 <= j <= upper - lower implies #[trigger] field_bit(written, lower, upper, j) == bit_of(value, j) by {
        assert(bit_of(written, lower + j) == written_bit(existing, value, lower, upper, lower + j));
    }
}

/// Writing back what was read changes nothing: when `value` holds, bit for
/// bit, the field `[lower, upper]` of `existing` (as `read_modify` returns
/// it), putting it back into that field leaves every bit of `existing` as
/// it was.
pub proof fn lemma_write_back_read(
    existing: Seq<u8>,
    value: Seq<u8>,
    written: Seq<u8>,
    lower: int,
    upper: int,
)
    requires
        0 <= lower <= upper < 8 * existing.len(),
        forall|j: int|
            0 <= j <= upper - lower ==> #[trigger] bit_of(value, j) == field_bit(
                existing,
                lower,
                upper,
                j,
            ),
        written.len() == existing.len(),
        forall|i: int|
            0 <= i < 8 * existing.len() ==> #[trigger] bit_of(written, i) == written_bit(
                existing,
                value,
                lower,
                upper,
                i,
            ),
    ensures
        forall|i: int| 0 <= i < 8 * existing.len() ==> #[trigger] bit_of(written, i) == bit_of(existing, i),
{
    assert forall|i: int| 0 <= i < 8 * existing.len() implies #[trigger] bit_of(written, i) == bit_of(existing, i) by {
        assert(bit_of(written, i) == written_bit(existing, value, lower, upper, i));
        if lower <= i <= upper {
            assert(bit_of(value, i - lower) == field_bit(existing, lower, upper, i - lower));
        }
    }
}

} // verus!

