//! Register fields addressed by an `AxiData`: checking the caller's buffer,
//! and extracting or inserting the field's bits around the raw access.
use vstd::prelude::*;
use crate::axi::{AxiData, AxiError};
use crate::bits::{bit_of, bytes_for_bits, field_bit, read_modify, write_modify, written_bit};

verus! {

/// A buffer of `len` bytes is too small for the field at `addr` when it is
/// shorter than the register.
pub fn check_field_buffer(len: usize, addr: &AxiData) -> (r: Result<(), AxiError>)
    ensures
        len < addr.size ==> r matches Err(AxiError::ReadBufferTooSmall),
        len >= addr.size ==> r is Ok,
{
    if (len as u64) < addr.size {
        Err(AxiError::ReadBufferTooSmall)
    } else {
        Ok(())
    }
}

/// Whether the bit range of a field lies in a register of `size` bytes.
pub open spec fn bits_fit(addr: AxiData) -> bool {
    match addr.bits {
        Some((lower, upper)) => lower <= upper && upper < 8 * addr.size,
        None => true,
    }
}

/// Turn the raw register bytes read into `value` into the field: a field
/// with a bit range is shifted down to bit 0 of the buffer (the whole buffer
/// is handed back, the field in its first bytes); a whole register is the
/// first `size` bytes.
pub fn extract_field<'a>(value: &'a mut [u8], addr: &AxiData) -> (r: &'a [u8])
    requires
        old(value)@.len() >= addr.size,
        bits_fit(*addr),
    ensures
        final(value)@.len() == old(value)@.len(),
        addr.bits is None ==> r@ == old(value)@.subrange(0, addr.size as int) && final(value)@
            == old(value)@,
        addr.bits is Some ==> r@ == final(value)@,
        addr.bits is Some ==> forall|j: int|
            0 <= j < 8 * bytes_for_bits(addr.bits.unwrap().1 - addr.bits.unwrap().0 + 1)
                ==> #[trigger] bit_of(r@, j) == field_bit(
                old(value)@,
                addr.bits.unwrap().0 as int,
                addr.bits.unwrap().1 as int,
                j,
            ),
{
    match addr.bits {
        Some((lower, upper)) => {
            let ghost before = value@;
            let ghost mut field: Seq<u8> = Seq::empty();
            {
                let r = read_modify(value, lower, upper);
                proof {
                    field = r@;
                }
            }
            let ghost after = value@;
            assert forall|j: int| 0 <= j < 8 * bytes_for_bits(upper - lower + 1) implies #[trigger] bit_of(after, j) == field_bit(before, lower as int, upper as int, j) by {
                assert(bit_of(field, j) == field_bit(before, lower as int, upper as int, j));
                assert(field[j / 8] == after[j / 8]);
            }
            &*value
        },
        None => {
            let n = value.len();
            assert(addr.size <= n);
            let size = addr.size as usize;
            vstd::slice::slice_subrange(&*value, 0, size)
        },
    }
}

/// Put the field `value` into the raw register bytes `existing` read from
/// `addr` (a field with a bit range only; other bits are kept).
pub fn insert_field(existing: &mut [u8], value: &[u8], addr: &AxiData)
    requires
        addr.bits is Some,
        bits_fit(*addr),
        addr.bits.unwrap().1 - addr.bits.unwrap().0 < u32::MAX,
        old(existing)@.len() == addr.size,
    ensures
        final(existing)@.len() == old(existing)@.len(),
        forall|i: int|
            0 <= i < 8 * old(existing)@.len() ==> #[trigger] bit_of(final(existing)@, i)
                == written_bit(old(existing)@, value@, addr.bits.unwrap().0 as int, addr.bits.unwrap().1 as int, i),
{
    let (lower, upper) = match addr.bits {
        Some(b) => b,
        None => (0, 0),
    };
    write_modify(existing, value, lower, upper);
}

} // verus!
