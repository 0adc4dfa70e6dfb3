//! Register access through the PCIe BAR: words that straddle an alignment
//! boundary, partial-word writes, and which mapping a register lives in.
use vstd::prelude::*;
use crate::bytes::{le_u32, pow256, u32_from_le, u32_to_le, word_byte};

verus! {

/// The four little-endian bytes of a word.
pub open spec fn word_bytes(w: u32) -> Seq<u8> {
    seq![word_byte(w, 0), word_byte(w, 1), word_byte(w, 2), word_byte(w, 3)]
}

/// The bytes of the word built from four little-endian bytes are those bytes.
pub proof fn lemma_le_bytes(b0: u8, b1: u8, b2: u8, b3: u8)
    ensures
        0 <= le_u32(b0, b1, b2, b3) <= u32::MAX,
        word_bytes(le_u32(b0, b1, b2, b3) as u32) == seq![b0, b1, b2, b3],
{
    let w = le_u32(b0, b1, b2, b3);
    assert(w / 0x100 == b1 + 0x100 * b2 + 0x10000 * b3) by (nonlinear_arith)
        requires
            w == b0 + 0x100 * b1 + 0x10000 * b2 + 0x1000000 * b3,
            0 <= b0 < 0x100,
    ;
    assert(w / 0x10000 == b2 + 0x100 * b3) by (nonlinear_arith)
        requires
            w == b0 + 0x100 * b1 + 0x10000 * b2 + 0x1000000 * b3,
            0 <= b0 < 0x100,
            0 <= b1 < 0x100,
    ;
    assert(w / 0x1000000 == b3 as int) by (nonlinear_arith)
        requires
            w == b0 + 0x100 * b1 + 0x10000 * b2 + 0x1000000 * b3,
            0 <= b0 < 0x100,
            0 <= b1 < 0x100,
            0 <= b2 < 0x100,
    ;
    assert(word_bytes(w as u32) =~= seq![b0, b1, b2, b3]);
}

/// The word at byte `k` of the eight bytes of `a` followed by `b`.
pub open spec fn straddling_word(a: u32, b: u32, k: int) -> Seq<u8> {
    (word_bytes(a) + word_bytes(b)).subrange(k, k + 4)
}

/// Read a word that starts `byte_offset` bytes (1 to 3) into the aligned
/// word `a`, from `a` and the aligned word `b` after it.
pub fn unaligned_read32(a: u32, b: u32, byte_offset: usize) -> (r: u32)
    requires
        1 <= byte_offset <= 3,
    ensures
        word_bytes(r) == straddling_word(a, b, byte_offset as int),
{
    let x = u32_to_le(a);
    let y = u32_to_le(b);
    let k = byte_offset;
    let pick = |i: usize| -> (v: u8)
        requires
            i < 4,
        ensures
            v == (x@ + y@)[k + i],
        {
            if k + i < 4 {
                x[k + i]
            } else {
                y[k + i - 4]
            }
        };
    let (p0, p1, p2, p3) = (pick(0), pick(1), pick(2), pick(3));
    proof {
        lemma_le_bytes(p0, p1, p2, p3);
        assert(x@ =~= word_bytes(a));
        assert(y@ =~= word_bytes(b));
        assert(straddling_word(a, b, k as int) =~= seq![p0, p1, p2, p3]);
    }
    u32_from_le(p0, p1, p2, p3)
}

/// Eight bytes with the four at `k` replaced by `w`.
pub open spec fn put_word(bytes: Seq<u8>, k: int, w: Seq<u8>) -> Seq<u8> {
    bytes.subrange(0, k) + w + bytes.subrange(k + 4, bytes.len() as int)
}

/// A word is determined by its bytes.
pub proof fn lemma_word_bytes_injective(x: u32, y: u32)
    requires
        word_bytes(x) == word_bytes(y),
    ensures
        x == y,
{
    assert(word_bytes(x)[0] == word_bytes(y)[0]);
    assert(word_bytes(x)[1] == word_bytes(y)[1]);
    assert(word_bytes(x)[2] == word_bytes(y)[2]);
    assert(word_bytes(x)[3] == word_bytes(y)[3]);
    lemma_word_from_bytes(x);
    lemma_word_from_bytes(y);
}

proof fn lemma_word_from_bytes(w: u32)
    ensures
        w == le_u32(word_byte(w, 0), word_byte(w, 1), word_byte(w, 2), word_byte(w, 3)),
{
    let v = w as int;
    assert(v == v % 0x100 + 0x100 * (v / 0x100 % 0x100) + 0x10000 * (v / 0x10000 % 0x100)
        + 0x1000000 * (v / 0x1000000 % 0x100)) by (nonlinear_arith)
        requires
            0 <= v < 0x100000000,
    ;
}

/// Write `data` as a word that starts `byte_offset` bytes (1 to 3) into
/// the aligned word `a`, merging it into `a` and the aligned word `b` after
/// it; the new values of the two words are returned.
pub fn unaligned_write32(a: u32, b: u32, data: u32, byte_offset: usize) -> (r: (u32, u32))
    requires
        1 <= byte_offset <= 3,
    ensures
        word_bytes(r.0) + word_bytes(r.1) == put_word(
            word_bytes(a) + word_bytes(b),
            byte_offset as int,
            word_bytes(data),
        ),
{
    let x = u32_to_le(a);
    let y = u32_to_le(b);
    let d = u32_to_le(data);
    let k = byte_offset;
    let pick = |i: usize| -> (v: u8)
        requires
            i < 8,
        ensures
            v == put_word(x@ + y@, k as int, d@)[i as int],
        {
            if k <= i && i < k + 4 {
                d[i - k]
            } else if i < 4 {
                x[i]
            } else {
                y[i - 4]
            }
        };
    let (p0, p1, p2, p3) = (pick(0), pick(1), pick(2), pick(3));
    let (q0, q1, q2, q3) = (pick(4), pick(5), pick(6), pick(7));
    proof {
        lemma_le_bytes(p0, p1, p2, p3);
        lemma_le_bytes(q0, q1, q2, q3);
        assert(x@ =~= word_bytes(a));
        assert(y@ =~= word_bytes(b));
        assert(d@ =~= word_bytes(data));
        assert(put_word(x@ + y@, k as int, d@) =~= seq![p0, p1, p2, p3] + seq![q0, q1, q2, q3]);
    }
    (u32_from_le(p0, p1, p2, p3), u32_from_le(q0, q1, q2, q3))
}

/// A straddling read after a straddling write at the same place gives the
/// word written, and the bytes of the two aligned words outside it are
/// those they held before.
pub proof fn lemma_unaligned_read_after_write(a: u32, b: u32, data: u32, k: int, a2: u32, b2: u32, r: u32)
    requires
        1 <= k <= 3,
        word_bytes(a2) + word_bytes(b2) == put_word(word_bytes(a) + word_bytes(b), k, word_bytes(data)),
        word_bytes(r) == straddling_word(a2, b2, k),
    ensures
        r == data,
        forall|i: int| 0 <= i < k ==> #[trigger] word_bytes(a2)[i] == word_bytes(a)[i],
        forall|i: int| k <= i < 4 ==> #[trigger] word_bytes(b2)[i] == word_bytes(b)[i],
{
    let all2 = word_bytes(a2) + word_bytes(b2);
    assert(straddling_word(a2, b2, k) =~= word_bytes(data));
    lemma_word_bytes_injective(r, data);
    assert forall|i: int| 0 <= i < k implies #[trigger] word_bytes(a2)[i] == word_bytes(a)[i] by {
        assert(all2[i] == word_bytes(a2)[i]);
    }
    assert forall|i: int| k <= i < 4 implies #[trigger] word_bytes(b2)[i] == word_bytes(b)[i] by {
        assert(all2[i + 4] == word_bytes(b2)[i]);
    }
}

/// The bytes of `dest` with the `size` bytes from `byte_offset` on taken
/// from the low bytes of `src`.
pub open spec fn merged_bytes(dest: u32, src: u32, byte_offset: int, size: int) -> Seq<u8> {
    Seq::new(
        4,
        |i: int|
            if byte_offset <= i < byte_offset + size {
                word_byte(src, i - byte_offset)
            } else {
                word_byte(dest, i)
            },
    )
}

/// Merge the low `size` bytes of `src` into `dest` at byte `byte_offset`,
/// for a write of fewer than four bytes or at an unaligned address.
pub fn merge_partial_word(dest: u32, src: u32, byte_offset: usize, size: usize) -> (r: u32)
    requires
        byte_offset + size <= 4,
    ensures
        word_bytes(r) == merged_bytes(dest, src, byte_offset as int, size as int),
{
    let x = u32_to_le(dest);
    let s = u32_to_le(src);
    let k = byte_offset;
    let pick = |i: usize| -> (v: u8)
        requires
            i < 4,
        ensures
            v == merged_bytes(dest, src, k as int, size as int)[i as int],
        {
            if k <= i && i < k + size {
                s[i - k]
            } else {
                x[i]
            }
        };
    let (p0, p1, p2, p3) = (pick(0), pick(1), pick(2), pick(3));
    proof {
        lemma_le_bytes(p0, p1, p2, p3);
        assert(merged_bytes(dest, src, k as int, size as int) =~= seq![p0, p1, p2, p3]);
    }
    u32_from_le(p0, p1, p2, p3)
}

/// The word a write of `data` (one to four bytes) to an aligned register
/// stores: four bytes are stored as they are; fewer replace the low bytes
/// of `existing`, the register's current value.
pub fn small_write_word(existing: u32, data: &[u8]) -> (r: u32)
    requires
        1 <= data@.len() <= 4,
    ensures
        forall|i: int| 0 <= i < 4 ==> #[trigger] word_bytes(r)[i] == if i < data@.len() {
            data@[i]
        } else {
            word_byte(existing, i)
        },
{
    let x = u32_to_le(existing);
    let n = data.len();
    let pick = |i: usize| -> (v: u8)
        requires
            i < 4,
        ensures
            v == if i < data@.len() { data@[i as int] } else { word_byte(existing, i as int) },
        {
            if i < n {
                data[i]
            } else {
                x[i]
            }
        };
    let (p0, p1, p2, p3) = (pick(0), pick(1), pick(2), pick(3));
    proof {
        lemma_le_bytes(p0, p1, p2, p3);
    }
    u32_from_le(p0, p1, p2, p3)
}

/// The first `len` bytes (at most four) of a word read from a register.
pub fn small_read_bytes(value: u32, len: usize) -> (r: Vec<u8>)
    requires
        len <= 4,
    ensures
        r@ == word_bytes(value).subrange(0, len as int),
{
    let b = u32_to_le(value);
    let mut out: Vec<u8> = Vec::new();
    let mut i: usize = 0;
    while i < len
        invariant
            i <= len <= 4,
            b@ == word_bytes(value),
            out@ == word_bytes(value).subrange(0, i as int),
        decreases len - i,
    {
        out.push(b[i]);
        assert(word_bytes(value).subrange(0, i + 1) =~= word_bytes(value).subrange(0, i as int).push(b@[i as int]));
        i = i + 1;
    }
    out
}

/// The word made of up to four little-endian bytes (missing high bytes are zero).
pub fn word_from_bytes(data: &[u8]) -> (r: u32)
    requires
        data@.len() <= 4,
    ensures
        forall|i: int| 0 <= i < 4 ==> #[trigger] word_bytes(r)[i] == if i < data@.len() {
            data@[i]
        } else {
            0u8
        },
{
    let n = data.len();
    let pick = |i: usize| -> (v: u8)
        requires
            i < 4,
        ensures
            v == if i < data@.len() { data@[i as int] } else { 0u8 },
        {
            if i < n {
                data[i]
            } else {
                0
            }
        };
    let (p0, p1, p2, p3) = (pick(0), pick(1), pick(2), pick(3));
    proof {
        lemma_le_bytes(p0, p1, p2, p3);
    }
    u32_from_le(p0, p1, p2, p3)
}

/// The mapped windows of a device's BAR 0, by their sizes and offsets.
#[derive(Clone, Copy, Debug)]
pub struct BarLayout {
    /// Offset subtracted from register addresses served by the uncached mapping.
    pub bar0_uc_offset: u32,
    /// Size of the write-combined mapping, where there is one.
    pub bar0_wc_size: Option<u64>,
    /// Where the system register mapping starts, and the offset of its
    /// first register, where there is one.
    pub system_regs: Option<(u32, u32)>,
}

/// Which mapping serves a register.
#[derive(Clone, Copy, Debug, PartialEq, Eq, Structural)]
pub enum RegisterMapping {
    SystemRegs,
    Bar0WriteCombined,
    Bar0Uncached,
}

/// Which mapping serves register `addr`, and at what offset in it: system
/// registers from their start address on, then the write-combined window
/// for the addresses it covers, else the uncached window.
pub open spec fn register_location_spec(bar: BarLayout, addr: u32) -> (RegisterMapping, int) {
    match bar.system_regs {
        Some((start, adjust)) if addr >= start => (RegisterMapping::SystemRegs, addr - adjust),
        _ => match bar.bar0_wc_size {
            Some(size) if (addr as u64) < size => (RegisterMapping::Bar0WriteCombined, addr as int),
            _ => (RegisterMapping::Bar0Uncached, addr - bar.bar0_uc_offset),
        },
    }
}

/// Where register `addr` is mapped.  The offset must not fall below the
/// mapping it is served by.
pub fn register_location(bar: &BarLayout, addr: u32) -> (r: (RegisterMapping, u32))
    requires
        register_location_spec(*bar, addr).1 >= 0,
    ensures
        r.0 == register_location_spec(*bar, addr).0,
        r.1 == register_location_spec(*bar, addr).1,
{
    if let Some((start, adjust)) = bar.system_regs {
        if addr >= start {
            return (RegisterMapping::SystemRegs, addr - adjust);
        }
    }
    if let Some(size) = bar.bar0_wc_size {
        if (addr as u64) < size {
            return (RegisterMapping::Bar0WriteCombined, addr);
        }
    }
    (RegisterMapping::Bar0Uncached, addr - bar.bar0_uc_offset)
}

/// The base address of BAR 0 from the two configuration-space words read
/// at offset 0x10: the 64-bit value with its four flag bits cleared.
pub fn bar0_base(raw: u64) -> (r: u64)
    ensures
        r == raw - raw % 16,
{
    raw - raw % 16
}

/// Whether a block transfer of `len` bytes goes through DMA: only when a
/// threshold is set and the transfer is longer than it.
pub fn use_dma(len: usize, threshold: u32) -> (r: bool)
    ensures
        r == (len > threshold && threshold > 0),
{
    len > threshold as usize && threshold > 0
}

/// Whether a read that returned `value` must be checked against the
/// scratch register for a lost connection.
pub fn needs_read_check(read_checking_enabled: bool, value: Option<u32>) -> (r: bool)
    ensures
        r == (read_checking_enabled && match value {
            Some(v) => v == 0xffffffff,
            None => true,
        }),
{
    let v = match value {
        Some(v) => v,
        None => 0xffffffff,
    };
    read_checking_enabled && v == 0xffffffff
}

/// One step of a copy between host memory and a device mapping.
#[derive(Clone, Copy, Debug, PartialEq, Eq, Structural)]
pub enum CopyStep {
    /// Move `len` bytes through the aligned word holding the next device
    /// address, at `byte_offset` in it.
    Partial { byte_offset: usize, len: usize },
    /// Move `len` bytes as whole aligned words.
    Block { len: usize },
}

/// The next step of a copy with `bytes_left` bytes to go: whole words when
/// both sides are aligned to `align` and at least `align` bytes (rounded
/// down to `block_unit`) remain; otherwise one partial word at the device
/// address's offset `byte_offset` in its word.
pub open spec fn copy_step_spec(
    bytes_left: usize,
    dest_misalign: usize,
    src_misalign: usize,
    align: usize,
    block_unit: usize,
    byte_offset: usize,
) -> CopyStep {
    let block = bytes_left - bytes_left % block_unit;
    if bytes_left < 4 || dest_misalign != 0 || src_misalign != 0 || block < align {
        CopyStep::Partial {
            byte_offset,
            len: if 4 - byte_offset < bytes_left { (4 - byte_offset) as usize } else { bytes_left },
        }
    } else {
        CopyStep::Block { len: block as usize }
    }
}

/// Choose the next step of a copy to or from a device mapping.
pub fn copy_step(
    bytes_left: usize,
    dest_misalign: usize,
    src_misalign: usize,
    align: usize,
    block_unit: usize,
    byte_offset: usize,
) -> (r: CopyStep)
    requires
        block_unit > 0,
        byte_offset < 4,
    ensures
        r == copy_step_spec(bytes_left, dest_misalign, src_misalign, align, block_unit, byte_offset),
{
    let rem = bytes_left % block_unit;
    assert(rem <= bytes_left) by (nonlinear_arith)
        requires
            rem == bytes_left % block_unit,
            block_unit > 0,
    ;
    let block = bytes_left - rem;
    if bytes_left < 4 || dest_misalign != 0 || src_misalign != 0 || block < align {
        let len = if 4 - byte_offset < bytes_left {
            4 - byte_offset
        } else {
            bytes_left
        };
        CopyStep::Partial { byte_offset, len }
    } else {
        CopyStep::Block { len: block }
    }
}

/// A short register write read back gives what was written: the first
/// bytes of the word `small_write_word` stores are the bytes written, and
/// the rest are those the register held.
pub proof fn lemma_small_write_read_back(existing: u32, data: Seq<u8>, stored: u32)
    requires
        1 <= data.len() <= 4,
        forall|i: int| 0 <= i < 4 ==> #[trigger] word_bytes(stored)[i] == if i < data.len() {
            data[i]
        } else {
            word_byte(existing, i)
        },
    ensures
        word_bytes(stored).subrange(0, data.len() as int) == data,
        forall|i: int| data.len() <= i < 4 ==> #[trigger] word_byte(stored, i) == word_byte(existing, i),
{
    assert(word_bytes(stored).subrange(0, data.len() as int) =~= data);
    assert forall|i: int| data.len() <= i < 4 implies #[trigger] word_byte(stored, i) == word_byte(existing, i) by {
        assert(word_bytes(stored)[i] == word_byte(stored, i));
    }
}

} // verus!
