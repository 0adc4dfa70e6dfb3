//! Translation of dotted register paths such as `ARC_RESET.SCRATCH[5]` into
//! AXI addresses, using a tree of named memory slices.
use crate::bits::{low_mask, mask_low};
use crate::text::{
    after_char, before_char, chars_eq, chars_of, find_char, has_char, lemma_first_index_bounds,
    parse_u64, parse_unsigned, trim_end, trim_end_index,
};
use vstd::prelude::*;

verus! {

/// Why a register path could not be turned into an address.
#[derive(Debug)]
pub enum AxiError {
    /// No slice is named `key` at its place in `path`.
    InvalidPath { key: String, path: String },
    /// The array index written after `key` in `path` is not a number.
    InvalidArrayPath { key: String, path: String },
    /// No address table is loaded.
    NoAxiData,
    /// The read buffer is not large enough to hold the requested data.
    ReadBufferTooSmall,
    /// The write buffer is not the same size as the requested field.
    WriteBufferMismatch,
}

/// Where a register lives: its address, its size in bytes and, for a field
/// narrower than the register, the inclusive bit range it occupies.
#[derive(Clone, Copy, Debug)]
pub struct AxiData {
    pub addr: u64,
    pub size: u64,
    pub bits: Option<(u32, u32)>,
}

/// A named region of the address map; `children` are its named sub-regions,
/// each name occurring once.
#[derive(Debug)]
pub struct MemorySlice {
    pub name: String,
    pub offset: u64,
    pub size: u64,
    pub array_count: Option<u64>,
    pub bit_mask: Option<(u32, u32)>,
    pub children: Vec<(String, MemorySlice)>,
}

/// An address table: either a flat list of full paths, or a tree of slices.
#[derive(Debug)]
pub enum MemorySlices {
    Flat(Vec<(String, AxiData)>),
    Tree(Vec<(String, MemorySlice)>),
}

/// The value stored under `key`, taking the first entry with that name.
pub open spec fn find_entry<T>(entries: Seq<(String, T)>, key: Seq<char>) -> Option<T>
    decreases entries.len(),
{
    if entries.len() == 0 {
        None
    } else if entries[0].0@ == key {
        Some(entries[0].1)
    } else {
        find_entry(entries.drop_first(), key)
    }
}

/// No two entries carry the same name.
pub open spec fn unique_names<T>(entries: Seq<(String, T)>) -> bool {
    forall|i: int, j: int| 0 <= i < j < entries.len() ==> entries[i].0@ != entries[j].0@
}

/// Every list of sub-regions in the tree below `s` names each region once.
pub open spec fn slice_names_unique(s: MemorySlice) -> bool
    decreases s,
{
    &&& unique_names(s.children@)
    &&& forall|i: int| 0 <= i < s.children@.len() ==> slice_names_unique(#[trigger] s.children@[i].1)
}

/// Every list of a table, at the top and at each level of a tree, names
/// each entry once (the table is a map from names).
pub open spec fn table_names_unique(t: MemorySlices) -> bool {
    match t {
        MemorySlices::Flat(f) => unique_names(f@),
        MemorySlices::Tree(t) => unique_names(t@) && forall|i: int|
            0 <= i < t@.len() ==> slice_names_unique(#[trigger] t@[i].1),
    }
}

/// In a list whose names are unique, looking a name up gives the entry
/// that carries it, wherever that entry stands.
pub proof fn lemma_unique_lookup_finds_entry<T>(entries: Seq<(String, T)>, i: int)
    requires
        unique_names(entries),
        0 <= i < entries.len(),
    ensures
        find_entry(entries, entries[i].0@) == Some(entries[i].1),
    decreases entries.len(),
{
    if i > 0 {
        let rest = entries.drop_first();
        assert(rest[i - 1] == entries[i]);
        assert(entries[0].0@ != entries[i].0@);
        assert forall|a: int, b: int| 0 <= a < b < rest.len() implies rest[a].0@ != rest[b].0@ by {
            assert(rest[a] == entries[a + 1]);
            assert(rest[b] == entries[b + 1]);
        }
        lemma_unique_lookup_finds_entry(rest, i - 1);
    }
}

fn names_unique<T>(entries: &Vec<(String, T)>) -> (r: bool)
    ensures
        r == unique_names(entries@),
{
    let mut j: usize = 0;
    while j < entries.len()
        invariant
            j <= entries@.len(),
            forall|a: int, b: int| 0 <= a < b < j ==> entries@[a].0@ != entries@[b].0@,
        decreases entries@.len() - j,
    {
        let name = chars_of(entries[j].0.as_str());
        assert(name@.subrange(0, name@.len() as int) =~= name@);
        let mut i: usize = 0;
        while i < j
            invariant
                i <= j < entries@.len(),
                name@ == entries@[j as int].0@,
                name@.subrange(0, name@.len() as int) == name@,
                forall|a: int, b: int| 0 <= a < b < j ==> entries@[a].0@ != entries@[b].0@,
                forall|a: int| 0 <= a < i ==> entries@[a].0@ != entries@[j as int].0@,
            decreases j - i,
        {
            if chars_eq(entries[i].0.as_str(), &name, 0, name.len()) {
                return false;
            }
            i = i + 1;
        }
        j = j + 1;
    }
    true
}

fn slice_tree_names_unique(children: &Vec<(String, MemorySlice)>) -> (r: bool)
    ensures
        r == (unique_names(children@) && forall|i: int|
            0 <= i < children@.len() ==> slice_names_unique(#[trigger] children@[i].1)),
    decreases children,
{
    if !names_unique(children) {
        return false;
    }
    let mut i: usize = 0;
    while i < children.len()
        invariant
            i <= children@.len(),
            forall|k: int| 0 <= k < i ==> slice_names_unique(#[trigger] children@[k].1),
        decreases children@.len() - i,
    {
        assert(decreases_to!(children => children@[i as int].1.children));
        if !slice_tree_names_unique(&children[i].1.children) {
            return false;
        }
        i = i + 1;
    }
    true
}

impl MemorySlices {
    /// Whether every list of the table, at the top and at each level of a
    /// tree, names each entry once.
    pub fn has_unique_names(&self) -> (r: bool)
        ensures
            r == table_names_unique(*self),
    {
        match self {
            MemorySlices::Flat(f) => names_unique(f),
            MemorySlices::Tree(t) => slice_tree_names_unique(t),
        }
    }
}

/// What one path segment names among `children`.
pub ghost enum SegmentLookup {
    /// No slice has that name.
    Missing,
    /// The segment has the form `name[...]` and the text in brackets is not a number.
    BadIndex(Seq<char>),
    /// The slice named, with the array index written in the segment, if any.
    Hit(MemorySlice, Option<u64>),
}

/// A segment that is not itself a name but holds `[` is read as `name[index]`.
pub open spec fn lookup_segment(children: Seq<(String, MemorySlice)>, key: Seq<char>) -> SegmentLookup {
    if find_entry(children, key) is None && has_char(key, '[') {
        let name = before_char(key, '[');
        let index_text = trim_end(before_char(after_char(key, '['), '['), ']');
        match parse_unsigned(index_text, u64::MAX as int) {
            None => SegmentLookup::BadIndex(name),
            Some(i) => match find_entry(children, name) {
                Some(s) => SegmentLookup::Hit(s, Some(i as u64)),
                None => SegmentLookup::Missing,
            },
        }
    } else {
        match find_entry(children, key) {
            Some(s) => SegmentLookup::Hit(s, None),
            None => SegmentLookup::Missing,
        }
    }
}

/// The outcome of translating a path.
pub ghost enum AxiLookup {
    Found(AxiData),
    /// No slice is named by this segment.
    InvalidPath(Seq<char>),
    /// The index after this name is not a number.
    InvalidArrayPath(Seq<char>),
    /// An array is indexed out of range, an array is used without an index
    /// (or a non-array with one), or the address overflows 64 bits.
    Fault,
}

/// Whether an index written in a path does not fit the slice it is applied to.
pub open spec fn index_fault(slice: MemorySlice, index: Option<u64>) -> bool {
    match (slice.array_count, index) {
        (Some(count), Some(i)) => i >= count,
        _ => index.is_some() != slice.array_count.is_some(),
    }
}

/// Translate the path `rest` below `children`, starting from address `offset`:
/// every segment adds its slice's offset (plus size times index for arrays);
/// size and bit range come from the last segment.
pub open spec fn translate_path(children: Seq<(String, MemorySlice)>, rest: Seq<char>, offset: u64) -> AxiLookup
    decreases rest.len(),
{
    let seg = before_char(rest, '.');
    match lookup_segment(children, seg) {
        SegmentLookup::Missing => AxiLookup::InvalidPath(seg),
        SegmentLookup::BadIndex(name) => AxiLookup::InvalidArrayPath(name),
        SegmentLookup::Hit(slice, index) => {
            let step = slice.size * (if let Some(i) = index { i as int } else { 0 });
            if index_fault(slice, index) {
                AxiLookup::Fault
            } else if step > u64::MAX || slice.offset + step > u64::MAX || offset + slice.offset
                + step > u64::MAX {
                AxiLookup::Fault
            } else if has_char(rest, '.') {
                proof {
                    lemma_first_index_bounds(rest, '.');
                }
                translate_path(
                    slice.children@,
                    after_char(rest, '.'),
                    (offset + slice.offset + step) as u64,
                )
            } else {
                AxiLookup::Found(
                    AxiData {
                        addr: (offset + slice.offset + step) as u64,
                        size: slice.size,
                        bits: slice.bit_mask,
                    },
                )
            }
        },
    }
}

/// Why a path lookup did not produce an address, including the cases the
/// tree translation treats as broken invariants.
#[derive(Debug)]
pub enum AxiLookupError {
    Axi(AxiError),
    IndexOutOfRange,
    ArrayIndexMismatch,
    AddressOverflow,
}

/// Whether a lookup result agrees with the outcome of the translation.
pub open spec fn lookup_agrees(r: Result<AxiData, AxiLookupError>, outcome: AxiLookup, path: Seq<char>) -> bool {
    match outcome {
        AxiLookup::Found(d) => r == Ok::<AxiData, AxiLookupError>(d),
        AxiLookup::InvalidPath(k) => match r {
            Err(AxiLookupError::Axi(AxiError::InvalidPath { key, path: p })) => key@ == k && p@
                == path,
            _ => false,
        },
        AxiLookup::InvalidArrayPath(k) => match r {
            Err(AxiLookupError::Axi(AxiError::InvalidArrayPath { key, path: p })) => key@ == k
                && p@ == path,
            _ => false,
        },
        AxiLookup::Fault => match r {
            Err(AxiLookupError::IndexOutOfRange) | Err(AxiLookupError::ArrayIndexMismatch) | Err(
                AxiLookupError::AddressOverflow,
            ) => true,
            _ => false,
        },
    }
}

fn find_entry_index<T>(entries: &Vec<(String, T)>, v: &Vec<char>, from: usize, to: usize) -> (r:
    Option<usize>)
    requires
        from <= to <= v@.len(),
    ensures
        r matches Some(i) ==> i < entries@.len() && find_entry(
            entries@,
            v@.subrange(from as int, to as int),
        ) == Some(entries@[i as int].1),
        r is None ==> find_entry(entries@, v@.subrange(from as int, to as int)) is None,
{
    let ghost key = v@.subrange(from as int, to as int);
    let mut i: usize = 0;
    assert(entries@.subrange(0, entries@.len() as int) =~= entries@);
    while i < entries.len()
        invariant
            i <= entries@.len(),
            from <= to <= v@.len(),
            key == v@.subrange(from as int, to as int),
            find_entry(entries@, key) == find_entry(
                entries@.subrange(i as int, entries@.len() as int),
                key,
            ),
        decreases entries@.len() - i,
    {
        let ghost rest = entries@.subrange(i as int, entries@.len() as int);
        assert(rest.drop_first() =~= entries@.subrange(i + 1, entries@.len() as int));
        if chars_eq(entries[i].0.as_str(), v, from, to) {
            return Some(i);
        }
        i = i + 1;
    }
    None
}

fn path_error_strings(addr: &str, from: usize, to: usize) -> (r: (String, String))
    requires
        from <= to <= addr@.len(),
    ensures
        r.0@ == addr@.subrange(from as int, to as int),
        r.1@ == addr@,
{
    (addr.substring_char(from, to).to_owned(), addr.to_owned())
}


/// Look up the segment `v[from..to]` among `entries`.  On success, the index
/// of the slice named and the array index written in the segment; when the
/// bracketed index is not a number, the position of the `[`.
fn lookup_segment_exec(entries: &Vec<(String, MemorySlice)>, v: &Vec<char>, from: usize, to: usize) -> (r: Result<(Option<usize>, Option<u64>), usize>)
    requires
        from <= to <= v@.len(),
    ensures
        match lookup_segment(entries@, v@.subrange(from as int, to as int)) {
            SegmentLookup::Missing => r matches Ok((None, _)),
            SegmentLookup::BadIndex(name) => r matches Err(b) && from <= b <= to && name == v@.subrange(from as int, b as int),
            SegmentLookup::Hit(slice, index) => r matches Ok((Some(i), ix)) && i < entries@.len() && entries@[i as int].1 == slice && ix == index,
        },
{
    let ghost seg = v@.subrange(from as int, to as int);
    let direct = find_entry_index(entries, v, from, to);
    let bracket = find_char(v, from, to, '[');
    proof {
        lemma_first_index_bounds(seg, '[');
    }
    if direct.is_none() && bracket < to {
        // `name[index]`: the name ends at the first `[`, the index text runs
        // up to the next `[` with trailing `]` dropped.
        let close = find_char(v, bracket + 1, to, '[');
        let end = trim_end_index(v, bracket + 1, close, ']');
        proof {
            assert(v@.subrange(from as int, bracket as int) =~= before_char(seg, '['));
            assert(v@.subrange(bracket + 1, to as int) =~= after_char(seg, '['));
            let after = after_char(seg, '[');
            lemma_first_index_bounds(after, '[');
            assert(v@.subrange(bracket + 1, close as int) =~= before_char(after, '['));
        }
        match parse_u64(v, bracket + 1, end) {
            None => Err(bracket),
            Some(i) => Ok((find_entry_index(entries, v, from, bracket), Some(i))),
        }
    } else {
        Ok((direct, None))
    }
}

/// Translate `addr` through the tree `data`, reporting a broken array index
/// or an address overflow as an error.
pub fn axi_lookup_tree(data: &Vec<(String, MemorySlice)>, addr: &str) -> (r: Result<
    AxiData,
    AxiLookupError,
>)
    ensures
        lookup_agrees(r, translate_path(data@, addr@, 0), addr@),
{
    let chars = chars_of(addr);
    let len = chars.len();
    let mut it: &Vec<(String, MemorySlice)> = data;
    let mut start: usize = 0;
    let mut offset: u64 = 0;
    assert(addr@.subrange(0, len as int) =~= addr@);
    loop
        invariant
            start <= len,
            len == chars@.len(),
            chars@ == addr@,
            translate_path(data@, addr@, 0) == translate_path(
                it@,
                addr@.subrange(start as int, len as int),
                offset,
            ),
        decreases len - start,
    {
        let ghost rest = addr@.subrange(start as int, len as int);
        let dot = find_char(&chars, start, len, '.');
        proof {
            lemma_first_index_bounds(rest, '.');
            assert(chars@.subrange(start as int, dot as int) =~= before_char(rest, '.'));
        }
        let ghost seg = before_char(rest, '.');
        let (slice_at, index) = match lookup_segment_exec(it, &chars, start, dot) {
            Ok(found) => found,
            Err(bracket) => {
                let (key, path) = path_error_strings(addr, start, bracket);
                return Err(AxiLookupError::Axi(AxiError::InvalidArrayPath { key, path }));
            },
        };
        match slice_at {
            None => {
                let (key, path) = path_error_strings(addr, start, dot);
                return Err(AxiLookupError::Axi(AxiError::InvalidPath { key, path }));
            },
            Some(si) => {
                let slice = &it[si].1;
                match (slice.array_count, index) {
                    (Some(count), Some(i)) => {
                        if i >= count {
                            return Err(AxiLookupError::IndexOutOfRange);
                        }
                    },
                    _ => {
                        if index.is_some() != slice.array_count.is_some() {
                            return Err(AxiLookupError::ArrayIndexMismatch);
                        }
                    },
                }
                let idx: u64 = match index {
                    Some(i) => i,
                    None => 0,
                };
                let step = match slice.size.checked_mul(idx) {
                    Some(s) => s,
                    None => {
                        return Err(AxiLookupError::AddressOverflow);
                    },
                };
                let local = match slice.offset.checked_add(step) {
                    Some(s) => s,
                    None => {
                        return Err(AxiLookupError::AddressOverflow);
                    },
                };
                let next = match offset.checked_add(local) {
                    Some(s) => s,
                    None => {
                        return Err(AxiLookupError::AddressOverflow);
                    },
                };
                if dot < len {
                    proof {
                        assert(chars@.subrange(dot + 1, len as int) =~= after_char(rest, '.'));
                    }
                    it = &slice.children;
                    start = dot + 1;
                    offset = next;
                } else {
                    return Ok(AxiData { addr: next, size: slice.size, bits: slice.bit_mask });
                }
            },
        }
    }
}

/// Whether translating `addr` through `data` meets a broken array index or
/// an address overflow.
pub open spec fn translate_faults(data: Seq<(String, MemorySlice)>, addr: Seq<char>) -> bool {
    translate_path(data, addr, 0) is Fault
}

/// The result of a translation that does not fault.
pub open spec fn translate_agrees(r: Result<AxiData, AxiError>, outcome: AxiLookup, path: Seq<char>) -> bool {
    match outcome {
        AxiLookup::Found(d) => r == Ok::<AxiData, AxiError>(d),
        AxiLookup::InvalidPath(k) => match r {
            Err(AxiError::InvalidPath { key, path: p }) => key@ == k && p@ == path,
            _ => false,
        },
        AxiLookup::InvalidArrayPath(k) => match r {
            Err(AxiError::InvalidArrayPath { key, path: p }) => key@ == k && p@ == path,
            _ => false,
        },
        AxiLookup::Fault => false,
    }
}

/// Translate a dotted register path through a tree of memory slices.
pub fn axi_translate_tree(data: &Vec<(String, MemorySlice)>, addr: &str) -> (r: Result<
    AxiData,
    AxiError,
>)
    requires
        !translate_faults(data@, addr@),
    ensures
        translate_agrees(r, translate_path(data@, addr@, 0), addr@),
{
    match axi_lookup_tree(data, addr) {
        Ok(d) => Ok(d),
        Err(AxiLookupError::Axi(e)) => Err(e),
        Err(_) => {
            assert(false);
            Err(AxiError::NoAxiData)
        },
    }
}

/// Whether `r` is what translating `addr` through `data` gives: no table is
/// an error, a flat table is searched for the whole path, a tree is walked.
pub open spec fn translate_spec(data: Option<&MemorySlices>, addr: Seq<char>, r: Result<AxiData, AxiError>) -> bool {
    match data {
        None => r matches Err(AxiError::NoAxiData),
        Some(MemorySlices::Flat(f)) => match find_entry(f@, addr) {
            Some(d) => r == Ok::<AxiData, AxiError>(d),
            None => r matches Err(AxiError::InvalidPath { key, path }) && key@ == addr && path@
                == addr,
        },
        Some(MemorySlices::Tree(t)) => translate_agrees(r, translate_path(t@, addr, 0), addr),
    }
}

/// Whether translating `addr` through `data` is refused for a broken array
/// index or an address overflow.
pub open spec fn table_faults(data: Option<&MemorySlices>, addr: Seq<char>) -> bool {
    data matches Some(MemorySlices::Tree(t)) && translate_faults(t@, addr)
}

/// Translate a register path through an address table: a flat table holds
/// full paths, a tree is walked segment by segment.
pub fn axi_translate(data: Option<&MemorySlices>, addr: &str) -> (r: Result<AxiData, AxiError>)
    requires
        !table_faults(data, addr@),
    ensures
        translate_spec(data, addr@, r),
{
    match data {
        None => Err(AxiError::NoAxiData),
        Some(MemorySlices::Flat(flat)) => {
            let chars = chars_of(addr);
            assert(chars@.subrange(0, chars@.len() as int) =~= addr@);
            match find_entry_index(flat, &chars, 0, chars.len()) {
                Some(i) => Ok(flat[i].1),
                None => {
                    let (key, path) = path_error_strings(addr, 0, chars.len());
                    assert(addr@.subrange(0, addr@.len() as int) =~= addr@);
                    Err(AxiError::InvalidPath { key, path })
                },
            }
        },
        Some(MemorySlices::Tree(tree)) => axi_translate_tree(tree, addr),
    }
}

/// The ARC of a local chip, whose registers are named by its address table.
#[derive(Debug)]
pub struct ArcIf {
    pub axi_data: MemorySlices,
}

impl ArcIf {
    /// Translate a register path through the chip's address table.
    pub fn axi_translate(&self, addr: &str) -> (r: Result<AxiData, AxiError>)
        requires
            !table_faults(Some(&self.axi_data), addr@),
        ensures
            translate_spec(Some(&self.axi_data), addr@, r),
    {
        axi_translate(Some(&self.axi_data), addr)
    }
}

/// A register address table held as a tree of named slices.
#[derive(Debug)]
pub struct Axi {
    pub slices: Vec<(String, MemorySlice)>,
}

impl Axi {
    /// A table with no registers.
    pub fn empty() -> (r: Axi)
        ensures
            r.slices@.len() == 0,
    {
        Axi { slices: Vec::new() }
    }

    /// The address, size and bit range of a register path.  A bracketed
    /// index that is not a number is not accepted.
    pub fn lookup(&self, path: &str) -> (r: Result<AxiData, AxiError>)
        requires
            !translate_faults(self.slices@, path@),
            !(translate_path(self.slices@, path@, 0) is InvalidArrayPath),
        ensures
            translate_agrees(r, translate_path(self.slices@, path@, 0), path@),
    {
        axi_translate_tree(&self.slices, path)
    }
}


/// The low bits (below `shift`) of every byte of `s` after the first,
/// or-ed together with the first byte shifted down by `shift`.
pub open spec fn fold_field_bytes(s: Seq<u8>, shift: u8) -> u8
    decreases s.len(),
{
    if s.len() <= 1 {
        if s.len() == 0 {
            0
        } else {
            s[0] >> shift
        }
    } else {
        fold_field_bytes(s.drop_last(), shift) | (s.last() & low_mask(shift))
    }
}

/// The bytes the older register interface gives for a field with bit
/// range `[lsb, msb]` of the raw register bytes `data`: the bytes from
/// byte `lsb / 8` to byte `msb / 8` are folded into one byte (the first
/// shifted down, the low bits of the others or-ed in), which then keeps
/// its `msb % 8` low bits.
pub open spec fn legacy_field_spec(data: Seq<u8>, lsb: u64, msb: u64) -> Seq<u8> {
    let s = data.subrange((lsb / 8) as int, (msb / 8 + 1) as int);
    if s.len() == 0 {
        seq![]
    } else {
        seq![fold_field_bytes(s, (lsb % 8) as u8) & low_mask((msb % 8) as u8)]
    }
}

/// Extract a field the way the older register interface does.
pub fn legacy_field_bytes(data: &[u8], lsb: u64, msb: u64) -> (r: Vec<u8>)
    requires
        lsb / 8 <= msb / 8 + 1,
        msb / 8 < data@.len(),
    ensures
        r@ == legacy_field_spec(data@, lsb, msb),
{
    let n = data.len();
    assert(msb / 8 < n && lsb / 8 <= n);
    let skip = (lsb / 8) as usize;
    let end = (msb / 8) as usize;
    let shift = (lsb % 8) as u8;
    let keep = (msb % 8) as u8;
    let ghost s = data@.subrange(skip as int, end + 1);
    let mut out: Vec<u8> = Vec::new();
    if skip > end {
        assert(s.len() == 0);
        return out;
    }
    let mut acc: u8 = data[skip] >> shift;
    let mut i: usize = skip + 1;
    assert(s.subrange(0, 1).len() == 1);
    while i <= end
        invariant
            skip < i <= end + 1,
            end < data@.len(),
            shift < 8,
            s == data@.subrange(skip as int, end + 1),
            acc == fold_field_bytes(s.subrange(0, i - skip), shift),
        decreases end + 1 - i,
    {
        proof {
            let pre = s.subrange(0, i - skip);
            assert(s.subrange(0, i + 1 - skip).drop_last() =~= pre);
            assert(s.subrange(0, i + 1 - skip).last() == data@[i as int]);
        }
        acc = acc | (data[i] & mask_low(shift as u32));
        i = i + 1;
    }
    assert(s.subrange(0, i - skip) =~= s);
    out.push(acc & mask_low(keep as u32));
    out
}

} // verus!
