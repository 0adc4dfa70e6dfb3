//! Wormhole TLB windows as programmed through the direct register interface:
//! 156 windows of 1 MiB, 10 of 2 MiB and 20 of 16 MiB.
use vstd::prelude::*;

verus! {

/// Ordering of the NOC transactions issued through a Wormhole window.
#[derive(Clone, Copy, Debug, PartialEq, Eq, Structural)]
pub enum WhTlbOrder {
    RELAXED,
    STRICT,
    POSTED,
}

/// The register value of an ordering.
pub open spec fn wh_order_value(o: WhTlbOrder) -> int {
    match o {
        WhTlbOrder::RELAXED => 0,
        WhTlbOrder::STRICT => 1,
        WhTlbOrder::POSTED => 2,
    }
}

fn order_value(o: WhTlbOrder) -> (r: u64)
    ensures
        r == wh_order_value(o),
{
    match o {
        WhTlbOrder::RELAXED => 0,
        WhTlbOrder::STRICT => 1,
        WhTlbOrder::POSTED => 2,
    }
}

/// What a Wormhole window points at.
#[derive(Clone, Copy, Debug)]
pub struct Tlb {
    pub local_offset: u64,
    pub x_end: u8,
    pub y_end: u8,
    pub x_start: u8,
    pub y_start: u8,
    pub noc_sel: bool,
    pub mcast: bool,
    pub ordering: WhTlbOrder,
    pub linked: bool,
}

impl Default for Tlb {
    fn default() -> (r: Tlb)
        ensures
            r == (Tlb {
                local_offset: 0,
                x_end: 0,
                y_end: 0,
                x_start: 0,
                y_start: 0,
                noc_sel: false,
                mcast: false,
                ordering: WhTlbOrder::POSTED,
                linked: false,
            }),
    {
        Tlb {
            local_offset: 0,
            x_end: 0,
            y_end: 0,
            x_start: 0,
            y_start: 0,
            noc_sel: false,
            mcast: false,
            ordering: WhTlbOrder::POSTED,
            linked: false,
        }
    }
}

/// 1 for true, 0 for false.
pub open spec fn b2i(b: bool) -> int {
    if b {
        1
    } else {
        0
    }
}

fn bool_bit(b: bool) -> (r: u64)
    ensures
        r == b2i(b),
{
    if b {
        1
    } else {
        0
    }
}

/// Whether the NOC coordinates of a window fit their six-bit fields.
pub open spec fn coords_fit(t: Tlb) -> bool {
    t.x_end < 64 && t.y_end < 64 && t.x_start < 64 && t.y_start < 64
}

/// A packed Wormhole window register with a 16-bit window address.
#[derive(Clone, Copy, Debug)]
pub struct Tlb1M(pub u64);

/// The packed register value: window address in the low 16 bits, then x
/// end, y end, x start and y start (six bits each), the NOC, multicast, the
/// ordering (two bits) and linked.
pub open spec fn tlb1m_value(t: Tlb, addr: int) -> int {
    addr + t.x_end * 0x10000 + t.y_end * 0x400000 + t.x_start * 0x10000000 + t.y_start * 0x400000000
        + b2i(t.noc_sel) * 0x10000000000 + b2i(t.mcast) * 0x20000000000 + wh_order_value(t.ordering)
        * 0x40000000000 + b2i(t.linked) * 0x100000000000
}

impl Tlb1M {
    /// Pack window `t` with window address `addr`.
    pub fn from_tlb(t: &Tlb, addr: u64) -> (r: Tlb1M)
        requires
            coords_fit(*t),
            addr < 0x10000,
        ensures
            r.0 == tlb1m_value(*t, addr as int),
    {
        let a = addr;
        let xe = t.x_end as u64;
        let ye = t.y_end as u64;
        let xs = t.x_start as u64;
        let ys = t.y_start as u64;
        let ns = bool_bit(t.noc_sel);
        let mc = bool_bit(t.mcast);
        let od = order_value(t.ordering);
        let lk = bool_bit(t.linked);
        Tlb1M(a + xe * 0x10000 + ye * 0x400000 + xs * 0x10000000 + ys * 0x400000000 + ns * 0x10000000000 + mc * 0x20000000000 + od * 0x40000000000 + lk * 0x100000000000)
    }
}

/// A packed Wormhole window register with a 15-bit window address.
#[derive(Clone, Copy, Debug)]
pub struct Tlb2M(pub u64);

/// The packed register value: window address in the low 15 bits, then x
/// end, y end, x start and y start (six bits each), the NOC, multicast, the
/// ordering (two bits) and linked.
pub open spec fn tlb2m_value(t: Tlb, addr: int) -> int {
    addr + t.x_end * 0x8000 + t.y_end * 0x200000 + t.x_start * 0x8000000 + t.y_start * 0x200000000
        + b2i(t.noc_sel) * 0x8000000000 + b2i(t.mcast) * 0x10000000000 + wh_order_value(t.ordering)
        * 0x20000000000 + b2i(t.linked) * 0x80000000000
}

impl Tlb2M {
    /// Pack window `t` with window address `addr`.
    pub fn from_tlb(t: &Tlb, addr: u64) -> (r: Tlb2M)
        requires
            coords_fit(*t),
            addr < 0x8000,
        ensures
            r.0 == tlb2m_value(*t, addr as int),
    {
        let a = addr;
        let xe = t.x_end as u64;
        let ye = t.y_end as u64;
        let xs = t.x_start as u64;
        let ys = t.y_start as u64;
        let ns = bool_bit(t.noc_sel);
        let mc = bool_bit(t.mcast);
        let od = order_value(t.ordering);
        let lk = bool_bit(t.linked);
        Tlb2M(a + xe * 0x8000 + ye * 0x200000 + xs * 0x8000000 + ys * 0x200000000 + ns * 0x8000000000 + mc * 0x10000000000 + od * 0x20000000000 + lk * 0x80000000000)
    }
}

/// A packed Wormhole window register with a 12-bit window address.
#[derive(Clone, Copy, Debug)]
pub struct Tlb16M(pub u64);

/// The packed register value: window address in the low 12 bits, then x
/// end, y end, x start and y start (six bits each), the NOC, multicast, the
/// ordering (two bits) and linked.
pub open spec fn tlb16m_value(t: Tlb, addr: int) -> int {
    addr + t.x_end * 0x1000 + t.y_end * 0x40000 + t.x_start * 0x1000000 + t.y_start * 0x40000000
        + b2i(t.noc_sel) * 0x1000000000 + b2i(t.mcast) * 0x2000000000 + wh_order_value(t.ordering)
        * 0x4000000000 + b2i(t.linked) * 0x10000000000
}

impl Tlb16M {
    /// Pack window `t` with window address `addr`.
    pub fn from_tlb(t: &Tlb, addr: u64) -> (r: Tlb16M)
        requires
            coords_fit(*t),
            addr < 0x1000,
        ensures
            r.0 == tlb16m_value(*t, addr as int),
    {
        let a = addr;
        let xe = t.x_end as u64;
        let ye = t.y_end as u64;
        let xs = t.x_start as u64;
        let ys = t.y_start as u64;
        let ns = bool_bit(t.noc_sel);
        let mc = bool_bit(t.mcast);
        let od = order_value(t.ordering);
        let lk = bool_bit(t.linked);
        Tlb16M(a + xe * 0x1000 + ye * 0x40000 + xs * 0x1000000 + ys * 0x40000000 + ns * 0x1000000000 + mc * 0x2000000000 + od * 0x4000000000 + lk * 0x10000000000)
    }
}

/// Address of the Wormhole TLB configuration registers (eight bytes each).
pub const WH_TLB_CONFIG_BASE: u64 = 0x1FC00000;

/// Size of Wormhole window `i`.
pub open spec fn wh_window_size(i: u32) -> int {
    if i <= 155 {
        0x100000
    } else if i <= 165 {
        0x200000
    } else {
        0x1000000
    }
}

/// BAR offset of Wormhole window `i`.
pub open spec fn wh_window_base(i: u32) -> int {
    if i <= 155 {
        0x100000 * i
    } else if i <= 165 {
        156 * 0x100000 + 0x200000 * (i - 156)
    } else {
        156 * 0x100000 + 10 * 0x200000 + 0x1000000 * (i - 166)
    }
}

/// The packed configuration of Wormhole window `i` pointing at `t`; the 1 MiB
/// windows keep only the low 16 bits of the window address.
pub open spec fn wh_config_value(i: u32, t: Tlb) -> int {
    let addr = (t.local_offset as int) / wh_window_size(i);
    if i <= 155 {
        tlb1m_value(t, addr % 0x10000)
    } else if i <= 165 {
        tlb2m_value(t, addr)
    } else {
        tlb16m_value(t, addr)
    }
}

/// Whether Wormhole window `i` can be programmed to point at `t`.
pub open spec fn wh_setup_allowed(i: u32, t: Tlb) -> bool {
    &&& i <= 185
    &&& coords_fit(t)
    &&& 156 <= i <= 165 ==> (t.local_offset as int) / 0x200000 < 0x8000
    &&& 166 <= i ==> (t.local_offset as int) / 0x1000000 < 0x1000
}

/// Program Wormhole window `tlb_index` to point at `tlb`: the two register
/// writes (low word, then high word), and where the target appears in the
/// BAR with how many bytes of the window follow it.
pub fn wormhole_tlb_setup(tlb_index: u32, tlb: &Tlb) -> (r: (Vec<(u32, u32)>, u32, usize))
    requires
        wh_setup_allowed(tlb_index, *tlb),
    ensures
        ({
            let cfg = WH_TLB_CONFIG_BASE + tlb_index * 8;
            let v = wh_config_value(tlb_index, *tlb);
            r.0@ == seq![(cfg as u32, (v % 0x100000000) as u32), ((cfg + 4) as u32, (v / 0x100000000 % 0x100000000) as u32)]
        }),
        r.1 == wh_window_base(tlb_index) + (tlb.local_offset as int) % wh_window_size(tlb_index),
        r.2 == wh_window_size(tlb_index) - (tlb.local_offset as int) % wh_window_size(tlb_index),
{
    let cfg: u64 = WH_TLB_CONFIG_BASE + tlb_index as u64 * 8;
    let (value, mmio_addr, size, addr_offset): (u64, u64, u64, u64) = if tlb_index <= 155 {
        let size: u64 = 0x100000;
        let addr = tlb.local_offset / size;
        (Tlb1M::from_tlb(tlb, addr % 0x10000).0, size * tlb_index as u64, size, tlb.local_offset % size)
    } else if tlb_index <= 165 {
        let size: u64 = 0x200000;
        let addr = tlb.local_offset / size;
        (Tlb2M::from_tlb(tlb, addr).0, 156 * 0x100000 + size * (tlb_index - 156) as u64, size, tlb.local_offset % size)
    } else {
        let size: u64 = 0x1000000;
        let addr = tlb.local_offset / size;
        (Tlb16M::from_tlb(tlb, addr).0, 156 * 0x100000 + 10 * 0x200000 + size * (tlb_index - 166) as u64, size, tlb.local_offset % size)
    };
    let mut writes: Vec<(u32, u32)> = Vec::new();
    writes.push((cfg as u32, (value % 0x100000000) as u32));
    writes.push((cfg as u32 + 4, (value / 0x100000000 % 0x100000000) as u32));
    (writes, mmio_addr as u32 + addr_offset as u32, size as usize - addr_offset as usize)
}

/// The `width`-valued field of `v` that starts at place value `place`.
pub open spec fn tlb_field(v: int, place: int, width: int) -> int {
    (v / place) % width
}

proof fn lemma_field_at(v: int, place: int, width: int, low: int, f: int, rest: int)
    requires
        place > 0,
        width > 0,
        0 <= low < place,
        0 <= f < width,
        v == low + place * (f + width * rest),
    ensures
        tlb_field(v, place, width) == f,
{
    assert(v == (f + width * rest) * place + low) by (nonlinear_arith)
        requires
            v == low + place * (f + width * rest),
    ;
    vstd::arithmetic::div_mod::lemma_fundamental_div_mod_converse(v, place, f + width * rest, low);
    assert(f + width * rest == rest * width + f) by (nonlinear_arith);
    vstd::arithmetic::div_mod::lemma_fundamental_div_mod_converse(f + width * rest, width, rest, f);
}

/// Reading the packed Tlb1M window register by its hardware layout gives
/// back the window: the address in the low 16 bits, then x end, y end,
/// x start and y start (six bits each), the NOC, multicast, the ordering
/// (relaxed 0, strict 1, posted 2) and linked.
pub proof fn lemma_tlb1m_fields(t: Tlb, addr: int)
    requires
        coords_fit(t),
        0 <= addr < 0x10000,
    ensures
        tlb_field(tlb1m_value(t, addr), 0x1, 0x10000) == addr,
        tlb_field(tlb1m_value(t, addr), 0x10000, 0x40) == t.x_end as int,
        tlb_field(tlb1m_value(t, addr), 0x400000, 0x40) == t.y_end as int,
        tlb_field(tlb1m_value(t, addr), 0x10000000, 0x40) == t.x_start as int,
        tlb_field(tlb1m_value(t, addr), 0x400000000, 0x40) == t.y_start as int,
        tlb_field(tlb1m_value(t, addr), 0x10000000000, 0x2) == if t.noc_sel { 1int } else { 0int },
        tlb_field(tlb1m_value(t, addr), 0x20000000000, 0x2) == if t.mcast { 1int } else { 0int },
        tlb_field(tlb1m_value(t, addr), 0x40000000000, 0x4) == match t.ordering {
            WhTlbOrder::RELAXED => 0int,
            WhTlbOrder::STRICT => 1int,
            WhTlbOrder::POSTED => 2int,
        },
        tlb_field(tlb1m_value(t, addr), 0x100000000000, 0x2) == if t.linked { 1int } else { 0int },
{
    let v = tlb1m_value(t, addr);
    let ns: int = if t.noc_sel { 1 } else { 0 };
    let mc: int = if t.mcast { 1 } else { 0 };
    let od: int = match t.ordering {
        WhTlbOrder::RELAXED => 0,
        WhTlbOrder::STRICT => 1,
        WhTlbOrder::POSTED => 2,
    };
    let lk: int = if t.linked { 1 } else { 0 };
    lemma_field_at(v, 0x1, 0x10000, 0, addr, (t.x_end as int) * 0x1 + (t.y_end as int) * 0x40 + (t.x_start as int) * 0x1000 + (t.y_start as int) * 0x40000 + ns * 0x1000000 + mc * 0x2000000 + od * 0x4000000 + lk * 0x10000000);
    lemma_field_at(v, 0x10000, 0x40, addr * 0x1, (t.x_end as int), (t.y_end as int) * 0x1 + (t.x_start as int) * 0x40 + (t.y_start as int) * 0x1000 + ns * 0x40000 + mc * 0x80000 + od * 0x100000 + lk * 0x400000);
    lemma_field_at(v, 0x400000, 0x40, addr * 0x1 + (t.x_end as int) * 0x10000, (t.y_end as int), (t.x_start as int) * 0x1 + (t.y_start as int) * 0x40 + ns * 0x1000 + mc * 0x2000 + od * 0x4000 + lk * 0x10000);
    lemma_field_at(v, 0x10000000, 0x40, addr * 0x1 + (t.x_end as int) * 0x10000 + (t.y_end as int) * 0x400000, (t.x_start as int), (t.y_start as int) * 0x1 + ns * 0x40 + mc * 0x80 + od * 0x100 + lk * 0x400);
    lemma_field_at(v, 0x400000000, 0x40, addr * 0x1 + (t.x_end as int) * 0x10000 + (t.y_end as int) * 0x400000 + (t.x_start as int) * 0x10000000, (t.y_start as int), ns * 0x1 + mc * 0x2 + od * 0x4 + lk * 0x10);
    lemma_field_at(v, 0x10000000000, 0x2, addr * 0x1 + (t.x_end as int) * 0x10000 + (t.y_end as int) * 0x400000 + (t.x_start as int) * 0x10000000 + (t.y_start as int) * 0x400000000, ns, mc * 0x1 + od * 0x2 + lk * 0x8);
    lemma_field_at(v, 0x20000000000, 0x2, addr * 0x1 + (t.x_end as int) * 0x10000 + (t.y_end as int) * 0x400000 + (t.x_start as int) * 0x10000000 + (t.y_start as int) * 0x400000000 + ns * 0x10000000000, mc, od * 0x1 + lk * 0x4);
    lemma_field_at(v, 0x40000000000, 0x4, addr * 0x1 + (t.x_end as int) * 0x10000 + (t.y_end as int) * 0x400000 + (t.x_start as int) * 0x10000000 + (t.y_start as int) * 0x400000000 + ns * 0x10000000000 + mc * 0x20000000000, od, lk * 0x1);
    lemma_field_at(v, 0x100000000000, 0x2, addr * 0x1 + (t.x_end as int) * 0x10000 + (t.y_end as int) * 0x400000 + (t.x_start as int) * 0x10000000 + (t.y_start as int) * 0x400000000 + ns * 0x10000000000 + mc * 0x20000000000 + od * 0x40000000000, lk, 0);
}

/// Reading the packed Tlb2M window register by its hardware layout gives
/// back the window: the address in the low 15 bits, then x end, y end,
/// x start and y start (six bits each), the NOC, multicast, the ordering
/// (relaxed 0, strict 1, posted 2) and linked.
pub proof fn lemma_tlb2m_fields(t: Tlb, addr: int)
    requires
        coords_fit(t),
        0 <= addr < 0x8000,
    ensures
        tlb_field(tlb2m_value(t, addr), 0x1, 0x8000) == addr,
        tlb_field(tlb2m_value(t, addr), 0x8000, 0x40) == t.x_end as int,
        tlb_field(tlb2m_value(t, addr), 0x200000, 0x40) == t.y_end as int,
        tlb_field(tlb2m_value(t, addr), 0x8000000, 0x40) == t.x_start as int,
        tlb_field(tlb2m_value(t, addr), 0x200000000, 0x40) == t.y_start as int,
        tlb_field(tlb2m_value(t, addr), 0x8000000000, 0x2) == if t.noc_sel { 1int } else { 0int },
        tlb_field(tlb2m_value(t, addr), 0x10000000000, 0x2) == if t.mcast { 1int } else { 0int },
        tlb_field(tlb2m_value(t, addr), 0x20000000000, 0x4) == match t.ordering {
            WhTlbOrder::RELAXED => 0int,
            WhTlbOrder::STRICT => 1int,
            WhTlbOrder::POSTED => 2int,
        },
        tlb_field(tlb2m_value(t, addr), 0x80000000000, 0x2) == if t.linked { 1int } else { 0int },
{
    let v = tlb2m_value(t, addr);
    let ns: int = if t.noc_sel { 1 } else { 0 };
    let mc: int = if t.mcast { 1 } else { 0 };
    let od: int = match t.ordering {
        WhTlbOrder::RELAXED => 0,
        WhTlbOrder::STRICT => 1,
        WhTlbOrder::POSTED => 2,
    };
    let lk: int = if t.linked { 1 } else { 0 };
    lemma_field_at(v, 0x1, 0x8000, 0, addr, (t.x_end as int) * 0x1 + (t.y_end as int) * 0x40 + (t.x_start as int) * 0x1000 + (t.y_start as int) * 0x40000 + ns * 0x1000000 + mc * 0x2000000 + od * 0x4000000 + lk * 0x10000000);
    lemma_field_at(v, 0x8000, 0x40, addr * 0x1, (t.x_end as int), (t.y_end as int) * 0x1 + (t.x_start as int) * 0x40 + (t.y_start as int) * 0x1000 + ns * 0x40000 + mc * 0x80000 + od * 0x100000 + lk * 0x400000);
    lemma_field_at(v, 0x200000, 0x40, addr * 0x1 + (t.x_end as int) * 0x8000, (t.y_end as int), (t.x_start as int) * 0x1 + (t.y_start as int) * 0x40 + ns * 0x1000 + mc * 0x2000 + od * 0x4000 + lk * 0x10000);
    lemma_field_at(v, 0x8000000, 0x40, addr * 0x1 + (t.x_end as int) * 0x8000 + (t.y_end as int) * 0x200000, (t.x_start as int), (t.y_start as int) * 0x1 + ns * 0x40 + mc * 0x80 + od * 0x100 + lk * 0x400);
    lemma_field_at(v, 0x200000000, 0x40, addr * 0x1 + (t.x_end as int) * 0x8000 + (t.y_end as int) * 0x200000 + (t.x_start as int) * 0x8000000, (t.y_start as int), ns * 0x1 + mc * 0x2 + od * 0x4 + lk * 0x10);
    lemma_field_at(v, 0x8000000000, 0x2, addr * 0x1 + (t.x_end as int) * 0x8000 + (t.y_end as int) * 0x200000 + (t.x_start as int) * 0x8000000 + (t.y_start as int) * 0x200000000, ns, mc * 0x1 + od * 0x2 + lk * 0x8);
    lemma_field_at(v, 0x10000000000, 0x2, addr * 0x1 + (t.x_end as int) * 0x8000 + (t.y_end as int) * 0x200000 + (t.x_start as int) * 0x8000000 + (t.y_start as int) * 0x200000000 + ns * 0x8000000000, mc, od * 0x1 + lk * 0x4);
    lemma_field_at(v, 0x20000000000, 0x4, addr * 0x1 + (t.x_end as int) * 0x8000 + (t.y_end as int) * 0x200000 + (t.x_start as int) * 0x8000000 + (t.y_start as int) * 0x200000000 + ns * 0x8000000000 + mc * 0x10000000000, od, lk * 0x1);
    lemma_field_at(v, 0x80000000000, 0x2, addr * 0x1 + (t.x_end as int) * 0x8000 + (t.y_end as int) * 0x200000 + (t.x_start as int) * 0x8000000 + (t.y_start as int) * 0x200000000 + ns * 0x8000000000 + mc * 0x10000000000 + od * 0x20000000000, lk, 0);
}

/// Reading the packed Tlb16M window register by its hardware layout gives
/// back the window: the address in the low 12 bits, then x end, y end,
/// x start and y start (six bits each), the NOC, multicast, the ordering
/// (relaxed 0, strict 1, posted 2) and linked.
pub proof fn lemma_tlb16m_fields(t: Tlb, addr: int)
    requires
        coords_fit(t),
        0 <= addr < 0x1000,
    ensures
        tlb_field(tlb16m_value(t, addr), 0x1, 0x1000) == addr,
        tlb_field(tlb16m_value(t, addr), 0x1000, 0x40) == t.x_end as int,
        tlb_field(tlb16m_value(t, addr), 0x40000, 0x40) == t.y_end as int,
        tlb_field(tlb16m_value(t, addr), 0x1000000, 0x40) == t.x_start as int,
        tlb_field(tlb16m_value(t, addr), 0x40000000, 0x40) == t.y_start as int,
        tlb_field(tlb16m_value(t, addr), 0x1000000000, 0x2) == if t.noc_sel { 1int } else { 0int },
        tlb_field(tlb16m_value(t, addr), 0x2000000000, 0x2) == if t.mcast { 1int } else { 0int },
        tlb_field(tlb16m_value(t, addr), 0x4000000000, 0x4) == match t.ordering {
            WhTlbOrder::RELAXED => 0int,
            WhTlbOrder::STRICT => 1int,
            WhTlbOrder::POSTED => 2int,
        },
        tlb_field(tlb16m_value(t, addr), 0x10000000000, 0x2) == if t.linked { 1int } else { 0int },
{
    let v = tlb16m_value(t, addr);
    let ns: int = if t.noc_sel { 1 } else { 0 };
    let mc: int = if t.mcast { 1 } else { 0 };
    let od: int = match t.ordering {
        WhTlbOrder::RELAXED => 0,
        WhTlbOrder::STRICT => 1,
        WhTlbOrder::POSTED => 2,
    };
    let lk: int = if t.linked { 1 } else { 0 };
    lemma_field_at(v, 0x1, 0x1000, 0, addr, (t.x_end as int) * 0x1 + (t.y_end as int) * 0x40 + (t.x_start as int) * 0x1000 + (t.y_start as int) * 0x40000 + ns * 0x1000000 + mc * 0x2000000 + od * 0x4000000 + lk * 0x10000000);
    lemma_field_at(v, 0x1000, 0x40, addr * 0x1, (t.x_end as int), (t.y_end as int) * 0x1 + (t.x_start as int) * 0x40 + (t.y_start as int) * 0x1000 + ns * 0x40000 + mc * 0x80000 + od * 0x100000 + lk * 0x400000);
    lemma_field_at(v, 0x40000, 0x40, addr * 0x1 + (t.x_end as int) * 0x1000, (t.y_end as int), (t.x_start as int) * 0x1 + (t.y_start as int) * 0x40 + ns * 0x1000 + mc * 0x2000 + od * 0x4000 + lk * 0x10000);
    lemma_field_at(v, 0x1000000, 0x40, addr * 0x1 + (t.x_end as int) * 0x1000 + (t.y_end as int) * 0x40000, (t.x_start as int), (t.y_start as int) * 0x1 + ns * 0x40 + mc * 0x80 + od * 0x100 + lk * 0x400);
    lemma_field_at(v, 0x40000000, 0x40, addr * 0x1 + (t.x_end as int) * 0x1000 + (t.y_end as int) * 0x40000 + (t.x_start as int) * 0x1000000, (t.y_start as int), ns * 0x1 + mc * 0x2 + od * 0x4 + lk * 0x10);
    lemma_field_at(v, 0x1000000000, 0x2, addr * 0x1 + (t.x_end as int) * 0x1000 + (t.y_end as int) * 0x40000 + (t.x_start as int) * 0x1000000 + (t.y_start as int) * 0x40000000, ns, mc * 0x1 + od * 0x2 + lk * 0x8);
    lemma_field_at(v, 0x2000000000, 0x2, addr * 0x1 + (t.x_end as int) * 0x1000 + (t.y_end as int) * 0x40000 + (t.x_start as int) * 0x1000000 + (t.y_start as int) * 0x40000000 + ns * 0x1000000000, mc, od * 0x1 + lk * 0x4);
    lemma_field_at(v, 0x4000000000, 0x4, addr * 0x1 + (t.x_end as int) * 0x1000 + (t.y_end as int) * 0x40000 + (t.x_start as int) * 0x1000000 + (t.y_start as int) * 0x40000000 + ns * 0x1000000000 + mc * 0x2000000000, od, lk * 0x1);
    lemma_field_at(v, 0x10000000000, 0x2, addr * 0x1 + (t.x_end as int) * 0x1000 + (t.y_end as int) * 0x40000 + (t.x_start as int) * 0x1000000 + (t.y_start as int) * 0x40000000 + ns * 0x1000000000 + mc * 0x2000000000 + od * 0x4000000000, lk, 0);
}

} // verus!
