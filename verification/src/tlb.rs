//! TLB windows: the PCIe BAR windows that map onto a NOC endpoint, how their
//! configuration is packed into registers and where each window lives.
use vstd::prelude::*;

verus! {

/// Ordering of the NOC transactions issued through a TLB window.
#[derive(Clone, Copy, Debug, PartialEq, Eq, Structural)]
pub enum TlbOrder {
    RELAXED,
    STRICT,
    POSTED,
    PostedStrict,
    UNKNOWN(u8),
}

/// The ordering encoded by `v`; 3 and above are kept as unknown values.
pub open spec fn order_from_u8(v: u8) -> TlbOrder {
    if v == 0 {
        TlbOrder::RELAXED
    } else if v == 1 {
        TlbOrder::STRICT
    } else if v == 2 {
        TlbOrder::POSTED
    } else {
        TlbOrder::UNKNOWN(v)
    }
}

/// The register value of an ordering.
pub open spec fn order_to_u8(o: TlbOrder) -> u8 {
    match o {
        TlbOrder::RELAXED => 0,
        TlbOrder::STRICT => 1,
        TlbOrder::POSTED => 2,
        TlbOrder::PostedStrict => 3,
        TlbOrder::UNKNOWN(v) => v,
    }
}

impl TlbOrder {
    /// Decode an ordering.
    pub fn from_u8(value: u8) -> (r: TlbOrder)
        ensures
            r == order_from_u8(value),
    {
        match value {
            0 => TlbOrder::RELAXED,
            1 => TlbOrder::STRICT,
            2 => TlbOrder::POSTED,
            val => TlbOrder::UNKNOWN(val),
        }
    }

    /// The register value of this ordering.
    pub fn to_u8(&self) -> (r: u8)
        ensures
            r == order_to_u8(*self),
    {
        match self {
            TlbOrder::RELAXED => 0,
            TlbOrder::STRICT => 1,
            TlbOrder::POSTED => 2,
            TlbOrder::PostedStrict => 3,
            TlbOrder::UNKNOWN(val) => *val,
        }
    }
}

/// Reading back the register value of an ordering gives it again, except
/// for `PostedStrict`, which reads back as the unknown value 3.
pub proof fn lemma_order_round_trip(o: TlbOrder)
    ensures
        o != TlbOrder::PostedStrict && !(o matches TlbOrder::UNKNOWN(v) && v <= 2) ==> order_from_u8(
            order_to_u8(o),
        ) == o,
        order_from_u8(order_to_u8(TlbOrder::PostedStrict)) == TlbOrder::UNKNOWN(3),
{
}

/// Multicast stride settings of a strided TLB window.
#[derive(Clone, Copy, Debug, PartialEq, Eq, Structural)]
pub struct TlbStride {
    pub stride_x: u8,
    pub stride_y: u8,
    pub quad_exclude_x: u8,
    pub quad_exclude_y: u8,
    pub quad_exclude_control: u8,
    pub num_destinations: u8,
}

/// What a TLB window points at.
#[derive(Clone, Copy, Debug)]
pub struct Tlb {
    pub local_offset: u64,
    pub x_end: u8,
    pub y_end: u8,
    pub x_start: u8,
    pub y_start: u8,
    pub noc_sel: u8,
    pub mcast: bool,
    pub ordering: TlbOrder,
    pub linked: bool,
    pub use_static_vc: bool,
    pub stream_header: bool,
    pub static_vc: u8,
    pub stride: Option<TlbStride>,
}

/// A window pointing at address 0 of NOC node (0, 0) with posted ordering.
pub open spec fn tlb_default() -> Tlb {
    Tlb {
        local_offset: 0,
        x_end: 0,
        y_end: 0,
        x_start: 0,
        y_start: 0,
        noc_sel: 0,
        mcast: false,
        ordering: TlbOrder::POSTED,
        linked: false,
        use_static_vc: false,
        stream_header: false,
        static_vc: 0,
        stride: None,
    }
}

impl Default for Tlb {
    fn default() -> (r: Tlb)
        ensures
            r == tlb_default(),
    {
        Tlb {
            local_offset: 0,
            x_end: 0,
            y_end: 0,
            x_start: 0,
            y_start: 0,
            noc_sel: 0,
            mcast: false,
            ordering: TlbOrder::POSTED,
            linked: false,
            use_static_vc: false,
            stream_header: false,
            static_vc: 0,
            stride: None,
        }
    }
}

/// How a window is mapped: uncached or write-combined.
#[derive(Debug)]
pub enum MemoryType {
    Uc,
    Wc,
}

/// A group of windows of one size.
#[derive(Debug)]
pub struct TlbInfo {
    pub count: u64,
    pub size: u64,
    pub memory_type: MemoryType,
}

/// The windows of a device, by group.
#[derive(Debug)]
pub struct DeviceTlbInfo {
    pub device_id: u32,
    pub total_count: u32,
    pub tlb_config: Vec<TlbInfo>,
}

/// Where one TLB window's configuration and data live in the BAR.
#[derive(Debug)]
pub struct SpecificTlbInfo {
    pub config_base: u64,
    pub data_base: u64,
    pub size: u64,
    pub memory_type: MemoryType,
}

/// 1 for true, 0 for false.
pub open spec fn b2i(b: bool) -> int {
    if b {
        1
    } else {
        0
    }
}

// Blackhole 2 MiB window register: local offset bits 0..43, x end 43..49,
// y end 49..55, x start 55..61, y start 61..67, NOC 67..69, multicast 69,
// ordering 70..72, linked 72, static VC enable 73, stream header 74,
// static VC 75..78.
/// The packed register value of a Blackhole 2 MiB window whose window
/// address is `addr`.
pub open spec fn bh_tlb2m_value(t: Tlb, addr: u64) -> int {
    addr + t.x_end * 0x80000000000 + t.y_end * 0x2000000000000 + t.x_start
        * 0x80000000000000 + t.y_start * 0x2000000000000000 + t.noc_sel * 0x80000000000000000
        + b2i(t.mcast) * 0x200000000000000000 + order_to_u8(t.ordering) * 0x400000000000000000
        + b2i(t.linked) * 0x1000000000000000000
}

/// Whether every field of `t` fits the width it is packed into.
pub open spec fn bh_fields_fit(t: Tlb) -> bool {
    &&& t.x_end < 64
    &&& t.y_end < 64
    &&& t.x_start < 64
    &&& t.y_start < 64
    &&& t.noc_sel < 4
    &&& order_to_u8(t.ordering) < 4
    &&& !(t.mcast && t.ordering == TlbOrder::PostedStrict)
}

fn bool_bit(b: bool) -> (r: u128)
    ensures
        r == b2i(b),
{
    if b {
        1
    } else {
        0
    }
}

/// Pack a Blackhole 2 MiB window configuration; `addr` is the window address
/// (the target address divided by the window size).
pub fn pack_bh_tlb2m(t: &Tlb, addr: u64) -> (r: u128)
    requires
        bh_fields_fit(*t),
        addr < 0x80000000000,
    ensures
        r == bh_tlb2m_value(*t, addr),
{
    let a = addr as u128;
    let xe = t.x_end as u128;
    let ye = t.y_end as u128;
    let xs = t.x_start as u128;
    let ys = t.y_start as u128;
    let ns = t.noc_sel as u128;
    let mc = bool_bit(t.mcast);
    let od = t.ordering.to_u8() as u128;
    let lk = bool_bit(t.linked);
    a + xe * 0x80000000000 + ye * 0x2000000000000 + xs * 0x80000000000000 + ys
        * 0x2000000000000000 + ns * 0x80000000000000000 + mc * 0x200000000000000000 + od
        * 0x400000000000000000 + lk * 0x1000000000000000000
}

/// Bits `[off, off + width)` of `v`.
pub open spec fn field_of(v: u128, off: int, width: int) -> int {
    (v as int) / pow2_int(off) % pow2_int(width)
}

/// Two to the power `n`.
pub open spec fn pow2_int(n: int) -> int
    decreases n,
{
    if n <= 0 {
        1
    } else {
        2 * pow2_int(n - 1)
    }
}

/// The window described by a Blackhole 2 MiB window register (no stride).
pub open spec fn bh_tlb2m_decode(v: u128) -> Tlb {
    Tlb {
        local_offset: field_of(v, 0, 43) as u64,
        x_end: field_of(v, 43, 6) as u8,
        y_end: field_of(v, 49, 6) as u8,
        x_start: field_of(v, 55, 6) as u8,
        y_start: field_of(v, 61, 6) as u8,
        noc_sel: field_of(v, 67, 2) as u8,
        mcast: field_of(v, 69, 1) == 1,
        ordering: order_from_u8(field_of(v, 70, 2) as u8),
        linked: field_of(v, 72, 1) == 1,
        use_static_vc: field_of(v, 73, 1) == 1,
        stream_header: field_of(v, 74, 1) == 1,
        static_vc: field_of(v, 75, 3) as u8,
        stride: None,
    }
}

proof fn lemma_pow2_values()
    ensures
        pow2_int(0) == 1,
        pow2_int(1) == 2,
        pow2_int(2) == 4,
        pow2_int(3) == 8,
        pow2_int(6) == 64,
        pow2_int(43) == 0x80000000000,
        pow2_int(49) == 0x2000000000000,
        pow2_int(55) == 0x80000000000000,
        pow2_int(61) == 0x2000000000000000,
        pow2_int(67) == 0x80000000000000000,
        pow2_int(69) == 0x200000000000000000,
        pow2_int(70) == 0x400000000000000000,
        pow2_int(72) == 0x1000000000000000000,
        pow2_int(73) == 0x2000000000000000000,
        pow2_int(74) == 0x4000000000000000000,
        pow2_int(75) == 0x8000000000000000000,
{
    reveal_with_fuel(pow2_int, 76);
}

/// Unpack a Blackhole 2 MiB window register.
pub fn unpack_bh_tlb2m(v: u128) -> (r: Tlb)
    ensures
        r == bh_tlb2m_decode(v),
{
    proof {
        lemma_pow2_values();
    }
    Tlb {
        local_offset: (v % 0x80000000000) as u64,
        x_end: (v / 0x80000000000 % 64) as u8,
        y_end: (v / 0x2000000000000 % 64) as u8,
        x_start: (v / 0x80000000000000 % 64) as u8,
        y_start: (v / 0x2000000000000000 % 64) as u8,
        noc_sel: (v / 0x80000000000000000 % 4) as u8,
        mcast: v / 0x200000000000000000 % 2 == 1,
        ordering: TlbOrder::from_u8((v / 0x400000000000000000 % 4) as u8),
        linked: v / 0x1000000000000000000 % 2 == 1,
        use_static_vc: v / 0x2000000000000000000 % 2 == 1,
        stream_header: v / 0x4000000000000000000 % 2 == 1,
        static_vc: (v / 0x8000000000000000000 % 8) as u8,
        stride: None,
    }
}

/// Unpacking a packed Blackhole 2 MiB window register gives back the window
/// address and every field that is packed; the fields that are not packed
/// read back as zero.
pub proof fn lemma_bh_tlb2m_round_trip(t: Tlb, addr: u64)
    requires
        bh_fields_fit(t),
        addr < 0x80000000000,
        order_to_u8(t.ordering) <= 2,
        !(t.ordering is UNKNOWN),
    ensures
        ({
            let d = bh_tlb2m_decode(bh_tlb2m_value(t, addr) as u128);
            &&& d.local_offset == addr
            &&& d.x_end == t.x_end
            &&& d.y_end == t.y_end
            &&& d.x_start == t.x_start
            &&& d.y_start == t.y_start
            &&& d.noc_sel == t.noc_sel
            &&& d.mcast == t.mcast
            &&& d.ordering == t.ordering
            &&& d.linked == t.linked
            &&& !d.use_static_vc && !d.stream_header && d.static_vc == 0
        }),
{
    lemma_pow2_values();
    let a = addr as u128;
    let xe = t.x_end as u128;
    let ye = t.y_end as u128;
    let xs = t.x_start as u128;
    let ys = t.y_start as u128;
    let ns = t.noc_sel as u128;
    let mc = b2i(t.mcast) as u128;
    let od = order_to_u8(t.ordering) as u128;
    let lk = b2i(t.linked) as u128;
    let v = (a + xe * 0x80000000000 + ys * 0x2000000000000000 + ye * 0x2000000000000 + xs
        * 0x80000000000000 + ns * 0x80000000000000000 + mc * 0x200000000000000000 + od
        * 0x400000000000000000 + lk * 0x1000000000000000000) as u128;
    assert(bh_tlb2m_value(t, addr) == v);
    assert(v % 0x80000000000 == a && v / 0x80000000000 % 64 == xe && v / 0x2000000000000 % 64 == ye
        && v / 0x80000000000000 % 64 == xs && v / 0x2000000000000000 % 64 == ys && v
        / 0x80000000000000000 % 4 == ns && v / 0x200000000000000000 % 2 == mc && v
        / 0x400000000000000000 % 4 == od && v / 0x1000000000000000000 % 2 == lk && v
        / 0x2000000000000000000 % 2 == 0 && v / 0x4000000000000000000 % 2 == 0 && v
        / 0x8000000000000000000 % 8 == 0) by (bit_vector)
        requires
            v == a + xe * 0x80000000000 + ys * 0x2000000000000000 + ye * 0x2000000000000 + xs
                * 0x80000000000000 + ns * 0x80000000000000000 + mc * 0x200000000000000000 + od
                * 0x400000000000000000 + lk * 0x1000000000000000000,
            a < 0x80000000000,
            xe < 64,
            ye < 64,
            xs < 64,
            ys < 64,
            ns < 4,
            mc < 2,
            od < 3,
            lk < 2,
    ;
}

// Blackhole 4 GiB window register: local offset bits 0..32, x end 32..38,
// y end 38..44, x start 44..50, y start 50..56, NOC 56..58, multicast 58,
// ordering 59..61, linked 61, static VC enable 62, stream header 63,
// static VC 64..67.
/// The packed register value of a Blackhole 4 GiB window with window address `addr`.
pub open spec fn bh_tlb4g_value(t: Tlb, addr: u32) -> int {
    addr + t.x_end * 0x100000000 + t.y_end * 0x4000000000 + t.x_start * 0x100000000000
        + t.y_start * 0x4000000000000 + t.noc_sel * 0x100000000000000 + b2i(t.mcast)
        * 0x400000000000000 + order_to_u8(t.ordering) * 0x800000000000000 + b2i(t.linked)
        * 0x2000000000000000
}

/// Pack a Blackhole 4 GiB window configuration.
pub fn pack_bh_tlb4g(t: &Tlb, addr: u32) -> (r: u128)
    requires
        bh_fields_fit(*t),
    ensures
        r == bh_tlb4g_value(*t, addr),
{
    let a = addr as u128;
    let xe = t.x_end as u128;
    let ye = t.y_end as u128;
    let xs = t.x_start as u128;
    let ys = t.y_start as u128;
    let ns = t.noc_sel as u128;
    let mc = bool_bit(t.mcast);
    let od = t.ordering.to_u8() as u128;
    let lk = bool_bit(t.linked);
    a + xe * 0x100000000 + ye * 0x4000000000 + xs * 0x100000000000 + ys * 0x4000000000000 + ns
        * 0x100000000000000 + mc * 0x400000000000000 + od * 0x800000000000000 + lk
        * 0x2000000000000000
}

/// The window described by a Blackhole 4 GiB window register.
pub open spec fn bh_tlb4g_decode(v: u128) -> Tlb {
    Tlb {
        local_offset: (v % 0x100000000) as u64,
        x_end: (v / 0x100000000 % 64) as u8,
        y_end: (v / 0x4000000000 % 64) as u8,
        x_start: (v / 0x100000000000 % 64) as u8,
        y_start: (v / 0x4000000000000 % 64) as u8,
        noc_sel: (v / 0x100000000000000 % 4) as u8,
        mcast: v / 0x400000000000000 % 2 == 1,
        ordering: order_from_u8((v / 0x800000000000000 % 4) as u8),
        linked: v / 0x2000000000000000 % 2 == 1,
        use_static_vc: v / 0x4000000000000000 % 2 == 1,
        stream_header: v / 0x8000000000000000 % 2 == 1,
        static_vc: (v / 0x10000000000000000 % 8) as u8,
        stride: None,
    }
}

/// Unpack a Blackhole 4 GiB window register.
pub fn unpack_bh_tlb4g(v: u128) -> (r: Tlb)
    ensures
        r == bh_tlb4g_decode(v),
{
    Tlb {
        local_offset: (v % 0x100000000) as u64,
        x_end: (v / 0x100000000 % 64) as u8,
        y_end: (v / 0x4000000000 % 64) as u8,
        x_start: (v / 0x100000000000 % 64) as u8,
        y_start: (v / 0x4000000000000 % 64) as u8,
        noc_sel: (v / 0x100000000000000 % 4) as u8,
        mcast: v / 0x400000000000000 % 2 == 1,
        ordering: TlbOrder::from_u8((v / 0x800000000000000 % 4) as u8),
        linked: v / 0x2000000000000000 % 2 == 1,
        use_static_vc: v / 0x4000000000000000 % 2 == 1,
        stream_header: v / 0x8000000000000000 % 2 == 1,
        static_vc: (v / 0x10000000000000000 % 8) as u8,
        stride: None,
    }
}

/// Unpacking a packed Blackhole 4 GiB window register gives back the window
/// address and every field that is packed; the fields that are not packed
/// read back as zero.
pub proof fn lemma_bh_tlb4g_round_trip(t: Tlb, addr: u32)
    requires
        bh_fields_fit(t),
        order_to_u8(t.ordering) <= 2,
        !(t.ordering is UNKNOWN),
    ensures
        ({
            let d = bh_tlb4g_decode(bh_tlb4g_value(t, addr) as u128);
            &&& d.local_offset == addr
            &&& d.x_end == t.x_end
            &&& d.y_end == t.y_end
            &&& d.x_start == t.x_start
            &&& d.y_start == t.y_start
            &&& d.noc_sel == t.noc_sel
            &&& d.mcast == t.mcast
            &&& d.ordering == t.ordering
            &&& d.linked == t.linked
            &&& !d.use_static_vc && !d.stream_header && d.static_vc == 0
        }),
{
    let a = addr as u128;
    let xe = t.x_end as u128;
    let ye = t.y_end as u128;
    let xs = t.x_start as u128;
    let ys = t.y_start as u128;
    let ns = t.noc_sel as u128;
    let mc = b2i(t.mcast) as u128;
    let od = order_to_u8(t.ordering) as u128;
    let lk = b2i(t.linked) as u128;
    let v = (a + xe * 0x100000000 + ye * 0x4000000000 + xs * 0x100000000000 + ys * 0x4000000000000
        + ns * 0x100000000000000 + mc * 0x400000000000000 + od * 0x800000000000000 + lk
        * 0x2000000000000000) as u128;
    assert(bh_tlb4g_value(t, addr) == v);
    assert(v % 0x100000000 == a && v / 0x100000000 % 64 == xe && v / 0x4000000000 % 64 == ye && v
        / 0x100000000000 % 64 == xs && v / 0x4000000000000 % 64 == ys && v / 0x100000000000000 % 4
        == ns && v / 0x400000000000000 % 2 == mc && v / 0x800000000000000 % 4 == od && v
        / 0x2000000000000000 % 2 == lk && v / 0x4000000000000000 % 2 == 0 && v
        / 0x8000000000000000 % 2 == 0 && v / 0x10000000000000000 % 8 == 0) by (bit_vector)
        requires
            v == a + xe * 0x100000000 + ye * 0x4000000000 + xs * 0x100000000000 + ys
                * 0x4000000000000 + ns * 0x100000000000000 + mc * 0x400000000000000 + od
                * 0x800000000000000 + lk * 0x2000000000000000,
            a < 0x100000000,
            xe < 64,
            ye < 64,
            xs < 64,
            ys < 64,
            ns < 4,
            mc < 2,
            od < 3,
            lk < 2,
    ;
}

// Blackhole stride register: stride x bits 0..4, stride y 4..8, quad
// exclude x 8..13, quad exclude y 13..17, quad exclude control 17..21,
// number of destinations 21..29.
/// The stride settings described by a Blackhole stride register.
pub open spec fn bh_stride_decode(v: u32) -> TlbStride {
    TlbStride {
        stride_x: (v % 16) as u8,
        stride_y: (v / 16 % 16) as u8,
        quad_exclude_x: (v / 0x100 % 32) as u8,
        quad_exclude_y: (v / 0x2000 % 16) as u8,
        quad_exclude_control: (v / 0x20000 % 16) as u8,
        num_destinations: (v / 0x200000 % 256) as u8,
    }
}

/// Unpack a Blackhole stride register.
pub fn unpack_bh_stride(v: u32) -> (r: TlbStride)
    ensures
        r == bh_stride_decode(v),
{
    TlbStride {
        stride_x: (v % 16) as u8,
        stride_y: (v / 16 % 16) as u8,
        quad_exclude_x: (v / 0x100 % 32) as u8,
        quad_exclude_y: (v / 0x2000 % 16) as u8,
        quad_exclude_control: (v / 0x20000 % 16) as u8,
        num_destinations: (v / 0x200000 % 256) as u8,
    }
}

/// Blackhole 2 MiB window register value.
#[derive(Clone, Copy, Debug)]
pub struct Tlb2M(pub u128);

/// Blackhole stride register value of a 2 MiB window.
#[derive(Clone, Copy, Debug)]
pub struct Tlb2MStride(pub u32);

/// Blackhole 4 GiB window register value.
#[derive(Clone, Copy, Debug)]
pub struct Tlb4G(pub u128);

impl Tlb2M {
    /// The window register and stride register for `t`; of the stride only
    /// the x stride is programmed.
    pub fn from_tlb(t: &Tlb) -> (r: (Tlb2M, Tlb2MStride))
        requires
            bh_fields_fit(*t),
            t.local_offset < 0x80000000000,
            t.stride matches Some(st) ==> st.stride_x < 16,
        ensures
            r.0.0 == bh_tlb2m_value(*t, t.local_offset),
            r.1.0 == match t.stride {
                Some(st) => st.stride_x as u32,
                None => 0u32,
            },
    {
        let stride: u32 = match t.stride {
            Some(st) => st.stride_x as u32,
            None => 0,
        };
        (Tlb2M(pack_bh_tlb2m(t, t.local_offset)), Tlb2MStride(stride))
    }

    /// The window configuration held by this register, with the stride
    /// read from `stride` where one is given.
    pub fn to_tlb(&self, stride: Option<Tlb2MStride>) -> (r: Tlb)
        ensures
            r == (Tlb {
                stride: match stride {
                    Some(st) => Some(bh_stride_decode(st.0)),
                    None => None,
                },
                ..bh_tlb2m_decode(self.0)
            }),
    {
        let t = unpack_bh_tlb2m(self.0);
        let s = match stride {
            Some(st) => Some(unpack_bh_stride(st.0)),
            None => None,
        };
        Tlb { stride: s, ..t }
    }
}

impl Tlb4G {
    /// The window register for `t`; the local offset keeps its low 32 bits.
    pub fn from_tlb(t: &Tlb) -> (r: Tlb4G)
        requires
            bh_fields_fit(*t),
        ensures
            r.0 == bh_tlb4g_value(*t, (t.local_offset % 0x100000000) as u32),
    {
        let lo: u32 = (t.local_offset % 0x100000000) as u32;
        Tlb4G(pack_bh_tlb4g(t, lo))
    }

    /// The window configuration held by this register.
    pub fn to_tlb(&self) -> (r: Tlb)
        ensures
            r == bh_tlb4g_decode(self.0),
    {
        unpack_bh_tlb4g(self.0)
    }
}

/// Address of the Blackhole TLB configuration registers.
pub const BH_TLB_CONFIG_BASE: u64 = 0x1FC00000;

/// Bytes of configuration per Blackhole TLB window.
pub const BH_TLB_CONFIG_SIZE: u64 = 12;

/// Number of Blackhole 2 MiB windows (the first 32 are strided).
pub const BH_TLB_COUNT_2M: u64 = 202;

/// Index of the last Blackhole window (8 windows of 4 GiB follow the 2 MiB ones).
pub const BH_TLB_END_4G: u64 = 209;

/// The three 32-bit register words of a packed window configuration.
pub open spec fn config_words(v: int) -> (u32, u32, u32) {
    ((v % 0x100000000) as u32, (v / 0x100000000 % 0x100000000) as u32, (v / 0x10000000000000000
        % 0x100000000) as u32)
}

/// Programming a TLB window: register writes in order, and where the
/// requested address then appears in the BAR with how many bytes follow it.
#[derive(Debug)]
pub struct TlbSetup {
    pub writes: Vec<(u32, u32)>,
    pub bar_offset: u64,
    pub size: u64,
}

/// Whether a Blackhole window index and configuration can be programmed.
pub open spec fn bh_setup_allowed(tlb_index: u32, t: Tlb) -> bool {
    &&& tlb_index <= BH_TLB_END_4G
    &&& bh_fields_fit(t)
    &&& tlb_index < BH_TLB_COUNT_2M ==> (t.stride matches Some(s) ==> s.stride_x < 16)
}

/// Size of Blackhole window `tlb_index`.
pub open spec fn bh_window_size(tlb_index: u32) -> int {
    if tlb_index < BH_TLB_COUNT_2M {
        0x200000
    } else {
        0x100000000
    }
}

/// BAR offset of Blackhole window `tlb_index`.  The 4 GiB windows are placed
/// from `202 * 4 GiB + (index - 156) * 4 GiB`.
pub open spec fn bh_window_base(tlb_index: u32) -> int {
    if tlb_index < BH_TLB_COUNT_2M {
        0x200000 * tlb_index
    } else {
        BH_TLB_COUNT_2M * 0x100000000 + 0x100000000 * (tlb_index - 156)
    }
}

/// The packed configuration of Blackhole window `tlb_index` pointing at `t`.
pub open spec fn bh_config_value(tlb_index: u32, t: Tlb) -> int {
    let size = bh_window_size(tlb_index);
    if tlb_index < BH_TLB_COUNT_2M {
        bh_tlb2m_value(t, ((t.local_offset as int) / size) as u64)
    } else {
        bh_tlb4g_value(t, ((t.local_offset as int) / size) as u32)
    }
}

/// The register writes that program Blackhole window `tlb_index`: the three
/// configuration words, then (for the strided windows) the stride register.
pub open spec fn bh_setup_writes(tlb_index: u32, t: Tlb) -> Seq<(u32, u32)> {
    let cfg = BH_TLB_CONFIG_BASE + tlb_index * BH_TLB_CONFIG_SIZE;
    let w = config_words(bh_config_value(tlb_index, t));
    let base = seq![(cfg as u32, w.0), ((cfg + 4) as u32, w.1), ((cfg + 8) as u32, w.2)];
    if tlb_index < 32 {
        let stride_x = if let Some(s) = t.stride {
            s.stride_x
        } else {
            0u8
        };
        base.push(((cfg + BH_TLB_END_4G * BH_TLB_CONFIG_SIZE) as u32, stride_x as u32))
    } else {
        base
    }
}

/// Program Blackhole window `tlb_index` to point at `tlb`: the window address
/// is the target address divided by the window size, and the remainder is
/// where the target appears inside the window.
pub fn blackhole_tlb_setup(tlb_index: u32, tlb: &Tlb) -> (r: TlbSetup)
    requires
        bh_setup_allowed(tlb_index, *tlb),
    ensures
        r.writes@ == bh_setup_writes(tlb_index, *tlb),
        r.size == bh_window_size(tlb_index) - (tlb.local_offset as int) % bh_window_size(tlb_index),
        r.bar_offset == bh_window_base(tlb_index) + (tlb.local_offset as int) % bh_window_size(tlb_index),
{
    let cfg: u64 = BH_TLB_CONFIG_BASE + tlb_index as u64 * BH_TLB_CONFIG_SIZE;
    let (value, mmio_addr, size, addr_offset) = if (tlb_index as u64) < BH_TLB_COUNT_2M {
        let size: u64 = 0x200000;
        let addr = tlb.local_offset / size;
        let offset = tlb.local_offset % size;
        (pack_bh_tlb2m(tlb, addr), size * tlb_index as u64, size, offset)
    } else {
        let size: u64 = 0x100000000;
        let addr = tlb.local_offset / size;
        let offset = tlb.local_offset % size;
        (
            pack_bh_tlb4g(tlb, addr as u32),
            BH_TLB_COUNT_2M * 0x100000000u64 + size * (tlb_index as u64 - 156),
            size,
            offset,
        )
    };
    let mut writes: Vec<(u32, u32)> = Vec::new();
    writes.push((cfg as u32, (value % 0x100000000) as u32));
    writes.push((cfg as u32 + 4, (value / 0x100000000 % 0x100000000) as u32));
    writes.push((cfg as u32 + 8, (value / 0x10000000000000000 % 0x100000000) as u32));
    if tlb_index < 32 {
        let stride_x: u8 = match tlb.stride {
            Some(s) => s.stride_x,
            None => 0,
        };
        writes.push(((cfg + BH_TLB_END_4G * BH_TLB_CONFIG_SIZE) as u32, stride_x as u32));
    }
    TlbSetup { writes, bar_offset: mmio_addr + addr_offset, size: size - addr_offset }
}

/// The configuration of Blackhole window `tlb_index`, read back from its
/// three register words.  For the strided windows the stride is decoded from
/// the stride register's address (not its contents).
pub open spec fn bh_tlb_read_spec(tlb_index: u32, w0: u32, w1: u32, w2: u32) -> Tlb {
    let v = (w0 + w1 * 0x100000000 + w2 * 0x10000000000000000) as u128;
    if tlb_index <= 31 {
        Tlb {
            stride: Some(bh_stride_decode((BH_TLB_CONFIG_BASE + 0x9D8 + tlb_index * 4) as u32)),
            ..bh_tlb2m_decode(v)
        }
    } else if tlb_index <= 201 {
        bh_tlb2m_decode(v)
    } else {
        bh_tlb4g_decode(v)
    }
}

/// Decode the configuration of Blackhole window `tlb_index` from its three
/// register words (low word first).
pub fn blackhole_tlb_read(tlb_index: u32, w0: u32, w1: u32, w2: u32) -> (r: Tlb)
    requires
        tlb_index <= 209,
    ensures
        r == bh_tlb_read_spec(tlb_index, w0, w1, w2),
{
    let (a, b, c) = (w0 as u128, w1 as u128, w2 as u128);
    let v = a + b * 0x100000000 + c * 0x10000000000000000;
    if tlb_index <= 31 {
        let stride_reg: u32 = 0x1FC00000 + 0x9D8 + tlb_index * 4;
        let base = unpack_bh_tlb2m(v);
        Tlb { stride: Some(unpack_bh_stride(stride_reg)), ..base }
    } else if tlb_index <= 201 {
        unpack_bh_tlb2m(v)
    } else {
        unpack_bh_tlb4g(v)
    }
}

/// Where Blackhole window `tlb_index` lives; windows below `bar0_wc_size` (when
/// the write-combined mapping exists) are write-combined.
pub fn blackhole_specific_tlb_info(tlb_index: u32, bar0_wc_size: Option<u64>) -> (r: SpecificTlbInfo)
    requires
        tlb_index <= 209,
    ensures
        r.config_base == BH_TLB_CONFIG_BASE + tlb_index * BH_TLB_CONFIG_SIZE,
        r.data_base == bh_window_base(tlb_index),
        r.size == bh_window_size(tlb_index),
        (r.memory_type is Wc) == (bar0_wc_size matches Some(w) && w > bh_window_base(tlb_index)),
{
    let config_base = BH_TLB_CONFIG_BASE + tlb_index as u64 * BH_TLB_CONFIG_SIZE;
    let (data_base, size): (u64, u64) = if (tlb_index as u64) < BH_TLB_COUNT_2M {
        (0x200000u64 * tlb_index as u64, 0x200000u64)
    } else {
        (BH_TLB_COUNT_2M * 0x100000000u64 + 0x100000000u64 * (tlb_index as u64 - 156), 0x100000000u64)
    };
    let memory_type = match bar0_wc_size {
        Some(w) => if w > data_base {
            MemoryType::Wc
        } else {
            MemoryType::Uc
        },
        None => MemoryType::Uc,
    };
    SpecificTlbInfo { config_base, data_base, size, memory_type }
}

/// The Blackhole window layout: 202 windows of 2 MiB and 8 of 4 GiB.
pub fn blackhole_tlb_info(device_id: u32) -> (r: DeviceTlbInfo)
    ensures
        r.device_id == device_id,
        r.total_count == 210,
        r.tlb_config@.len() == 2,
        r.tlb_config@[0].count == 202 && r.tlb_config@[0].size == 0x200000
            && r.tlb_config@[0].memory_type is Uc,
        r.tlb_config@[1].count == 8 && r.tlb_config@[1].size == 0x100000000
            && r.tlb_config@[1].memory_type is Uc,
{
    let mut tlb_config = Vec::new();
    tlb_config.push(TlbInfo { count: 202, size: 0x200000, memory_type: MemoryType::Uc });
    tlb_config.push(TlbInfo { count: 8, size: 0x100000000, memory_type: MemoryType::Uc });
    DeviceTlbInfo { device_id, total_count: 210, tlb_config }
}

} // verus!
