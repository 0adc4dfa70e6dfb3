//! Values exchanged with the kernel-mode driver: chip generations, BAR
//! mapping ids, the DMA request word, buffer sizing and the driver version.
use crate::text::{
    after_char, before_char, chars_of, find_char, has_char, lemma_first_index_bounds, parse_u64,
    parse_unsigned,
};
use crate::tlb::{order_to_u8, Tlb};
use vstd::prelude::*;

verus! {

/// Chip generation.
#[derive(Clone, Copy, Debug, PartialEq, Eq, Structural)]
pub enum Arch {
    Grayskull,
    Wormhole,
    Blackhole,
}

/// The generation with PCI device id `device_id`, or the id when it is unknown.
pub open spec fn arch_of_device(device_id: u16) -> Result<Arch, u16> {
    if device_id == 0xfaca {
        Ok(Arch::Grayskull)
    } else if device_id == 0x401e {
        Ok(Arch::Wormhole)
    } else if device_id == 0xb140 {
        Ok(Arch::Blackhole)
    } else {
        Err(device_id)
    }
}

impl Arch {
    /// The generation of a chip with PCI device id `device_id`; an unknown id is returned as the error.
    pub fn from_device_id(device_id: u16) -> (r: Result<Arch, u16>)
        ensures
            r == arch_of_device(device_id),
    {
        match device_id {
            0xfaca => Ok(Arch::Grayskull),
            0x401e => Ok(Arch::Wormhole),
            0xb140 => Ok(Arch::Blackhole),
            id => Err(id),
        }
    }

    /// Whether this is Blackhole.
    pub fn is_blackhole(&self) -> (r: bool)
        ensures
            r == (*self == Arch::Blackhole),
    {
        match self {
            Arch::Blackhole => true,
            _ => false,
        }
    }

    /// Whether this is Wormhole.
    pub fn is_wormhole(&self) -> (r: bool)
        ensures
            r == (*self == Arch::Wormhole),
    {
        match self {
            Arch::Wormhole => true,
            _ => false,
        }
    }
}

/// Largest single DMA transfer.
pub const MAX_DMA_BYTES: u32 = 4 * 1024 * 1024;

/// Size of the write-combined part of BAR0 on Grayskull and Wormhole.
pub const GS_BAR0_WC_MAPPING_SIZE: u64 = 0x10E00000 + 0x1400000 + 0x12000000;

/// Size of the write-combined part of BAR0 on Blackhole.
pub const BH_BAR0_WC_MAPPING_SIZE: u64 = 0x17800000;

/// Register read to tell a dead link from a register that reads all ones
/// (Grayskull and Wormhole).
pub const GS_WH_ARC_SCRATCH6_ADDR: u32 = 0x1ff30078;

/// The same for Blackhole: the NOC node id register.
pub const BH_NOC_NODE_ID_OFFSET: u32 = 0x1FD04044;

/// Which BAR region a mapping offered by the driver covers.
#[derive(Clone, Copy, Debug, PartialEq, Eq, Structural)]
pub enum MappingId {
    Unused,
    Resource0Uc,
    Resource0Wc,
    Resource1Uc,
    Resource1Wc,
    Resource2Uc,
    Resource2Wc,
    Unknown(u32),
}

/// The mapping id with code `value`; codes above 6 are kept as unknown.
pub open spec fn mapping_id_of(value: u32) -> MappingId {
    if value == 0 {
        MappingId::Unused
    } else if value == 1 {
        MappingId::Resource0Uc
    } else if value == 2 {
        MappingId::Resource0Wc
    } else if value == 3 {
        MappingId::Resource1Uc
    } else if value == 4 {
        MappingId::Resource1Wc
    } else if value == 5 {
        MappingId::Resource2Uc
    } else if value == 6 {
        MappingId::Resource2Wc
    } else {
        MappingId::Unknown(value)
    }
}

/// The discriminant of a mapping id: its position in the list above (an
/// unknown id counts as 7, whatever value it carries).
pub open spec fn mapping_discriminant(m: MappingId) -> u32 {
    match m {
        MappingId::Unused => 0,
        MappingId::Resource0Uc => 1,
        MappingId::Resource0Wc => 2,
        MappingId::Resource1Uc => 3,
        MappingId::Resource1Wc => 4,
        MappingId::Resource2Uc => 5,
        MappingId::Resource2Wc => 6,
        MappingId::Unknown(_) => 7,
    }
}

impl MappingId {
    /// Decode a mapping id.
    pub fn from_u32(value: u32) -> (r: MappingId)
        ensures
            r == mapping_id_of(value),
    {
        match value {
            0 => MappingId::Unused,
            1 => MappingId::Resource0Uc,
            2 => MappingId::Resource0Wc,
            3 => MappingId::Resource1Uc,
            4 => MappingId::Resource1Wc,
            5 => MappingId::Resource2Uc,
            6 => MappingId::Resource2Wc,
            v => MappingId::Unknown(v),
        }
    }

    /// The code of a mapping id (7 for every unknown one).
    pub fn as_u32(&self) -> (r: u32)
        ensures
            r == mapping_discriminant(*self),
    {
        match self {
            MappingId::Unused => 0,
            MappingId::Resource0Uc => 1,
            MappingId::Resource0Wc => 2,
            MappingId::Resource1Uc => 3,
            MappingId::Resource1Wc => 4,
            MappingId::Resource2Uc => 5,
            MappingId::Resource2Wc => 6,
            MappingId::Unknown(_) => 7,
        }
    }
}

/// A known mapping id converts back to the value it was read from.
pub proof fn lemma_mapping_id_round_trip(value: u32)
    ensures
        value <= 6 ==> mapping_discriminant(mapping_id_of(value)) == value,
        value > 6 ==> mapping_discriminant(mapping_id_of(value)) == 7,
{
}

/// The control word of a DMA request: transfer size in bits 0..28, then the
/// direction (1 = host to chip), MSI on completion, completion-flag write on
/// completion, and the trigger bit.
#[derive(Clone, Copy, Debug)]
pub struct DmaPack(pub u32);

/// The DMA control word with the given fields.
pub open spec fn dma_pack_value(size_bytes: u32, write: bool, msi: bool, write_on_done: bool, trigger: bool) -> int {
    size_bytes as int + (if write { 0x10000000int } else { 0int }) + (if msi {
        0x20000000int
    } else {
        0int
    }) + (if write_on_done {
        0x40000000int
    } else {
        0int
    }) + (if trigger {
        0x80000000int
    } else {
        0int
    })
}

impl DmaPack {
    /// Pack a DMA control word.
    pub fn pack(size_bytes: u32, write: bool, msi: bool, write_on_done: bool, trigger: bool) -> (r:
        DmaPack)
        requires
            size_bytes < 0x10000000,
        ensures
            r.0 == dma_pack_value(size_bytes, write, msi, write_on_done, trigger),
    {
        let w: u32 = if write {
            1
        } else {
            0
        };
        let m: u32 = if msi {
            1
        } else {
            0
        };
        let d: u32 = if write_on_done {
            1
        } else {
            0
        };
        let t: u32 = if trigger {
            1
        } else {
            0
        };
        DmaPack(size_bytes + w * 0x10000000 + m * 0x20000000 + d * 0x40000000 + t * 0x80000000)
    }

    /// The transfer size.
    pub fn size_bytes(&self) -> (r: u32)
        ensures
            r == self.0 % 0x10000000,
    {
        self.0 % 0x10000000
    }

    /// Whether the transfer goes from host to chip.
    pub fn write(&self) -> (r: bool)
        ensures
            r == (self.0 / 0x10000000 % 2 == 1),
    {
        self.0 / 0x10000000 % 2 == 1
    }

    /// Whether the transfer is triggered.
    pub fn trigger(&self) -> (r: bool)
        ensures
            r == (self.0 / 0x80000000u32 == 1),
    {
        self.0 / 0x80000000u32 == 1
    }
}

/// A DMA request as the ARC firmware reads it from the CSM.
#[derive(Debug)]
pub struct ArcPcieCtrlDmaRequest {
    pub chip_addr: u32,
    pub host_phys_addr_lo: u32,
    pub completion_flag_phys_addr: u32,
    pub dma_pack: DmaPack,
    pub repeat: u32,
}

/// How DMA is set up for a device.
#[derive(Clone, Copy, Debug)]
pub struct DmaConfig {
    pub csm_pcie_ctrl_dma_request_offset: u32,
    pub arc_misc_cntl_addr: u32,
    pub dma_host_phys_addr_high: u32,
    pub support_64_bit_dma: bool,
    pub use_msi_for_dma: bool,
    pub read_threshold: u32,
    pub write_threshold: u32,
}

/// Why a DMA request cannot be made.
#[derive(Clone, Copy, Debug, PartialEq, Eq, Structural)]
pub enum DmaRequestError {
    /// The host buffer lies above 4 GiB and the device cannot reach it.
    No64bitDma,
    /// The transfer does not fit the 28-bit size field.
    DmaTooLarge,
}

/// The request for a DMA transfer of `size` bytes between chip address
/// `chip_addr` and the host buffer at `host_buffer_addr`; `write` is host to chip.
pub fn make_dma_request(
    config: &DmaConfig,
    chip_addr: u32,
    host_buffer_addr: u64,
    completion_flag_addr: u64,
    size: u32,
    write: bool,
) -> (r: Result<ArcPcieCtrlDmaRequest, DmaRequestError>)
    ensures
        (host_buffer_addr / 0x100000000 != 0 && !config.support_64_bit_dma) ==> r
            == Err::<ArcPcieCtrlDmaRequest, DmaRequestError>(DmaRequestError::No64bitDma),
        !(host_buffer_addr / 0x100000000 != 0 && !config.support_64_bit_dma) && size
            >= 0x10000000 ==> r == Err::<ArcPcieCtrlDmaRequest, DmaRequestError>(
            DmaRequestError::DmaTooLarge,
        ),
        !(host_buffer_addr / 0x100000000 != 0 && !config.support_64_bit_dma) && size < 0x10000000
            ==> {
            &&& r matches Ok(req)
            &&& req.chip_addr == chip_addr
            &&& req.host_phys_addr_lo == host_buffer_addr % 0x100000000
            &&& req.completion_flag_phys_addr == completion_flag_addr % 0x100000000
            &&& req.dma_pack.0 == dma_pack_value(
                size,
                write,
                config.use_msi_for_dma,
                !config.use_msi_for_dma,
                true,
            )
            &&& req.repeat == (if host_buffer_addr / 0x100000000 != 0 {
                0x80000001u32
            } else {
                1u32
            })
        },
{
    let hi = (host_buffer_addr / 0x100000000) as u32;
    if hi != 0 && !config.support_64_bit_dma {
        return Err(DmaRequestError::No64bitDma);
    }
    if size > 0x0fff_ffff {
        return Err(DmaRequestError::DmaTooLarge);
    }
    Ok(
        ArcPcieCtrlDmaRequest {
            chip_addr,
            host_phys_addr_lo: (host_buffer_addr % 0x100000000) as u32,
            completion_flag_phys_addr: (completion_flag_addr % 0x100000000) as u32,
            dma_pack: DmaPack::pack(
                size,
                write,
                config.use_msi_for_dma,
                !config.use_msi_for_dma,
                true,
            ),
            repeat: if hi != 0 {
                0x80000001
            } else {
                1
            },
        },
    )
}

/// PCI identity of a device.
#[derive(Clone, Copy, Debug)]
pub struct PhysicalDevice {
    pub vendor_id: u16,
    pub device_id: u16,
    pub subsystem_vendor_id: u16,
    pub subsystem_id: u16,
    pub pci_bus: u16,
    pub slot: u16,
    pub pci_function: u16,
    pub pci_domain: u16,
}

/// Split a PCI bus/device/function word into bus, slot and function.
pub fn split_bus_dev_fn(bus_dev_fn: u16) -> (r: (u16, u16, u16))
    ensures
        r == ((bus_dev_fn / 0x100) as u16, (bus_dev_fn / 8 % 0x20) as u16, (bus_dev_fn % 8) as u16),
{
    let b = bus_dev_fn;
    (b / 0x100, b / 8 % 0x20, b % 8)
}

/// The size asked of the driver for a DMA buffer: the requested size capped
/// at the device's largest buffer, but at least a page.
pub fn dma_request_size(size: u32, max_dma_buf_size_log2: u32, page_size: u32) -> (r: u32)
    requires
        max_dma_buf_size_log2 < 32,
    ensures
        ({
            let cap = vstd::arithmetic::power2::pow2(max_dma_buf_size_log2 as nat);
            let capped = if size < cap {
                size as int
            } else {
                cap as int
            };
            r == if capped > page_size {
                capped
            } else {
                page_size as int
            }
        }),
{
    let cap: u32 = 1u32 << max_dma_buf_size_log2;
    proof {
        vstd::bits::lemma_u32_pow2_no_overflow(max_dma_buf_size_log2 as nat);
        vstd::bits::lemma_u32_shl_is_mul(1, max_dma_buf_size_log2);
        vstd::arithmetic::power2::lemma_pow2_pos(max_dma_buf_size_log2 as nat);
    }
    let capped = if size < cap {
        size
    } else {
        cap
    };
    if capped > page_size {
        capped
    } else {
        page_size
    }
}

/// `size` rounded up to a multiple of the page size (a power of two).
pub fn page_align(size: u32, page_size: u32) -> (r: u32)
    requires
        page_size > 0,
        size + page_size - 1 <= u32::MAX,
    ensures
        r == (size + page_size - 1) as u32 & !((page_size - 1) as u32),
{
    let m: u32 = page_size - 1;
    (size + m) & !m
}

/// After a failed allocation of `size` bytes: the next size to try (half,
/// but not below the smallest acceptable size), or `None` when `size` was
/// already the smallest.
pub fn next_dma_size(size: u32, min_size: u32) -> (r: Option<u32>)
    ensures
        size <= min_size ==> r is None,
        size > min_size ==> r == Some(
            if size / 2 > min_size {
                (size / 2) as u32
            } else {
                min_size
            },
        ),
{
    if size <= min_size {
        None
    } else {
        let half = size / 2;
        Some(
            if half > min_size {
                half
            } else {
                min_size
            },
        )
    }
}

/// Where a target address falls in an allocated TLB window of `size` bytes:
/// the window address (the target with its offset bits cleared), the offset
/// into the window, and the bytes of the window from there on.
pub fn allocated_window(local_offset: u64, size: u64) -> (r: (u64, u64, u64))
    requires
        size > 0,
    ensures
        r.0 == local_offset & !((size - 1) as u64),
        r.1 == local_offset & ((size - 1) as u64),
        r.2 == size - r.1,
        r.1 < size,
{
    let mask = size - 1;
    let offset = local_offset & mask;
    assert(local_offset & mask <= mask) by (bit_vector);
    (local_offset & !mask, offset, size - offset)
}

/// Configuration handed to the driver for an allocated TLB window.
#[derive(Clone, Copy, Debug)]
pub struct NocTlbConfig {
    pub addr: u64,
    pub x_end: u16,
    pub y_end: u16,
    pub x_start: u16,
    pub y_start: u16,
    pub noc: u8,
    pub mcast: u8,
    pub ordering: u8,
    pub linked: u8,
    pub static_vc: u8,
}

/// A configuration with every field zero.
pub open spec fn noc_tlb_config_zero() -> NocTlbConfig {
    NocTlbConfig {
        addr: 0,
        x_end: 0,
        y_end: 0,
        x_start: 0,
        y_start: 0,
        noc: 0,
        mcast: 0,
        ordering: 0,
        linked: 0,
        static_vc: 0,
    }
}

impl NocTlbConfig {
    /// Whether every field is zero.
    pub open spec fn is_default(&self) -> bool {
        *self == noc_tlb_config_zero()
    }
}

impl Default for NocTlbConfig {
    fn default() -> (r: Self)
        ensures
            r.is_default(),
    {
        NocTlbConfig {
            addr: 0,
            x_end: 0,
            y_end: 0,
            x_start: 0,
            y_start: 0,
            noc: 0,
            mcast: 0,
            ordering: 0,
            linked: 0,
            static_vc: 0,
        }
    }
}

/// The driver configuration that points an allocated window of `size` bytes at `tlb`.
pub fn noc_tlb_config(tlb: &Tlb, size: u64) -> (r: NocTlbConfig)
    requires
        size > 0,
    ensures
        r.addr == tlb.local_offset & !((size - 1) as u64),
        r.x_end == tlb.x_end && r.y_end == tlb.y_end && r.x_start == tlb.x_start && r.y_start
            == tlb.y_start,
        r.noc == tlb.noc_sel,
        r.mcast == (if tlb.mcast { 1u8 } else { 0u8 }),
        r.ordering == order_to_u8(tlb.ordering),
        r.linked == (if tlb.linked { 1u8 } else { 0u8 }),
        r.static_vc == tlb.static_vc,
{
    let (addr, _, _) = allocated_window(tlb.local_offset, size);
    NocTlbConfig {
        addr,
        x_end: tlb.x_end as u16,
        y_end: tlb.y_end as u16,
        x_start: tlb.x_start as u16,
        y_start: tlb.y_start as u16,
        noc: tlb.noc_sel,
        mcast: if tlb.mcast {
            1
        } else {
            0
        },
        ordering: tlb.ordering.to_u8(),
        linked: if tlb.linked {
            1
        } else {
            0
        },
        static_vc: tlb.static_vc,
    }
}

/// Version of the kernel-mode driver: `MAJOR[.MINOR[.PATCH]][-QUIRK]`.
#[derive(Debug, PartialEq)]
pub struct DriverVersion {
    pub major: u32,
    pub minor: u32,
    pub patch: u32,
    pub quirk: Option<String>,
}

impl Default for DriverVersion {
    fn default() -> (r: DriverVersion)
        ensures
            r.major == 0 && r.minor == 0 && r.patch == 0 && r.quirk is None,
    {
        DriverVersion { major: 0, minor: 0, patch: 0, quirk: None }
    }
}

/// Whether two quirks are the same text (or both absent).
pub open spec fn same_quirk(a: Option<String>, b: Option<String>) -> bool {
    match (a, b) {
        (None, None) => true,
        (Some(x), Some(y)) => x@ == y@,
        _ => false,
    }
}

/// How two driver versions compare: by major, then minor, then patch
/// number; versions with the same numbers are equal when their quirks are
/// the same, and unordered otherwise.
pub open spec fn version_order(a: DriverVersion, b: DriverVersion) -> Option<std::cmp::Ordering> {
    if a.major != b.major {
        Some(if a.major < b.major { std::cmp::Ordering::Less } else { std::cmp::Ordering::Greater })
    } else if a.minor != b.minor {
        Some(if a.minor < b.minor { std::cmp::Ordering::Less } else { std::cmp::Ordering::Greater })
    } else if a.patch != b.patch {
        Some(if a.patch < b.patch { std::cmp::Ordering::Less } else { std::cmp::Ordering::Greater })
    } else if same_quirk(a.quirk, b.quirk) {
        Some(std::cmp::Ordering::Equal)
    } else {
        None
    }
}

fn numbers_order(a: u32, b: u32) -> (r: std::cmp::Ordering)
    ensures
        a < b ==> r == std::cmp::Ordering::Less,
        a > b ==> r == std::cmp::Ordering::Greater,
        a == b ==> r == std::cmp::Ordering::Equal,
{
    if a < b {
        std::cmp::Ordering::Less
    } else if a > b {
        std::cmp::Ordering::Greater
    } else {
        std::cmp::Ordering::Equal
    }
}

impl DriverVersion {
    /// Compare two driver versions (the ordering the driver's versions
    /// follow; see `version_order`).
    pub fn version_cmp(&self, other: &DriverVersion) -> (r: Option<std::cmp::Ordering>)
        ensures
            r == version_order(*self, *other),
    {
        if self.major != other.major {
            return Some(numbers_order(self.major, other.major));
        }
        if self.minor != other.minor {
            return Some(numbers_order(self.minor, other.minor));
        }
        if self.patch != other.patch {
            return Some(numbers_order(self.patch, other.patch));
        }
        let same = match (&self.quirk, &other.quirk) {
            (None, None) => true,
            (Some(x), Some(y)) => *x == *y,
            _ => false,
        };
        if same {
            Some(std::cmp::Ordering::Equal)
        } else {
            None
        }
    }
}

/// The device number a device node's name gives, if it is a number.
pub open spec fn device_number(name: Seq<char>) -> Option<usize> {
    match parse_unsigned(name, usize::MAX as int) {
        Some(v) => Some(v as usize),
        None => None,
    }
}

/// The device numbers of the names that are numbers, in order.
pub open spec fn device_numbers(names: Seq<String>) -> Seq<usize>
    decreases names.len(),
{
    if names.len() == 0 {
        Seq::empty()
    } else {
        let rest = device_numbers(names.drop_last());
        match device_number(names.last()@) {
            Some(v) => rest.push(v),
            None => rest,
        }
    }
}

/// Whether `s` is in ascending order.
pub open spec fn ascending(s: Seq<usize>) -> bool {
    forall|i: int, j: int| 0 <= i < j < s.len() ==> s[i] <= s[j]
}

fn insert_sorted(v: &mut Vec<usize>, x: usize)
    requires
        ascending(old(v)@),
    ensures
        ascending(final(v)@),
        final(v)@.to_multiset() == old(v)@.to_multiset().insert(x),
{
    let mut j: usize = 0;
    while j < v.len() && v[j] <= x
        invariant
            j <= v@.len(),
            forall|k: int| 0 <= k < j ==> v@[k] <= x,
        decreases v@.len() - j,
    {
        j = j + 1;
    }
    let ghost before = v@;
    proof {
        vstd::seq_lib::to_multiset_insert(before, j as int, x);
    }
    v.insert(j, x);
    assert forall|a: int, b: int| 0 <= a < b < v@.len() implies v@[a] <= v@[b] by {
        if b < j {
        } else if a < j && b == j {
        } else if a < j {
            assert(v@[b] == before[b - 1]);
            if j < before.len() {
                assert(before[j as int] > x);
                assert(before[j as int] <= before[b - 1]);
            }
        } else if a == j {
            assert(v@[b] == before[b - 1]);
            assert(before[j as int] > x);
            assert(before[j as int] <= before[b - 1]);
        } else {
            assert(v@[a] == before[a - 1] && v@[b] == before[b - 1]);
        }
    }
}

/// The numbers of the device nodes named `names`, in ascending order;
/// names that are not numbers are left out.
pub fn device_ids(names: &Vec<String>) -> (r: Vec<usize>)
    ensures
        ascending(r@),
        r@.to_multiset() == device_numbers(names@).to_multiset(),
{
    let mut out: Vec<usize> = Vec::new();
    let mut i: usize = 0;
    proof {
        assert(names@.subrange(0, 0) =~= Seq::<String>::empty());
        assert(out@ =~= Seq::<usize>::empty());
    }
    while i < names.len()
        invariant
            i <= names@.len(),
            ascending(out@),
            out@.to_multiset() == device_numbers(names@.subrange(0, i as int)).to_multiset(),
        decreases names@.len() - i,
    {
        let chars = chars_of(names[i].as_str());
        let n = chars.len();
        let ghost pre = names@.subrange(0, i as int);
        assert(names@.subrange(0, i + 1).drop_last() =~= pre);
        assert(chars@.subrange(0, n as int) =~= names@[i as int]@);
        match parse_u64(&chars, 0, n) {
            Some(x) => {
                if x <= usize::MAX as u64 {
                    proof {
                        vstd::seq_lib::to_multiset_build(device_numbers(pre), x as usize);
                    }
                    insert_sorted(&mut out, x as usize);
                }
            },
            None => {},
        }
        i = i + 1;
    }
    assert(names@.subrange(0, i as int) =~= names@);
    out
}

/// A version number part: its value when it reads as a `u32`, else 0.
pub open spec fn version_part(s: Seq<char>) -> u32 {
    match parse_unsigned(s, u32::MAX as int) {
        Some(v) => v as u32,
        None => 0,
    }
}

/// The version text before the first `-`.
pub open spec fn version_text(s: Seq<char>) -> Seq<char> {
    before_char(s, '-')
}

/// The `.`-separated parts of the version: the first part, the second (if
/// there is a `.`), and the rest after a second `.` (if there is one).
pub open spec fn driver_version_numbers(s: Seq<char>) -> (u32, u32, u32) {
    let v = version_text(s);
    let rest = after_char(v, '.');
    (
        version_part(before_char(v, '.')),
        if has_char(v, '.') {
            version_part(before_char(rest, '.'))
        } else {
            0
        },
        if has_char(v, '.') && has_char(rest, '.') {
            version_part(after_char(rest, '.'))
        } else {
            0
        },
    )
}

/// Whether a parsed version matches the version text `s` (already trimmed):
/// numbers that do not read as numbers count as 0, and the text after the
/// first `-` is the quirk.
pub open spec fn driver_version_matches(r: DriverVersion, s: Seq<char>) -> bool {
    let (major, minor, patch) = driver_version_numbers(s);
    &&& r.major == major
    &&& r.minor == minor
    &&& r.patch == patch
    &&& if has_char(s, '-') {
        r.quirk matches Some(q) && q@ == after_char(s, '-')
    } else {
        r.quirk is None
    }
}

fn parse_part(v: &Vec<char>, from: usize, to: usize) -> (r: u32)
    requires
        from <= to <= v@.len(),
    ensures
        r == version_part(v@.subrange(from as int, to as int)),
{
    match parse_u64(v, from, to) {
        Some(x) => if x <= u32::MAX as u64 {
            x as u32
        } else {
            0
        },
        None => 0,
    }
}

/// Parse driver version text with no surrounding white space.
pub fn driver_version_parse_trimmed(version: &str) -> (r: DriverVersion)
    ensures
        driver_version_matches(r, version@),
{
    let chars = chars_of(version);
    let n = chars.len();
    let dash = find_char(&chars, 0, n, '-');
    let ghost s = version@;
    proof {
        assert(chars@.subrange(0, n as int) =~= s);
        lemma_first_index_bounds(s, '-');
        assert(chars@.subrange(0, dash as int) =~= version_text(s));
    }
    let quirk = if dash < n {
        proof {
            assert(chars@.subrange(dash + 1, n as int) =~= after_char(s, '-'));
        }
        Some(version.substring_char(dash + 1, n).to_owned())
    } else {
        None
    };
    let ghost v = version_text(s);
    let dot1 = find_char(&chars, 0, dash, '.');
    proof {
        lemma_first_index_bounds(v, '.');
        assert(chars@.subrange(0, dot1 as int) =~= before_char(v, '.'));
    }
    let major = parse_part(&chars, 0, dot1);
    let mut minor: u32 = 0;
    let mut patch: u32 = 0;
    if dot1 < dash {
        let ghost rest = after_char(v, '.');
        assert(chars@.subrange(dot1 + 1, dash as int) =~= rest);
        let dot2 = find_char(&chars, dot1 + 1, dash, '.');
        proof {
            lemma_first_index_bounds(rest, '.');
            assert(chars@.subrange(dot1 + 1, dot2 as int) =~= before_char(rest, '.'));
        }
        minor = parse_part(&chars, dot1 + 1, dot2);
        if dot2 < dash {
            assert(chars@.subrange(dot2 + 1, dash as int) =~= after_char(rest, '.'));
            patch = parse_part(&chars, dot2 + 1, dash);
        }
    }
    DriverVersion { major, minor, patch, quirk }
}

/// Whether `c` has the Unicode White_Space property.
pub open spec fn is_white_space(c: char) -> bool {
    let u = c as u32;
    (0x9 <= u <= 0xd) || u == 0x20 || u == 0x85 || u == 0xa0 || u == 0x1680 || (0x2000 <= u
        <= 0x200a) || u == 0x2028 || u == 0x2029 || u == 0x202f || u == 0x205f || u == 0x3000
}

/// `s` without its leading white space.
pub open spec fn trim_start_ws(s: Seq<char>) -> Seq<char>
    decreases s.len(),
{
    if s.len() > 0 && is_white_space(s[0]) {
        trim_start_ws(s.drop_first())
    } else {
        s
    }
}

/// `s` without its trailing white space.
pub open spec fn trim_end_ws(s: Seq<char>) -> Seq<char>
    decreases s.len(),
{
    if s.len() > 0 && is_white_space(s.last()) {
        trim_end_ws(s.drop_last())
    } else {
        s
    }
}

/// `s` without leading and trailing white space.
pub open spec fn trimmed(s: Seq<char>) -> Seq<char> {
    trim_end_ws(trim_start_ws(s))
}

proof fn lemma_trim_start_at(s: Seq<char>, i: int)
    requires
        0 <= i <= s.len(),
        forall|j: int| 0 <= j < i ==> is_white_space(s[j]),
        i == s.len() || !is_white_space(s[i]),
    ensures
        trim_start_ws(s) == s.subrange(i, s.len() as int),
    decreases i,
{
    if i == 0 {
        assert(s.subrange(0, s.len() as int) =~= s);
    } else {
        let t = s.drop_first();
        assert forall|j: int| 0 <= j < i - 1 implies is_white_space(t[j]) by {
            assert(t[j] == s[j + 1]);
        }
        if i < s.len() {
            assert(t[i - 1] == s[i]);
        }
        lemma_trim_start_at(t, i - 1);
        assert(t.subrange(i - 1, t.len() as int) =~= s.subrange(i, s.len() as int));
    }
}

proof fn lemma_trim_end_at(s: Seq<char>, e: int)
    requires
        0 <= e <= s.len(),
        forall|j: int| e <= j < s.len() ==> is_white_space(s[j]),
        e == 0 || !is_white_space(s[e - 1]),
    ensures
        trim_end_ws(s) == s.subrange(0, e),
    decreases s.len() - e,
{
    if e == s.len() {
        assert(s.subrange(0, e) =~= s);
    } else {
        let t = s.drop_last();
        assert forall|j: int| e <= j < t.len() implies is_white_space(t[j]) by {
            assert(t[j] == s[j]);
        }
        if e > 0 {
            assert(t[e - 1] == s[e - 1]);
        }
        lemma_trim_end_at(t, e);
        assert(t.subrange(0, e) =~= s.subrange(0, e));
    }
}

fn white_space(c: char) -> (r: bool)
    ensures
        r == is_white_space(c),
{
    let u = c as u32;
    (0x9 <= u && u <= 0xd) || u == 0x20 || u == 0x85 || u == 0xa0 || u == 0x1680 || (0x2000 <= u
        && u <= 0x200a) || u == 0x2028 || u == 0x2029 || u == 0x202f || u == 0x205f || u == 0x3000
}

/// The text without leading and trailing white space, as `str::trim`
/// gives it.
pub fn trim_str(s: &str) -> (r: &str)
    ensures
        r@ == trimmed(s@),
{
    let n = s.unicode_len();
    let mut i: usize = 0;
    while i < n && white_space(s.get_char(i))
        invariant
            n == s@.len(),
            i <= n,
            forall|j: int| 0 <= j < i ==> is_white_space(s@[j]),
        decreases n - i,
    {
        i = i + 1;
    }
    proof {
        lemma_trim_start_at(s@, i as int);
    }
    let ghost t = s@.subrange(i as int, n as int);
    let mut e: usize = n;
    while e > i && white_space(s.get_char(e - 1))
        invariant
            n == s@.len(),
            i <= e <= n,
            t == s@.subrange(i as int, n as int),
            forall|j: int| e <= j < n ==> is_white_space(s@[j]),
        decreases e - i,
    {
        e = e - 1;
    }
    proof {
        assert forall|j: int| e - i <= j < t.len() implies is_white_space(t[j]) by {
            assert(t[j] == s@[i + j]);
        }
        if e > i {
            assert(t[e - i - 1] == s@[e - 1]);
        }
        lemma_trim_end_at(t, e - i);
        assert(t.subrange(0, e - i) =~= s@.subrange(i as int, e as int));
    }
    s.substring_char(i, e)
}

/// Parse the driver version text reported by the kernel: surrounding white
/// space is dropped first.
pub fn driver_version_parse(version: &str) -> (r: DriverVersion)
    ensures
        driver_version_matches(r, trimmed(version@)),
{
    driver_version_parse_trimmed(trim_str(version))
}

/// Reading the fields of a packed DMA control word gives back what was
/// packed: the size, the direction and the trigger bit.
pub proof fn lemma_dma_pack_fields(size_bytes: u32, write: bool, msi: bool, write_on_done: bool, trigger: bool)
    requires
        size_bytes < 0x10000000,
    ensures
        ({
            let v = dma_pack_value(size_bytes, write, msi, write_on_done, trigger);
            &&& v % 0x10000000 == size_bytes
            &&& (v / 0x10000000 % 2 == 1) == write
            &&& (v / 0x80000000 == 1) == trigger
        }),
{
    let v = dma_pack_value(size_bytes, write, msi, write_on_done, trigger);
    let w: int = if write { 1 } else { 0 };
    let m: int = if msi { 1 } else { 0 };
    let d: int = if write_on_done { 1 } else { 0 };
    let t: int = if trigger { 1 } else { 0 };
    assert(v == size_bytes + w * 0x10000000 + m * 0x20000000 + d * 0x40000000 + t * 0x80000000);
    assert(v % 0x10000000 == size_bytes && v / 0x10000000 % 2 == w && v / 0x80000000 == t) by (nonlinear_arith)
        requires
            v == size_bytes + w * 0x10000000 + m * 0x20000000 + d * 0x40000000 + t * 0x80000000,
            0 <= size_bytes < 0x10000000,
            0 <= w <= 1,
            0 <= m <= 1,
            0 <= d <= 1,
            0 <= t <= 1,
    ;
}

/// The ordering read the other way round.
pub open spec fn reversed(o: Option<std::cmp::Ordering>) -> Option<std::cmp::Ordering> {
    match o {
        Some(std::cmp::Ordering::Less) => Some(std::cmp::Ordering::Greater),
        Some(std::cmp::Ordering::Greater) => Some(std::cmp::Ordering::Less),
        other => other,
    }
}

/// Comparing two driver versions the other way round gives the reversed
/// answer, and a version is equal to itself.
pub proof fn lemma_version_order_antisymmetric(a: DriverVersion, b: DriverVersion)
    ensures
        version_order(b, a) == reversed(version_order(a, b)),
        version_order(a, a) == Some(std::cmp::Ordering::Equal),
{
}

} // verus!
