//! How a device's BARs are mapped: which of the driver's mappings serves
//! each window, how much of BAR 0 is write-combined, and where register
//! reads are checked for a lost device.
use vstd::prelude::*;
use crate::ioctl::Mapping;
use crate::kmd::Arch;
use crate::mmio::BarLayout;

verus! {

/// Largest DMA transfer buffer asked of the driver.
pub const MAX_DMA_BYTES: u32 = 0x400000;

/// Bytes at the start of BAR 0 mapped write-combined on Grayskull and
/// Wormhole: the 1 MiB, 2 MiB and 16 MiB TLB windows.
pub const GS_BAR0_WC_MAPPING_SIZE: u64 = 0x1D000000;

/// Bytes at the start of BAR 0 mapped write-combined on Blackhole: its
/// 2 MiB TLB windows.
pub const BH_BAR0_WC_MAPPING_SIZE: u64 = 0x17800000;

/// A scratch register of the ARC that never reads all ones on a working
/// Grayskull or Wormhole.
pub const GS_WH_ARC_SCRATCH6_ADDR: u32 = 0x1ff30078;

/// The NOC node id register that never reads all ones on a working Blackhole.
pub const BH_NOC_NODE_ID_OFFSET: u32 = 0x1FD04044;

/// Where Wormhole's system registers start in BAR 0 (496 MiB).
pub const WH_SYSTEM_REG_START: u32 = 0x1F000000;

/// How far below the BAR 0 address the first system register of Wormhole
/// sits in its own mapping (480 MiB).
pub const WH_SYSTEM_REG_ADJUST: u32 = 0x1E000000;

/// The register that is read again when a read returns all ones.
pub fn read_checking_addr(arch: Arch) -> (r: u32)
    ensures
        r == if arch == Arch::Blackhole {
            BH_NOC_NODE_ID_OFFSET
        } else {
            GS_WH_ARC_SCRATCH6_ADDR
        },
{
    if arch.is_blackhole() {
        BH_NOC_NODE_ID_OFFSET
    } else {
        GS_WH_ARC_SCRATCH6_ADDR
    }
}

/// The write-combined part of BAR 0 of a chip of `arch`.
pub fn wc_mapping_size(arch: Arch) -> (r: u64)
    ensures
        r == if arch == Arch::Blackhole {
            BH_BAR0_WC_MAPPING_SIZE
        } else {
            GS_BAR0_WC_MAPPING_SIZE
        },
{
    if arch.is_blackhole() {
        BH_BAR0_WC_MAPPING_SIZE
    } else {
        GS_BAR0_WC_MAPPING_SIZE
    }
}

/// The mappings the driver offers for each BAR window; a window the driver
/// does not offer is `None`.
#[derive(Clone, Copy, Debug)]
pub struct SelectedMappings {
    pub bar0_uc: Option<Mapping>,
    pub bar0_wc: Option<Mapping>,
    pub bar1_uc: Option<Mapping>,
    pub bar2_uc: Option<Mapping>,
}

/// The last mapping among `mappings` with id `id`, if any.
pub open spec fn last_with_id(mappings: Seq<Mapping>, id: u32) -> Option<Mapping>
    decreases mappings.len(),
{
    if mappings.len() == 0 {
        None
    } else if mappings.last().mapping_id == id {
        Some(mappings.last())
    } else {
        last_with_id(mappings.drop_last(), id)
    }
}

/// Sort the first `count` mappings the driver returned by window; where an
/// id occurs twice the later one is taken.
pub fn select_mappings(mappings: &[Mapping], count: usize) -> (r: SelectedMappings)
    requires
        count <= mappings@.len(),
    ensures
        r.bar0_uc == last_with_id(mappings@.subrange(0, count as int), 1),
        r.bar0_wc == last_with_id(mappings@.subrange(0, count as int), 2),
        r.bar1_uc == last_with_id(mappings@.subrange(0, count as int), 3),
        r.bar2_uc == last_with_id(mappings@.subrange(0, count as int), 5),
{
    let mut r = SelectedMappings { bar0_uc: None, bar0_wc: None, bar1_uc: None, bar2_uc: None };
    let mut i: usize = 0;
    while i < count
        invariant
            i <= count <= mappings@.len(),
            r.bar0_uc == last_with_id(mappings@.subrange(0, i as int), 1),
            r.bar0_wc == last_with_id(mappings@.subrange(0, i as int), 2),
            r.bar1_uc == last_with_id(mappings@.subrange(0, i as int), 3),
            r.bar2_uc == last_with_id(mappings@.subrange(0, i as int), 5),
        decreases count - i,
    {
        let m = mappings[i];
        proof {
            assert(mappings@.subrange(0, i + 1).drop_last() =~= mappings@.subrange(0, i as int));
            assert(mappings@.subrange(0, i + 1).last() == m);
        }
        if m.mapping_id == 1 {
            r.bar0_uc = Some(m);
        } else if m.mapping_id == 2 {
            r.bar0_wc = Some(m);
        } else if m.mapping_id == 3 {
            r.bar1_uc = Some(m);
        } else if m.mapping_id == 5 {
            r.bar2_uc = Some(m);
        }
        i = i + 1;
    }
    r
}

/// How much of BAR 0 to map write-combined: the driver's write-combined
/// mapping, but no more than the generation's TLB windows.
pub fn bar0_wc_len(arch: Arch, wc: &Mapping) -> (r: u64)
    ensures
        r == if wc.mapping_size < wc_mapping_size_spec(arch) {
            wc.mapping_size
        } else {
            wc_mapping_size_spec(arch)
        },
{
    let limit = wc_mapping_size(arch);
    if wc.mapping_size < limit {
        wc.mapping_size
    } else {
        limit
    }
}

/// The write-combined part of BAR 0 of a chip of `arch`.
pub open spec fn wc_mapping_size_spec(arch: Arch) -> u64 {
    if arch == Arch::Blackhole {
        BH_BAR0_WC_MAPPING_SIZE
    } else {
        GS_BAR0_WC_MAPPING_SIZE
    }
}

/// The uncached window of BAR 0: where it starts in the driver's mapping
/// and how long it is.  When the start of BAR 0 is mapped write-combined,
/// the uncached window covers the rest; otherwise all of it.
pub fn bar0_uc_window(arch: Arch, uc: &Mapping, wc_mapped: bool) -> (r: (u64, u64))
    ensures
        wc_mapped ==> r == (
            wc_mapping_size_spec(arch),
            if uc.mapping_size > wc_mapping_size_spec(arch) {
                (uc.mapping_size - wc_mapping_size_spec(arch)) as u64
            } else {
                0u64
            },
        ),
        !wc_mapped ==> r == (0u64, uc.mapping_size),
{
    if wc_mapped {
        let wc = wc_mapping_size(arch);
        (wc, uc.mapping_size.saturating_sub(wc))
    } else {
        (0, uc.mapping_size)
    }
}

/// Where each register of BAR 0 is served from, once mapped: the uncached
/// window from `uc_offset` on, the write-combined window of `wc_len` bytes
/// if it was mapped, and on Wormhole the system registers.
pub fn bar_layout(arch: Arch, uc_offset: u64, wc_len: Option<u64>) -> (r: BarLayout)
    requires
        uc_offset <= u32::MAX,
    ensures
        r.bar0_uc_offset == uc_offset,
        r.bar0_wc_size == wc_len,
        arch == Arch::Wormhole ==> r.system_regs == Some((WH_SYSTEM_REG_START, WH_SYSTEM_REG_ADJUST)),
        arch != Arch::Wormhole ==> r.system_regs is None,
{
    BarLayout {
        bar0_uc_offset: uc_offset as u32,
        bar0_wc_size: wc_len,
        system_regs: if arch.is_wormhole() {
            Some((WH_SYSTEM_REG_START, WH_SYSTEM_REG_ADJUST))
        } else {
            None
        },
    }
}

} // verus!
