//! How a host-side device handle turns chip accesses into TLB windows: the
//! NOC grid of each generation, the default window it claims, and the
//! windows for unicast, broadcast, multicast and ethernet-core accesses.
use vstd::prelude::*;
use crate::kmd::{Arch, PhysicalDevice};
use crate::tlb::{tlb_default, Tlb};

verus! {

/// Columns and rows of the NOC grid.
pub open spec fn grid_size_spec(arch: Arch) -> (u8, u8) {
    match arch {
        Arch::Grayskull => (13, 12),
        Arch::Wormhole => (10, 12),
        Arch::Blackhole => (17, 12),
    }
}

/// Columns and rows of the NOC grid of a chip of `arch`.
pub fn grid_size(arch: Arch) -> (r: (u8, u8))
    ensures
        r == grid_size_spec(arch),
{
    match arch {
        Arch::Grayskull => (13, 12),
        Arch::Wormhole => (10, 12),
        Arch::Blackhole => (17, 12),
    }
}

/// The window a device handle uses for its accesses.
#[derive(Clone, Copy, Debug, PartialEq, Eq, Structural)]
pub enum DefaultTlb {
    /// Ask the driver for a window of this many bytes.
    Allocate(u64),
    /// Use the fixed window with this index.
    Hardcoded(u32),
}

/// Which window a device takes: drivers from version 2 on hand out
/// windows on Wormhole (16 MiB) and Blackhole (2 MiB); otherwise a fixed
/// window is used (index 184, or 190 on Blackhole).
pub fn default_tlb(arch: Arch, driver_version: u32) -> (r: DefaultTlb)
    ensures
        arch == Arch::Wormhole && driver_version >= 2 ==> r == DefaultTlb::Allocate(0x1000000),
        arch == Arch::Blackhole && driver_version >= 2 ==> r == DefaultTlb::Allocate(0x200000),
        arch == Arch::Grayskull || driver_version < 2 ==> r == DefaultTlb::Hardcoded(
            if arch == Arch::Blackhole {
                190u32
            } else {
                184u32
            },
        ),
{
    if arch != Arch::Grayskull && driver_version >= 2 {
        if arch == Arch::Wormhole {
            DefaultTlb::Allocate(0x1000000)
        } else {
            DefaultTlb::Allocate(0x200000)
        }
    } else {
        match arch {
            Arch::Blackhole => DefaultTlb::Hardcoded(190),
            _ => DefaultTlb::Hardcoded(184),
        }
    }
}

/// The lowest NOC coordinate a broadcast or multicast may start at.
pub open spec fn grid_origin_spec(arch: Arch) -> (u8, u8) {
    match arch {
        Arch::Grayskull => (0, 0),
        Arch::Wormhole => (1, 0),
        Arch::Blackhole => (0, 1),
    }
}

fn grid_origin(arch: Arch) -> (r: (u8, u8))
    ensures
        r == grid_origin_spec(arch),
{
    match arch {
        Arch::Grayskull => (0, 0),
        Arch::Wormhole => (1, 0),
        Arch::Blackhole => (0, 1),
    }
}

/// The window for an access to address `addr` of the NOC node (`x`, `y`).
pub fn unicast_tlb(noc_id: u8, x: u8, y: u8, addr: u64) -> (r: Tlb)
    ensures
        r == (Tlb { local_offset: addr, x_end: x, y_end: y, noc_sel: noc_id, mcast: false, ..tlb_default() }),
{
    Tlb { local_offset: addr, x_end: x, y_end: y, noc_sel: noc_id, mcast: false, ..Tlb::default() }
}

/// The window for a write to address `addr` of every node of the grid,
/// from the grid's origin to its far corner.
pub fn broadcast_tlb(arch: Arch, grid: (u8, u8), noc_id: u8, addr: u64) -> (r: Tlb)
    requires
        grid.0 >= 1 && grid.1 >= 1,
    ensures
        r == (Tlb {
            local_offset: addr,
            x_start: grid_origin_spec(arch).0,
            y_start: grid_origin_spec(arch).1,
            x_end: (grid.0 - 1) as u8,
            y_end: (grid.1 - 1) as u8,
            noc_sel: noc_id,
            mcast: true,
            ..tlb_default()
        }),
{
    let (x_start, y_start) = grid_origin(arch);
    Tlb {
        local_offset: addr,
        x_start,
        y_start,
        x_end: grid.0 - 1,
        y_end: grid.1 - 1,
        noc_sel: noc_id,
        mcast: true,
        ..Tlb::default()
    }
}

/// The window for a write to address `addr` of the nodes of a rectangle;
/// its start is moved up to the grid's origin where it lies below it.
pub fn multicast_tlb(arch: Arch, noc_id: u8, start: (u8, u8), end: (u8, u8), addr: u64) -> (r: Tlb)
    ensures
        r == (Tlb {
            local_offset: addr,
            x_start: if start.0 > grid_origin_spec(arch).0 { start.0 } else { grid_origin_spec(arch).0 },
            y_start: if start.1 > grid_origin_spec(arch).1 { start.1 } else { grid_origin_spec(arch).1 },
            x_end: end.0,
            y_end: end.1,
            noc_sel: noc_id,
            mcast: true,
            ..tlb_default()
        }),
{
    let (min_x, min_y) = grid_origin(arch);
    let x_start = if start.0 > min_x {
        start.0
    } else {
        min_x
    };
    let y_start = if start.1 > min_y {
        start.1
    } else {
        min_y
    };
    Tlb {
        local_offset: addr,
        x_start,
        y_start,
        x_end: end.0,
        y_end: end.1,
        noc_sel: noc_id,
        mcast: true,
        ..Tlb::default()
    }
}

/// Address, on the local ethernet core, of the word that holds the address
/// of its command queues.
pub const COMMAND_Q_ADDR_PTR: u64 = 0x170;

/// The window for an access to address `addr` of the local ethernet core
/// at (`eth_x`, `eth_y`), on NOC 0.
pub fn eth_core_tlb(eth_x: u8, eth_y: u8, addr: u64) -> (r: Tlb)
    ensures
        r == (Tlb { local_offset: addr, noc_sel: 0, x_end: eth_x, y_end: eth_y, ..tlb_default() }),
{
    Tlb { local_offset: addr, noc_sel: 0, x_end: eth_x, y_end: eth_y, ..Tlb::default() }
}

/// What the host knows of a device: how it was opened and its PCI identity.
#[derive(Clone, Copy, Debug)]
pub struct DeviceInfo {
    pub interface_id: u32,
    pub domain: u16,
    pub bus: u16,
    pub slot: u16,
    pub function: u16,
    pub vendor: u16,
    pub device_id: u16,
    pub bar_size: Option<u64>,
    pub board_id: u16,
}

/// The information of the device opened as interface `id`, with PCI
/// identity `physical` and BAR of `bar_size` bytes where it is mapped; the
/// board id is the PCI subsystem id.
pub fn device_info(id: usize, physical: &PhysicalDevice, bar_size: Option<u64>) -> (r: DeviceInfo)
    ensures
        r.interface_id == (id as int) % 0x100000000,
        r.domain == physical.pci_domain,
        r.bus == physical.pci_bus,
        r.slot == physical.slot,
        r.function == physical.pci_function,
        r.vendor == physical.vendor_id,
        r.device_id == physical.device_id,
        r.bar_size == bar_size,
        r.board_id == physical.subsystem_id,
{
    DeviceInfo {
        interface_id: (id as u64 % 0x100000000) as u32,
        domain: physical.pci_domain,
        bus: physical.pci_bus,
        slot: physical.slot,
        function: physical.pci_function,
        vendor: physical.vendor_id,
        device_id: physical.device_id,
        bar_size,
        board_id: physical.subsystem_id,
    }
}

} // verus!
