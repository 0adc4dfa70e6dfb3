//! Ethernet addressing of chips in a mesh: chip coordinates, the firmware's
//! table locations, and neighbours reported by the Ethernet cores.
use vstd::prelude::*;
use crate::axi::{table_faults, translate_spec, AxiData, AxiError, MemorySlices};
use crate::error::PlatformError;

verus! {

/// Position of a chip in a mesh of racks and shelves.
#[derive(Clone, Copy, Debug, PartialEq, Eq, Structural)]
pub struct EthAddr {
    pub shelf_x: u8,
    pub shelf_y: u8,
    pub rack_x: u8,
    pub rack_y: u8,
}

/// A chip's coordinate in a mesh, under the name the older interface uses.
pub type EthCoord = EthAddr;

/// The coordinate a chip reports about itself: rack x, rack y, shelf x and
/// shelf y from the low byte up.
pub open spec fn eth_addr_from_word(coord: u32) -> EthAddr {
    EthAddr {
        rack_x: (coord % 0x100) as u8,
        rack_y: (coord / 0x100 % 0x100) as u8,
        shelf_x: (coord / 0x10000 % 0x100) as u8,
        shelf_y: (coord / 0x1000000 % 0x100) as u8,
    }
}

/// Address, on the Ethernet core at NOC (9, 0), of the word holding the
/// chip's own coordinate.
pub const LOCAL_COORD_ADDR: u64 = 0x1108;

/// Decode the coordinate word a chip reports about itself.
pub fn eth_addr_from_coord(coord: u32) -> (r: EthAddr)
    ensures
        r == eth_addr_from_word(coord),
{
    EthAddr {
        rack_x: (coord % 0x100) as u8,
        rack_y: (coord / 0x100 % 0x100) as u8,
        shelf_x: (coord / 0x10000 % 0x100) as u8,
        shelf_y: (coord / 0x1000000 % 0x100) as u8,
    }
}

/// The address named by a partial coordinate `(rack x, rack y, shelf x,
/// shelf y)`: parts left out are taken from `local`.
pub fn eth_addr_with_defaults(
    partial: (Option<u8>, Option<u8>, Option<u8>, Option<u8>),
    local: EthAddr,
) -> (r: EthAddr)
    ensures
        r.rack_x == (if let Some(v) = partial.0 { v } else { local.rack_x }),
        r.rack_y == (if let Some(v) = partial.1 { v } else { local.rack_y }),
        r.shelf_x == (if let Some(v) = partial.2 { v } else { local.shelf_x }),
        r.shelf_y == (if let Some(v) = partial.3 { v } else { local.shelf_y }),
{
    EthAddr {
        rack_x: match partial.0 {
            Some(v) => v,
            None => local.rack_x,
        },
        rack_y: match partial.1 {
            Some(v) => v,
            None => local.rack_y,
        },
        shelf_x: match partial.2 {
            Some(v) => v,
            None => local.shelf_x,
        },
        shelf_y: match partial.3 {
            Some(v) => v,
            None => local.shelf_y,
        },
    }
}

/// The chip at shelf `(shelf_x, shelf_y)` of the local chip's rack.
pub fn eth_addr_on_shelf(shelf: (u8, u8), local: EthAddr) -> (r: EthAddr)
    ensures
        r == (EthAddr { shelf_x: shelf.0, shelf_y: shelf.1, ..local }),
{
    eth_addr_with_defaults((None, None, Some(shelf.0), Some(shelf.1)), local)
}

/// Addresses of the tables the Ethernet firmware keeps, which moved between
/// firmware versions.
#[derive(Clone, Copy, Debug, PartialEq, Eq, Structural)]
pub struct EthAddresses {
    pub boot_params: u64,
    pub node_info: u64,
    pub eth_conn_info: u64,
    pub debug_buf: u64,
    pub results_buf: u64,
    pub shelf_rack_routing: bool,
    pub heartbeat: u64,
    pub erisc_app: u64,
    pub erisc_app_config: u64,
}

/// The table addresses of Ethernet firmware `fw_version` (only its low 24
/// bits count).
pub open spec fn eth_addresses_spec(fw_version: u32) -> EthAddresses {
    let v = fw_version % 0x1000000;
    let (boot_params, node_info, eth_conn_info, debug_buf, results_buf, shelf_rack_routing) =
        if v >= 0x050000 {
        (0x1000u64, 0x1100u64, 0x1200u64, 0x12c0u64, 0x1ec0u64, true)
    } else if v >= 0x030000 {
        (0x1000u64, 0x1100u64, 0x1200u64, 0x1240u64, 0x1e40u64, false)
    } else {
        (0x5000u64, 0x5100u64, 0x5200u64, 0x5240u64, 0x5e40u64, false)
    };
    let (heartbeat, erisc_app, erisc_app_config) = if v >= 0x060000 {
        (0x1cu64, 0x9040u64, 0x12000u64)
    } else {
        (0x1f80u64, 0x8020u64, 0x12000u64)
    };
    EthAddresses {
        boot_params,
        node_info,
        eth_conn_info,
        debug_buf,
        results_buf,
        shelf_rack_routing,
        heartbeat,
        erisc_app,
        erisc_app_config,
    }
}

/// The table addresses by the ethernet firmware's major version (bits
/// 16..24 of the version word): the heartbeat and application words moved
/// at 6.0, the tables from 0x5000 down to 0x1000 at 3.0, and from 5.0 the
/// debug and results buffers moved and routing is by shelf and rack.
/// Only the low 24 bits of the version count.
pub proof fn lemma_eth_addresses_by_version(fw_version: u32, other: u32)
    ensures
        ({
            let a = eth_addresses_spec(fw_version);
            let major = (fw_version % 0x1000000) / 0x10000;
            &&& major >= 6 ==> a.heartbeat == 0x1c && a.erisc_app == 0x9040
            &&& major < 6 ==> a.heartbeat == 0x1f80 && a.erisc_app == 0x8020
            &&& a.erisc_app_config == 0x12000
            &&& major >= 5 ==> a.boot_params == 0x1000 && a.node_info == 0x1100 && a.eth_conn_info == 0x1200
                && a.debug_buf == 0x12c0 && a.results_buf == 0x1ec0 && a.shelf_rack_routing
            &&& 3 <= major < 5 ==> a.boot_params == 0x1000 && a.node_info == 0x1100 && a.eth_conn_info == 0x1200
                && a.debug_buf == 0x1240 && a.results_buf == 0x1e40 && !a.shelf_rack_routing
            &&& major < 3 ==> a.boot_params == 0x5000 && a.node_info == 0x5100 && a.eth_conn_info == 0x5200
                && a.debug_buf == 0x5240 && a.results_buf == 0x5e40 && !a.shelf_rack_routing
        }),
        fw_version % 0x1000000 == other % 0x1000000 ==> eth_addresses_spec(fw_version) == eth_addresses_spec(other),
{
}

impl EthAddresses {
    /// The table addresses of ethernet firmware of version `fw_version`.
    pub fn new(fw_version: u32) -> (r: Self)
        ensures
            r == eth_addresses_spec(fw_version),
    {
        let masked_version = fw_version % 0x1000000;
        let boot_params;
        let node_info;
        let eth_conn_info;
        let debug_buf;
        let results_buf;
        let shelf_rack_routing;
        let heartbeat;
        let erisc_app;
        let erisc_app_config;
        if masked_version >= 0x050000 {
            boot_params = 0x1000;
            node_info = 0x1100;
            eth_conn_info = 0x1200;
            debug_buf = 0x12c0;
            results_buf = 0x1ec0;
            shelf_rack_routing = true;
        } else if masked_version >= 0x030000 {
            boot_params = 0x1000;
            node_info = 0x1100;
            eth_conn_info = 0x1200;
            debug_buf = 0x1240;
            results_buf = 0x1e40;
            shelf_rack_routing = false;
        } else {
            boot_params = 0x5000;
            node_info = 0x5100;
            eth_conn_info = 0x5200;
            debug_buf = 0x5240;
            results_buf = 0x5e40;
            shelf_rack_routing = false;
        }
        if masked_version >= 0x060000 {
            heartbeat = 0x1c;
            erisc_app = 0x9040;
            erisc_app_config = 0x12000;
        } else {
            heartbeat = 0x1f80;
            erisc_app = 0x8020;
            erisc_app_config = 0x12000;
        }
        EthAddresses {
            boot_params,
            node_info,
            eth_conn_info,
            debug_buf,
            results_buf,
            shelf_rack_routing,
            heartbeat,
            erisc_app,
            erisc_app_config,
        }
    }
}

/// A chip on the other end of one of our Ethernet links.
#[derive(Clone, Copy, Debug)]
pub struct NeighbouringChip {
    pub local_noc_addr: (u8, u8),
    pub remote_noc_addr: (u8, u8),
    pub eth_addr: EthAddr,
}

/// Port status of a link that never trained.
pub const ETH_UNKNOWN: u32 = 0;

/// Port status of a link with nothing connected (or whose training failed).
pub const ETH_UNCONNECTED: u32 = 1;

/// Whether a port status reports a working link.
pub fn port_connected(port_status: u32) -> (r: bool)
    ensures
        r == (port_status != ETH_UNKNOWN && port_status != ETH_UNCONNECTED),
{
    !(port_status == ETH_UNCONNECTED || port_status == ETH_UNKNOWN)
}

/// Where, on an Ethernet core, the status of port `eth_id` and the two words
/// describing the remote end (rack word, shelf word) are kept.
pub fn neighbour_info_addrs(addrs: &EthAddresses, eth_id: u64) -> (r: (u64, u64, u64))
    requires
        addrs.eth_conn_info + eth_id * 4 <= u64::MAX,
        addrs.node_info + 40 <= u64::MAX,
    ensures
        r == (
            (addrs.eth_conn_info + eth_id * 4) as u64,
            (addrs.node_info + 4 * 10) as u64,
            (addrs.node_info + 4 * 9) as u64,
        ),
{
    (addrs.eth_conn_info + eth_id * 4, addrs.node_info + 4 * 10, addrs.node_info + 4 * 9)
}

/// The neighbour described by the rack word and shelf word read on the
/// Ethernet core at `(eth_x, eth_y)`.
pub open spec fn neighbour_spec(eth_x: u8, eth_y: u8, rack_word: u32, shelf_word: u32) -> NeighbouringChip {
    NeighbouringChip {
        local_noc_addr: (eth_x, eth_y),
        remote_noc_addr: ((shelf_word / 0x10 % 0x40) as u8, (shelf_word / 0x400 % 0x40) as u8),
        eth_addr: EthAddr {
            shelf_x: (shelf_word / 0x10000 % 0x40) as u8,
            shelf_y: (shelf_word / 0x400000 % 0x40) as u8,
            rack_x: (rack_word % 0x100) as u8,
            rack_y: (rack_word / 0x100 % 0x100) as u8,
        },
    }
}

/// Decode the remote end of a link.
pub fn decode_neighbour(eth_x: u8, eth_y: u8, rack_word: u32, shelf_word: u32) -> (r:
    NeighbouringChip)
    ensures
        r == neighbour_spec(eth_x, eth_y, rack_word, shelf_word),
{
    let r = rack_word;
    let s = shelf_word;
    NeighbouringChip {
        local_noc_addr: (eth_x, eth_y),
        remote_noc_addr: ((s / 0x10 % 0x40) as u8, (s / 0x400 % 0x40) as u8),
        eth_addr: EthAddr {
            shelf_x: (s / 0x10000 % 0x40) as u8,
            shelf_y: (s / 0x400000 % 0x40) as u8,
            rack_x: (r % 0x100) as u8,
            rack_y: (r / 0x100 % 0x100) as u8,
        },
    }
}

/// For each Ethernet core, whether its heartbeat moved between two readings
/// (cores past the shorter reading are left out).
pub fn heartbeat_progress(initial: &Vec<u32>, current: &Vec<u32>) -> (r: Vec<bool>)
    ensures
        r@.len() == if initial@.len() < current@.len() {
            initial@.len()
        } else {
            current@.len()
        },
        forall|i: int| 0 <= i < r@.len() ==> r@[i] == (initial@[i] != current@[i]),
{
    let n = if initial.len() < current.len() {
        initial.len()
    } else {
        current.len()
    };
    let mut r: Vec<bool> = Vec::new();
    let mut i: usize = 0;
    while i < n
        invariant
            n <= initial@.len(),
            n <= current@.len(),
            i <= n,
            r@.len() == i,
            forall|k: int| 0 <= k < i ==> r@[k] == (initial@[k] != current@[k]),
        decreases n - i,
    {
        r.push(initial[i] != current[i]);
        i = i + 1;
    }
    r
}

/// Whether every core's heartbeat moved: Ethernet training has finished.
pub fn all_trained(progress: &Vec<bool>) -> (r: bool)
    ensures
        r == (forall|i: int| 0 <= i < progress@.len() ==> progress@[i]),
{
    let mut i: usize = 0;
    while i < progress.len()
        invariant
            i <= progress@.len(),
            forall|k: int| 0 <= k < i ==> progress@[k],
        decreases progress@.len() - i,
    {
        if !progress[i] {
            return false;
        }
        i = i + 1;
    }
    true
}

/// How many cores two heartbeat readings cover.
pub open spec fn readings_len(initial: Seq<u32>, current: Seq<u32>) -> int {
    if initial.len() < current.len() {
        initial.len() as int
    } else {
        current.len() as int
    }
}

/// Whether every heartbeat covered by both readings moved.
pub open spec fn heartbeats_moved(initial: Seq<u32>, current: Seq<u32>) -> bool {
    forall|i: int| 0 <= i < readings_len(initial, current) ==> initial[i] != current[i]
}

/// Whether `v` says, core by core, which heartbeats moved.
pub open spec fn is_progress(v: Seq<bool>, initial: Seq<u32>, current: Seq<u32>) -> bool {
    &&& v.len() == readings_len(initial, current)
    &&& forall|i: int| 0 <= i < v.len() ==> v[i] == (initial[i] != current[i])
}

/// The verdict on Ethernet training after a reading of the heartbeats:
/// finished when every heartbeat moved, failed with the per-core progress
/// once the time is up, otherwise `None` (read again).
pub fn training_verdict(initial: &Vec<u32>, current: &Vec<u32>, timed_out: bool) -> (r: Option<
    Result<(), PlatformError>,
>)
    ensures
        heartbeats_moved(initial@, current@) ==> r matches Some(Ok(())),
        !heartbeats_moved(initial@, current@) && timed_out ==> (r matches Some(
            Err(PlatformError::EthernetTrainingNotComplete(v)),
        ) && is_progress(v@, initial@, current@)),
        !heartbeats_moved(initial@, current@) && !timed_out ==> r is None,
{
    let progress = heartbeat_progress(initial, current);
    if all_trained(&progress) {
        Some(Ok(()))
    } else if timed_out {
        Some(Err(PlatformError::EthernetTrainingNotComplete(progress)))
    } else {
        None
    }
}

/// The ARC of a remote chip, reached through the ethernet of a local one,
/// with the address table used to name its registers.
#[derive(Debug)]
pub struct RemoteArcIf {
    pub addr: EthAddr,
    pub axi_data: Option<MemorySlices>,
}

/// The NOC node through which a remote chip's ARC AXI space is reached:
/// NOC 0, node (0, 10).
pub open spec fn remote_axi_node() -> (u8, u8, u8) {
    (0, 0, 10)
}

impl RemoteArcIf {
    /// Translate a register path through the remote chip's address table.
    pub fn axi_translate(&self, addr: &str) -> (r: Result<AxiData, AxiError>)
        requires
            !table_faults(opt_ref(&self.axi_data), addr@),
        ensures
            translate_spec(opt_ref(&self.axi_data), addr@, r),
    {
        crate::axi::axi_translate(self.axi_data.as_ref(), addr)
    }

    /// NOC, x and y of the node that serves AXI accesses of the remote chip.
    pub fn axi_node(&self) -> (r: (u8, u8, u8))
        ensures
            r == remote_axi_node(),
    {
        (0, 0, 10)
    }
}

/// An optional table, borrowed.
pub open spec fn opt_ref(t: &Option<MemorySlices>) -> Option<&MemorySlices> {
    match t {
        Some(x) => Some(x),
        None => None,
    }
}

/// A 32-bit read of a NOC node's memory.
pub trait NocRead {
    fn noc_read32(&self, noc_id: u8, x: u8, y: u8, addr: u64) -> Result<u32, PlatformError>;
}

/// The neighbours found on the ethernet cores `cores`, in core order, given
/// each core's port status word and the rack and shelf words of its remote
/// end: a core whose port is connected gives the chip at its other end.
pub open spec fn neighbours_found(
    cores: Seq<crate::chip::EthCore>,
    status: Seq<u32>,
    racks: Seq<u32>,
    shelves: Seq<u32>,
) -> Seq<NeighbouringChip>
    decreases cores.len(),
{
    if cores.len() == 0 {
        seq![]
    } else {
        let n = cores.len() - 1;
        let rest = neighbours_found(cores.drop_last(), status, racks, shelves);
        if status[n] != ETH_UNKNOWN && status[n] != ETH_UNCONNECTED {
            rest.push(neighbour_spec(cores[n].x, cores[n].y, racks[n], shelves[n]))
        } else {
            rest
        }
    }
}

proof fn lemma_neighbours_found_prefix(
    cores: Seq<crate::chip::EthCore>,
    status: Seq<u32>,
    racks: Seq<u32>,
    shelves: Seq<u32>,
    status2: Seq<u32>,
    racks2: Seq<u32>,
    shelves2: Seq<u32>,
)
    requires
        status.len() >= cores.len(),
        racks.len() >= cores.len(),
        shelves.len() >= cores.len(),
        status2.len() >= cores.len(),
        racks2.len() >= cores.len(),
        shelves2.len() >= cores.len(),
        forall|i: int| 0 <= i < cores.len() ==> status[i] == status2[i] && racks[i] == racks2[i] && shelves[i] == shelves2[i],
    ensures
        neighbours_found(cores, status, racks, shelves) == neighbours_found(cores, status2, racks2, shelves2),
    decreases cores.len(),
{
    if cores.len() > 0 {
        lemma_neighbours_found_prefix(cores.drop_last(), status, racks, shelves, status2, racks2, shelves2);
    }
}

/// The neighbours found on the ethernet cores `cores`, given for each core
/// the port status word and, where the port is connected, the rack and
/// shelf words of its remote end.
pub fn neighbours_from_words(
    cores: &Vec<crate::chip::EthCore>,
    status: &Vec<u32>,
    racks: &Vec<u32>,
    shelves: &Vec<u32>,
) -> (r: Vec<NeighbouringChip>)
    requires
        status@.len() == cores@.len(),
        racks@.len() == cores@.len(),
        shelves@.len() == cores@.len(),
    ensures
        r@ == neighbours_found(cores@, status@, racks@, shelves@),
{
    let mut out: Vec<NeighbouringChip> = Vec::new();
    let mut i: usize = 0;
    while i < cores.len()
        invariant
            i <= cores@.len(),
            status@.len() == cores@.len(),
            racks@.len() == cores@.len(),
            shelves@.len() == cores@.len(),
            out@ == neighbours_found(cores@.subrange(0, i as int), status@, racks@, shelves@),
        decreases cores@.len() - i,
    {
        if port_connected(status[i]) {
            out.push(decode_neighbour(cores[i].x, cores[i].y, racks[i], shelves[i]));
        }
        assert(cores@.subrange(0, i + 1).drop_last() =~= cores@.subrange(0, i as int));
        i = i + 1;
    }
    assert(cores@.subrange(0, i as int) =~= cores@);
    out
}

/// Whether the address arithmetic of a neighbour scan over `n` cores fits
/// 64 bits.
pub open spec fn scan_addressable(addrs: EthAddresses, n: nat) -> bool {
    &&& addrs.eth_conn_info + n * 4 <= u64::MAX
    &&& addrs.node_info + 40 <= u64::MAX
}

/// Which word of the current core a neighbour scan waits for.
#[derive(Clone, Copy, Debug, PartialEq, Eq, Structural)]
pub enum ScanPhase {
    /// The port status word.
    Status,
    /// The rack word of the remote end; the port status was `status`.
    Rack { status: u32 },
    /// The shelf word of the remote end; the rack word was `rack`.
    Shelf { status: u32, rack: u32 },
}

/// A neighbour scan in progress: the core it is at and what it waits for.
#[derive(Clone, Copy, Debug, PartialEq, Eq, Structural)]
pub struct NeighbourScan {
    pub core: usize,
    pub phase: ScanPhase,
}

/// What the caller of a neighbour scan does next.
#[derive(Clone, Copy, Debug, PartialEq, Eq, Structural)]
pub enum ScanAction {
    /// Read the word at `addr` on NOC 0 of node (`x`, `y`) and feed it to
    /// the scan.
    Read { x: u8, y: u8, addr: u64 },
    /// The scan is over.
    Done,
}

/// The read a scan makes first at core `i` (the port status), or `Done`
/// past the last core.
pub open spec fn status_read(addrs: EthAddresses, cores: Seq<crate::chip::EthCore>, i: int) -> ScanAction {
    if 0 <= i < cores.len() {
        ScanAction::Read { x: cores[i].x, y: cores[i].y, addr: (addrs.eth_conn_info + i * 4) as u64 }
    } else {
        ScanAction::Done
    }
}

impl NeighbourScan {
    /// Begin a scan of `cores`: read the first core's port status.
    pub fn start(addrs: &EthAddresses, cores: &Vec<crate::chip::EthCore>) -> (r: (NeighbourScan, ScanAction))
        requires
            scan_addressable(*addrs, cores@.len()),
        ensures
            r.0 == (NeighbourScan { core: 0, phase: ScanPhase::Status }),
            r.1 == status_read(*addrs, cores@, 0),
    {
        let scan = NeighbourScan { core: 0, phase: ScanPhase::Status };
        if cores.len() == 0 {
            (scan, ScanAction::Done)
        } else {
            (scan, ScanAction::Read { x: cores[0].x, y: cores[0].y, addr: addrs.eth_conn_info })
        }
    }

    /// Move the scan on with the word its last read returned.  A connected
    /// port's rack word is read from `node_info + 40` and its shelf word from
    /// `node_info + 36` on the same core, and the neighbour they describe
    /// is added to `found`; an unconnected port goes straight to the next
    /// core's port status at `eth_conn_info + 4 i`.
    pub fn step(
        &self,
        addrs: &EthAddresses,
        cores: &Vec<crate::chip::EthCore>,
        value: u32,
        found: &mut Vec<NeighbouringChip>,
    ) -> (r: (NeighbourScan, ScanAction))
        requires
            self.core < cores@.len(),
            scan_addressable(*addrs, cores@.len()),
        ensures
            ({
                let i = self.core as int;
                let c = cores@[i];
                match self.phase {
                    ScanPhase::Status => if value != ETH_UNKNOWN && value != ETH_UNCONNECTED {
                        &&& r.0 == (NeighbourScan { core: self.core, phase: ScanPhase::Rack { status: value } })
                        &&& r.1 == (ScanAction::Read { x: c.x, y: c.y, addr: (addrs.node_info + 40) as u64 })
                        &&& final(found)@ == old(found)@
                    } else {
                        &&& r.0 == (NeighbourScan { core: (self.core + 1) as usize, phase: ScanPhase::Status })
                        &&& r.1 == status_read(*addrs, cores@, i + 1)
                        &&& final(found)@ == old(found)@
                    },
                    ScanPhase::Rack { status } => {
                        &&& r.0 == (NeighbourScan { core: self.core, phase: ScanPhase::Shelf { status, rack: value } })
                        &&& r.1 == (ScanAction::Read { x: c.x, y: c.y, addr: (addrs.node_info + 36) as u64 })
                        &&& final(found)@ == old(found)@
                    },
                    ScanPhase::Shelf { status, rack } => {
                        &&& r.0 == (NeighbourScan { core: (self.core + 1) as usize, phase: ScanPhase::Status })
                        &&& r.1 == status_read(*addrs, cores@, i + 1)
                        &&& final(found)@ == old(found)@.push(neighbour_spec(c.x, c.y, rack, value))
                    },
                }
            }),
    {
        let n = cores.len();
        let c = cores[self.core];
        let next = self.core + 1;
        let next_action = if next < cores.len() {
            ScanAction::Read { x: cores[next].x, y: cores[next].y, addr: addrs.eth_conn_info + next as u64 * 4 }
        } else {
            ScanAction::Done
        };
        match self.phase {
            ScanPhase::Status => if port_connected(value) {
                (
                    NeighbourScan { core: self.core, phase: ScanPhase::Rack { status: value } },
                    ScanAction::Read { x: c.x, y: c.y, addr: addrs.node_info + 40 },
                )
            } else {
                (NeighbourScan { core: next, phase: ScanPhase::Status }, next_action)
            },
            ScanPhase::Rack { status } => (
                NeighbourScan { core: self.core, phase: ScanPhase::Shelf { status, rack: value } },
                ScanAction::Read { x: c.x, y: c.y, addr: addrs.node_info + 36 },
            ),
            ScanPhase::Shelf { status, rack } => {
                found.push(decode_neighbour(c.x, c.y, rack, value));
                (NeighbourScan { core: next, phase: ScanPhase::Status }, next_action)
            },
        }
    }
}

/// The chips at the other end of the connected ethernet ports of the cores
/// `cores` (port `i` on core `i`), read through `reader` by running a
/// `NeighbourScan`: each read is the one the scan asks for, and a failed
/// read is returned as it came.  With no cores nothing is read and the
/// list is empty; otherwise the list is what `neighbours_found` makes of
/// the words the reads returned.
pub fn get_neighbouring_chips<R: NocRead>(
    reader: &R,
    addrs: &EthAddresses,
    cores: &Vec<crate::chip::EthCore>,
) -> (r: Result<Vec<NeighbouringChip>, PlatformError>)
    requires
        scan_addressable(*addrs, cores@.len()),
    ensures
        cores@.len() == 0 ==> (r matches Ok(v) && v@.len() == 0),
        r matches Ok(v) ==> exists|status: Seq<u32>, racks: Seq<u32>, shelves: Seq<u32>|
            status.len() == cores@.len() && racks.len() == cores@.len() && shelves.len() == cores@.len()
            && #[trigger] neighbours_found(cores@, status, racks, shelves) == v@,
{
    let mut found: Vec<NeighbouringChip> = Vec::new();
    let n = cores.len();
    let (mut scan, mut action) = NeighbourScan::start(addrs, cores);
    let ghost mut status: Seq<u32> = seq![];
    let ghost mut racks: Seq<u32> = seq![];
    let ghost mut shelves: Seq<u32> = seq![];
    loop
        invariant
            n == cores@.len(),
            scan_addressable(*addrs, cores@.len()),
            scan.core <= cores@.len(),
            action == status_read(*addrs, cores@, scan.core as int) || (scan.core < cores@.len()
                && !(scan.phase is Status) && action is Read),
            scan.phase is Status ==> action == status_read(*addrs, cores@, scan.core as int),
            !(scan.phase is Status) ==> scan.core < cores@.len(),
            status.len() == scan.core && racks.len() == scan.core && shelves.len() == scan.core,
            found@ == neighbours_found(cores@.subrange(0, scan.core as int), status, racks, shelves),
            match scan.phase {
                ScanPhase::Rack { status } => status != ETH_UNKNOWN && status != ETH_UNCONNECTED,
                ScanPhase::Shelf { status, .. } => status != ETH_UNKNOWN && status != ETH_UNCONNECTED,
                _ => true,
            },
        ensures
            scan.core == cores@.len(),
            status.len() == scan.core && racks.len() == scan.core && shelves.len() == scan.core,
            found@ == neighbours_found(cores@.subrange(0, scan.core as int), status, racks, shelves),
        decreases 3 * (cores@.len() - scan.core) - (match scan.phase {
            ScanPhase::Status => 0int,
            ScanPhase::Rack { .. } => 1int,
            ScanPhase::Shelf { .. } => 2int,
        }),
    {
        let (x, y, addr) = match action {
            ScanAction::Done => {
                break;
            },
            ScanAction::Read { x, y, addr } => (x, y, addr),
        };
        let value = match reader.noc_read32(0, x, y, addr) {
            Ok(v) => v,
            Err(e) => {
                return Err(e);
            },
        };
        let ghost old_scan = scan;
        let ghost before = found@;
        let (s2, a2) = scan.step(addrs, cores, value, &mut found);
        proof {
            let i = old_scan.core as int;
            let pre = cores@.subrange(0, i);
            let post = cores@.subrange(0, i + 1);
            assert(post.drop_last() =~= pre);
            match old_scan.phase {
                ScanPhase::Status => {
                    if !(value != ETH_UNKNOWN && value != ETH_UNCONNECTED) {
                        lemma_neighbours_found_prefix(pre, status, racks, shelves, status.push(value), racks.push(0), shelves.push(0));
                        status = status.push(value);
                        racks = racks.push(0);
                        shelves = shelves.push(0);
                    }
                },
                ScanPhase::Rack { .. } => {},
                ScanPhase::Shelf { status: st, rack } => {
                    lemma_neighbours_found_prefix(pre, status, racks, shelves, status.push(st), racks.push(rack), shelves.push(value));
                    status = status.push(st);
                    racks = racks.push(rack);
                    shelves = shelves.push(value);
                },
            }
        }
        scan = s2;
        action = a2;
    }
    assert(cores@.subrange(0, scan.core as int) =~= cores@);
    Ok(found)
}

} // verus!
