use luwen::detect::{select_hops, ChipIdent, DetectState, Hop, InterfaceIdOrCoord};
use luwen::error::PlatformError;
use luwen::remote::{
    all_trained, decode_neighbour, eth_addr_from_coord, eth_addr_on_shelf, eth_addr_with_defaults,
    heartbeat_progress, neighbour_info_addrs, port_connected, training_verdict, EthAddr,
    EthAddresses, NeighbouringChip, RemoteArcIf,
};

fn at(rack_x: u8, shelf_x: u8) -> EthAddr {
    EthAddr { shelf_x, shelf_y: 0, rack_x, rack_y: 0 }
}

#[test]
fn chip_coordinates() {
    let c = eth_addr_from_coord(0x0403_0201);
    assert_eq!((c.rack_x, c.rack_y, c.shelf_x, c.shelf_y), (1, 2, 3, 4));
    let d = eth_addr_with_defaults((Some(9), None, None, Some(7)), c);
    assert_eq!((d.rack_x, d.rack_y, d.shelf_x, d.shelf_y), (9, 2, 3, 7));
    let e = eth_addr_on_shelf((5, 6), c);
    assert_eq!((e.rack_x, e.rack_y, e.shelf_x, e.shelf_y), (1, 2, 5, 6));
}

#[test]
fn firmware_tables_move_with_the_version() {
    let old = EthAddresses::new(0x0002_0000);
    assert_eq!((old.node_info, old.eth_conn_info, old.heartbeat), (0x5100, 0x5200, 0x1f80));
    let mid = EthAddresses::new(0xff03_0000);
    assert_eq!((mid.debug_buf, mid.shelf_rack_routing), (0x1240, false));
    let new = EthAddresses::new(0x0006_0000);
    assert_eq!((new.results_buf, new.shelf_rack_routing, new.heartbeat, new.erisc_app), (0x1ec0, true, 0x1c, 0x9040));
    assert_eq!(neighbour_info_addrs(&new, 3), (0x1200 + 12, 0x1100 + 40, 0x1100 + 36));
}

#[test]
fn neighbours_are_decoded() {
    assert!(!port_connected(0));
    assert!(!port_connected(1));
    assert!(port_connected(2));
    let shelf_word = (3 << 22) | (2 << 16) | (5 << 10) | (4 << 4);
    let n = decode_neighbour(9, 0, 0x0706, shelf_word);
    assert_eq!(n.local_noc_addr, (9, 0));
    assert_eq!(n.remote_noc_addr, (4, 5));
    assert_eq!((n.eth_addr.rack_x, n.eth_addr.rack_y, n.eth_addr.shelf_x, n.eth_addr.shelf_y), (6, 7, 2, 3));
}

#[test]
fn training_is_judged_by_heartbeats() {
    let a = vec![1, 2, 3];
    let b = vec![2, 2, 4, 9];
    assert_eq!(heartbeat_progress(&a, &b), vec![true, false, true]);
    assert!(!all_trained(&heartbeat_progress(&a, &b)));
    assert!(matches!(training_verdict(&a, &vec![5, 6, 7], false), Some(Ok(()))));
    assert!(training_verdict(&a, &b, false).is_none());
    match training_verdict(&a, &b, true) {
        Some(Err(PlatformError::EthernetTrainingNotComplete(v))) => assert_eq!(v, vec![true, false, true]),
        _ => panic!("expected a training failure"),
    }
}

#[test]
fn remote_arc_is_reached_through_node_0_10() {
    let r = RemoteArcIf { addr: at(1, 1), axi_data: None };
    assert_eq!(r.axi_node(), (0, 0, 10));
    assert!(r.axi_translate("ARC_RESET.SCRATCH[0]").is_err());
}

fn neighbour(coord: EthAddr) -> NeighbouringChip {
    NeighbouringChip { local_noc_addr: (0, 0), remote_noc_addr: (0, 0), eth_addr: coord }
}

#[test]
fn discovery_visits_each_coordinate_once() {
    let mut d = DetectState::new();
    let id = ChipIdent { board_id: Some(7), place: Some(InterfaceIdOrCoord::Id(0)) };
    assert!(d.insert_chip(id));
    assert!(!d.insert_chip(id));
    assert!(d.insert_chip(ChipIdent { board_id: None, place: Some(InterfaceIdOrCoord::Coord(at(0, 1))) }));
    d.begin_root(vec![neighbour(at(1, 0)), neighbour(at(2, 0)), neighbour(at(1, 0))]);
    let first = d.next_candidate().unwrap();
    assert_eq!(first.eth_addr, at(1, 0));
    let second = d.next_candidate().unwrap();
    assert_eq!(second.eth_addr, at(2, 0));
    // The remaining entry repeats a visited coordinate.
    assert!(d.next_candidate().is_none());
    // Only neighbours whose coordinate was not visited yet are queued.
    d.push_neighbours(vec![neighbour(at(3, 0)), neighbour(at(2, 0))]);
    assert_eq!(d.to_check.len(), 1);
    assert_eq!(d.next_candidate().unwrap().eth_addr, at(3, 0));
    assert!(d.next_candidate().is_none());
}

#[test]
fn discovery_reaches_a_neighbours_neighbour() {
    // The root R at (0, 0) is linked to N at (1, 0), and N to M at (2, 0).
    let mut d = DetectState::new();
    assert!(d.insert_chip(ChipIdent { board_id: Some(1), place: Some(InterfaceIdOrCoord::Coord(at(0, 0))) }));
    d.begin_root(vec![neighbour(at(1, 0))]);
    let n = d.next_candidate().unwrap();
    assert_eq!(n.eth_addr, at(1, 0));
    assert!(d.insert_chip(ChipIdent { board_id: Some(2), place: Some(InterfaceIdOrCoord::Coord(at(1, 0))) }));
    d.push_neighbours(vec![neighbour(at(0, 0)), neighbour(at(2, 0))]);
    let m = d.next_candidate().unwrap();
    assert_eq!(m.eth_addr, at(2, 0));
    assert!(d.insert_chip(ChipIdent { board_id: Some(3), place: Some(InterfaceIdOrCoord::Coord(at(2, 0))) }));
    d.push_neighbours(vec![neighbour(at(1, 0))]);
    // Only the root's own coordinate is left, which was never visited from
    // the root itself; its chip is already known.
    let r = d.next_candidate().unwrap();
    assert_eq!(r.eth_addr, at(0, 0));
    assert!(!d.insert_chip(ChipIdent { board_id: Some(1), place: Some(InterfaceIdOrCoord::Coord(at(0, 0))) }));
    assert!(d.next_candidate().is_none());
}

#[test]
fn hops_are_reported_once_per_coordinate() {
    let hops = vec![
        Hop { eth_id: 0, coord: at(1, 0), noc_xy: (9, 0) },
        Hop { eth_id: 1, coord: at(2, 0), noc_xy: (1, 0) },
        Hop { eth_id: 2, coord: at(1, 0), noc_xy: (8, 0) },
    ];
    let ids = |v: Vec<Hop>| v.iter().map(|h| h.eth_id).collect::<Vec<_>>();
    assert_eq!(ids(select_hops(&hops, true)), vec![0, 1]);
    assert_eq!(ids(select_hops(&hops, false)), vec![0, 1, 2]);
}

/// A chip of a line mesh (0, 0) - (1, 0) - (2, 0), known by its coordinate.
#[derive(Debug, Clone, Copy, PartialEq)]
struct LineChip {
    at: EthAddr,
    board: u64,
}

fn line_links(a: EthAddr) -> Vec<EthAddr> {
    match a.rack_x {
        0 => vec![at(1, 0)],
        1 => vec![at(0, 0), at(2, 0)],
        2 => vec![at(1, 0)],
        _ => vec![],
    }
}

impl luwen::detect::DiscoveredChip for LineChip {
    fn identity(&self) -> ChipIdent {
        ChipIdent { board_id: Some(self.board), place: Some(InterfaceIdOrCoord::Coord(self.at)) }
    }
    fn links(&self) -> Vec<NeighbouringChip> {
        line_links(self.at).into_iter().map(neighbour).collect()
    }
    fn remote(&self, addr: EthAddr) -> Self {
        LineChip { at: addr, board: 100 + addr.rack_x as u64 }
    }
    fn ident(&self) -> Result<ChipIdent, PlatformError> {
        Ok(self.identity())
    }
    fn coord(&self) -> Result<Option<EthAddr>, PlatformError> {
        Ok(Some(self.at))
    }
    fn neighbours(&self) -> Result<Vec<NeighbouringChip>, PlatformError> {
        Ok(self.links())
    }
    fn open_remote(&self, addr: EthAddr) -> Result<Self, PlatformError> {
        Ok(self.remote(addr))
    }
}

#[test]
fn detection_of_no_roots_finds_nothing() {
    let all = luwen::detect::detect_chips(Vec::<LineChip>::new()).unwrap();
    assert!(all.is_empty());
}

#[test]
fn detection_finds_the_whole_mesh_after_the_roots() {
    let root = LineChip { at: at(0, 0), board: 100 };
    let all = luwen::detect::detect_chips(vec![root]).unwrap();
    let coords: Vec<u8> = all.iter().map(|c| c.at.rack_x).collect();
    assert_eq!(coords, vec![0, 1, 2]);
}

#[test]
fn detection_drops_repeated_roots() {
    let root = LineChip { at: at(0, 0), board: 100 };
    let far = LineChip { at: at(2, 0), board: 102 };
    let all = luwen::detect::detect_chips(vec![root, root, far]).unwrap();
    assert_eq!(all[0], root);
    assert_eq!(all[1], far);
    assert_eq!(all.len(), 3);
    assert_eq!(all[2].at, at(1, 0));
}

/// Ethernet cores whose port status, rack and shelf words are given.
struct FakeNoc {
    status: Vec<u32>,
}

impl luwen::remote::NocRead for FakeNoc {
    fn noc_read32(&self, _noc_id: u8, x: u8, _y: u8, addr: u64) -> Result<u32, PlatformError> {
        if addr < 0x100 {
            Ok(self.status[(addr / 4) as usize])
        } else if addr == 0x200 + 40 {
            Ok(0x0201 + x as u32)
        } else {
            Ok(0x0041_0000)
        }
    }
}

#[test]
fn neighbours_are_read_from_connected_ports() {
    let mut addrs = EthAddresses::new(0);
    addrs.eth_conn_info = 0;
    addrs.node_info = 0x200;
    let cores = vec![
        luwen::chip::EthCore { x: 9, y: 0, enabled: true },
        luwen::chip::EthCore { x: 1, y: 0, enabled: true },
        luwen::chip::EthCore { x: 8, y: 0, enabled: true },
    ];
    let noc = FakeNoc { status: vec![2, 1, 3] };
    let found = luwen::remote::get_neighbouring_chips(&noc, &addrs, &cores).unwrap();
    assert_eq!(found.len(), 2);
    let expect = [decode_neighbour(9, 0, 0x0201 + 9, 0x0041_0000), decode_neighbour(8, 0, 0x0201 + 8, 0x0041_0000)];
    for (f, e) in found.iter().zip(expect.iter()) {
        assert_eq!(f.eth_addr, e.eth_addr);
        assert_eq!(f.local_noc_addr, e.local_noc_addr);
        assert_eq!(f.remote_noc_addr, e.remote_noc_addr);
    }
    assert_eq!((found[0].eth_addr.rack_x, found[0].eth_addr.shelf_x), (10, 1));
}

#[test]
fn neighbour_scan_reads_status_then_rack_then_shelf() {
    let mut addrs = EthAddresses::new(0);
    addrs.eth_conn_info = 0x100;
    addrs.node_info = 0x200;
    let cores = vec![
        luwen::chip::EthCore { x: 9, y: 0, enabled: true },
        luwen::chip::EthCore { x: 1, y: 6, enabled: true },
    ];
    let mut found = Vec::new();
    let (s, a) = luwen::remote::NeighbourScan::start(&addrs, &cores);
    assert_eq!(a, luwen::remote::ScanAction::Read { x: 9, y: 0, addr: 0x100 });
    let (s, a) = s.step(&addrs, &cores, 2, &mut found);
    assert_eq!(a, luwen::remote::ScanAction::Read { x: 9, y: 0, addr: 0x228 });
    let (s, a) = s.step(&addrs, &cores, 0x0304, &mut found);
    assert_eq!(a, luwen::remote::ScanAction::Read { x: 9, y: 0, addr: 0x224 });
    let (s, a) = s.step(&addrs, &cores, 0x0041_0000, &mut found);
    assert_eq!(a, luwen::remote::ScanAction::Read { x: 1, y: 6, addr: 0x104 });
    assert_eq!(found.len(), 1);
    assert_eq!((found[0].eth_addr.rack_x, found[0].eth_addr.rack_y), (4, 3));
    let (_, a) = s.step(&addrs, &cores, 1, &mut found);
    assert_eq!(a, luwen::remote::ScanAction::Done);
    assert_eq!(found.len(), 1);
    let words = luwen::remote::neighbours_from_words(&cores, &vec![2, 1], &vec![0x0304, 0], &vec![0x0041_0000, 0]);
    assert_eq!(words.len(), 1);
    assert_eq!(words[0].eth_addr, found[0].eth_addr);
}

#[test]
fn no_cores_no_neighbours() {
    let noc = FakeNoc { status: vec![] };
    let found = luwen::remote::get_neighbouring_chips(&noc, &EthAddresses::new(0), &vec![]).unwrap();
    assert!(found.is_empty());
}
