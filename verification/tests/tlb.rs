use luwen::tlb::{
    blackhole_specific_tlb_info, blackhole_tlb_info, blackhole_tlb_read, blackhole_tlb_setup,
    pack_bh_tlb2m, pack_bh_tlb4g, unpack_bh_stride, unpack_bh_tlb2m, unpack_bh_tlb4g, MemoryType,
    Tlb, Tlb2M, Tlb4G, TlbOrder,
};
use luwen::wh_tlb::{self, wormhole_tlb_setup, WhTlbOrder};

fn sample() -> Tlb {
    Tlb { x_end: 2, y_end: 3, x_start: 1, y_start: 4, noc_sel: 1, mcast: true, ordering: TlbOrder::STRICT, linked: true, ..Default::default() }
}

#[test]
fn orderings_round_trip() {
    for v in 0..=2u8 {
        assert_eq!(TlbOrder::from_u8(v).to_u8(), v);
    }
    assert_eq!(TlbOrder::from_u8(3), TlbOrder::UNKNOWN(3));
    assert_eq!(Tlb::default().ordering, TlbOrder::POSTED);
}

#[test]
fn blackhole_2m_register_round_trips() {
    let t = sample();
    let v = pack_bh_tlb2m(&t, 0x91);
    assert_eq!(v, 0x91 + (2 << 43) + (3 << 49) + (1 << 55) + (4 << 61) + (1 << 67) + (1 << 69) + (1 << 70) + (1 << 72));
    let back = unpack_bh_tlb2m(v);
    assert_eq!(back.local_offset, 0x91);
    assert_eq!((back.x_end, back.y_end, back.x_start, back.y_start), (2, 3, 1, 4));
    assert_eq!(back.noc_sel, 1);
    assert!(back.mcast && back.linked);
    assert_eq!(back.ordering, TlbOrder::STRICT);
    assert!(back.stride.is_none());
}

#[test]
fn blackhole_4g_register_round_trips() {
    let t = sample();
    let v = pack_bh_tlb4g(&t, 7);
    let back = unpack_bh_tlb4g(v);
    assert_eq!(back.local_offset, 7);
    assert_eq!((back.x_end, back.y_end, back.x_start, back.y_start), (2, 3, 1, 4));
    assert_eq!(back.ordering, TlbOrder::STRICT);
    let (reg, _) = Tlb2M::from_tlb(&Tlb { local_offset: 5, ..sample() });
    assert_eq!(reg.to_tlb(None).local_offset, 5);
    assert_eq!(Tlb4G::from_tlb(&Tlb { local_offset: 0x1_0000_0009, ..sample() }).to_tlb().local_offset, 9);
}

#[test]
fn blackhole_stride_register() {
    let s = unpack_bh_stride(0x3 | (0x2 << 4) | (0x1f << 8) | (0xf << 13) | (0x5 << 17) | (0x80 << 21));
    assert_eq!((s.stride_x, s.stride_y, s.quad_exclude_x, s.quad_exclude_y), (3, 2, 0x1f, 0xf));
    assert_eq!((s.quad_exclude_control, s.num_destinations), (5, 0x80));
}

#[test]
fn blackhole_window_setup() {
    let t = Tlb { local_offset: 0x1234_5678, x_end: 2, y_end: 3, ..Default::default() };
    let s = blackhole_tlb_setup(5, &t);
    let cfg = 0x1fc0_0000 + 5 * 12;
    assert_eq!(
        s.writes,
        vec![(cfg, 0x91), (cfg + 4, 0x0006_1000), (cfg + 8, 0x80), (cfg + 209 * 12, 0)]
    );
    assert_eq!(s.bar_offset, 5 * 0x20_0000 + 0x14_5678);
    assert_eq!(s.size, 0x20_0000 - 0x14_5678);
    let back = blackhole_tlb_read(40, 0x91, 0x0006_1000, 0x80);
    assert_eq!((back.local_offset, back.x_end, back.y_end), (0x91, 2, 3));
    assert_eq!(back.ordering, TlbOrder::POSTED);
}

#[test]
fn blackhole_window_table() {
    let info = blackhole_specific_tlb_info(3, Some(0x100_0000));
    assert_eq!((info.config_base, info.data_base, info.size), (0x1fc0_0000 + 36, 0x60_0000, 0x20_0000));
    assert!(matches!(info.memory_type, MemoryType::Wc));
    assert!(matches!(blackhole_specific_tlb_info(100, Some(0x100_0000)).memory_type, MemoryType::Uc));
    let all = blackhole_tlb_info(0xb140);
    assert_eq!(all.total_count, 210);
    assert_eq!(all.tlb_config.len(), 2);
    assert_eq!((all.tlb_config[1].count, all.tlb_config[1].size), (8, 0x1_0000_0000));
}

#[test]
fn wormhole_window_setup() {
    let t = wh_tlb::Tlb { local_offset: 0x0123_4567, x_end: 1, y_end: 2, ..Default::default() };
    let (writes, bar, size) = wormhole_tlb_setup(10, &t);
    assert_eq!(writes, vec![(0x1fc0_0050, 0x0081_0012), (0x1fc0_0054, 0x800)]);
    assert_eq!(bar, 0xa3_4567);
    assert_eq!(size, 0x10_0000 - 0x3_4567);
    let t16 = wh_tlb::Tlb { local_offset: 0x0300_0000, ordering: WhTlbOrder::RELAXED, ..Default::default() };
    let (writes, bar, size) = wormhole_tlb_setup(170, &t16);
    assert_eq!(writes[0].1, 3);
    assert_eq!(bar, 156 * 0x10_0000 + 10 * 0x20_0000 + 4 * 0x100_0000);
    assert_eq!(size, 0x100_0000);
}
