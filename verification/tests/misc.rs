use luwen::arc_msg::{ArcMsgError, ArcMsgOk, ArcMsgProtocolError, BtWrapper};
use luwen::bytes::{u32_from_le, u32_to_le};
use luwen::capi::{c_arc_msg_reply, CArcMsgReply, CResultTag};
use luwen::comms::{
    broadcast_tlb, default_tlb, device_info, eth_core_tlb, grid_size, multicast_tlb, unicast_tlb,
    DefaultTlb,
};
use luwen::error::PlatformError;
use luwen::ioctl::{
    query_mappings_in, AllocateDmaBuffer, GetDeviceInfo, GetDriverInfo, ResetDevice,
    GET_DEVICE_INFO_OUT_SIZE,
};
use luwen::kmd::{Arch, PhysicalDevice};
use luwen::spirom::{calculate_checksum, remove_padding_proto_bin, PaddingError};

#[test]
fn padding_is_removed() {
    assert_eq!(remove_padding_proto_bin(&[1, 2, 3, 1]), Ok(&[1u8, 2][..]));
    assert_eq!(remove_padding_proto_bin(&[1, 2, 3, 0]), Ok(&[1u8, 2, 3][..]));
    assert_eq!(remove_padding_proto_bin(&[]), Err(PaddingError::Empty));
    assert_eq!(remove_padding_proto_bin(&[5]), Err(PaddingError::TooShort));
}

#[test]
fn checksums_wrap() {
    assert_eq!(calculate_checksum(&[1, 0, 0, 0, 2, 0, 0, 0]), 3);
    assert_eq!(calculate_checksum(&[0xff, 0xff, 0xff, 0xff, 2, 0, 0, 0]), 1);
    assert_eq!(calculate_checksum(&[]), 0);
}

#[test]
fn little_endian_words() {
    assert_eq!(u32_from_le(0x78, 0x56, 0x34, 0x12), 0x1234_5678);
    assert_eq!(u32_to_le(0x1234_5678), [0x78, 0x56, 0x34, 0x12]);
}

#[test]
fn driver_request_defaults() {
    let g = GetDeviceInfo::default();
    assert_eq!(g.input.output_size_bytes, GET_DEVICE_INFO_OUT_SIZE);
    assert_eq!(g.output.device_id, 0);
    assert_eq!(GetDriverInfo::default().input.output_size_bytes, 8);
    assert_eq!(ResetDevice::default().input.output_size_bytes, 8);
    assert_eq!(ResetDevice::default().input.flags, 0);
    assert_eq!(AllocateDmaBuffer::default().input.requested_size, 0);
    assert_eq!(query_mappings_in(8).output_mapping_count, 8);
}

#[test]
fn windows_for_each_kind_of_access() {
    assert_eq!(grid_size(Arch::Wormhole), (10, 12));
    assert_eq!(grid_size(Arch::Blackhole), (17, 12));
    assert_eq!(default_tlb(Arch::Wormhole, 2), DefaultTlb::Allocate(1 << 24));
    assert_eq!(default_tlb(Arch::Blackhole, 3), DefaultTlb::Allocate(1 << 21));
    assert_eq!(default_tlb(Arch::Blackhole, 1), DefaultTlb::Hardcoded(190));
    assert_eq!(default_tlb(Arch::Grayskull, 5), DefaultTlb::Hardcoded(184));
    let u = unicast_tlb(1, 3, 4, 0x100);
    assert_eq!((u.local_offset, u.x_end, u.y_end, u.noc_sel, u.mcast), (0x100, 3, 4, 1, false));
    let b = broadcast_tlb(Arch::Wormhole, (10, 12), 0, 0x200);
    assert_eq!((b.x_start, b.y_start, b.x_end, b.y_end, b.mcast), (1, 0, 9, 11, true));
    let m = multicast_tlb(Arch::Blackhole, 0, (0, 0), (5, 6), 0x300);
    assert_eq!((m.x_start, m.y_start, m.x_end, m.y_end), (0, 1, 5, 6));
    let e = eth_core_tlb(4, 6, 0x170);
    assert_eq!((e.local_offset, e.x_end, e.y_end, e.noc_sel), (0x170, 4, 6, 0));
}

#[test]
fn device_information() {
    let p = PhysicalDevice {
        vendor_id: 0x1e52,
        device_id: 0x401e,
        subsystem_vendor_id: 0x1e52,
        subsystem_id: 0x35,
        pci_bus: 3,
        slot: 0,
        pci_function: 0,
        pci_domain: 0,
    };
    let d = device_info(2, &p, Some(1 << 29));
    assert_eq!((d.interface_id, d.bus, d.vendor, d.device_id, d.board_id), (2, 3, 0x1e52, 0x401e, 0x35));
    assert_eq!(d.bar_size, Some(1 << 29));
}

#[test]
fn c_results_of_messages() {
    match c_arc_msg_reply(Ok(ArcMsgOk::Done { rc: 0, arg: 9 })) {
        CArcMsgReply::Value { value, return_3 } => assert_eq!((value, return_3), (0, Some(9))),
        _ => panic!("expected a value"),
    }
    let r = c_arc_msg_reply(Err(PlatformError::ArcMsgError(ArcMsgError::ProtocolError {
        source: ArcMsgProtocolError::MsgNotRecognized(0xaa99),
        backtrace: BtWrapper::capture(),
    })));
    assert_eq!(r.tag(), CResultTag::Success);
    assert!(matches!(r, CArcMsgReply::Value { value: 0xaa99, return_3: None }));
    let r = c_arc_msg_reply(Err(PlatformError::UnsupportedFwVersion { version: 1, required: 2 }));
    assert_eq!(r.tag(), CResultTag::Failure);
    assert!(matches!(c_arc_msg_reply(Ok(ArcMsgOk::OkNoWait)), CArcMsgReply::Value { value: 0, return_3: None }));
}

use luwen::bar::{
    bar0_uc_window, bar0_wc_len, bar_layout, read_checking_addr, select_mappings,
    GS_BAR0_WC_MAPPING_SIZE,
};
use luwen::ioctl::Mapping;

fn mapping(mapping_id: u32, mapping_base: u64, mapping_size: u64) -> Mapping {
    let mut m = Mapping::default();
    m.mapping_id = mapping_id;
    m.mapping_base = mapping_base;
    m.mapping_size = mapping_size;
    m
}

#[test]
fn bar_windows_are_chosen() {
    let ms = [mapping(1, 0, 1 << 29), mapping(2, 1 << 29, 1 << 29), mapping(5, 0x100, 0x200), mapping(1, 7, 8)];
    let s = select_mappings(&ms, 3);
    assert_eq!(s.bar0_uc.unwrap().mapping_size, 1 << 29);
    assert!(s.bar1_uc.is_none());
    assert_eq!(s.bar2_uc.unwrap().mapping_base, 0x100);
    assert_eq!(select_mappings(&ms, 4).bar0_uc.unwrap().mapping_base, 7);
    assert_eq!(bar0_wc_len(Arch::Wormhole, &ms[1]), GS_BAR0_WC_MAPPING_SIZE);
    assert_eq!(bar0_wc_len(Arch::Wormhole, &mapping(2, 0, 0x1000)), 0x1000);
    assert_eq!(bar0_uc_window(Arch::Wormhole, &ms[0], true), (GS_BAR0_WC_MAPPING_SIZE, (1 << 29) - GS_BAR0_WC_MAPPING_SIZE));
    assert_eq!(bar0_uc_window(Arch::Wormhole, &ms[0], false), (0, 1 << 29));
    assert_eq!(bar0_uc_window(Arch::Blackhole, &mapping(1, 0, 0x100), true).1, 0);
    assert_eq!(read_checking_addr(Arch::Blackhole), 0x1fd0_4044);
    assert_eq!(read_checking_addr(Arch::Wormhole), 0x1ff3_0078);
    let l = bar_layout(Arch::Wormhole, 0x1d00_0000, Some(0x1d00_0000));
    assert_eq!(l.system_regs, Some((0x1f00_0000, 0x1e00_0000)));
    assert!(bar_layout(Arch::Blackhole, 0, None).system_regs.is_none());
}
