use luwen::arc_msg::{ArcMsgError, ArcMsgOk, ArcMsgProtocolError};
use luwen::chip::{
    bh_arc_msg_safe, bh_hw_ready, bh_msg_arg, bh_msg_reply, bh_request, bh_response,
    blackhole_eth_locations, grayskull_telemetry_supported, mailbox_regs, spi_buffer_from,
    spi_chunks, wormhole_eth_locations, EthCore, SpiBuffer, SpiChunk,
};
use luwen::error::PlatformError;
use luwen::kmd::Arch;

#[test]
fn ethernet_cores_sit_where_the_chips_have_them() {
    let wh = wormhole_eth_locations();
    assert_eq!(wh[0], EthCore { x: 9, y: 0, enabled: true });
    assert_eq!(wh[7], EthCore { x: 4, y: 0, enabled: true });
    assert_eq!(wh[8], EthCore { x: 9, y: 6, enabled: true });
    assert_eq!(wh[15], EthCore { x: 4, y: 6, enabled: true });
    let bh = blackhole_eth_locations();
    assert_eq!(bh[0], EthCore { x: 1, y: 1, enabled: true });
    assert_eq!(bh[1], EthCore { x: 16, y: 1, enabled: true });
    assert_eq!(bh[13], EthCore { x: 10, y: 1, enabled: true });
    assert_eq!(EthCore::default(), EthCore { x: 0, y: 0, enabled: true });
}

#[test]
fn mailboxes() {
    assert!(matches!(mailbox_regs(Arch::Wormhole, false), Ok((5, 3))));
    assert!(matches!(mailbox_regs(Arch::Wormhole, true), Ok((2, 4))));
    assert!(matches!(
        mailbox_regs(Arch::Grayskull, true),
        Err(ArcMsgProtocolError::InvalidMailbox(2))
    ));
}

#[test]
fn old_grayskull_firmware_has_no_telemetry() {
    assert!(matches!(
        grayskull_telemetry_supported(0x0103_0000),
        Err(PlatformError::UnsupportedFwVersion { version: 0x0103_0000, required: 0x0104_0000 })
    ));
    assert!(grayskull_telemetry_supported(0x0103_0001).is_ok());
}

#[test]
fn blackhole_boot_status() {
    assert!(bh_hw_ready(Some(0b100)));
    assert!(!bh_hw_ready(Some(0b010)));
    assert!(!bh_hw_ready(None));
    assert!(bh_arc_msg_safe(Some(0b100), Some(0b101)));
    assert!(!bh_arc_msg_safe(Some(0b100), Some(0b100)));
    assert!(!bh_arc_msg_safe(Some(0b000), Some(0b101)));
}

#[test]
fn blackhole_messages() {
    let r = bh_request(0x19, Some(0), &[1, 2, 3]);
    assert_eq!(r, [0x19, 1, 2, 3, 0, 0, 0, 0]);
    let r = bh_request(0x1a, Some(0x300), &[9; 9]);
    assert_eq!(r, [0x31a, 9, 9, 9, 9, 9, 9, 9]);
    let ok = bh_response(0x19, [0x0005_0001, 10, 11, 12, 13, 14, 15, 16]).unwrap();
    assert_eq!(ok, (1, 5, [10, 11, 12, 13, 14, 15, 16]));
    assert!(matches!(
        bh_response(0x19, [0xff, 0, 0, 0, 0, 0, 0, 0]),
        Err(PlatformError::ArcMsgError(ArcMsgError::ProtocolError {
            source: ArcMsgProtocolError::MsgNotRecognized(0x19),
            ..
        }))
    ));
    assert!(matches!(
        bh_response(0x19, [0xf1, 0, 0, 0, 0, 0, 0, 0]),
        Err(PlatformError::ArcMsgError(ArcMsgError::ProtocolError {
            source: ArcMsgProtocolError::UnknownErrorCode(0xf1),
            ..
        }))
    ));
    assert_eq!(bh_msg_arg((0x1234, 0x5678)), 0x5678_1234);
    assert!(matches!(bh_msg_reply(3, &[7, 0, 0, 0, 0, 0, 0]), ArcMsgOk::Done { rc: 3, arg: 7 }));
}

#[test]
fn spi_buffer_and_chunks() {
    assert_eq!(spi_buffer_from(0x0c12_3456), SpiBuffer { addr: 0x1012_3456, size: 4096 });
    let c = spi_chunks(0x100, 10, 4);
    assert_eq!(
        c,
        vec![
            SpiChunk { spi_addr: 0x100, start: 0, len: 4 },
            SpiChunk { spi_addr: 0x104, start: 4, len: 4 },
            SpiChunk { spi_addr: 0x108, start: 8, len: 2 },
        ]
    );
    assert!(spi_chunks(0, 0, 4).is_empty());
}
