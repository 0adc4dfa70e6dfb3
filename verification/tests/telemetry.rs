use luwen::telemetry::{
    blackhole_telemetry_addr_valid, grayskull_reads_bundle_version, parse_blackhole_telemetry,
    u32_from_slice, Telemetry, TelemetryTags,
};

fn words(n: u32) -> Vec<u32> {
    (0..n).map(|i| 100 + i).collect()
}

#[test]
fn wormhole_words_fill_the_fields_in_order() {
    let mut w = words(47);
    w[4] = 0x0000_0140;
    w[5] = 0x1234_5678;
    let t = Telemetry::from_wormhole_words(&w);
    assert_eq!(t.smbus_tx_enum_version, 100);
    assert_eq!(t.smbus_tx_arc0_fw_version, 106);
    assert_eq!(t.smbus_tx_eth_fw_version, 111);
    assert_eq!(t.smbus_tx_ddr_status, 114);
    assert_eq!(t.smbus_tx_aiclk, 124);
    assert_eq!(t.smbus_tx_tt_flash_version, 146);
    assert_eq!(t.smbus_tx_ddr_speed, None);
    assert_eq!(t.board_id, 0x0000_0140_1234_5678);
    assert_eq!(t.board_type(), "n300");
}

#[test]
fn grayskull_words_fill_the_fields_in_order() {
    let mut w = words(40);
    w[6] = 0x0107_0000;
    let t = Telemetry::from_grayskull_words(&w);
    assert_eq!(t.smbus_tx_ddr_speed, Some(111));
    assert_eq!(t.smbus_tx_ddr_status, 112);
    assert_eq!(t.smbus_tx_aiclk, 120);
    assert_eq!(t.smbus_tx_fw_bundle_version, 139);
    assert!(grayskull_reads_bundle_version(0x0107_0000));
    assert!(!grayskull_reads_bundle_version(0x0106_ffff));
    let mut old = words(39);
    old[6] = 0x0106_0000;
    assert_eq!(Telemetry::from_grayskull_words(&old).smbus_tx_fw_bundle_version, 0);
}

#[test]
fn board_types() {
    let mut t = Telemetry::default();
    t.smbus_tx_board_id_high = 0x12;
    assert_eq!(t.try_board_type(), Some("E300_R2"));
    t.smbus_tx_board_id_high = 0x14;
    assert_eq!(t.try_board_type(), Some("E300_R3"));
    t.smbus_tx_board_id_high = 0x180;
    assert_eq!(t.try_board_type(), Some("n150"));
    t.smbus_tx_board_id_high = 0x30;
    assert_eq!(t.board_type(), "e150");
    t.smbus_tx_board_id_high = 0x990;
    assert_eq!(t.try_board_type(), None);
    assert_eq!(t.board_type(), "UNSUPPORTED");
}

#[test]
fn derived_values() {
    let mut t = Telemetry::default();
    t.smbus_tx_aiclk = 0x0064_03e8;
    assert_eq!(t.ai_clk(), 1000);
    t.smbus_tx_axiclk = 900;
    t.smbus_tx_arcclk = 540;
    assert_eq!((t.axi_clk(), t.arc_clk()), (900, 540));
    t.smbus_tx_wh_fw_date = 0x3715_0000;
    assert_eq!(t.firmware_date_parts(), (2023, 7, 0x15));
    t.smbus_tx_arc0_fw_version = 0x0102_0304;
    assert_eq!(t.arc_fw_version_parts(), (2, 3, 4));
    t.smbus_tx_eth_fw_version = 0x0006_a123;
    assert_eq!(t.eth_fw_version_parts(), (6, 0xa, 0x123));
}

fn le(words: &[u32]) -> Vec<u8> {
    words.iter().flat_map(|w| w.to_le_bytes()).collect()
}

#[test]
fn blackhole_table_is_read_by_tag() {
    // Entries: tag | offset << 16.
    let tags = le(&[1 | (0 << 16), 2 | (1 << 16), 14 | (2 << 16), 99 | (3 << 16)]);
    let data = le(&[0x0000_0180, 0xaabb_ccdd, 800, 7]);
    let t = parse_blackhole_telemetry(&tags, &data, 4);
    assert_eq!(t.smbus_tx_board_id_high, 0x180);
    assert_eq!(t.smbus_tx_board_id_low, 0xaabb_ccdd);
    assert_eq!(t.smbus_tx_aiclk, 800);
    assert_eq!(t.board_id, 0x0000_0180_aabb_ccdd);
    assert_eq!(t.entry_count, 0);
    assert_eq!(TelemetryTags::from_u32(14), Some(TelemetryTags::AICLK));
    assert_eq!(TelemetryTags::from_u32(0), None);
    assert_eq!(u32_from_slice(&data, 1), 0xaabb_ccdd);
    assert!(blackhole_telemetry_addr_valid(0x1000_0000));
    assert!(!blackhole_telemetry_addr_valid(0x1008_0000));
}

#[test]
fn sensor_readings_in_whole_units() {
    let mut t = Telemetry::default();
    t.smbus_tx_vcore = 850;
    t.smbus_tx_asic_temperature = 0x0001_0325;
    t.smbus_tx_vreg_temperature = 0x0002_0040;
    t.smbus_tx_board_temperature = 0x0021_2223;
    t.smbus_tx_tdp = 0x0005_0064;
    t.smbus_tx_tdc = 0x0005_0020;
    assert_eq!(t.voltage_millivolts(), 850);
    assert_eq!(t.asic_temperature_degrees(), 0x32);
    assert_eq!(t.vreg_temperature_degrees(), 0x40);
    assert_eq!(t.board_temperatures(), (0x21, 0x22, 0x23));
    assert_eq!(t.power_watts(), 100);
    assert_eq!(t.current_amperes(), 32);
}

#[test]
fn telemetry_table_locations() {
    assert_eq!(luwen::telemetry::telemetry_struct_addr(0x1fe8_0000, 0x1000_0400), 0x1fe8_0400);
    assert_eq!(luwen::telemetry::grayskull_telemetry_words(0x0107_0000), 40);
    assert_eq!(luwen::telemetry::grayskull_telemetry_words(0x0106_0000), 39);
}

#[test]
fn blackhole_blocks_are_checked_before_parsing() {
    let tags = le(&[1 | (1 << 16), 2 | (0 << 16)]);
    let data = le(&[5, 6]);
    assert!(luwen::telemetry::blackhole_block_readable(&tags, &data, 2));
    assert!(!luwen::telemetry::blackhole_block_readable(&tags, &data, 3));
    assert!(!luwen::telemetry::blackhole_block_readable(&tags, &data[..4], 2));
    assert!(!luwen::telemetry::blackhole_block_readable(&tags, &data, 63));
}
