//! Chip telemetry: the table the management firmware keeps up to date, how
//! it is laid out for each chip generation, and what can be read off it.
use crate::bytes::{le_word_at, u32_from_le};
use vstd::prelude::*;

verus! {

/// ARC firmware version from which Grayskull reports the bundle version.
pub const GS_BUNDLE_VERSION_THRESHOLD: u32 = 0x01070000;

/// Telemetry reported by a chip's management firmware.  Fields a chip does
/// not report are zero (or `None`).
#[derive(Debug)]
pub struct Telemetry {
    pub board_id: u64,
    pub smbus_tx_enum_version: u32,
    pub smbus_tx_device_id: u32,
    pub smbus_tx_asic_ro: u32,
    pub smbus_tx_asic_idd: u32,
    pub smbus_tx_board_id_high: u32,
    pub smbus_tx_board_id_low: u32,
    pub smbus_tx_arc0_fw_version: u32,
    pub smbus_tx_arc1_fw_version: u32,
    pub smbus_tx_arc2_fw_version: u32,
    pub smbus_tx_arc3_fw_version: u32,
    pub smbus_tx_spibootrom_fw_version: u32,
    pub smbus_tx_eth_fw_version: u32,
    pub smbus_tx_m3_bl_fw_version: u32,
    pub smbus_tx_m3_app_fw_version: u32,
    pub smbus_tx_ddr_speed: Option<u32>,
    pub smbus_tx_ddr_status: u32,
    pub smbus_tx_eth_status0: u32,
    pub smbus_tx_eth_status1: u32,
    pub smbus_tx_pcie_status: u32,
    pub smbus_tx_faults: u32,
    pub smbus_tx_arc0_health: u32,
    pub smbus_tx_arc1_health: u32,
    pub smbus_tx_arc2_health: u32,
    pub smbus_tx_arc3_health: u32,
    pub smbus_tx_fan_speed: u32,
    pub smbus_tx_aiclk: u32,
    pub smbus_tx_axiclk: u32,
    pub smbus_tx_arcclk: u32,
    pub smbus_tx_throttler: u32,
    pub smbus_tx_vcore: u32,
    pub smbus_tx_asic_temperature: u32,
    pub smbus_tx_vreg_temperature: u32,
    pub smbus_tx_board_temperature: u32,
    pub smbus_tx_tdp: u32,
    pub smbus_tx_tdc: u32,
    pub smbus_tx_vdd_limits: u32,
    pub smbus_tx_thm_limits: u32,
    pub smbus_tx_wh_fw_date: u32,
    pub smbus_tx_asic_tmon0: u32,
    pub smbus_tx_asic_tmon1: u32,
    pub smbus_tx_mvddq_power: u32,
    pub smbus_tx_gddr_train_temp0: u32,
    pub smbus_tx_gddr_train_temp1: u32,
    pub smbus_tx_asic_power: Option<u32>,
    pub smbus_tx_aux_status: Option<u32>,
    pub smbus_tx_boot_date: u32,
    pub smbus_tx_rt_seconds: u32,
    pub smbus_tx_eth_debug_status0: u32,
    pub smbus_tx_eth_debug_status1: u32,
    pub smbus_tx_tt_flash_version: u32,
    pub smbus_tx_fw_bundle_version: u32,
    pub asic_id: u32,
    pub harvesting_state: u32,
    pub update_telem_speed: u32,
    pub l2cpuclk0: u32,
    pub l2cpuclk1: u32,
    pub l2cpuclk2: u32,
    pub l2cpuclk3: u32,
    pub ddr_fw_version: u32,
    pub l2cpu_fw_version: u32,
    pub timer_heartbeat: u32,
    pub entry_count: u32,
}

/// Telemetry with nothing reported.
pub open spec fn telemetry_zero() -> Telemetry {
    Telemetry {
        board_id: 0,
        smbus_tx_enum_version: 0,
        smbus_tx_device_id: 0,
        smbus_tx_asic_ro: 0,
        smbus_tx_asic_idd: 0,
        smbus_tx_board_id_high: 0,
        smbus_tx_board_id_low: 0,
        smbus_tx_arc0_fw_version: 0,
        smbus_tx_arc1_fw_version: 0,
        smbus_tx_arc2_fw_version: 0,
        smbus_tx_arc3_fw_version: 0,
        smbus_tx_spibootrom_fw_version: 0,
        smbus_tx_eth_fw_version: 0,
        smbus_tx_m3_bl_fw_version: 0,
        smbus_tx_m3_app_fw_version: 0,
        smbus_tx_ddr_speed: None,
        smbus_tx_ddr_status: 0,
        smbus_tx_eth_status0: 0,
        smbus_tx_eth_status1: 0,
        smbus_tx_pcie_status: 0,
        smbus_tx_faults: 0,
        smbus_tx_arc0_health: 0,
        smbus_tx_arc1_health: 0,
        smbus_tx_arc2_health: 0,
        smbus_tx_arc3_health: 0,
        smbus_tx_fan_speed: 0,
        smbus_tx_aiclk: 0,
        smbus_tx_axiclk: 0,
        smbus_tx_arcclk: 0,
        smbus_tx_throttler: 0,
        smbus_tx_vcore: 0,
        smbus_tx_asic_temperature: 0,
        smbus_tx_vreg_temperature: 0,
        smbus_tx_board_temperature: 0,
        smbus_tx_tdp: 0,
        smbus_tx_tdc: 0,
        smbus_tx_vdd_limits: 0,
        smbus_tx_thm_limits: 0,
        smbus_tx_wh_fw_date: 0,
        smbus_tx_asic_tmon0: 0,
        smbus_tx_asic_tmon1: 0,
        smbus_tx_mvddq_power: 0,
        smbus_tx_gddr_train_temp0: 0,
        smbus_tx_gddr_train_temp1: 0,
        smbus_tx_asic_power: None,
        smbus_tx_aux_status: None,
        smbus_tx_boot_date: 0,
        smbus_tx_rt_seconds: 0,
        smbus_tx_eth_debug_status0: 0,
        smbus_tx_eth_debug_status1: 0,
        smbus_tx_tt_flash_version: 0,
        smbus_tx_fw_bundle_version: 0,
        asic_id: 0,
        harvesting_state: 0,
        update_telem_speed: 0,
        l2cpuclk0: 0,
        l2cpuclk1: 0,
        l2cpuclk2: 0,
        l2cpuclk3: 0,
        ddr_fw_version: 0,
        l2cpu_fw_version: 0,
        timer_heartbeat: 0,
        entry_count: 0,
    }
}

/// The 64-bit board id made of its high and low words.
pub open spec fn board_id_of(high: u32, low: u32) -> u64 {
    (high * 0x1_0000_0000 + low) as u64
}

/// The board id is the high word followed by the low word, on both
/// generations, and the two decoders read the identifying words (enum
/// version, device id, board id, ARC and boot ROM firmware versions) from
/// the same places; the clocks, the ASIC temperature and the DRAM status
/// come from the places each table layout gives them (Wormhole: AI clock
/// at word 24, ASIC temperature at 29, DRAM status at 14, ethernet firmware
/// version at 11; Grayskull: AI clock at 20, ASIC temperature at 25, DRAM
/// status at 12).
pub proof fn lemma_telemetry_layouts(words: Seq<u32>)
    requires
        words.len() >= 47,
    ensures
        ({
            let w = wormhole_telemetry(words);
            let g = grayskull_telemetry(words);
            &&& w.board_id / 0x1_0000_0000 == words[4] && w.board_id % 0x1_0000_0000 == words[5]
            &&& g.board_id == w.board_id
            &&& g.smbus_tx_enum_version == w.smbus_tx_enum_version && w.smbus_tx_enum_version == words[0]
            &&& g.smbus_tx_device_id == w.smbus_tx_device_id && w.smbus_tx_device_id == words[1]
            &&& g.smbus_tx_arc0_fw_version == w.smbus_tx_arc0_fw_version && w.smbus_tx_arc0_fw_version == words[6]
            &&& g.smbus_tx_spibootrom_fw_version == w.smbus_tx_spibootrom_fw_version && w.smbus_tx_spibootrom_fw_version == words[10]
            &&& w.smbus_tx_eth_fw_version == words[11]
            &&& w.smbus_tx_ddr_status == words[14]
            &&& w.smbus_tx_aiclk == words[24] && w.smbus_tx_axiclk == words[25] && w.smbus_tx_arcclk == words[26]
            &&& w.smbus_tx_asic_temperature == words[29]
            &&& g.smbus_tx_ddr_status == words[12]
            &&& g.smbus_tx_aiclk == words[20] && g.smbus_tx_axiclk == words[21] && g.smbus_tx_arcclk == words[22]
            &&& g.smbus_tx_asic_temperature == words[25]
        }),
{
    let hi = words[4] as int;
    let lo = words[5] as int;
    assert(hi * 0x1_0000_0000 + lo <= u64::MAX) by (nonlinear_arith)
        requires
            0 <= hi <= u32::MAX,
            0 <= lo <= u32::MAX,
    ;
    vstd::arithmetic::div_mod::lemma_fundamental_div_mod_converse(hi * 0x1_0000_0000 + lo, 0x1_0000_0000, hi, lo);
}

/// Telemetry from the Wormhole telemetry table, word by word.
pub open spec fn wormhole_telemetry(words: Seq<u32>) -> Telemetry {
    Telemetry {
        board_id: board_id_of(words[4], words[5]),
        smbus_tx_enum_version: words[0],
        smbus_tx_device_id: words[1],
        smbus_tx_asic_ro: words[2],
        smbus_tx_asic_idd: words[3],
        smbus_tx_board_id_high: words[4],
        smbus_tx_board_id_low: words[5],
        smbus_tx_arc0_fw_version: words[6],
        smbus_tx_arc1_fw_version: words[7],
        smbus_tx_arc2_fw_version: words[8],
        smbus_tx_arc3_fw_version: words[9],
        smbus_tx_spibootrom_fw_version: words[10],
        smbus_tx_eth_fw_version: words[11],
        smbus_tx_m3_bl_fw_version: words[12],
        smbus_tx_m3_app_fw_version: words[13],
        smbus_tx_ddr_speed: None,
        smbus_tx_ddr_status: words[14],
        smbus_tx_eth_status0: words[15],
        smbus_tx_eth_status1: words[16],
        smbus_tx_pcie_status: words[17],
        smbus_tx_faults: words[18],
        smbus_tx_arc0_health: words[19],
        smbus_tx_arc1_health: words[20],
        smbus_tx_arc2_health: words[21],
        smbus_tx_arc3_health: words[22],
        smbus_tx_fan_speed: words[23],
        smbus_tx_aiclk: words[24],
        smbus_tx_axiclk: words[25],
        smbus_tx_arcclk: words[26],
        smbus_tx_throttler: words[27],
        smbus_tx_vcore: words[28],
        smbus_tx_asic_temperature: words[29],
        smbus_tx_vreg_temperature: words[30],
        smbus_tx_board_temperature: words[31],
        smbus_tx_tdp: words[32],
        smbus_tx_tdc: words[33],
        smbus_tx_vdd_limits: words[34],
        smbus_tx_thm_limits: words[35],
        smbus_tx_wh_fw_date: words[36],
        smbus_tx_asic_tmon0: words[37],
        smbus_tx_asic_tmon1: words[38],
        smbus_tx_mvddq_power: words[39],
        smbus_tx_gddr_train_temp0: words[40],
        smbus_tx_gddr_train_temp1: words[41],
        smbus_tx_asic_power: None,
        smbus_tx_aux_status: None,
        smbus_tx_boot_date: words[42],
        smbus_tx_rt_seconds: words[43],
        smbus_tx_eth_debug_status0: words[44],
        smbus_tx_eth_debug_status1: words[45],
        smbus_tx_tt_flash_version: words[46],
        smbus_tx_fw_bundle_version: 0,
        asic_id: 0,
        harvesting_state: 0,
        update_telem_speed: 0,
        l2cpuclk0: 0,
        l2cpuclk1: 0,
        l2cpuclk2: 0,
        l2cpuclk3: 0,
        ddr_fw_version: 0,
        l2cpu_fw_version: 0,
        timer_heartbeat: 0,
        entry_count: 0,
    }
}

/// Telemetry from the Grayskull telemetry table, word by word; the bundle
/// version word exists from ARC firmware 1.7.0.0 on.
pub open spec fn grayskull_telemetry(words: Seq<u32>) -> Telemetry {
    Telemetry {
        board_id: board_id_of(words[4], words[5]),
        smbus_tx_enum_version: words[0],
        smbus_tx_device_id: words[1],
        smbus_tx_asic_ro: words[2],
        smbus_tx_asic_idd: words[3],
        smbus_tx_board_id_high: words[4],
        smbus_tx_board_id_low: words[5],
        smbus_tx_arc0_fw_version: words[6],
        smbus_tx_arc1_fw_version: words[7],
        smbus_tx_arc2_fw_version: words[8],
        smbus_tx_arc3_fw_version: words[9],
        smbus_tx_spibootrom_fw_version: words[10],
        smbus_tx_eth_fw_version: 0,
        smbus_tx_m3_bl_fw_version: 0,
        smbus_tx_m3_app_fw_version: 0,
        smbus_tx_ddr_speed: Some(words[11]),
        smbus_tx_ddr_status: words[12],
        smbus_tx_eth_status0: 0,
        smbus_tx_eth_status1: 0,
        smbus_tx_pcie_status: words[13],
        smbus_tx_faults: words[14],
        smbus_tx_arc0_health: words[15],
        smbus_tx_arc1_health: words[16],
        smbus_tx_arc2_health: words[17],
        smbus_tx_arc3_health: words[18],
        smbus_tx_fan_speed: words[19],
        smbus_tx_aiclk: words[20],
        smbus_tx_axiclk: words[21],
        smbus_tx_arcclk: words[22],
        smbus_tx_throttler: words[23],
        smbus_tx_vcore: words[24],
        smbus_tx_asic_temperature: words[25],
        smbus_tx_vreg_temperature: words[26],
        smbus_tx_board_temperature: 0,
        smbus_tx_tdp: words[27],
        smbus_tx_tdc: words[28],
        smbus_tx_vdd_limits: words[29],
        smbus_tx_thm_limits: words[30],
        smbus_tx_wh_fw_date: words[31],
        smbus_tx_asic_tmon0: words[32],
        smbus_tx_asic_tmon1: words[33],
        smbus_tx_mvddq_power: 0,
        smbus_tx_gddr_train_temp0: 0,
        smbus_tx_gddr_train_temp1: 0,
        smbus_tx_asic_power: Some(words[34]),
        smbus_tx_aux_status: Some(words[35]),
        smbus_tx_boot_date: words[36],
        smbus_tx_rt_seconds: words[37],
        smbus_tx_eth_debug_status0: 0,
        smbus_tx_eth_debug_status1: 0,
        smbus_tx_tt_flash_version: words[38],
        smbus_tx_fw_bundle_version: if words[6] >= GS_BUNDLE_VERSION_THRESHOLD { words[39] } else { 0 },
        asic_id: 0,
        harvesting_state: 0,
        update_telem_speed: 0,
        l2cpuclk0: 0,
        l2cpuclk1: 0,
        l2cpuclk2: 0,
        l2cpuclk3: 0,
        ddr_fw_version: 0,
        l2cpu_fw_version: 0,
        timer_heartbeat: 0,
        entry_count: 0,
    }
}

impl Telemetry {
    /// Decode the Wormhole telemetry table: 47 consecutive words.
    pub fn from_wormhole_words(words: &[u32]) -> (r: Telemetry)
        requires
            words@.len() >= 47,
        ensures
            r == wormhole_telemetry(words@),
    {
        let board_id = board_id_from(words[4], words[5]);
        Telemetry {
            board_id,
            smbus_tx_enum_version: words[0],
            smbus_tx_device_id: words[1],
            smbus_tx_asic_ro: words[2],
            smbus_tx_asic_idd: words[3],
            smbus_tx_board_id_high: words[4],
            smbus_tx_board_id_low: words[5],
            smbus_tx_arc0_fw_version: words[6],
            smbus_tx_arc1_fw_version: words[7],
            smbus_tx_arc2_fw_version: words[8],
            smbus_tx_arc3_fw_version: words[9],
            smbus_tx_spibootrom_fw_version: words[10],
            smbus_tx_eth_fw_version: words[11],
            smbus_tx_m3_bl_fw_version: words[12],
            smbus_tx_m3_app_fw_version: words[13],
            smbus_tx_ddr_speed: None,
            smbus_tx_ddr_status: words[14],
            smbus_tx_eth_status0: words[15],
            smbus_tx_eth_status1: words[16],
            smbus_tx_pcie_status: words[17],
            smbus_tx_faults: words[18],
            smbus_tx_arc0_health: words[19],
            smbus_tx_arc1_health: words[20],
            smbus_tx_arc2_health: words[21],
            smbus_tx_arc3_health: words[22],
            smbus_tx_fan_speed: words[23],
            smbus_tx_aiclk: words[24],
            smbus_tx_axiclk: words[25],
            smbus_tx_arcclk: words[26],
            smbus_tx_throttler: words[27],
            smbus_tx_vcore: words[28],
            smbus_tx_asic_temperature: words[29],
            smbus_tx_vreg_temperature: words[30],
            smbus_tx_board_temperature: words[31],
            smbus_tx_tdp: words[32],
            smbus_tx_tdc: words[33],
            smbus_tx_vdd_limits: words[34],
            smbus_tx_thm_limits: words[35],
            smbus_tx_wh_fw_date: words[36],
            smbus_tx_asic_tmon0: words[37],
            smbus_tx_asic_tmon1: words[38],
            smbus_tx_mvddq_power: words[39],
            smbus_tx_gddr_train_temp0: words[40],
            smbus_tx_gddr_train_temp1: words[41],
            smbus_tx_asic_power: None,
            smbus_tx_aux_status: None,
            smbus_tx_boot_date: words[42],
            smbus_tx_rt_seconds: words[43],
            smbus_tx_eth_debug_status0: words[44],
            smbus_tx_eth_debug_status1: words[45],
            smbus_tx_tt_flash_version: words[46],
            smbus_tx_fw_bundle_version: 0,
            asic_id: 0,
            harvesting_state: 0,
            update_telem_speed: 0,
            l2cpuclk0: 0,
            l2cpuclk1: 0,
            l2cpuclk2: 0,
            l2cpuclk3: 0,
            ddr_fw_version: 0,
            l2cpu_fw_version: 0,
            timer_heartbeat: 0,
            entry_count: 0,
        }
    }

    /// Decode the Grayskull telemetry table: 39 consecutive words, and a
    /// 40th from ARC firmware 1.7.0.0 on (see `grayskull_reads_bundle_version`).
    pub fn from_grayskull_words(words: &[u32]) -> (r: Telemetry)
        requires
            words@.len() >= 39,
            words@[6] >= GS_BUNDLE_VERSION_THRESHOLD ==> words@.len() >= 40,
        ensures
            r == grayskull_telemetry(words@),
    {
        let board_id = board_id_from(words[4], words[5]);
        let fw_bundle_version = if words[6] >= GS_BUNDLE_VERSION_THRESHOLD {
            words[39]
        } else {
            0
        };
        Telemetry {
            board_id,
            smbus_tx_enum_version: words[0],
            smbus_tx_device_id: words[1],
            smbus_tx_asic_ro: words[2],
            smbus_tx_asic_idd: words[3],
            smbus_tx_board_id_high: words[4],
            smbus_tx_board_id_low: words[5],
            smbus_tx_arc0_fw_version: words[6],
            smbus_tx_arc1_fw_version: words[7],
            smbus_tx_arc2_fw_version: words[8],
            smbus_tx_arc3_fw_version: words[9],
            smbus_tx_spibootrom_fw_version: words[10],
            smbus_tx_eth_fw_version: 0,
            smbus_tx_m3_bl_fw_version: 0,
            smbus_tx_m3_app_fw_version: 0,
            smbus_tx_ddr_speed: Some(words[11]),
            smbus_tx_ddr_status: words[12],
            smbus_tx_eth_status0: 0,
            smbus_tx_eth_status1: 0,
            smbus_tx_pcie_status: words[13],
            smbus_tx_faults: words[14],
            smbus_tx_arc0_health: words[15],
            smbus_tx_arc1_health: words[16],
            smbus_tx_arc2_health: words[17],
            smbus_tx_arc3_health: words[18],
            smbus_tx_fan_speed: words[19],
            smbus_tx_aiclk: words[20],
            smbus_tx_axiclk: words[21],
            smbus_tx_arcclk: words[22],
            smbus_tx_throttler: words[23],
            smbus_tx_vcore: words[24],
            smbus_tx_asic_temperature: words[25],
            smbus_tx_vreg_temperature: words[26],
            smbus_tx_board_temperature: 0,
            smbus_tx_tdp: words[27],
            smbus_tx_tdc: words[28],
            smbus_tx_vdd_limits: words[29],
            smbus_tx_thm_limits: words[30],
            smbus_tx_wh_fw_date: words[31],
            smbus_tx_asic_tmon0: words[32],
            smbus_tx_asic_tmon1: words[33],
            smbus_tx_mvddq_power: 0,
            smbus_tx_gddr_train_temp0: 0,
            smbus_tx_gddr_train_temp1: 0,
            smbus_tx_asic_power: Some(words[34]),
            smbus_tx_aux_status: Some(words[35]),
            smbus_tx_boot_date: words[36],
            smbus_tx_rt_seconds: words[37],
            smbus_tx_eth_debug_status0: 0,
            smbus_tx_eth_debug_status1: 0,
            smbus_tx_tt_flash_version: words[38],
            smbus_tx_fw_bundle_version: fw_bundle_version,
            asic_id: 0,
            harvesting_state: 0,
            update_telem_speed: 0,
            l2cpuclk0: 0,
            l2cpuclk1: 0,
            l2cpuclk2: 0,
            l2cpuclk3: 0,
            ddr_fw_version: 0,
            l2cpu_fw_version: 0,
            timer_heartbeat: 0,
            entry_count: 0,
        }
    }
}

fn board_id_from(high: u32, low: u32) -> (r: u64)
    ensures
        r == board_id_of(high, low),
{
    let (h, l) = (high as u64, low as u64);
    h * 0x1_0000_0000 + l
}

/// Whether the Grayskull table has a bundle version word for firmware
/// `arc0_fw_version`.
pub fn grayskull_reads_bundle_version(arc0_fw_version: u32) -> (r: bool)
    ensures
        r == (arc0_fw_version >= GS_BUNDLE_VERSION_THRESHOLD),
{
    arc0_fw_version >= GS_BUNDLE_VERSION_THRESHOLD
}

impl Default for Telemetry {
    fn default() -> (r: Telemetry)
        ensures
            r == telemetry_zero(),
    {

    Telemetry {
        board_id: 0,
        smbus_tx_enum_version: 0,
        smbus_tx_device_id: 0,
        smbus_tx_asic_ro: 0,
        smbus_tx_asic_idd: 0,
        smbus_tx_board_id_high: 0,
        smbus_tx_board_id_low: 0,
        smbus_tx_arc0_fw_version: 0,
        smbus_tx_arc1_fw_version: 0,
        smbus_tx_arc2_fw_version: 0,
        smbus_tx_arc3_fw_version: 0,
        smbus_tx_spibootrom_fw_version: 0,
        smbus_tx_eth_fw_version: 0,
        smbus_tx_m3_bl_fw_version: 0,
        smbus_tx_m3_app_fw_version: 0,
        smbus_tx_ddr_speed: None,
        smbus_tx_ddr_status: 0,
        smbus_tx_eth_status0: 0,
        smbus_tx_eth_status1: 0,
        smbus_tx_pcie_status: 0,
        smbus_tx_faults: 0,
        smbus_tx_arc0_health: 0,
        smbus_tx_arc1_health: 0,
        smbus_tx_arc2_health: 0,
        smbus_tx_arc3_health: 0,
        smbus_tx_fan_speed: 0,
        smbus_tx_aiclk: 0,
        smbus_tx_axiclk: 0,
        smbus_tx_arcclk: 0,
        smbus_tx_throttler: 0,
        smbus_tx_vcore: 0,
        smbus_tx_asic_temperature: 0,
        smbus_tx_vreg_temperature: 0,
        smbus_tx_board_temperature: 0,
        smbus_tx_tdp: 0,
        smbus_tx_tdc: 0,
        smbus_tx_vdd_limits: 0,
        smbus_tx_thm_limits: 0,
        smbus_tx_wh_fw_date: 0,
        smbus_tx_asic_tmon0: 0,
        smbus_tx_asic_tmon1: 0,
        smbus_tx_mvddq_power: 0,
        smbus_tx_gddr_train_temp0: 0,
        smbus_tx_gddr_train_temp1: 0,
        smbus_tx_asic_power: None,
        smbus_tx_aux_status: None,
        smbus_tx_boot_date: 0,
        smbus_tx_rt_seconds: 0,
        smbus_tx_eth_debug_status0: 0,
        smbus_tx_eth_debug_status1: 0,
        smbus_tx_tt_flash_version: 0,
        smbus_tx_fw_bundle_version: 0,
        asic_id: 0,
        harvesting_state: 0,
        update_telem_speed: 0,
        l2cpuclk0: 0,
        l2cpuclk1: 0,
        l2cpuclk2: 0,
        l2cpuclk3: 0,
        ddr_fw_version: 0,
        l2cpu_fw_version: 0,
        timer_heartbeat: 0,
        entry_count: 0,
    }
    }
}

/// Tags of the entries of the Blackhole telemetry table.
#[allow(non_camel_case_types)]
#[derive(Clone, Copy, Debug, PartialEq, Eq, Structural)]
pub enum TelemetryTags {
    BOARD_ID_HIGH,
    BOARD_ID_LOW,
    ASIC_ID,
    HARVESTING_STATE,
    UPDATE_TELEM_SPEED,
    VCORE,
    TDP,
    TDC,
    VDD_LIMITS,
    THM_LIMITS,
    ASIC_TEMPERATURE,
    VREG_TEMPERATURE,
    BOARD_TEMPERATURE,
    AICLK,
    AXICLK,
    ARCCLK,
    L2CPUCLK0,
    L2CPUCLK1,
    L2CPUCLK2,
    L2CPUCLK3,
    ETH_LIVE_STATUS,
    DDR_STATUS,
    DDR_SPEED,
    ETH_FW_VERSION,
    DDR_FW_VERSION,
    BM_APP_FW_VERSION,
    BM_BL_FW_VERSION,
    FLASH_BUNDLE_VERSION,
    CM_FW_VERSION,
    L2CPU_FW_VERSION,
    FAN_SPEED,
    TIMER_HEARTBEAT,
    TELEM_ENUM_COUNT,
}

/// The tag numbered `v`.
pub open spec fn tag_from_u32(v: u32) -> Option<TelemetryTags> {
        if v == 1 {
            Some(TelemetryTags::BOARD_ID_HIGH)
        } else if v == 2 {
            Some(TelemetryTags::BOARD_ID_LOW)
        } else if v == 3 {
            Some(TelemetryTags::ASIC_ID)
        } else if v == 4 {
            Some(TelemetryTags::HARVESTING_STATE)
        } else if v == 5 {
            Some(TelemetryTags::UPDATE_TELEM_SPEED)
        } else if v == 6 {
            Some(TelemetryTags::VCORE)
        } else if v == 7 {
            Some(TelemetryTags::TDP)
        } else if v == 8 {
            Some(TelemetryTags::TDC)
        } else if v == 9 {
            Some(TelemetryTags::VDD_LIMITS)
        } else if v == 10 {
            Some(TelemetryTags::THM_LIMITS)
        } else if v == 11 {
            Some(TelemetryTags::ASIC_TEMPERATURE)
        } else if v == 12 {
            Some(TelemetryTags::VREG_TEMPERATURE)
        } else if v == 13 {
            Some(TelemetryTags::BOARD_TEMPERATURE)
        } else if v == 14 {
            Some(TelemetryTags::AICLK)
        } else if v == 15 {
            Some(TelemetryTags::AXICLK)
        } else if v == 16 {
            Some(TelemetryTags::ARCCLK)
        } else if v == 17 {
            Some(TelemetryTags::L2CPUCLK0)
        } else if v == 18 {
            Some(TelemetryTags::L2CPUCLK1)
        } else if v == 19 {
            Some(TelemetryTags::L2CPUCLK2)
        } else if v == 20 {
            Some(TelemetryTags::L2CPUCLK3)
        } else if v == 21 {
            Some(TelemetryTags::ETH_LIVE_STATUS)
        } else if v == 22 {
            Some(TelemetryTags::DDR_STATUS)
        } else if v == 23 {
            Some(TelemetryTags::DDR_SPEED)
        } else if v == 24 {
            Some(TelemetryTags::ETH_FW_VERSION)
        } else if v == 25 {
            Some(TelemetryTags::DDR_FW_VERSION)
        } else if v == 26 {
            Some(TelemetryTags::BM_APP_FW_VERSION)
        } else if v == 27 {
            Some(TelemetryTags::BM_BL_FW_VERSION)
        } else if v == 28 {
            Some(TelemetryTags::FLASH_BUNDLE_VERSION)
        } else if v == 29 {
            Some(TelemetryTags::CM_FW_VERSION)
        } else if v == 30 {
            Some(TelemetryTags::L2CPU_FW_VERSION)
        } else if v == 31 {
            Some(TelemetryTags::FAN_SPEED)
        } else if v == 32 {
            Some(TelemetryTags::TIMER_HEARTBEAT)
        } else if v == 33 {
            Some(TelemetryTags::TELEM_ENUM_COUNT)
        } else {
            None
        }
}

impl TelemetryTags {
    /// The tag numbered `v`, if there is one.
    pub fn from_u32(v: u32) -> (r: Option<TelemetryTags>)
        ensures
            r == tag_from_u32(v),
    {
        match v {
            1 => Some(TelemetryTags::BOARD_ID_HIGH),
            2 => Some(TelemetryTags::BOARD_ID_LOW),
            3 => Some(TelemetryTags::ASIC_ID),
            4 => Some(TelemetryTags::HARVESTING_STATE),
            5 => Some(TelemetryTags::UPDATE_TELEM_SPEED),
            6 => Some(TelemetryTags::VCORE),
            7 => Some(TelemetryTags::TDP),
            8 => Some(TelemetryTags::TDC),
            9 => Some(TelemetryTags::VDD_LIMITS),
            10 => Some(TelemetryTags::THM_LIMITS),
            11 => Some(TelemetryTags::ASIC_TEMPERATURE),
            12 => Some(TelemetryTags::VREG_TEMPERATURE),
            13 => Some(TelemetryTags::BOARD_TEMPERATURE),
            14 => Some(TelemetryTags::AICLK),
            15 => Some(TelemetryTags::AXICLK),
            16 => Some(TelemetryTags::ARCCLK),
            17 => Some(TelemetryTags::L2CPUCLK0),
            18 => Some(TelemetryTags::L2CPUCLK1),
            19 => Some(TelemetryTags::L2CPUCLK2),
            20 => Some(TelemetryTags::L2CPUCLK3),
            21 => Some(TelemetryTags::ETH_LIVE_STATUS),
            22 => Some(TelemetryTags::DDR_STATUS),
            23 => Some(TelemetryTags::DDR_SPEED),
            24 => Some(TelemetryTags::ETH_FW_VERSION),
            25 => Some(TelemetryTags::DDR_FW_VERSION),
            26 => Some(TelemetryTags::BM_APP_FW_VERSION),
            27 => Some(TelemetryTags::BM_BL_FW_VERSION),
            28 => Some(TelemetryTags::FLASH_BUNDLE_VERSION),
            29 => Some(TelemetryTags::CM_FW_VERSION),
            30 => Some(TelemetryTags::L2CPU_FW_VERSION),
            31 => Some(TelemetryTags::FAN_SPEED),
            32 => Some(TelemetryTags::TIMER_HEARTBEAT),
            33 => Some(TelemetryTags::TELEM_ENUM_COUNT),
            _ => None,
        }
    }
}

/// The number the firmware gives each tag in its telemetry table.
pub open spec fn tag_number(tg: TelemetryTags) -> u32 {
    match tg {
        TelemetryTags::BOARD_ID_HIGH => 1,
        TelemetryTags::BOARD_ID_LOW => 2,
        TelemetryTags::ASIC_ID => 3,
        TelemetryTags::HARVESTING_STATE => 4,
        TelemetryTags::UPDATE_TELEM_SPEED => 5,
        TelemetryTags::VCORE => 6,
        TelemetryTags::TDP => 7,
        TelemetryTags::TDC => 8,
        TelemetryTags::VDD_LIMITS => 9,
        TelemetryTags::THM_LIMITS => 10,
        TelemetryTags::ASIC_TEMPERATURE => 11,
        TelemetryTags::VREG_TEMPERATURE => 12,
        TelemetryTags::BOARD_TEMPERATURE => 13,
        TelemetryTags::AICLK => 14,
        TelemetryTags::AXICLK => 15,
        TelemetryTags::ARCCLK => 16,
        TelemetryTags::L2CPUCLK0 => 17,
        TelemetryTags::L2CPUCLK1 => 18,
        TelemetryTags::L2CPUCLK2 => 19,
        TelemetryTags::L2CPUCLK3 => 20,
        TelemetryTags::ETH_LIVE_STATUS => 21,
        TelemetryTags::DDR_STATUS => 22,
        TelemetryTags::DDR_SPEED => 23,
        TelemetryTags::ETH_FW_VERSION => 24,
        TelemetryTags::DDR_FW_VERSION => 25,
        TelemetryTags::BM_APP_FW_VERSION => 26,
        TelemetryTags::BM_BL_FW_VERSION => 27,
        TelemetryTags::FLASH_BUNDLE_VERSION => 28,
        TelemetryTags::CM_FW_VERSION => 29,
        TelemetryTags::L2CPU_FW_VERSION => 30,
        TelemetryTags::FAN_SPEED => 31,
        TelemetryTags::TIMER_HEARTBEAT => 32,
        TelemetryTags::TELEM_ENUM_COUNT => 33,
    }
}

/// Decoding a tag number gives the tag the firmware numbers so, and every
/// tag's own number decodes to it; numbers outside 1..=33 are no tag.
pub proof fn lemma_tag_numbers(v: u32, tg: TelemetryTags)
    ensures
        tag_from_u32(v) == Some(tg) ==> tag_number(tg) == v,
        tag_from_u32(tag_number(tg)) == Some(tg),
        tag_from_u32(v) is None <==> (v < 1 || v > 33),
{
}

/// `t` with the entry tagged `tag` set to `data`; tags without a telemetry
/// field leave `t` as it is.
#[verifier::opaque]
pub open spec fn apply_tag(t: Telemetry, tag: TelemetryTags, data: u32) -> Telemetry {
    match tag {
        TelemetryTags::BOARD_ID_HIGH => Telemetry { smbus_tx_board_id_high: data, ..t },
        TelemetryTags::BOARD_ID_LOW => Telemetry { smbus_tx_board_id_low: data, ..t },
        TelemetryTags::ASIC_ID => Telemetry { asic_id: data, ..t },
        TelemetryTags::HARVESTING_STATE => Telemetry { harvesting_state: data, ..t },
        TelemetryTags::UPDATE_TELEM_SPEED => Telemetry { update_telem_speed: data, ..t },
        TelemetryTags::VCORE => Telemetry { smbus_tx_vcore: data, ..t },
        TelemetryTags::TDP => Telemetry { smbus_tx_tdp: data, ..t },
        TelemetryTags::TDC => Telemetry { smbus_tx_tdc: data, ..t },
        TelemetryTags::VDD_LIMITS => Telemetry { smbus_tx_vdd_limits: data, ..t },
        TelemetryTags::THM_LIMITS => Telemetry { smbus_tx_thm_limits: data, ..t },
        TelemetryTags::ASIC_TEMPERATURE => Telemetry { smbus_tx_asic_temperature: data, ..t },
        TelemetryTags::VREG_TEMPERATURE => Telemetry { smbus_tx_vreg_temperature: data, ..t },
        TelemetryTags::BOARD_TEMPERATURE => Telemetry { smbus_tx_board_temperature: data, ..t },
        TelemetryTags::AICLK => Telemetry { smbus_tx_aiclk: data, ..t },
        TelemetryTags::AXICLK => Telemetry { smbus_tx_axiclk: data, ..t },
        TelemetryTags::ARCCLK => Telemetry { smbus_tx_arcclk: data, ..t },
        TelemetryTags::L2CPUCLK0 => Telemetry { l2cpuclk0: data, ..t },
        TelemetryTags::L2CPUCLK1 => Telemetry { l2cpuclk1: data, ..t },
        TelemetryTags::L2CPUCLK2 => Telemetry { l2cpuclk2: data, ..t },
        TelemetryTags::L2CPUCLK3 => Telemetry { l2cpuclk3: data, ..t },
        TelemetryTags::ETH_LIVE_STATUS => Telemetry { smbus_tx_eth_status0: data, ..t },
        TelemetryTags::DDR_STATUS => Telemetry { smbus_tx_ddr_status: data, ..t },
        TelemetryTags::DDR_SPEED => Telemetry { smbus_tx_ddr_speed: Some(data), ..t },
        TelemetryTags::ETH_FW_VERSION => Telemetry { smbus_tx_eth_fw_version: data, ..t },
        TelemetryTags::DDR_FW_VERSION => Telemetry { ddr_fw_version: data, ..t },
        TelemetryTags::BM_APP_FW_VERSION => Telemetry { smbus_tx_m3_app_fw_version: data, ..t },
        TelemetryTags::BM_BL_FW_VERSION => Telemetry { smbus_tx_m3_bl_fw_version: data, ..t },
        TelemetryTags::FLASH_BUNDLE_VERSION => Telemetry { smbus_tx_fw_bundle_version: data, ..t },
        TelemetryTags::CM_FW_VERSION => t,
        TelemetryTags::L2CPU_FW_VERSION => Telemetry { l2cpu_fw_version: data, ..t },
        TelemetryTags::FAN_SPEED => Telemetry { smbus_tx_fan_speed: data, ..t },
        TelemetryTags::TIMER_HEARTBEAT => Telemetry { timer_heartbeat: data, ..t },
        TelemetryTags::TELEM_ENUM_COUNT => Telemetry { entry_count: data, ..t },
    }
}

fn set_tag(t: &mut Telemetry, tag: TelemetryTags, data: u32)
    ensures
        *final(t) == apply_tag(*old(t), tag, data),
{
    reveal(apply_tag);
    match tag {
            TelemetryTags::BOARD_ID_HIGH => { t.smbus_tx_board_id_high = data; },
            TelemetryTags::BOARD_ID_LOW => { t.smbus_tx_board_id_low = data; },
            TelemetryTags::ASIC_ID => { t.asic_id = data; },
            TelemetryTags::HARVESTING_STATE => { t.harvesting_state = data; },
            TelemetryTags::UPDATE_TELEM_SPEED => { t.update_telem_speed = data; },
            TelemetryTags::VCORE => { t.smbus_tx_vcore = data; },
            TelemetryTags::TDP => { t.smbus_tx_tdp = data; },
            TelemetryTags::TDC => { t.smbus_tx_tdc = data; },
            TelemetryTags::VDD_LIMITS => { t.smbus_tx_vdd_limits = data; },
            TelemetryTags::THM_LIMITS => { t.smbus_tx_thm_limits = data; },
            TelemetryTags::ASIC_TEMPERATURE => { t.smbus_tx_asic_temperature = data; },
            TelemetryTags::VREG_TEMPERATURE => { t.smbus_tx_vreg_temperature = data; },
            TelemetryTags::BOARD_TEMPERATURE => { t.smbus_tx_board_temperature = data; },
            TelemetryTags::AICLK => { t.smbus_tx_aiclk = data; },
            TelemetryTags::AXICLK => { t.smbus_tx_axiclk = data; },
            TelemetryTags::ARCCLK => { t.smbus_tx_arcclk = data; },
            TelemetryTags::L2CPUCLK0 => { t.l2cpuclk0 = data; },
            TelemetryTags::L2CPUCLK1 => { t.l2cpuclk1 = data; },
            TelemetryTags::L2CPUCLK2 => { t.l2cpuclk2 = data; },
            TelemetryTags::L2CPUCLK3 => { t.l2cpuclk3 = data; },
            TelemetryTags::ETH_LIVE_STATUS => { t.smbus_tx_eth_status0 = data; },
            TelemetryTags::DDR_STATUS => { t.smbus_tx_ddr_status = data; },
            TelemetryTags::DDR_SPEED => { t.smbus_tx_ddr_speed = Some(data); },
            TelemetryTags::ETH_FW_VERSION => { t.smbus_tx_eth_fw_version = data; },
            TelemetryTags::DDR_FW_VERSION => { t.ddr_fw_version = data; },
            TelemetryTags::BM_APP_FW_VERSION => { t.smbus_tx_m3_app_fw_version = data; },
            TelemetryTags::BM_BL_FW_VERSION => { t.smbus_tx_m3_bl_fw_version = data; },
            TelemetryTags::FLASH_BUNDLE_VERSION => { t.smbus_tx_fw_bundle_version = data; },
            TelemetryTags::CM_FW_VERSION => { },
            TelemetryTags::L2CPU_FW_VERSION => { t.l2cpu_fw_version = data; },
            TelemetryTags::FAN_SPEED => { t.smbus_tx_fan_speed = data; },
            TelemetryTags::TIMER_HEARTBEAT => { t.timer_heartbeat = data; },
            TelemetryTags::TELEM_ENUM_COUNT => { t.entry_count = data; },
    }
}

/// The little-endian word `index` of `data` (the word at byte `4 * index`).
pub fn u32_from_slice(data: &[u8], index: u8) -> (r: u32)
    requires
        index <= 62,
        4 * index + 4 <= data@.len(),
    ensures
        r == le_word_at(data@, 4 * index),
{
    let i = (index * 4) as usize;
    u32_from_le(data[i], data[i + 1], data[i + 2], data[i + 3])
}

/// Tag and value offset of entry `i` of the tag block.
pub open spec fn tag_entry(tags: Seq<u8>, i: int) -> (u32, u32) {
    let e = le_word_at(tags, 4 * i);
    ((e % 0x100) as u32, (e / 0x10000 % 0x100) as u32)
}

/// Whether every entry of the first `n` of the tag block can be read and
/// points at a word of the data block.
pub open spec fn telemetry_block_readable(tags: Seq<u8>, data: Seq<u8>, n: int) -> bool {
    &&& n <= 62
    &&& 4 * n <= tags.len()
    &&& forall|i: int|
        0 <= i < n ==> #[trigger] tag_entry(tags, i).1 <= 62 && 4 * tag_entry(tags, i).1 + 4
            <= data.len()
}

/// The telemetry described by the first `n` entries of the tag block: each
/// entry names a tag and the word of the data block that holds its value;
/// later entries win.
pub open spec fn blackhole_telemetry_from(tags: Seq<u8>, data: Seq<u8>, n: int) -> Telemetry
    decreases n,
{
    if n <= 0 {
        telemetry_zero()
    } else {
        let t = blackhole_telemetry_from(tags, data, n - 1);
        let (tag, offset) = tag_entry(tags, n - 1);
        match tag_from_u32(tag) {
            Some(tg) => apply_tag(t, tg, le_word_at(data, 4 * offset) as u32),
            None => t,
        }
    }
}

proof fn lemma_blackhole_step(tags: Seq<u8>, data: Seq<u8>, i: int)
    requires
        0 <= i,
    ensures
        blackhole_telemetry_from(tags, data, i + 1) == match tag_from_u32(tag_entry(tags, i).0) {
            Some(tg) => apply_tag(
                blackhole_telemetry_from(tags, data, i),
                tg,
                le_word_at(data, 4 * tag_entry(tags, i).1) as u32,
            ),
            None => blackhole_telemetry_from(tags, data, i),
        },
{
}

/// The Blackhole telemetry table, with the board id assembled from its
/// high and low words.
pub open spec fn blackhole_telemetry(tags: Seq<u8>, data: Seq<u8>, n: int) -> Telemetry {
    let t = blackhole_telemetry_from(tags, data, n);
    Telemetry { board_id: board_id_of(t.smbus_tx_board_id_high, t.smbus_tx_board_id_low), ..t }
}

/// Decode the Blackhole telemetry table from its tag block and data block;
/// `entry_count` entries are read (only its low byte counts).
#[verifier::spinoff_prover]
pub fn parse_blackhole_telemetry(tags: &[u8], data: &[u8], entry_count: u32) -> (r: Telemetry)
    requires
        telemetry_block_readable(tags@, data@, (entry_count % 0x100) as int),
    ensures
        r == blackhole_telemetry(tags@, data@, (entry_count % 0x100) as int),
{
    let mut t = Telemetry::default();
    let n = (entry_count % 0x100) as u8;
    let mut i: u8 = 0;
    while i < n
        invariant
            i <= n,
            n == entry_count % 0x100,
            telemetry_block_readable(tags@, data@, n as int),
            t == blackhole_telemetry_from(tags@, data@, i as int),
        decreases n - i,
    {
        let entry = u32_from_slice(tags, i);
        let tag = entry % 0x100;
        let offset = entry / 0x10000 % 0x100;
        assert(tag_entry(tags@, i as int) == (tag, offset));
        assert(tag_entry(tags@, i as int).1 <= 62);
        let value = u32_from_slice(data, offset as u8);
        proof {
            lemma_blackhole_step(tags@, data@, i as int);
        }
        match TelemetryTags::from_u32(tag) {
            Some(tg) => set_tag(&mut t, tg, value),
            None => {},
        }
        i = i + 1;
    }
    let board_id = board_id_from(t.smbus_tx_board_id_high, t.smbus_tx_board_id_low);
    t.board_id = board_id;
    t
}

/// Whether a Blackhole telemetry table address lies in the CSM.
pub open spec fn telemetry_addr_valid(addr: u32) -> bool {
    0x10000000 <= addr <= 0x1007FFFF
}

/// Whether the Blackhole telemetry table at `addr` lies in the CSM, where the
/// firmware keeps it.
pub fn blackhole_telemetry_addr_valid(addr: u32) -> (r: bool)
    ensures
        r == telemetry_addr_valid(addr),
{
    0x10000000 <= addr && addr <= 0x1007FFFF
}

/// The board type encoded in a board serial number.
pub open spec fn board_type_spec(serial: u64) -> Option<&'static str> {
    let upi = serial / 0x10_0000_0000 % 0x100000;
    let rev = serial / 0x1_0000_0000 % 0x10;
    if upi == 0x1 {
        if rev == 0x2 {
            Some("E300_R2")
        } else if rev == 0x3 || rev == 0x4 {
            Some("E300_R3")
        } else {
            None
        }
    } else if upi == 0x3 {
        Some("e150")
    } else if upi == 0x7 {
        Some("e75")
    } else if upi == 0x8 {
        Some("NEBULA_CB")
    } else if upi == 0xA {
        Some("e300")
    } else if upi == 0xB {
        Some("GALAXY")
    } else if upi == 0x14 {
        Some("n300")
    } else if upi == 0x18 {
        Some("n150")
    } else {
        None
    }
}

impl Telemetry {
    /// The board serial number: the board id's high word above its low word.
    pub fn board_serial_number(&self) -> (r: u64)
        ensures
            r == board_id_of(self.smbus_tx_board_id_high, self.smbus_tx_board_id_low),
    {
        board_id_from(self.smbus_tx_board_id_high, self.smbus_tx_board_id_low)
    }

    /// The board type, or `None` when it is unknown.
    pub fn try_board_type(&self) -> (r: Option<&'static str>)
        ensures
            r == board_type_spec(
                board_id_of(self.smbus_tx_board_id_high, self.smbus_tx_board_id_low),
            ),
    {
        let serial_num = self.board_serial_number();
        let upi = serial_num / 0x10_0000_0000 % 0x100000;
        if upi == 0x1 {
            let rev = serial_num / 0x1_0000_0000 % 0x10;
            if rev == 0x2 {
                Some("E300_R2")
            } else if rev == 0x3 || rev == 0x4 {
                Some("E300_R3")
            } else {
                None
            }
        } else if upi == 0x3 {
            Some("e150")
        } else if upi == 0x7 {
            Some("e75")
        } else if upi == 0x8 {
            Some("NEBULA_CB")
        } else if upi == 0xA {
            Some("e300")
        } else if upi == 0xB {
            Some("GALAXY")
        } else if upi == 0x14 {
            Some("n300")
        } else if upi == 0x18 {
            Some("n150")
        } else {
            None
        }
    }

    /// The board type, or `"UNSUPPORTED"` when it is unknown.
    pub fn board_type(&self) -> (r: &'static str)
        ensures
            r == match board_type_spec(
                board_id_of(self.smbus_tx_board_id_high, self.smbus_tx_board_id_low),
            ) {
                Some(s) => s,
                None => "UNSUPPORTED",
            },
    {
        match self.try_board_type() {
            Some(s) => s,
            None => "UNSUPPORTED",
        }
    }

    /// The AI clock in MHz: the low half-word of its register.
    pub fn ai_clk(&self) -> (r: u32)
        ensures
            r == self.smbus_tx_aiclk % 0x10000,
    {
        self.smbus_tx_aiclk % 0x10000
    }

    /// The AXI clock in MHz.
    pub fn axi_clk(&self) -> (r: u32)
        ensures
            r == self.smbus_tx_axiclk,
    {
        self.smbus_tx_axiclk
    }

    /// The ARC clock in MHz.
    pub fn arc_clk(&self) -> (r: u32)
        ensures
            r == self.smbus_tx_arcclk,
    {
        self.smbus_tx_arcclk
    }

    /// Year, month and day of the firmware build date.
    pub fn firmware_date_parts(&self) -> (r: (u32, u32, u32))
        ensures
            r.0 == self.smbus_tx_wh_fw_date / 0x10000000 % 0x10 + 2020,
            r.1 == self.smbus_tx_wh_fw_date / 0x1000000 % 0x10,
            r.2 == self.smbus_tx_wh_fw_date / 0x10000 % 0x100,
    {
        let d = self.smbus_tx_wh_fw_date;
        (d / 0x10000000 % 0x10 + 2020, d / 0x1000000 % 0x10, d / 0x10000 % 0x100)
    }

    /// Major, minor and patch of the ARC firmware version.
    pub fn arc_fw_version_parts(&self) -> (r: (u32, u32, u32))
        ensures
            r == (
                self.smbus_tx_arc0_fw_version / 0x10000 % 0x100,
                self.smbus_tx_arc0_fw_version / 0x100 % 0x100,
                self.smbus_tx_arc0_fw_version % 0x100,
            ),
    {
        let v = self.smbus_tx_arc0_fw_version;
        (v / 0x10000 % 0x100, v / 0x100 % 0x100, v % 0x100)
    }

    /// Major, minor and patch of the Ethernet firmware version.
    pub fn eth_fw_version_parts(&self) -> (r: (u32, u32, u32))
        ensures
            r == (
                self.smbus_tx_eth_fw_version / 0x10000 % 0x100,
                self.smbus_tx_eth_fw_version / 0x1000 % 0x10,
                self.smbus_tx_eth_fw_version % 0x1000,
            ),
    {
        let v = self.smbus_tx_eth_fw_version;
        (v / 0x10000 % 0x100, v / 0x1000 % 0x10, v % 0x1000)
    }

    /// The core voltage in millivolts.
    pub fn voltage_millivolts(&self) -> (r: u32)
        ensures
            r == self.smbus_tx_vcore,
    {
        self.smbus_tx_vcore
    }

    /// The ASIC temperature in whole degrees Celsius: the low half-word of
    /// its register holds sixteenths of a degree.
    pub fn asic_temperature_degrees(&self) -> (r: u32)
        ensures
            r == self.smbus_tx_asic_temperature % 0x10000 / 16,
    {
        self.smbus_tx_asic_temperature % 0x10000 / 16
    }

    /// The voltage regulator temperature in degrees Celsius.
    pub fn vreg_temperature_degrees(&self) -> (r: u32)
        ensures
            r == self.smbus_tx_vreg_temperature % 0x10000,
    {
        self.smbus_tx_vreg_temperature % 0x10000
    }

    /// The inlet and the two outlet temperatures in degrees Celsius, from
    /// bytes 2, 1 and 0 of the board temperature register.
    pub fn board_temperatures(&self) -> (r: (u32, u32, u32))
        ensures
            r == (
                self.smbus_tx_board_temperature / 0x10000 % 0x100,
                self.smbus_tx_board_temperature / 0x100 % 0x100,
                self.smbus_tx_board_temperature % 0x100,
            ),
    {
        let v = self.smbus_tx_board_temperature;
        (v / 0x10000 % 0x100, v / 0x100 % 0x100, v % 0x100)
    }

    /// The power draw in watts.
    pub fn power_watts(&self) -> (r: u32)
        ensures
            r == self.smbus_tx_tdp % 0x10000,
    {
        self.smbus_tx_tdp % 0x10000
    }

    /// The current draw in amperes.
    pub fn current_amperes(&self) -> (r: u32)
        ensures
            r == self.smbus_tx_tdc % 0x10000,
    {
        self.smbus_tx_tdc % 0x10000
    }
}

/// Where the telemetry table the firmware reports at CSM address `offset`
/// appears on the AXI bus, given the AXI address of the first CSM data
/// word (the CSM starts at 0x10000000 in the firmware's view).
pub fn telemetry_struct_addr(csm_data_addr: u64, offset: u32) -> (r: u64)
    requires
        offset >= 0x10000000,
        csm_data_addr + (offset - 0x10000000) <= u64::MAX,
    ensures
        r == csm_data_addr + (offset - 0x10000000),
{
    csm_data_addr + (offset - 0x10000000) as u64
}

/// Number of telemetry words a Grayskull firmware of this version reports.
pub fn grayskull_telemetry_words(arc0_fw_version: u32) -> (r: usize)
    ensures
        r == if arc0_fw_version >= GS_BUNDLE_VERSION_THRESHOLD { 40usize } else { 39usize },
{
    if grayskull_reads_bundle_version(arc0_fw_version) {
        40
    } else {
        39
    }
}

/// Whether the tag and data blocks read from a Blackhole telemetry table
/// can be parsed: the entry count (its low byte) is at most 62, the tag
/// block holds that many entries, and each entry points at a word of the
/// data block.
pub fn blackhole_block_readable(tags: &[u8], data: &[u8], entry_count: u32) -> (r: bool)
    ensures
        r == telemetry_block_readable(tags@, data@, (entry_count % 0x100) as int),
{
    let n = entry_count % 0x100;
    if n > 62 || 4 * (n as usize) > tags.len() {
        return false;
    }
    let mut i: u32 = 0;
    while i < n
        invariant
            n == entry_count % 0x100,
            n <= 62,
            4 * n <= tags@.len(),
            i <= n,
            forall|k: int| 0 <= k < i ==> #[trigger] tag_entry(tags@, k).1 <= 62 && 4 * tag_entry(tags@, k).1 + 4 <= data@.len(),
        decreases n - i,
    {
        let entry = u32_from_slice(tags, i as u8);
        let offset = entry / 0x10000 % 0x100;
        assert(tag_entry(tags@, i as int).1 == offset);
        if offset > 62 || 4 * (offset as usize) + 4 > data.len() {
            assert(!(tag_entry(tags@, i as int).1 <= 62 && 4 * tag_entry(tags@, i as int).1 + 4
                <= data@.len()));
            return false;
        }
        i = i + 1;
    }
    true
}

} // verus!
