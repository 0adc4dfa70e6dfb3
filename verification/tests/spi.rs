use luwen::axi::{AxiData, AxiError, MemorySlices};
use luwen::spi::{
    lock_word, plan_write, sector_image, simple_spi, spi_baudr_sckdv, spi_ctrl0_spi_scph,
    spi_ctrl1_ndf, spi_ser_slave_disable, spi_ser_slave_enable, ActiveSpi, Spi, SpiOp,
    SpiWritePlan,
};

fn spi() -> Spi {
    Spi {
        gpio2_pad_trien_cntl: 0x100,
        gpio2_pad_drv_cntl: 0x104,
        gpio2_pad_rxen_cntl: 0x108,
        spi_cntl: 0x10c,
        spi_ctrlr0: 0x200,
        spi_ctrlr1: 0x204,
        spi_ssienr: 0x208,
        spi_ser: 0x210,
        spi_sr: 0x228,
        spi_dr: 0x260,
        spi_baudr: 0x214,
    }
}

#[test]
fn register_fields() {
    assert_eq!(spi_ctrl0_spi_scph(1), 0);
    assert_eq!(spi_ctrl1_ndf(0x1_0007), 7);
    assert_eq!(spi_ser_slave_disable(0), 0);
    assert_eq!(spi_ser_slave_enable(3), 8);
    assert_eq!(spi_baudr_sckdv(0x1_0028), 0x28);
}

#[test]
fn lock_words() {
    assert_eq!(lock_word(8, true), 0x60);
    assert_eq!(lock_word(8, false), 0x2c);
    assert_eq!(lock_word(2, false), 0x68);
    assert_eq!(lock_word(0, false), 0x60);
}

#[test]
fn status_read_program() {
    let s = spi();
    let ops = s.read_status_ops(5);
    assert_eq!(ops.len(), 10);
    assert_eq!(ops[1], SpiOp::Write { addr: 0x200, value: 0x70300 });
    assert_eq!(ops[5], SpiOp::Write { addr: 0x260, value: 5 });
    assert_eq!(ops[7], SpiOp::WaitAnySet { addr: 0x228, mask: 8 });
    assert_eq!(ops[8], SpiOp::ReadByte { addr: 0x260, index: 0 });
    assert_eq!(s.disable_ops(), vec![SpiOp::Write { addr: 0x10c, value: 0x100 }]);
    let init = s.init_ops(28);
    assert_eq!(init[0], SpiOp::Modify { addr: 0x100, set: 4, clear: 0x60 });
    assert_eq!(init[7], SpiOp::Write { addr: 0x214, value: 28 });
}

#[test]
fn read_program_reads_every_byte_in_order() {
    let s = spi();
    let ops = s.read_ops(0x01_0010, 10);
    assert_eq!(ops.len(), 3 + (10 + 16) + (10 + 4));
    let indices: Vec<usize> = ops
        .iter()
        .filter_map(|o| if let SpiOp::ReadByte { index, .. } = o { Some(*index) } else { None })
        .collect();
    assert_eq!(indices, (0..10).collect::<Vec<_>>());
    // The second burst starts eight bytes on.
    let addr_bytes: Vec<u32> = ops
        .iter()
        .filter_map(|o| if let SpiOp::Write { addr: 0x260, value } = o { Some(*value) } else { None })
        .collect();
    assert_eq!(addr_bytes, vec![3, 0x01, 0x00, 0x10, 3, 0x01, 0x00, 0x18]);
}

#[test]
fn raw_writes_stop_at_page_boundaries() {
    let s = spi();
    let ops = s.raw_write_ops(0xfe, &[1, 2, 3, 4, 5, 6]);
    let data: Vec<u32> = ops
        .iter()
        .filter_map(|o| if let SpiOp::Write { addr: 0x260, value } = o { Some(*value) } else { None })
        .collect();
    // Write enable, program command with address 0x0000fe and two bytes, then
    // write enable, program command at 0x000100 and four bytes.
    assert_eq!(data, vec![6, 2, 0, 0, 0xfe, 1, 2, 6, 2, 0, 1, 0, 3, 4, 5, 6]);
    assert_eq!(ops.iter().filter(|o| **o == SpiOp::WaitNotBusy).count(), 2);
}

#[test]
fn erase_and_lock_programs_end_waiting_for_the_flash() {
    let s = spi();
    assert_eq!(*s.erase_ops(0x2000).last().unwrap(), SpiOp::WaitNotBusy);
    assert_eq!(*s.lock_ops(8, true).last().unwrap(), SpiOp::WaitNotBusy);
    assert_eq!(s.unlock_ops(), s.lock_ops(0, false));
    assert!(s.full_erase_ops().contains(&SpiOp::Write { addr: 0x260, value: 0xc7 }));
}

#[test]
fn write_plans() {
    assert_eq!(plan_write(0x1ff0, &[1; 0x20], &[0xff; 0x20]), SpiWritePlan::Raw);
    assert_eq!(plan_write(0x1ff0, &[1; 0x20], &[1; 0x20]), SpiWritePlan::Unchanged);
    assert_eq!(
        plan_write(0x1ff0, &[1; 0x20], &[0; 0x20]),
        SpiWritePlan::Sectors { start: 1, count: 2 }
    );
    let mut image = vec![0u8; 8];
    sector_image(&mut image, 3, &[7, 8]);
    assert_eq!(image, vec![0, 0, 0, 7, 8, 0, 0, 0]);
    let s = spi();
    let ops = s.sector_write_ops(1, 1, &vec![0xab; 4096]);
    assert_eq!(ops[..s.erase_ops(0x1000).len()], s.erase_ops(0x1000)[..]);
}

#[test]
fn board_selects_the_flash_part() {
    assert!(simple_spi(Some(0x35), 0));
    assert!(!simple_spi(Some(0x14), 0x35 << 36));
    assert!(simple_spi(None, 0x35 << 36));
}

#[test]
fn arc_chunk_alignment() {
    assert_eq!(ActiveSpi::get_aligned_params(0x1ff0, 0x20), Ok((0x1000, 2, 0xff0)));
    assert_eq!(ActiveSpi::get_aligned_params(0x2000, 0x1000), Ok((0x2000, 1, 0)));
    assert_eq!(ActiveSpi::get_aligned_params(5000, 4000), Ok((4096, 2, 904)));
    assert_eq!(
        ActiveSpi::get_aligned_params(0xffff_ff00, 0xf0),
        Err("Requested size exceeds SPI ROM.".to_string())
    );
    assert_eq!(
        ActiveSpi::get_aligned_params(0xff_fff0, 0x20),
        Err("Requested size exceeds SPI ROM.".to_string())
    );
}

#[test]
fn arc_assisted_read_gives_the_flash_contents() {
    let flash: Vec<u8> = (0..0x4000u32).map(|i| (i * 7 % 251) as u8).collect();
    let (addr, size) = (0x0ff0u32, 0x1020u32);
    let (start, chunks, start_offset) = ActiveSpi::get_aligned_params(addr, size).unwrap();
    let mut data = vec![0u8; size as usize];
    for c in 0..chunks {
        let offset = c * 0x1000;
        let chunk = &flash[(start + offset) as usize..(start + offset + 0x1000) as usize];
        ActiveSpi::place_read_chunk(&mut data, offset, start_offset, chunk);
    }
    assert_eq!(&data[..], &flash[addr as usize..(addr + size) as usize]);
}

#[test]
fn arc_assisted_write_patches_chunks() {
    let data = [9u8; 0x20];
    let mut chunk = vec![0u8; 0x1000];
    let changed = ActiveSpi::patch_write_chunk(&mut chunk, 0, 0xff0, &data);
    assert!(changed);
    assert_eq!(&chunk[0xff0..], &[9u8; 0x10]);
    assert_eq!(chunk[0xfef], 0);
    let mut next = vec![9u8; 0x1000];
    assert!(!ActiveSpi::patch_write_chunk(&mut next, 0x1000, 0xff0, &data));
    assert_eq!(ActiveSpi::spi_dump_address(Some(0x40), 0x1000_0100), Some(0x140));
    assert_eq!(ActiveSpi::spi_dump_address(None, 0x1000_0100), None);
}

fn flat(paths: &[&str]) -> MemorySlices {
    MemorySlices::Flat(
        paths
            .iter()
            .enumerate()
            .map(|(i, p)| (p.to_string(), AxiData { addr: 0x100 + 4 * i as u64, size: 4, bits: None }))
            .collect(),
    )
}

const PATHS: [&str; 11] = [
    "ARC_RESET.GPIO2_PAD_TRIEN_CNTL",
    "ARC_RESET.GPIO2_PAD_DRV_CNTL",
    "ARC_RESET.GPIO2_PAD_RXEN_CNTL",
    "ARC_SPI.SPI_CTRLR0",
    "ARC_SPI.SPI_CTRLR1",
    "ARC_SPI.SPI_SSIENR",
    "ARC_SPI.SPI_SER",
    "ARC_SPI.SPI_SR",
    "ARC_SPI.SPI_DR",
    "ARC_SPI.SPI_BAUDR",
    "ARC_RESET.SPI_CNTL",
];

#[test]
fn controller_registers_are_looked_up() {
    let t = flat(&PATHS);
    let s = Spi::new(Some(&t)).unwrap();
    assert_eq!(s.gpio2_pad_trien_cntl, 0x100);
    assert_eq!(s.spi_dr, 0x100 + 32);
    assert_eq!(s.spi_cntl, 0x100 + 40);
    let t = flat(&PATHS[..5]);
    match Spi::new(Some(&t)) {
        Err(AxiError::InvalidPath { key, .. }) => assert_eq!(key, "ARC_SPI.SPI_SSIENR"),
        other => panic!("unexpected {other:?}"),
    }
    let a = ActiveSpi::new(Some(&flat(&PATHS)), true).unwrap();
    assert!(a.use_arc);
}

#[test]
fn a_write_error_comes_before_the_lock_error() {
    assert_eq!(luwen::spi::session_result::<u8>(Err(1), Err(2)), Err(1));
    assert_eq!(luwen::spi::session_result::<u8>(Ok(()), Err(2)), Err(2));
    assert_eq!(luwen::spi::session_result::<u8>(Ok(()), Ok(())), Ok(()));
}

#[test]
fn write_sessions_open_and_close_the_flash() {
    let s = spi();
    let mut open = s.init_ops(14);
    open.extend(s.unlock_ops());
    open.extend(s.disable_ops());
    assert_eq!(s.unlock_session_ops(14), open);
    let mut close = s.init_ops(14);
    close.extend(s.lock_ops(8, false));
    close.extend(s.disable_ops());
    assert_eq!(s.lock_session_ops(14, false), close);
}
