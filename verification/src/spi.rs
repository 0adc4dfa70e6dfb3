//! The SPI flash behind the ARC: the register programs that drive the SPI
//! controller, how a write is planned so that only erased sectors are
//! programmed, and how ARC-assisted accesses are cut into 4 KiB chunks.
//!
//! A program is a list of register operations; the caller runs it against
//! the chip in order.
use vstd::prelude::*;
use crate::axi::{translate_spec, table_faults, axi_translate, AxiError, MemorySlices};

verus! {

/// Depth of the controller's receive buffer, in frames.
pub const RX_BUFFER_DEPTH: u32 = 8;
/// Depth of the controller's transmit buffer, in frames.
pub const TX_BUFFER_DEPTH: u32 = 8;
/// A write never crosses a flash page of this many bytes.
pub const PAGE_SIZE: u32 = 256;
/// The flash is erased in sectors of this many bytes.
pub const SECTOR_SIZE: u32 = 4096;

/// SPI control: stop the clock.
pub const SPI_CNTL_CLK_DISABLE: u32 = 0x100;
/// SPI control: controller off.
pub const SPI_CNTL_SPI_DISABLE: u32 = 0x0;
/// SPI control: controller on.
pub const SPI_CNTL_SPI_ENABLE: u32 = 0x1;

/// Controller enable register: enabled.
pub const SPI_SSIENR_ENABLE: u32 = 0x1;
/// Controller enable register: disabled.
pub const SPI_SSIENR_DISABLE: u32 = 0x0;

/// Flash command: write enable.
pub const SPI_WR_EN_CMD: u8 = 0x06;
/// Flash command: erase a sector.
pub const SPI_WR_ER_CMD: u8 = 0x20;
/// Flash command: read.
pub const SPI_RD_CMD: u8 = 0x03;
/// Flash command: program a page.
pub const SPI_WR_CMD: u8 = 0x02;
/// Flash command: read the status register.
pub const SPI_RD_STATUS_CMD: u8 = 0x05;
/// Flash command: write the status register.
pub const SPI_WR_STATUS_CMD: u8 = 0x01;
/// Flash command: erase the whole flash.
pub const SPI_CHIP_ERASE_CMD: u8 = 0xC7;

/// Control register 0: transmit only.
pub const SPI_CTRL0_TMOD_TRANSMIT_ONLY: u32 = 0x100;
/// Control register 0: EEPROM read.
pub const SPI_CTRL0_TMOD_EEPROM_READ: u32 = 0x300;
/// Control register 0: standard frame format.
pub const SPI_CTRL0_SPI_FRF_STANDARD: u32 = 0x0;
/// Control register 0: 8-bit frames.
pub const SPI_CTRL0_DFS32_FRAME_08BITS: u32 = 0x70000;

/// Status register: receive buffer not empty.
pub const SPI_SR_RFNE: u32 = 0x8;
/// Status register: transmit buffer empty.
pub const SPI_SR_TFE: u32 = 0x4;
/// Status register: busy.
pub const SPI_SR_BUSY: u32 = 0x1;

/// Bytes of one erasable flash page.
pub const SPI_PAGE_ERASE_SIZE: u32 = 0x1000;
/// Size of the SPI flash.
pub const SPI_ROM_SIZE: u32 = 0x1000000;
/// Size of the chunks the ARC firmware reads and writes.
pub const ARC_SPI_CHUNK_SIZE: u32 = 0x1000;

/// The clock-phase field of control register 0.  The value is shifted into
/// bit 6 and then masked with bit 0, so it is always 0.
pub fn spi_ctrl0_spi_scph(scph: u32) -> (r: u32)
    ensures
        r == 0,
{
    assert(((scph << 6u32) & 1u32) == 0u32) by (bit_vector);
    (scph << 6) & 0x1
}

/// The frame-count field of control register 1.
pub fn spi_ctrl1_ndf(frame_count: u32) -> (r: u32)
    ensures
        r == frame_count % 0x10000,
{
    frame_count % 0x10000
}

/// The slave-select value that deselects every slave.
pub fn spi_ser_slave_disable(slave_id: u32) -> (r: u32)
    requires
        slave_id < 32,
    ensures
        r == 0,
{
    0
}

/// The slave-select value that selects slave `slave_id`.
pub fn spi_ser_slave_enable(slave_id: u32) -> (r: u32)
    requires
        slave_id < 32,
    ensures
        r == vstd::arithmetic::power2::pow2(slave_id as nat),
{
    proof {
        vstd::bits::lemma_u32_pow2_no_overflow(slave_id as nat);
        vstd::bits::lemma_u32_shl_is_mul(1, slave_id);
    }
    1 << slave_id
}

/// The clock-divider field of the baud-rate register.
pub fn spi_baudr_sckdv(ssi_clk_div: u32) -> (r: u32)
    ensures
        r == ssi_clk_div % 0x10000,
{
    ssi_clk_div % 0x10000
}

/// One register operation of an SPI program.
#[derive(Clone, Copy, Debug, PartialEq, Eq, Structural)]
pub enum SpiOp {
    /// Write `value` to the register at `addr`.
    Write { addr: u64, value: u32 },
    /// Read the register at `addr`, set the bits of `set`, clear those of
    /// `clear`, and write it back.
    Modify { addr: u64, set: u32, clear: u32 },
    /// Read the register at `addr` until all the bits of `mask` are set.
    WaitAllSet { addr: u64, mask: u32 },
    /// Read the register at `addr` until not all the bits of `mask` are set.
    WaitNotAllSet { addr: u64, mask: u32 },
    /// Read the register at `addr` until one of the bits of `mask` is set.
    WaitAnySet { addr: u64, mask: u32 },
    /// Read the register at `addr` and keep its low byte as byte `index` of
    /// what the program reads.
    ReadByte { addr: u64, index: usize },
    /// Run the program of `Spi::read_status_ops` for the flash status
    /// register until the busy bit (bit 0) of the byte it reads is clear.
    WaitNotBusy,
}

/// Addresses of the registers that drive the SPI controller.
#[derive(Clone, Copy, Debug)]
pub struct Spi {
    pub gpio2_pad_trien_cntl: u64,
    pub gpio2_pad_drv_cntl: u64,
    pub gpio2_pad_rxen_cntl: u64,
    pub spi_cntl: u64,
    pub spi_ctrlr0: u64,
    pub spi_ctrlr1: u64,
    pub spi_ssienr: u64,
    pub spi_ser: u64,
    pub spi_sr: u64,
    pub spi_dr: u64,
    pub spi_baudr: u64,
}

/// The register paths an `Spi` is built from, in the order its fields are
/// looked up.
pub open spec fn spi_paths() -> Seq<Seq<char>> {
    seq![
        "ARC_RESET.GPIO2_PAD_TRIEN_CNTL"@,
        "ARC_RESET.GPIO2_PAD_DRV_CNTL"@,
        "ARC_RESET.GPIO2_PAD_RXEN_CNTL"@,
        "ARC_SPI.SPI_CTRLR0"@,
        "ARC_SPI.SPI_CTRLR1"@,
        "ARC_SPI.SPI_SSIENR"@,
        "ARC_SPI.SPI_SER"@,
        "ARC_SPI.SPI_SR"@,
        "ARC_SPI.SPI_DR"@,
        "ARC_SPI.SPI_BAUDR"@,
        "ARC_RESET.SPI_CNTL"@,
    ]
}

/// The register addresses of `s`, in the order of `spi_paths`.
pub open spec fn spi_addrs(s: Spi) -> Seq<u64> {
    seq![
        s.gpio2_pad_trien_cntl,
        s.gpio2_pad_drv_cntl,
        s.gpio2_pad_rxen_cntl,
        s.spi_ctrlr0,
        s.spi_ctrlr1,
        s.spi_ssienr,
        s.spi_ser,
        s.spi_sr,
        s.spi_dr,
        s.spi_baudr,
        s.spi_cntl,
    ]
}

fn path_names() -> (r: [&'static str; 11])
    ensures
        forall|k: int| 0 <= k < 11 ==> #[trigger] r@[k]@ == spi_paths()[k],
{
    [
        "ARC_RESET.GPIO2_PAD_TRIEN_CNTL",
        "ARC_RESET.GPIO2_PAD_DRV_CNTL",
        "ARC_RESET.GPIO2_PAD_RXEN_CNTL",
        "ARC_SPI.SPI_CTRLR0",
        "ARC_SPI.SPI_CTRLR1",
        "ARC_SPI.SPI_SSIENR",
        "ARC_SPI.SPI_SER",
        "ARC_SPI.SPI_SR",
        "ARC_SPI.SPI_DR",
        "ARC_SPI.SPI_BAUDR",
        "ARC_RESET.SPI_CNTL",
    ]
}

/// Whether `a` is the address that `path` translates to through `data`.
pub open spec fn translates_to(data: Option<&MemorySlices>, path: Seq<char>, a: u64) -> bool {
    exists|d| translate_spec(data, path, Ok(d)) && d.addr == a
}

impl Spi {
    /// Look up the controller's registers in the chip's address table.  The
    /// paths are looked up in the order of `spi_paths`; the first that
    /// fails gives the error.
    pub fn new(data: Option<&MemorySlices>) -> (r: Result<Spi, AxiError>)
        requires
            forall|k: int| 0 <= k < 11 ==> !table_faults(data, #[trigger] spi_paths()[k]),
        ensures
            match r {
                Ok(s) => forall|k: int|
                    0 <= k < 11 ==> translates_to(data, #[trigger] spi_paths()[k], spi_addrs(s)[k]),
                Err(e) => exists|k: int|
                    0 <= k < 11 && translate_spec(data, spi_paths()[k], Err(e)) && forall|j: int|
                        0 <= j < k ==> exists|a: u64| translates_to(data, #[trigger] spi_paths()[j], a),
            },
    {
        let names = path_names();
        let mut addrs: Vec<u64> = Vec::new();
        let mut k: usize = 0;
        while k < 11
            invariant
                k <= 11,
                addrs@.len() == k,
                forall|k: int| 0 <= k < 11 ==> #[trigger] names@[k]@ == spi_paths()[k],
                forall|k: int| 0 <= k < 11 ==> !table_faults(data, #[trigger] spi_paths()[k]),
                forall|j: int| 0 <= j < k ==> translates_to(data, #[trigger] spi_paths()[j], addrs@[j]),
            decreases 11 - k,
        {
            assert(names@[k as int]@ == spi_paths()[k as int]);
            match axi_translate(data, names[k]) {
                Ok(d) => {
                    addrs.push(d.addr);
                    assert(translates_to(data, spi_paths()[k as int], addrs@[k as int]));
                },
                Err(e) => {
                    assert forall|j: int| 0 <= j < k implies exists|a: u64| translates_to(data, #[trigger] spi_paths()[j], a) by {
                        assert(translates_to(data, spi_paths()[j], addrs@[j]));
                    }
                    return Err(e);
                },
            }
            k = k + 1;
        }
        let s = Spi {
            gpio2_pad_trien_cntl: addrs[0],
            gpio2_pad_drv_cntl: addrs[1],
            gpio2_pad_rxen_cntl: addrs[2],
            spi_ctrlr0: addrs[3],
            spi_ctrlr1: addrs[4],
            spi_ssienr: addrs[5],
            spi_ser: addrs[6],
            spi_sr: addrs[7],
            spi_dr: addrs[8],
            spi_baudr: addrs[9],
            spi_cntl: addrs[10],
        };
        assert(spi_addrs(s) =~= addrs@);
        Ok(s)
    }
}

/// A register write.
pub open spec fn wr(addr: u64, value: u32) -> SpiOp {
    SpiOp::Write { addr, value }
}

/// Control register 0 set up for EEPROM reads, 8-bit frames.
pub open spec fn ctrl0_read() -> u32 {
    0x70300
}

/// Control register 0 set up for transmitting only, 8-bit frames.
pub open spec fn ctrl0_transmit() -> u32 {
    0x70100
}

/// Start of a transmit: the controller is disabled, set to transmit, enabled,
/// and the slave deselected.
pub open spec fn tx_begin_spec(s: Spi) -> Seq<SpiOp> {
    seq![wr(s.spi_ssienr, 0), wr(s.spi_ctrlr0, ctrl0_transmit()), wr(s.spi_ssienr, 1), wr(s.spi_ser, 0)]
}

/// Wait for the transmit buffer to drain and the controller to go idle,
/// then deselect the slave.
pub open spec fn settle_spec(s: Spi) -> Seq<SpiOp> {
    seq![
        SpiOp::WaitAllSet { addr: s.spi_sr, mask: SPI_SR_TFE },
        SpiOp::WaitNotAllSet { addr: s.spi_sr, mask: SPI_SR_BUSY },
        wr(s.spi_ser, 0),
    ]
}

/// Send the write-enable command.
pub open spec fn wren_spec(s: Spi) -> Seq<SpiOp> {
    seq![wr(s.spi_dr, SPI_WR_EN_CMD as u32), wr(s.spi_ser, 1)] + settle_spec(s)
}

/// A command byte followed by the three bytes of a 24-bit flash address,
/// most significant first.
pub open spec fn cmd_addr_spec(s: Spi, cmd: u8, addr: int) -> Seq<SpiOp> {
    seq![
        wr(s.spi_dr, cmd as u32),
        wr(s.spi_dr, (addr / 0x10000 % 0x100) as u32),
        wr(s.spi_dr, (addr / 0x100 % 0x100) as u32),
        wr(s.spi_dr, (addr % 0x100) as u32),
    ]
}

/// Bring up the pads and the controller with clock divider `clock_div`.
pub open spec fn init_spec(s: Spi, clock_div: u32) -> Seq<SpiOp> {
    seq![
        SpiOp::Modify { addr: s.gpio2_pad_trien_cntl, set: 0x4, clear: 0x60 },
        wr(s.gpio2_pad_drv_cntl, 0xffffffff),
        SpiOp::Modify { addr: s.gpio2_pad_rxen_cntl, set: 0x7e, clear: 0 },
        wr(s.spi_cntl, SPI_CNTL_SPI_ENABLE),
        wr(s.spi_ssienr, 0),
        wr(s.spi_ctrlr0, ctrl0_read()),
        wr(s.spi_ser, 0),
        wr(s.spi_baudr, (clock_div % 0x10000) as u32),
        wr(s.spi_ssienr, 1),
    ]
}

/// Read the flash register selected by command `register`; the program
/// reads one byte.
pub open spec fn read_status_spec(s: Spi, register: u8) -> Seq<SpiOp> {
    seq![
        wr(s.spi_ssienr, 0),
        wr(s.spi_ctrlr0, ctrl0_read()),
        wr(s.spi_ctrlr1, 0),
        wr(s.spi_ssienr, 1),
        wr(s.spi_ser, 0),
        wr(s.spi_dr, register as u32),
        wr(s.spi_ser, 1),
        SpiOp::WaitAnySet { addr: s.spi_sr, mask: SPI_SR_RFNE },
        SpiOp::ReadByte { addr: s.spi_dr, index: 0 },
        wr(s.spi_ser, 0),
    ]
}

/// The status-register value that protects `sections` sections of the
/// flash.  Boards with the simple flash part have one encoding; the other
/// part counts the first four sections from one end and the rest from the
/// other.
pub open spec fn lock_word_spec(sections: u8, simple: bool) -> u32 {
    if simple {
        0x40u32 | ((sections as u32) << 2u32)
    } else if sections < 5 {
        0x60u32 | ((sections as u32) << 2u32)
    } else {
        0x20u32 | (((sections - 5) as u32) << 2u32)
    }
}

/// Write-protect `sections` sections of the flash.
pub open spec fn lock_spec(s: Spi, sections: u8, simple: bool) -> Seq<SpiOp> {
    tx_begin_spec(s) + wren_spec(s) + seq![
        wr(s.spi_dr, SPI_WR_STATUS_CMD as u32),
        wr(s.spi_dr, lock_word_spec(sections, simple)),
        wr(s.spi_ser, 1),
    ] + settle_spec(s) + seq![SpiOp::WaitNotBusy]
}

/// Erase the sector holding flash address `addr`.
pub open spec fn erase_spec(s: Spi, addr: u32) -> Seq<SpiOp> {
    tx_begin_spec(s) + wren_spec(s) + cmd_addr_spec(s, SPI_WR_ER_CMD, addr as int) + seq![
        wr(s.spi_ser, 1),
    ] + settle_spec(s) + seq![SpiOp::WaitNotBusy]
}

/// Erase the whole flash.
pub open spec fn full_erase_spec(s: Spi) -> Seq<SpiOp> {
    tx_begin_spec(s) + wren_spec(s) + seq![
        wr(s.spi_dr, SPI_CHIP_ERASE_CMD as u32),
        wr(s.spi_ser, 1),
    ] + settle_spec(s) + seq![SpiOp::WaitNotBusy]
}

/// Receive `count` frames into bytes `index..index + count` of the output.
pub open spec fn rx_frames_spec(s: Spi, index: nat, count: nat) -> Seq<SpiOp>
    decreases count,
{
    if count == 0 {
        seq![]
    } else {
        seq![
            SpiOp::WaitAnySet { addr: s.spi_sr, mask: SPI_SR_RFNE },
            SpiOp::ReadByte { addr: s.spi_dr, index: index as usize },
        ] + rx_frames_spec(s, index + 1, (count - 1) as nat)
    }
}

/// The smaller of two numbers.
pub open spec fn min(a: int, b: int) -> int {
    if a < b {
        a
    } else {
        b
    }
}

/// Read bytes `index..len` of a read that started at flash address
/// `addr - index`, at most a receive buffer at a time.
pub open spec fn rx_groups_spec(s: Spi, addr: int, index: nat, len: nat) -> Seq<SpiOp>
    decreases len - index,
{
    if index >= len {
        seq![]
    } else {
        let frames = min(RX_BUFFER_DEPTH as int, len - index);
        seq![
            wr(s.spi_ssienr, 0),
            wr(s.spi_ctrlr1, (frames - 1) as u32),
            wr(s.spi_ssienr, 1),
            wr(s.spi_ser, 0),
        ] + cmd_addr_spec(s, SPI_RD_CMD, addr) + seq![wr(s.spi_ser, 1)] + rx_frames_spec(
            s,
            index,
            frames as nat,
        ) + seq![wr(s.spi_ser, 0)] + rx_groups_spec(s, addr + frames, (index + frames) as nat, len)
    }
}

/// Read `len` bytes from flash address `addr`.
pub open spec fn read_spec(s: Spi, addr: u32, len: nat) -> Seq<SpiOp> {
    seq![wr(s.spi_ssienr, 0), wr(s.spi_ctrlr0, ctrl0_read()), wr(s.spi_ssienr, 1)]
        + rx_groups_spec(s, addr as int, 0, len)
}

/// Send bytes `index..index + count` of `data`.
pub open spec fn tx_frames_spec(s: Spi, data: Seq<u8>, index: nat, count: nat) -> Seq<SpiOp>
    decreases count,
{
    if count == 0 {
        seq![]
    } else {
        seq![wr(s.spi_dr, data[index as int] as u32)] + tx_frames_spec(
            s,
            data,
            index + 1,
            (count - 1) as nat,
        )
    }
}

/// How many bytes the next program step writes at flash address `addr`
/// with `left` bytes to go: at most the transmit buffer less the four
/// command bytes, and never past the end of a page.
pub open spec fn tx_group_len(addr: int, left: int) -> int {
    min(min((TX_BUFFER_DEPTH - 4) as int, left), PAGE_SIZE - addr % (PAGE_SIZE as int))
}

/// Program bytes `index..` of `data` from flash address `addr`, which is
/// where byte `index` goes.
pub open spec fn tx_groups_spec(s: Spi, addr: int, data: Seq<u8>, index: nat) -> Seq<SpiOp>
    decreases data.len() - index,
{
    if index >= data.len() {
        seq![]
    } else {
        let frames = tx_group_len(addr, data.len() - index);
        tx_begin_spec(s) + wren_spec(s) + cmd_addr_spec(s, SPI_WR_CMD, addr) + tx_frames_spec(
            s,
            data,
            index,
            frames as nat,
        ) + seq![wr(s.spi_ser, 1)] + settle_spec(s) + seq![SpiOp::WaitNotBusy] + tx_groups_spec(
            s,
            addr + frames,
            data,
            (index + frames) as nat,
        )
    }
}

/// Program `data` at flash address `addr`, which must be erased.
pub open spec fn raw_write_spec(s: Spi, addr: u32, data: Seq<u8>) -> Seq<SpiOp> {
    tx_groups_spec(s, addr as int, data, 0)
}

/// Control register 0 for transfer mode `tmod`, standard frame format,
/// 8-bit frames and the clock phase field; the fields do not overlap.
fn ctrl0_for(tmod: u32) -> (r: u32)
    requires
        tmod == SPI_CTRL0_TMOD_EEPROM_READ || tmod == SPI_CTRL0_TMOD_TRANSMIT_ONLY,
    ensures
        r == tmod + 0x70000,
{
    tmod + SPI_CTRL0_SPI_FRF_STANDARD + SPI_CTRL0_DFS32_FRAME_08BITS + spi_ctrl0_spi_scph(0x1)
}

fn push_write(out: &mut Vec<SpiOp>, addr: u64, value: u32)
    ensures
        final(out)@ == old(out)@.push(wr(addr, value)),
{
    out.push(SpiOp::Write { addr, value });
}

impl Spi {
    fn push_tx_begin(&self, out: &mut Vec<SpiOp>)
        ensures
            final(out)@ == old(out)@ + tx_begin_spec(*self),
    {
        let ctrl0 = ctrl0_for(SPI_CTRL0_TMOD_TRANSMIT_ONLY);
        push_write(out, self.spi_ssienr, SPI_SSIENR_DISABLE);
        push_write(out, self.spi_ctrlr0, ctrl0);
        push_write(out, self.spi_ssienr, SPI_SSIENR_ENABLE);
        push_write(out, self.spi_ser, spi_ser_slave_disable(0));
        assert(final(out)@ =~= old(out)@ + tx_begin_spec(*self));
    }

    fn push_settle(&self, out: &mut Vec<SpiOp>)
        ensures
            final(out)@ == old(out)@ + settle_spec(*self),
    {
        out.push(SpiOp::WaitAllSet { addr: self.spi_sr, mask: SPI_SR_TFE });
        out.push(SpiOp::WaitNotAllSet { addr: self.spi_sr, mask: SPI_SR_BUSY });
        push_write(out, self.spi_ser, spi_ser_slave_disable(0));
        assert(final(out)@ =~= old(out)@ + settle_spec(*self));
    }

    fn push_wren(&self, out: &mut Vec<SpiOp>)
        ensures
            final(out)@ == old(out)@ + wren_spec(*self),
    {
        let ghost start = out@;
        push_write(out, self.spi_dr, SPI_WR_EN_CMD as u32);
        push_write(out, self.spi_ser, spi_ser_slave_enable(0));
        proof {
            vstd::arithmetic::power2::lemma2_to64();
        }
        let ghost mid = out@;
        self.push_settle(out);
        assert(final(out)@ =~= start + wren_spec(*self));
    }

    fn push_cmd_addr(&self, out: &mut Vec<SpiOp>, cmd: u8, addr: u32)
        ensures
            final(out)@ == old(out)@ + cmd_addr_spec(*self, cmd, addr as int),
    {
        push_write(out, self.spi_dr, cmd as u32);
        push_write(out, self.spi_dr, addr / 0x10000 % 0x100);
        push_write(out, self.spi_dr, addr / 0x100 % 0x100);
        push_write(out, self.spi_dr, addr % 0x100);
        assert(final(out)@ =~= old(out)@ + cmd_addr_spec(*self, cmd, addr as int));
    }

    fn push_wait_not_busy(&self, out: &mut Vec<SpiOp>)
        ensures
            final(out)@ == old(out)@ + seq![SpiOp::WaitNotBusy],
    {
        out.push(SpiOp::WaitNotBusy);
        assert(final(out)@ =~= old(out)@ + seq![SpiOp::WaitNotBusy]);
    }

    /// The program that brings up the SPI pads and controller.
    pub fn init_ops(&self, clock_div: u32) -> (r: Vec<SpiOp>)
        ensures
            r@ == init_spec(*self, clock_div),
    {
        let mut out: Vec<SpiOp> = Vec::new();
        out.push(SpiOp::Modify { addr: self.gpio2_pad_trien_cntl, set: 0x4, clear: 0x60 });
        push_write(&mut out, self.gpio2_pad_drv_cntl, 0xffffffff);
        out.push(SpiOp::Modify { addr: self.gpio2_pad_rxen_cntl, set: 0x7e, clear: 0 });
        push_write(&mut out, self.spi_cntl, SPI_CNTL_SPI_ENABLE);
        push_write(&mut out, self.spi_ssienr, SPI_SSIENR_DISABLE);
        let ctrl0 = ctrl0_for(SPI_CTRL0_TMOD_EEPROM_READ);
        push_write(&mut out, self.spi_ctrlr0, ctrl0);
        push_write(&mut out, self.spi_ser, 0);
        push_write(&mut out, self.spi_baudr, spi_baudr_sckdv(clock_div));
        push_write(&mut out, self.spi_ssienr, SPI_SSIENR_ENABLE);
        assert(out@ =~= init_spec(*self, clock_div));
        out
    }

    /// The program that stops the SPI clock and controller.
    pub fn disable_ops(&self) -> (r: Vec<SpiOp>)
        ensures
            r@ == seq![wr(self.spi_cntl, SPI_CNTL_CLK_DISABLE)],
    {
        let mut out: Vec<SpiOp> = Vec::new();
        push_write(&mut out, self.spi_cntl, SPI_CNTL_CLK_DISABLE + SPI_CNTL_SPI_DISABLE);
        assert(out@ =~= seq![wr(self.spi_cntl, SPI_CNTL_CLK_DISABLE)]);
        out
    }

    /// The program that reads the flash register selected by `register`.
    pub fn read_status_ops(&self, register: u8) -> (r: Vec<SpiOp>)
        ensures
            r@ == read_status_spec(*self, register),
    {
        let mut out: Vec<SpiOp> = Vec::new();
        push_write(&mut out, self.spi_ssienr, SPI_SSIENR_DISABLE);
        let ctrl0 = ctrl0_for(SPI_CTRL0_TMOD_EEPROM_READ);
        push_write(&mut out, self.spi_ctrlr0, ctrl0);
        push_write(&mut out, self.spi_ctrlr1, spi_ctrl1_ndf(0));
        push_write(&mut out, self.spi_ssienr, SPI_SSIENR_ENABLE);
        push_write(&mut out, self.spi_ser, spi_ser_slave_disable(0));
        push_write(&mut out, self.spi_dr, register as u32);
        push_write(&mut out, self.spi_ser, spi_ser_slave_enable(0));
        proof {
            vstd::arithmetic::power2::lemma2_to64();
        }
        out.push(SpiOp::WaitAnySet { addr: self.spi_sr, mask: SPI_SR_RFNE });
        out.push(SpiOp::ReadByte { addr: self.spi_dr, index: 0 });
        push_write(&mut out, self.spi_ser, spi_ser_slave_disable(0));
        assert(out@ =~= read_status_spec(*self, register));
        out
    }

    /// The program that write-protects `sections` sections of the flash.
    pub fn lock_ops(&self, sections: u8, simple: bool) -> (r: Vec<SpiOp>)
        ensures
            r@ == lock_spec(*self, sections, simple),
    {
        let mut out: Vec<SpiOp> = Vec::new();
        self.push_tx_begin(&mut out);
        self.push_wren(&mut out);
        push_write(&mut out, self.spi_dr, SPI_WR_STATUS_CMD as u32);
        push_write(&mut out, self.spi_dr, lock_word(sections, simple));
        push_write(&mut out, self.spi_ser, spi_ser_slave_enable(0));
        proof {
            vstd::arithmetic::power2::lemma2_to64();
        }
        self.push_settle(&mut out);
        self.push_wait_not_busy(&mut out);
        assert(out@ =~= lock_spec(*self, sections, simple));
        out
    }

    /// The program that removes all write protection.
    pub fn unlock_ops(&self) -> (r: Vec<SpiOp>)
        ensures
            r@ == lock_spec(*self, 0, false),
    {
        self.lock_ops(0, false)
    }

    /// The program that opens a flash write: set the controller up,
    /// unprotect the flash, and switch the controller off again.
    pub fn unlock_session_ops(&self, clock_div: u32) -> (r: Vec<SpiOp>)
        ensures
            r@ == init_spec(*self, clock_div) + lock_spec(*self, 0, false) + seq![wr(self.spi_cntl, SPI_CNTL_CLK_DISABLE)],
    {
        let mut out = self.init_ops(clock_div);
        let mut unlock = self.unlock_ops();
        let mut off = self.disable_ops();
        out.append(&mut unlock);
        out.append(&mut off);
        out
    }

    /// The program that closes a flash write, whatever became of it: set
    /// the controller up, protect the first eight sections of the flash,
    /// and switch the controller off again.
    pub fn lock_session_ops(&self, clock_div: u32, simple: bool) -> (r: Vec<SpiOp>)
        ensures
            r@ == init_spec(*self, clock_div) + lock_spec(*self, 8, simple) + seq![wr(self.spi_cntl, SPI_CNTL_CLK_DISABLE)],
    {
        let mut out = self.init_ops(clock_div);
        let mut lock = self.lock_ops(8, simple);
        let mut off = self.disable_ops();
        out.append(&mut lock);
        out.append(&mut off);
        out
    }

    /// The program that erases the sector holding flash address `addr`.
    pub fn erase_ops(&self, addr: u32) -> (r: Vec<SpiOp>)
        ensures
            r@ == erase_spec(*self, addr),
    {
        let mut out: Vec<SpiOp> = Vec::new();
        self.push_tx_begin(&mut out);
        self.push_wren(&mut out);
        self.push_cmd_addr(&mut out, SPI_WR_ER_CMD, addr);
        push_write(&mut out, self.spi_ser, spi_ser_slave_enable(0));
        proof {
            vstd::arithmetic::power2::lemma2_to64();
        }
        self.push_settle(&mut out);
        self.push_wait_not_busy(&mut out);
        assert(out@ =~= erase_spec(*self, addr));
        out
    }

    /// The program that erases the whole flash.
    pub fn full_erase_ops(&self) -> (r: Vec<SpiOp>)
        ensures
            r@ == full_erase_spec(*self),
    {
        let mut out: Vec<SpiOp> = Vec::new();
        self.push_tx_begin(&mut out);
        self.push_wren(&mut out);
        push_write(&mut out, self.spi_dr, SPI_CHIP_ERASE_CMD as u32);
        push_write(&mut out, self.spi_ser, spi_ser_slave_enable(0));
        proof {
            vstd::arithmetic::power2::lemma2_to64();
        }
        self.push_settle(&mut out);
        self.push_wait_not_busy(&mut out);
        assert(out@ =~= full_erase_spec(*self));
        out
    }
}

/// The status-register value that protects `sections` sections.
pub fn lock_word(sections: u8, simple: bool) -> (r: u32)
    ensures
        r == lock_word_spec(sections, simple),
{
    let n = sections as u32;
    if simple {
        0x40 | (n << 2)
    } else if sections < 5 {
        0x60 | (n << 2)
    } else {
        0x20 | ((n - 5) << 2)
    }
}

impl Spi {
    fn push_rx_frames(&self, out: &mut Vec<SpiOp>, index: usize, count: u32)
        requires
            index + count <= usize::MAX,
        ensures
            final(out)@ == old(out)@ + rx_frames_spec(*self, index as nat, count as nat),
    {
        let ghost start = old(out)@;
        let mut f: u32 = 0;
        while f < count
            invariant
                f <= count,
                index + count <= usize::MAX,
                out@ + rx_frames_spec(*self, (index + f) as nat, (count - f) as nat) == start
                    + rx_frames_spec(*self, index as nat, count as nat),
            decreases count - f,
        {
            let ghost before = out@;
            let ghost rest = rx_frames_spec(*self, (index + f + 1) as nat, (count - f - 1) as nat);
            out.push(SpiOp::WaitAnySet { addr: self.spi_sr, mask: SPI_SR_RFNE });
            out.push(SpiOp::ReadByte { addr: self.spi_dr, index: index + f as usize });
            assert(out@ + rest =~= before + rx_frames_spec(*self, (index + f) as nat, (count - f) as nat));
            f = f + 1;
        }
        assert(rx_frames_spec(*self, (index + f) as nat, 0) =~= Seq::<SpiOp>::empty());
        assert(out@ =~= out@ + rx_frames_spec(*self, (index + f) as nat, (count - f) as nat));
    }

    /// The program that reads `len` bytes from flash address `addr`; byte
    /// `i` of what it reads is the byte at `addr + i`.
    pub fn read_ops(&self, addr: u32, len: usize) -> (r: Vec<SpiOp>)
        requires
            addr + len <= u32::MAX,
        ensures
            r@ == read_spec(*self, addr, len as nat),
    {
        let mut out: Vec<SpiOp> = Vec::new();
        push_write(&mut out, self.spi_ssienr, SPI_SSIENR_DISABLE);
        let ctrl0 = ctrl0_for(SPI_CTRL0_TMOD_EEPROM_READ);
        push_write(&mut out, self.spi_ctrlr0, ctrl0);
        push_write(&mut out, self.spi_ssienr, SPI_SSIENR_ENABLE);
        let ghost prefix = out@;
        let mut idx: usize = 0;
        let mut a: u32 = addr;
        while idx < len
            invariant
                idx <= len,
                a == addr + idx,
                addr + len <= u32::MAX,
                out@ + rx_groups_spec(*self, a as int, idx as nat, len as nat) == prefix
                    + rx_groups_spec(*self, addr as int, 0, len as nat),
            decreases len - idx,
        {
            let frames: u32 = if len - idx < RX_BUFFER_DEPTH as usize {
                (len - idx) as u32
            } else {
                RX_BUFFER_DEPTH
            };
            let ghost before = out@;
            push_write(&mut out, self.spi_ssienr, SPI_SSIENR_DISABLE);
            push_write(&mut out, self.spi_ctrlr1, spi_ctrl1_ndf(frames - 1));
            push_write(&mut out, self.spi_ssienr, SPI_SSIENR_ENABLE);
            push_write(&mut out, self.spi_ser, spi_ser_slave_disable(0));
            self.push_cmd_addr(&mut out, SPI_RD_CMD, a);
            push_write(&mut out, self.spi_ser, spi_ser_slave_enable(0));
            proof {
                vstd::arithmetic::power2::lemma2_to64();
            }
            self.push_rx_frames(&mut out, idx, frames);
            push_write(&mut out, self.spi_ser, spi_ser_slave_disable(0));
            let ghost rest = rx_groups_spec(*self, a + frames, (idx + frames) as nat, len as nat);
            assert(out@ + rest =~= before + rx_groups_spec(*self, a as int, idx as nat, len as nat));
            a = a + frames;
            idx = idx + frames as usize;
        }
        assert(rx_groups_spec(*self, a as int, idx as nat, len as nat) =~= Seq::<SpiOp>::empty());
        assert(out@ =~= read_spec(*self, addr, len as nat));
        out
    }

    fn push_tx_frames(&self, out: &mut Vec<SpiOp>, data: &[u8], index: usize, count: u32)
        requires
            index + count <= data@.len(),
        ensures
            final(out)@ == old(out)@ + tx_frames_spec(*self, data@, index as nat, count as nat),
    {
        let ghost start = old(out)@;
        let mut f: u32 = 0;
        while f < count
            invariant
                f <= count,
                index + count <= data@.len(),
                data@.len() == data.len(),
                out@ + tx_frames_spec(*self, data@, (index + f) as nat, (count - f) as nat) == start
                    + tx_frames_spec(*self, data@, index as nat, count as nat),
            decreases count - f,
        {
            let ghost before = out@;
            let ghost rest = tx_frames_spec(*self, data@, (index + f + 1) as nat, (count - f - 1) as nat);
            push_write(out, self.spi_dr, data[index + f as usize] as u32);
            assert(out@ + rest =~= before + tx_frames_spec(*self, data@, (index + f) as nat, (count - f) as nat));
            f = f + 1;
        }
        assert(tx_frames_spec(*self, data@, (index + f) as nat, 0) =~= Seq::<SpiOp>::empty());
        assert(out@ =~= out@ + tx_frames_spec(*self, data@, (index + f) as nat, (count - f) as nat));
    }

    /// The program that programs `data` at flash address `addr`, a few
    /// bytes at a time and never across a page boundary.  The flash there
    /// must be erased.
    pub fn raw_write_ops(&self, addr: u32, data: &[u8]) -> (r: Vec<SpiOp>)
        requires
            addr + data@.len() <= u32::MAX,
        ensures
            r@ == raw_write_spec(*self, addr, data@),
    {
        let mut out: Vec<SpiOp> = Vec::new();
        let len = data.len();
        let mut idx: usize = 0;
        let mut a: u32 = addr;
        while idx < len
            invariant
                idx <= len,
                len == data@.len(),
                a == addr + idx,
                addr + len <= u32::MAX,
                out@ + tx_groups_spec(*self, a as int, data@, idx as nat) == tx_groups_spec(
                    *self,
                    addr as int,
                    data@,
                    0,
                ),
            decreases len - idx,
        {
            let left: u32 = if len - idx < (TX_BUFFER_DEPTH - 4) as usize {
                (len - idx) as u32
            } else {
                TX_BUFFER_DEPTH - 4
            };
            let page_left: u32 = PAGE_SIZE - a % PAGE_SIZE;
            let frames: u32 = if left < page_left {
                left
            } else {
                page_left
            };
            let ghost before = out@;
            self.push_tx_begin(&mut out);
            self.push_wren(&mut out);
            self.push_cmd_addr(&mut out, SPI_WR_CMD, a);
            self.push_tx_frames(&mut out, data, idx, frames);
            push_write(&mut out, self.spi_ser, spi_ser_slave_enable(0));
            proof {
                vstd::arithmetic::power2::lemma2_to64();
            }
            self.push_settle(&mut out);
            self.push_wait_not_busy(&mut out);
            let ghost rest = tx_groups_spec(*self, a + frames, data@, (idx + frames) as nat);
            assert(out@ + rest =~= before + tx_groups_spec(*self, a as int, data@, idx as nat));
            a = a + frames;
            idx = idx + frames as usize;
        }
        assert(tx_groups_spec(*self, a as int, data@, idx as nat) =~= Seq::<SpiOp>::empty());
        assert(out@ =~= raw_write_spec(*self, addr, data@));
        out
    }
}

/// Whether the board carries the simple flash part, by the board id the
/// device reports where it reports one, else by the UPI field (bits 36..56)
/// of the board id in the telemetry.
pub fn simple_spi(info_board_id: Option<u64>, telemetry_board_id: u64) -> (r: bool)
    ensures
        r == match info_board_id {
            Some(b) => b == 0x35,
            None => telemetry_board_id / 0x1000000000 % 0x100000 == 0x35,
        },
{
    match info_board_id {
        Some(b) => b == 0x35,
        None => {
            let upi = telemetry_board_id / 0x1000000000 % 0x100000;
            upi == 0x35
        },
    }
}

/// What writing to the flash takes, given what it holds there now.
#[derive(Clone, Copy, Debug, PartialEq, Eq, Structural)]
pub enum SpiWritePlan {
    /// The flash already holds the data.
    Unchanged,
    /// The flash there is erased: program the data directly.
    Raw,
    /// Read the `count` sectors from sector `start` on, put the data into
    /// that image, then erase and reprogram each sector.
    Sectors { start: u32, count: u32 },
}

/// The plan for writing `data` at `addr` over the bytes `existing` read
/// there: erased flash (all bytes 0xFF) is programmed directly; otherwise,
/// if any byte differs, every sector the write touches is rewritten.
pub open spec fn write_plan_spec(addr: u32, data: Seq<u8>, existing: Seq<u8>) -> SpiWritePlan {
    if forall|i: int| 0 <= i < existing.len() ==> existing[i] == 0xff {
        SpiWritePlan::Raw
    } else if exists|i: int| 0 <= i < existing.len() && i < data.len() && existing[i] != data[i] {
        let start = addr / SECTOR_SIZE;
        let end = (addr + data.len() + SECTOR_SIZE - 1) / SECTOR_SIZE as int;
        SpiWritePlan::Sectors { start: start as u32, count: (end - start) as u32 }
    } else {
        SpiWritePlan::Unchanged
    }
}

/// Decide how to write `data` at `addr`, given the bytes `existing` that a
/// read of the same length there returned.
pub fn plan_write(addr: u32, data: &[u8], existing: &[u8]) -> (r: SpiWritePlan)
    requires
        addr + data@.len() <= u32::MAX,
    ensures
        r == write_plan_spec(addr, data@, existing@),
{
    let mut all_erased = true;
    let mut i: usize = 0;
    while i < existing.len()
        invariant
            i <= existing@.len(),
            all_erased == forall|j: int| 0 <= j < i ==> existing@[j] == 0xff,
        decreases existing@.len() - i,
    {
        if existing[i] != 0xff {
            all_erased = false;
        }
        i = i + 1;
    }
    if all_erased {
        return SpiWritePlan::Raw;
    }
    let mut differs = false;
    let mut i: usize = 0;
    while i < existing.len() && i < data.len()
        invariant
            i <= existing@.len(),
            i <= data@.len(),
            differs == exists|j: int| 0 <= j < i && existing@[j] != data@[j],
        decreases existing@.len() - i,
    {
        if existing[i] != data[i] {
            differs = true;
        }
        i = i + 1;
    }
    if differs {
        let start = addr / SECTOR_SIZE;
        let end = ((addr as u64 + data.len() as u64 + 4095) / 4096) as u32;
        SpiWritePlan::Sectors { start, count: end - start }
    } else {
        SpiWritePlan::Unchanged
    }
}

/// What a write plan decides, over all inputs: the flash is programmed
/// directly only when every byte read there is erased (0xff); it is left
/// alone only when the data agrees with what is there; otherwise the
/// sectors rewritten are exactly the 4 KiB sectors that the range
/// `[addr, addr + data.len())` touches.
pub proof fn lemma_write_plan(addr: u32, data: Seq<u8>, existing: Seq<u8>)
    requires
        addr + data.len() <= u32::MAX,
    ensures
        (write_plan_spec(addr, data, existing) is Raw) <==> (forall|i: int| 0 <= i < existing.len() ==> existing[i] == 0xff),
        (write_plan_spec(addr, data, existing) is Unchanged) <==> ((exists|i: int| 0 <= i < existing.len() && existing[i] != 0xff)
            && forall|j: int| 0 <= j < existing.len() && j < data.len() ==> existing[j] == data[j]),
        write_plan_spec(addr, data, existing) matches SpiWritePlan::Sectors { start, count } ==> {
            &&& data.len() > 0
            &&& start * 4096 <= addr < start * 4096 + 4096
            &&& addr + data.len() <= (start + count) * 4096
            &&& (start + count) * 4096 < addr + data.len() + 4096
        },
{
    let p = write_plan_spec(addr, data, existing);
    if let SpiWritePlan::Sectors { start, count } = p {
        let e = addr + data.len();
        let q = (e + 4095) / 4096;
        vstd::arithmetic::div_mod::lemma_fundamental_div_mod(addr as int, 4096);
        vstd::arithmetic::div_mod::lemma_fundamental_div_mod(e + 4095, 4096);
        assert(start == addr / 4096);
        assert(start + count == q);
    }
}

/// The sector image with `data` put in at `offset`.
pub open spec fn patched(image: Seq<u8>, offset: int, data: Seq<u8>) -> Seq<u8> {
    image.subrange(0, offset) + data + image.subrange(offset + data.len(), image.len() as int)
}

/// Put `data` into the image `sectors` (read from the sectors a write
/// touches) at `offset`, the write address less the first sector's address.
pub fn sector_image(sectors: &mut Vec<u8>, offset: usize, data: &[u8])
    requires
        offset + data@.len() <= old(sectors)@.len(),
    ensures
        final(sectors)@ == patched(old(sectors)@, offset as int, data@),
{
    let ghost o = sectors@;
    let n = sectors.len();
    let mut i: usize = 0;
    while i < data.len()
        invariant
            i <= data@.len(),
            offset + data@.len() <= o.len(),
            sectors@.len() == o.len(),
            n == o.len(),
            forall|j: int| 0 <= j < offset ==> #[trigger] sectors@[j] == o[j],
            forall|j: int| offset <= j < offset + i ==> #[trigger] sectors@[j] == data@[j - offset],
            forall|j: int| offset + i <= j < o.len() ==> #[trigger] sectors@[j] == o[j],
        decreases data@.len() - i,
    {
        sectors.set(offset + i, data[i]);
        i = i + 1;
    }
    assert(sectors@ =~= patched(o, offset as int, data@));
}

/// Erase and reprogram sectors `start + k` for `k` from `index` on, from
/// the image `image` of `count` sectors.
pub open spec fn sector_writes_spec(s: Spi, start: nat, count: nat, image: Seq<u8>, index: nat) -> Seq<SpiOp>
    decreases count - index,
{
    if index >= count {
        seq![]
    } else {
        let sector_addr = ((start + index) * SECTOR_SIZE) as u32;
        let from = index * SECTOR_SIZE;
        erase_spec(s, sector_addr) + raw_write_spec(
            s,
            sector_addr,
            image.subrange(from as int, from + SECTOR_SIZE),
        ) + sector_writes_spec(s, start, count, image, index + 1)
    }
}

impl Spi {
    /// The program that erases and reprograms `count` sectors from sector
    /// `start` on with the image `image`.
    pub fn sector_write_ops(&self, start: u32, count: u32, image: &[u8]) -> (r: Vec<SpiOp>)
        requires
            image@.len() == count * SECTOR_SIZE,
            (start + count) * SECTOR_SIZE <= u32::MAX,
        ensures
            r@ == sector_writes_spec(*self, start as nat, count as nat, image@, 0),
    {
        let mut out: Vec<SpiOp> = Vec::new();
        let mut i: u32 = 0;
        while i < count
            invariant
                i <= count,
                image@.len() == count * SECTOR_SIZE,
                (start + count) * SECTOR_SIZE <= u32::MAX,
                out@ + sector_writes_spec(*self, start as nat, count as nat, image@, i as nat)
                    == sector_writes_spec(*self, start as nat, count as nat, image@, 0),
            decreases count - i,
        {
            assert((start + i + 1) * SECTOR_SIZE <= (start + count) * SECTOR_SIZE) by (nonlinear_arith)
                requires
                    i < count,
            ;
            assert((i + 1) * SECTOR_SIZE <= count * SECTOR_SIZE) by (nonlinear_arith)
                requires
                    i < count,
            ;
            let sector_addr: u32 = (start + i) * SECTOR_SIZE;
            let from: usize = (i * SECTOR_SIZE) as usize;
            let ghost before = out@;
            let erase = self.erase_ops(sector_addr);
            let chunk = slice_range(image, from, from + SECTOR_SIZE as usize);
            let program = self.raw_write_ops(sector_addr, chunk);
            append_ops(&mut out, &erase);
            append_ops(&mut out, &program);
            let ghost rest = sector_writes_spec(*self, start as nat, count as nat, image@, (i + 1) as nat);
            assert(out@ + rest =~= before + sector_writes_spec(*self, start as nat, count as nat, image@, i as nat));
            i = i + 1;
        }
        assert(out@ =~= out@ + sector_writes_spec(*self, start as nat, count as nat, image@, i as nat));
        out
    }
}

fn slice_range(data: &[u8], from: usize, to: usize) -> (r: &[u8])
    requires
        from <= to <= data@.len(),
    ensures
        r@ == data@.subrange(from as int, to as int),
{
    vstd::slice::slice_subrange(data, from, to)
}

fn append_ops(out: &mut Vec<SpiOp>, ops: &Vec<SpiOp>)
    ensures
        final(out)@ == old(out)@ + ops@,
{
    let ghost start = out@;
    let mut i: usize = 0;
    while i < ops.len()
        invariant
            i <= ops@.len(),
            out@ == start + ops@.subrange(0, i as int),
        decreases ops@.len() - i,
    {
        out.push(ops[i]);
        assert(ops@.subrange(0, i + 1) =~= ops@.subrange(0, i as int).push(ops@[i as int]));
        i = i + 1;
    }
    assert(ops@.subrange(0, i as int) =~= ops@);
}

/// The SPI controller together with the choice of letting the ARC
/// firmware perform reads and writes.
#[derive(Clone, Copy, Debug)]
pub struct ActiveSpi {
    pub spi: Spi,
    pub use_arc: bool,
}

/// Where the ARC-assisted access of `size` bytes at `addr` starts (rounded
/// down to a chunk), how many chunks it spans, and where `addr` lies in the
/// first chunk.
pub open spec fn aligned_params_spec(addr: u32, size: u32) -> (u32, u32, u32) {
    let start = addr / ARC_SPI_CHUNK_SIZE * ARC_SPI_CHUNK_SIZE;
    let end = (addr + size + ARC_SPI_CHUNK_SIZE - 1) / ARC_SPI_CHUNK_SIZE as int * ARC_SPI_CHUNK_SIZE;
    (start as u32, ((end - start) / ARC_SPI_CHUNK_SIZE as int) as u32, (addr - start) as u32)
}

/// Copy `src[s..]` over `dst[d..]`, as far as both reach.
pub open spec fn copied(dst: Seq<u8>, d: int, src: Seq<u8>, s: int) -> Seq<u8> {
    Seq::new(
        dst.len(),
        |p: int|
            if d <= p && p - d < src.len() - s {
                src[s + p - d]
            } else {
                dst[p]
            },
    )
}

fn copy_over(dst: &mut [u8], d: usize, src: &[u8], s: usize)
    requires
        d <= old(dst)@.len(),
        s <= src@.len(),
    ensures
        final(dst)@ == copied(old(dst)@, d as int, src@, s as int),
{
    let ghost o = dst@;
    let dn = dst.len();
    let sn = src.len();
    let mut k: usize = 0;
    while d + k < dn && s + k < sn
        invariant
            dn == o.len(),
            sn == src@.len(),
            d <= o.len(),
            s <= src@.len(),
            dst@.len() == o.len(),
            d + k <= o.len(),
            s + k <= src@.len(),
            forall|p: int| 0 <= p < d ==> #[trigger] dst@[p] == o[p],
            forall|p: int| d <= p < d + k ==> #[trigger] dst@[p] == src@[s + p - d],
            forall|p: int| d + k <= p < o.len() ==> #[trigger] dst@[p] == o[p],
        decreases o.len() - d - k,
    {
        dst[d + k] = src[s + k];
        k = k + 1;
    }
    assert(dst@ =~= copied(o, d as int, src@, s as int));
}

impl ActiveSpi {
    /// Look up the SPI controller and keep the choice of access.
    pub fn new(data: Option<&MemorySlices>, use_arc: bool) -> (r: Result<ActiveSpi, AxiError>)
        requires
            forall|k: int| 0 <= k < 11 ==> !table_faults(data, #[trigger] spi_paths()[k]),
        ensures
            match r {
                Ok(a) => a.use_arc == use_arc && forall|k: int|
                    0 <= k < 11 ==> translates_to(data, #[trigger] spi_paths()[k], spi_addrs(a.spi)[k]),
                Err(e) => exists|k: int|
                    0 <= k < 11 && translate_spec(data, spi_paths()[k], Err(e)) && forall|j: int|
                        0 <= j < k ==> exists|a: u64| translates_to(data, #[trigger] spi_paths()[j], a),
            },
    {
        match Spi::new(data) {
            Ok(spi) => Ok(ActiveSpi { spi, use_arc }),
            Err(e) => Err(e),
        }
    }

    /// Align an ARC-assisted access of `size` bytes at `addr` to chunks;
    /// an access past the end of the flash is refused.
    pub fn get_aligned_params(addr: u32, size: u32) -> (r: Result<(u32, u32, u32), String>)
        requires
            addr + size <= u32::MAX,
        ensures
            addr + size > SPI_ROM_SIZE ==> (r matches Err(m) && m@ == "Requested size exceeds SPI ROM."@),
            addr + size <= SPI_ROM_SIZE ==> r == Ok::<(u32, u32, u32), String>(aligned_params_spec(addr, size)),
    {
        if addr + size > SPI_ROM_SIZE {
            return Err("Requested size exceeds SPI ROM.".to_owned());
        }
        let start_addr = (addr / ARC_SPI_CHUNK_SIZE) * ARC_SPI_CHUNK_SIZE;
        let end_addr = (addr + size + ARC_SPI_CHUNK_SIZE - 1) / ARC_SPI_CHUNK_SIZE * ARC_SPI_CHUNK_SIZE;
        assert(start_addr <= addr);
        assert(end_addr >= addr + size - 0) by {
            assert((addr + size + 4095) / 4096 * 4096 >= addr + size);
        }
        let num_chunks = (end_addr - start_addr) / ARC_SPI_CHUNK_SIZE;
        let start_offset = addr - start_addr;
        Ok((start_addr, num_chunks, start_offset))
    }

    /// Place chunk `read_data`, read from `offset` bytes past the aligned
    /// start, into the caller's buffer `data`, which begins `start_offset`
    /// bytes past the aligned start.
    pub fn place_read_chunk(data: &mut [u8], offset: u32, start_offset: u32, read_data: &[u8])
        requires
            offset < start_offset ==> offset <= old(data)@.len() && start_offset - offset
                <= read_data@.len(),
            offset >= start_offset ==> offset - start_offset <= old(data)@.len(),
        ensures
            offset < start_offset ==> final(data)@ == copied(old(data)@, offset as int, read_data@, start_offset - offset),
            offset >= start_offset ==> final(data)@ == copied(old(data)@, offset - start_offset, read_data@, 0),
    {
        if offset < start_offset {
            copy_over(data, offset as usize, read_data, (start_offset - offset) as usize);
        } else {
            copy_over(data, (offset - start_offset) as usize, read_data, 0);
        }
    }

    /// Put the part of `data` that falls in the chunk `offset` bytes past
    /// the aligned start into the chunk `read_data` read from there, and
    /// say whether the chunk changed (and so must be written back).
    pub fn patch_write_chunk(read_data: &mut [u8], offset: u32, start_offset: u32, data: &[u8]) -> (changed: bool)
        requires
            offset < start_offset ==> offset <= data@.len() && start_offset - offset
                <= old(read_data)@.len(),
            offset >= start_offset ==> offset - start_offset <= data@.len(),
        ensures
            offset < start_offset ==> final(read_data)@ == copied(old(read_data)@, start_offset - offset, data@, offset as int),
            offset >= start_offset ==> final(read_data)@ == copied(old(read_data)@, 0, data@, offset - start_offset),
            changed == (final(read_data)@ != old(read_data)@),
    {
        let ghost o = read_data@;
        let n = read_data.len();
        let mut orig: Vec<u8> = Vec::new();
        let mut i: usize = 0;
        while i < n
            invariant
                i <= n,
                n == read_data@.len(),
                orig@ == read_data@.subrange(0, i as int),
            decreases n - i,
        {
            orig.push(read_data[i]);
            assert(read_data@.subrange(0, i + 1) =~= read_data@.subrange(0, i as int).push(read_data@[i as int]));
            i = i + 1;
        }
        assert(orig@ =~= o);
        if offset < start_offset {
            copy_over(read_data, (start_offset - offset) as usize, data, offset as usize);
        } else {
            copy_over(read_data, 0, data, (offset - start_offset) as usize);
        }
        let mut same = true;
        let mut i: usize = 0;
        while i < n
            invariant
                i <= n,
                n == read_data@.len(),
                orig@ == o,
                o.len() == n,
                same == forall|j: int| 0 <= j < i ==> read_data@[j] == o[j],
            decreases n - i,
        {
            if read_data[i] != orig[i] {
                same = false;
            }
            i = i + 1;
        }
        if same {
            assert(read_data@ =~= o);
        }
        !same
    }

    /// Where the firmware's SPI dump buffer appears on the AXI bus, given
    /// its offset `dump_addr` in the CSM (where the firmware gave one) and
    /// the AXI address of the first CSM data word.
    pub fn spi_dump_address(dump_addr: Option<u32>, csm_data_addr: u64) -> (r: Option<u64>)
        requires
            csm_data_addr >= 0x10000000,
            csm_data_addr - 0x10000000 + u32::MAX <= u64::MAX,
        ensures
            r == match dump_addr {
                Some(d) => Some((csm_data_addr - 0x10000000 + d) as u64),
                None => None::<u64>,
            },
    {
        let csm_offset = csm_data_addr - 0x10000000;
        match dump_addr {
            Some(d) => Some(csm_offset + d as u64),
            None => None,
        }
    }
}

/// The caller's buffer after the first `c` chunks of an ARC-assisted read
/// have been placed by `place_read_chunk`, chunk `k` being the 4 KiB of
/// `flash` at `start + 4096 k` and the buffer starting `so` bytes into the
/// first chunk.
pub open spec fn placed_after(data: Seq<u8>, flash: Seq<u8>, start: int, so: int, c: nat) -> Seq<u8>
    decreases c,
{
    if c == 0 {
        data
    } else {
        let prev = placed_after(data, flash, start, so, (c - 1) as nat);
        let off = (c - 1) * 4096;
        let chunk = flash.subrange(start + off, start + off + 4096);
        if off < so {
            copied(prev, off, chunk, so - off)
        } else {
            copied(prev, off - so, chunk, 0)
        }
    }
}

proof fn lemma_placed_prefix(data: Seq<u8>, flash: Seq<u8>, start: int, so: int, c: nat)
    requires
        0 <= so < 4096,
        0 <= start,
        start + c * 4096 <= flash.len(),
    ensures
        placed_after(data, flash, start, so, c).len() == data.len(),
        forall|p: int|
            0 <= p < data.len() ==> #[trigger] placed_after(data, flash, start, so, c)[p] == if p
                < c * 4096 - so {
                flash[start + so + p]
            } else {
                data[p]
            },
    decreases c,
{
    if c > 0 {
        let c1 = (c - 1) as nat;
        assert(start + c1 * 4096 <= flash.len()) by (nonlinear_arith)
            requires
                start + c * 4096 <= flash.len(),
                c1 == c - 1,
        ;
        lemma_placed_prefix(data, flash, start, so, c1);
        let prev = placed_after(data, flash, start, so, c1);
        let off: int = (c1 * 4096) as int;
        assert(c * 4096 == off + 4096);
        let chunk = flash.subrange(start + off, start + off + 4096);
        let cur = placed_after(data, flash, start, so, c);
        assert forall|p: int| 0 <= p < data.len() implies #[trigger] cur[p] == if p < c * 4096 - so {
            flash[start + so + p]
        } else {
            data[p]
        } by {
            if off < so {
                assert(off == 0) by (nonlinear_arith)
                    requires
                        off == c1 * 4096,
                        off < so,
                        so < 4096,
                ;
                assert(cur == copied(prev, off, chunk, so - off));
                if p < 4096 - so {
                    assert(chunk[so + p] == flash[start + so + p]);
                }
            } else {
                assert(cur == copied(prev, off - so, chunk, 0));
                if off - so <= p && p < off - so + 4096 {
                    assert(chunk[p - (off - so)] == flash[start + off + p - (off - so)]);
                }
            }
        }
    }
}

/// An ARC-assisted read gives back the flash contents: once every chunk
/// of the access has been read from `flash` and placed with
/// `place_read_chunk`, the buffer holds the `size` bytes of `flash` at
/// `addr`.  Here `start`, `num_chunks` and `start_offset` are what
/// `get_aligned_params` gives for the access.
pub proof fn lemma_arc_read_returns_flash(data: Seq<u8>, flash: Seq<u8>, addr: u32, size: u32)
    requires
        addr + size <= SPI_ROM_SIZE,
        data.len() == size,
        flash.len() >= SPI_ROM_SIZE,
    ensures
        ({
            let (start, num_chunks, start_offset) = aligned_params_spec(addr, size);
            placed_after(data, flash, start as int, start_offset as int, num_chunks as nat)
                == flash.subrange(addr as int, addr + size)
        }),
{
    let (start, n, so) = aligned_params_spec(addr, size);
    let s = addr / 4096 * 4096;
    let e = (addr + size + 4095) / 4096 * 4096;
    assert(s <= addr < s + 4096) by (nonlinear_arith)
        requires
            s == addr / 4096 * 4096,
    ;
    assert(addr + size <= e < addr + size + 4096) by (nonlinear_arith)
        requires
            e == (addr + size + 4095) / 4096 * 4096,
    ;
    assert(e <= SPI_ROM_SIZE) by (nonlinear_arith)
        requires
            e == (addr + size + 4095) / 4096 * 4096,
            addr + size <= 0x1000000,
    ;
    assert((e - s) % 4096 == 0) by (nonlinear_arith)
        requires
            e == (addr + size + 4095) / 4096 * 4096,
            s == addr / 4096 * 4096,
    ;
    assert(start == s && so == addr - s);
    assert(n * 4096 == e - s) by (nonlinear_arith)
        requires
            n == (e - s) / 4096,
            (e - s) % 4096 == 0,
            e >= s,
    ;
    lemma_placed_prefix(data, flash, start as int, so as int, n as nat);
    assert(placed_after(data, flash, start as int, so as int, n as nat) =~= flash.subrange(
        addr as int,
        addr + size,
    ));
}

/// Chunk `c` of an ARC-assisted write of `data` at `addr` once
/// `patch_write_chunk` has put the data into it: the 4 KiB of `flash` at
/// `start + 4096 c`, the write starting `so` bytes into the first chunk.
pub open spec fn patched_chunk(flash: Seq<u8>, data: Seq<u8>, start: int, so: int, c: int) -> Seq<u8> {
    let off = c * 4096;
    let chunk = flash.subrange(start + off, start + off + 4096);
    if off < so {
        copied(chunk, so - off, data, off)
    } else {
        copied(chunk, 0, data, off - so)
    }
}

/// An ARC-assisted write writes exactly the data: every byte of every
/// chunk it writes back holds the byte of `data` for that flash address
/// where the write covers it, and the flash's own byte elsewhere.
pub proof fn lemma_arc_write_puts_data(flash: Seq<u8>, data: Seq<u8>, addr: u32, size: u32, c: int, q: int)
    requires
        addr + size <= SPI_ROM_SIZE,
        data.len() == size,
        flash.len() >= SPI_ROM_SIZE,
        0 <= c < aligned_params_spec(addr, size).1,
        0 <= q < 4096,
    ensures
        ({
            let (start, _, so) = aligned_params_spec(addr, size);
            let at = start + c * 4096 + q;
            patched_chunk(flash, data, start as int, so as int, c)[q] == if addr <= at < addr + size {
                data[at - addr]
            } else {
                flash[at]
            }
        }),
{
    let (start, n, so) = aligned_params_spec(addr, size);
    let s = addr / 4096 * 4096;
    let e = (addr + size + 4095) / 4096 * 4096;
    assert(s <= addr < s + 4096) by (nonlinear_arith)
        requires
            s == addr / 4096 * 4096,
    ;
    assert(addr + size <= e < addr + size + 4096) by (nonlinear_arith)
        requires
            e == (addr + size + 4095) / 4096 * 4096,
    ;
    assert(e <= SPI_ROM_SIZE) by (nonlinear_arith)
        requires
            e == (addr + size + 4095) / 4096 * 4096,
            addr + size <= 0x1000000,
    ;
    assert((e - s) % 4096 == 0) by (nonlinear_arith)
        requires
            e == (addr + size + 4095) / 4096 * 4096,
            s == addr / 4096 * 4096,
    ;
    assert(start == s && so == addr - s);
    assert(n * 4096 == e - s) by (nonlinear_arith)
        requires
            n == (e - s) / 4096,
            (e - s) % 4096 == 0,
            e >= s,
    ;
    let off = c * 4096;
    assert(off + 4096 <= n * 4096) by (nonlinear_arith)
        requires
            off == c * 4096,
            c < n,
    ;
    if off < so {
        assert(off == 0) by (nonlinear_arith)
            requires
                off == c * 4096,
                0 <= c,
                off < so,
                so < 4096,
        ;
    }
}

/// A program step never writes past the end of a flash page: it writes
/// between one and four bytes, all in the page of its first byte.
pub proof fn lemma_writes_stay_in_page(addr: int, left: int)
    requires
        0 <= addr,
        left > 0,
    ensures
        1 <= tx_group_len(addr, left) <= 4,
        addr % 256 + tx_group_len(addr, left) <= 256,
{
}

/// The outcome of a flash write session: the write's error where it
/// failed, else the outcome of locking the flash again.
pub fn session_result<E>(write: Result<(), E>, lock: Result<(), E>) -> (r: Result<(), E>)
    ensures
        r == (match write {
            Err(e) => Err(e),
            Ok(()) => lock,
        }),
{
    match write {
        Err(e) => Err(e),
        Ok(()) => lock,
    }
}

} // verus!
