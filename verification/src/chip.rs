//! Per-generation facts and decisions: where the ethernet cores sit, which
//! ARC mailbox a message uses, and the Blackhole firmware's message and SPI
//! buffer formats.
use vstd::prelude::*;
use crate::arc_msg::{ArcMsgError, ArcMsgOk, ArcMsgProtocolError, BtWrapper};
use crate::error::PlatformError;
use crate::kmd::Arch;

verus! {

/// An ethernet core: its NOC coordinates and whether it is in use.
#[derive(Clone, Copy, Debug, PartialEq, Eq, Structural)]
pub struct EthCore {
    pub x: u8,
    pub y: u8,
    pub enabled: bool,
}

impl Default for EthCore {
    fn default() -> (r: Self)
        ensures
            r == (EthCore { x: 0, y: 0, enabled: true }),
    {
        EthCore { x: 0, y: 0, enabled: true }
    }
}

/// An enabled ethernet core at (`x`, `y`).
pub open spec fn core_at(x: u8, y: u8) -> EthCore {
    EthCore { x, y, enabled: true }
}

fn eth_core(x: u8, y: u8) -> (r: EthCore)
    ensures
        r == core_at(x, y),
{
    EthCore { x, y, ..EthCore::default() }
}

/// Column of Wormhole ethernet port `i` (0..8); the same columns repeat on
/// the second row.
pub open spec fn wormhole_eth_column(i: int) -> u8 {
    if i == 0 {
        9
    } else if i == 1 {
        1
    } else if i == 2 {
        8
    } else if i == 3 {
        2
    } else if i == 4 {
        7
    } else if i == 5 {
        3
    } else if i == 6 {
        6
    } else {
        4
    }
}

/// Where the 16 ethernet cores of a Wormhole chip sit: ports 0..8 on row 0
/// and ports 8..16 on row 6, alternating between the right and left ends.
pub fn wormhole_eth_locations() -> (r: [EthCore; 16])
    ensures
        forall|i: int|
            0 <= i < 16 ==> #[trigger] r@[i] == core_at(
                wormhole_eth_column(i % 8),
                if i < 8 {
                    0u8
                } else {
                    6u8
                },
            ),
{
    [
        eth_core(9, 0),
        eth_core(1, 0),
        eth_core(8, 0),
        eth_core(2, 0),
        eth_core(7, 0),
        eth_core(3, 0),
        eth_core(6, 0),
        eth_core(4, 0),
        eth_core(9, 6),
        eth_core(1, 6),
        eth_core(8, 6),
        eth_core(2, 6),
        eth_core(7, 6),
        eth_core(3, 6),
        eth_core(6, 6),
        eth_core(4, 6),
    ]
}

/// Where the 14 ethernet cores of a Blackhole chip sit: all on row 1, port
/// `2k` at column `k + 1` and port `2k + 1` at column `16 - k`.
pub fn blackhole_eth_locations() -> (r: [EthCore; 14])
    ensures
        forall|i: int|
            0 <= i < 14 ==> #[trigger] r@[i] == core_at(
                if i % 2 == 0 {
                    (i / 2 + 1) as u8
                } else {
                    (16 - i / 2) as u8
                },
                1,
            ),
{
    [
        eth_core(1, 1),
        eth_core(16, 1),
        eth_core(2, 1),
        eth_core(15, 1),
        eth_core(3, 1),
        eth_core(14, 1),
        eth_core(4, 1),
        eth_core(13, 1),
        eth_core(5, 1),
        eth_core(12, 1),
        eth_core(6, 1),
        eth_core(11, 1),
        eth_core(7, 1),
        eth_core(10, 1),
    ]
}

/// The scratch registers (message, return value) of the ARC mailbox a
/// message goes to.  Only Wormhole has a second mailbox.
pub fn mailbox_regs(arch: Arch, use_second_mailbox: bool) -> (r: Result<(u64, u64), ArcMsgProtocolError>)
    ensures
        !use_second_mailbox ==> r == Ok::<(u64, u64), ArcMsgProtocolError>((5, 3)),
        use_second_mailbox && arch == Arch::Wormhole ==> r == Ok::<(u64, u64), ArcMsgProtocolError>((2, 4)),
        use_second_mailbox && arch != Arch::Wormhole ==> r == Err::<(u64, u64), ArcMsgProtocolError>(
            ArcMsgProtocolError::InvalidMailbox(2),
        ),
{
    if !use_second_mailbox {
        Ok((5, 3))
    } else if arch == Arch::Wormhole {
        Ok((2, 4))
    } else {
        Err(ArcMsgProtocolError::InvalidMailbox(2))
    }
}

/// The newest Grayskull firmware version that cannot report telemetry.
pub const GRAYSKULL_LAST_UNSUPPORTED_FW: u32 = 0x01030000;

/// The Grayskull firmware version that telemetry requires.
pub const GRAYSKULL_TELEMETRY_FW: u32 = 0x01040000;

/// Whether Grayskull firmware of `version` can report its telemetry.
pub fn grayskull_telemetry_supported(version: u32) -> (r: Result<(), PlatformError>)
    ensures
        version <= GRAYSKULL_LAST_UNSUPPORTED_FW ==> (r matches Err(
            PlatformError::UnsupportedFwVersion { version: v, required },
        ) && v == version && required == GRAYSKULL_TELEMETRY_FW),
        version > GRAYSKULL_LAST_UNSUPPORTED_FW ==> r is Ok,
{
    if version <= GRAYSKULL_LAST_UNSUPPORTED_FW {
        Err(PlatformError::UnsupportedFwVersion { version, required: GRAYSKULL_TELEMETRY_FW })
    } else {
        Ok(())
    }
}

/// Whether the Blackhole firmware has brought up the hardware, by the first
/// boot status word (where it could be read): its bits 1..3 read 2.
pub open spec fn bh_hw_ready_spec(boot_status: Option<u32>) -> bool {
    boot_status matches Some(b) && b / 2 % 4 == 2
}

/// Whether the Blackhole hardware is up.
pub fn bh_hw_ready(boot_status: Option<u32>) -> (r: bool)
    ensures
        r == bh_hw_ready_spec(boot_status),
{
    match boot_status {
        Some(b) => b / 2 % 4 == 2,
        None => false,
    }
}

/// Whether the Blackhole firmware can take messages, by two reads of the
/// boot status word: the hardware is up by the first, and bit 0 of the
/// second is set.
pub fn bh_arc_msg_safe(first: Option<u32>, second: Option<u32>) -> (r: bool)
    ensures
        r == (bh_hw_ready_spec(first) && (second matches Some(b) && b % 2 == 1)),
{
    if !bh_hw_ready(first) {
        return false;
    }
    match second {
        Some(b) => b % 2 == 1,
        None => false,
    }
}

/// The eight request words of a Blackhole firmware message: the code with
/// `zero_data` in the first word, then up to seven data words, zeros after.
pub open spec fn bh_request_spec(code: u8, zero_data: Option<u32>, data: Seq<u32>) -> Seq<u32> {
    Seq::new(
        8,
        |i: int|
            if i == 0 {
                (code as u32 | match zero_data {
                    Some(z) => z,
                    None => 0u32,
                }) as u32
            } else if i - 1 < data.len() {
                data[i - 1]
            } else {
                0u32
            },
    )
}

/// Build the request words of a Blackhole firmware message.
pub fn bh_request(code: u8, zero_data: Option<u32>, data: &[u32]) -> (r: [u32; 8])
    ensures
        r@ == bh_request_spec(code, zero_data, data@),
{
    let z: u32 = match zero_data {
        Some(z) => z,
        None => 0,
    };
    let mut request: [u32; 8] = [0; 8];
    request[0] = code as u32 | z;
    let mut i: usize = 0;
    while i < data.len() && i < 7
        invariant
            i <= 7,
            i <= data@.len(),
            request@.len() == 8,
            request@[0] == (code as u32 | z),
            forall|j: int| 1 <= j <= i ==> #[trigger] request@[j] == data@[j - 1],
            forall|j: int| i < j < 8 ==> #[trigger] request@[j] == 0,
        decreases 7 - i,
    {
        request[i + 1] = data[i];
        i = i + 1;
    }
    assert(request@ =~= bh_request_spec(code, zero_data, data@));
    request
}

/// What the Blackhole firmware's eight response words say: below 240 the
/// status byte is a success, with the return code in the upper half of the
/// first word and seven data words; 0xFF means the message was not
/// recognized; other codes are unknown errors.
pub open spec fn bh_response_ok(response: Seq<u32>) -> bool {
    response[0] % 256 < 240
}

/// Decode the response of the Blackhole firmware to message `code`.
pub fn bh_response(code: u8, response: [u32; 8]) -> (r: Result<(u8, u16, [u32; 7]), PlatformError>)
    ensures
        bh_response_ok(response@) ==> (r matches Ok((status, rc, data)) && status == response@[0]
            % 256 && rc == response@[0] / 0x10000 && data@ == response@.subrange(1, 8)),
        response@[0] % 256 == 0xFF ==> (r matches Err(
            PlatformError::ArcMsgError(
                ArcMsgError::ProtocolError { source: ArcMsgProtocolError::MsgNotRecognized(c), .. },
            ),
        ) && c == code),
        !bh_response_ok(response@) && response@[0] % 256 != 0xFF ==> (r matches Err(
            PlatformError::ArcMsgError(
                ArcMsgError::ProtocolError { source: ArcMsgProtocolError::UnknownErrorCode(s), .. },
            ),
        ) && s == response@[0] % 256),
{
    let w = response[0];
    let status = (w % 256) as u8;
    let rc = (w / 0x10000) as u16;
    if status < 240 {
        let data: [u32; 7] = [
            response[1],
            response[2],
            response[3],
            response[4],
            response[5],
            response[6],
            response[7],
        ];
        assert(data@ =~= response@.subrange(1, 8));
        Ok((status, rc, data))
    } else if status == 0xff {
        Err(
            PlatformError::ArcMsgError(
                ArcMsgError::ProtocolError {
                    source: ArcMsgProtocolError::MsgNotRecognized(code as u16),
                    backtrace: BtWrapper::capture(),
                },
            ),
        )
    } else {
        Err(
            PlatformError::ArcMsgError(
                ArcMsgError::ProtocolError {
                    source: ArcMsgProtocolError::UnknownErrorCode(status),
                    backtrace: BtWrapper::capture(),
                },
            ),
        )
    }
}

/// The argument word of a message on Blackhole: the two 16-bit arguments,
/// the first in the low half.
pub fn bh_msg_arg(args: (u16, u16)) -> (r: u32)
    ensures
        r == args.0 + args.1 * 0x10000,
{
    let a = args.0 as u32;
    let b = args.1 as u32;
    a + b * 0x10000
}

/// The reply to a message on Blackhole: the return code, and the first data
/// word as the returned value.
pub fn bh_msg_reply(rc: u16, data: &[u32; 7]) -> (r: ArcMsgOk)
    ensures
        r == (ArcMsgOk::Done { rc: rc as u32, arg: data@[0] }),
{
    ArcMsgOk::Done { rc: rc as u32, arg: data[0] }
}

/// The buffer the Blackhole firmware reads and writes SPI data through.
#[derive(Clone, Copy, Debug, PartialEq, Eq, Structural)]
pub struct SpiBuffer {
    pub addr: u32,
    pub size: u32,
}

/// The SPI buffer described by `word`: its address in the low 24 bits
/// (offset by 0x10000000), the base-2 logarithm of its size in the top 8.
pub fn spi_buffer_from(word: u32) -> (r: SpiBuffer)
    requires
        word / 0x1000000 < 32,
    ensures
        r.addr == word % 0x1000000 + 0x10000000,
        r.size == vstd::arithmetic::power2::pow2((word / 0x1000000) as nat),
{
    let shift: u32 = word / 0x1000000;
    proof {
        vstd::bits::lemma_u32_pow2_no_overflow(shift as nat);
        vstd::bits::lemma_u32_shl_is_mul(1, shift);
    }
    SpiBuffer { addr: word % 0x1000000 + 0x10000000, size: 1u32 << shift }
}

/// One transfer of a chunked SPI access: the SPI address, and the range of
/// the caller's buffer that goes with it.
#[derive(Clone, Copy, Debug, PartialEq, Eq, Structural)]
pub struct SpiChunk {
    pub spi_addr: u32,
    pub start: usize,
    pub len: usize,
}

/// The transfers of an SPI access of `len` bytes at `addr` through a buffer
/// of `chunk` bytes: consecutive pieces of `chunk` bytes, the last one
/// shorter where `len` is not a multiple.
pub open spec fn spi_chunk_at(addr: u32, len: nat, chunk: nat, k: nat) -> SpiChunk {
    SpiChunk {
        spi_addr: (addr + k * chunk) as u32,
        start: (k * chunk) as usize,
        len: (if len - k * chunk < chunk {
            len - k * chunk
        } else {
            chunk as int
        }) as usize,
    }
}

/// Split an SPI access into buffer-sized transfers.
pub fn spi_chunks(addr: u32, len: usize, chunk: u32) -> (r: Vec<SpiChunk>)
    requires
        chunk > 0,
        addr + len <= u32::MAX,
    ensures
        r@.len() * chunk >= len,
        r@.len() > 0 ==> (r@.len() - 1) * chunk < len,
        forall|k: int| 0 <= k < r@.len() ==> #[trigger] r@[k] == spi_chunk_at(addr, len as nat, chunk as nat, k as nat),
{
    let mut out: Vec<SpiChunk> = Vec::new();
    let mut start: usize = 0;
    let c = chunk as usize;
    assert(out@.len() * c == 0) by (nonlinear_arith)
        requires
            out@.len() == 0,
    ;
    while start < len
        invariant
            c == chunk,
            c > 0,
            addr + len <= u32::MAX,
            start <= len,
            start < len ==> start == out@.len() * c,
            start == len ==> out@.len() * c >= len,
            out@.len() > 0 ==> (out@.len() - 1) * c < len,
            forall|k: int| 0 <= k < out@.len() ==> #[trigger] out@[k] == spi_chunk_at(addr, len as nat, chunk as nat, k as nat),
        decreases len - start,
    {
        let n: usize = if len - start < c { len - start } else { c };
        let ghost k = out@.len();
        out.push(SpiChunk { spi_addr: addr + start as u32, start, len: n });
        assert(out@[k as int] == spi_chunk_at(addr, len as nat, chunk as nat, k as nat));
        assert((k + 1) * c == k * c + c) by (nonlinear_arith);
        start = start + n;
    }
    out
}

} // verus!
