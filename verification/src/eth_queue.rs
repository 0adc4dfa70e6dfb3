//! Reaching a remote chip through the command queues of a local ethernet
//! core.  A transaction is a state machine: each step names the register
//! accesses to make on the ethernet core and is fed the value the last read
//! returned.
use vstd::prelude::*;
use crate::remote::EthAddr;

verus! {

/// A register on a remote chip: the chip, the NOC and core on it, and the
/// address on that core.
#[derive(Clone, Copy, Debug, PartialEq, Eq, Structural)]
pub struct EthCommCoord {
    pub coord: EthAddr,
    pub noc_id: u8,
    pub noc_x: u8,
    pub noc_y: u8,
    pub offset: u64,
}

/// The rack address of the chip: rack y in the high byte, rack x in the low.
pub open spec fn rack_addr_spec(coord: EthCommCoord) -> u16 {
    (coord.coord.rack_y as u16 * 256 + coord.coord.rack_x as u16) as u16
}

/// The rack address of the chip a coordinate names.
pub fn get_rack_addr(coord: &EthCommCoord) -> (r: u16)
    ensures
        r == rack_addr_spec(*coord),
{
    let y = coord.coord.rack_y as u16;
    let x = coord.coord.rack_x as u16;
    y * 256 + x
}

/// The system address of a coordinate: shelf y, shelf x, NOC y and NOC x
/// packed six bits apart, then shifted up 36 bits and combined with the
/// offset (bits shifted past 64 are lost).
pub open spec fn sys_addr_spec(coord: EthCommCoord) -> u64 {
    let a = coord.coord.shelf_y as u64;
    let a = (a << 6u64) | (coord.coord.shelf_x as u64);
    let a = (a << 6u64) | (coord.noc_y as u64);
    let a = (a << 6u64) | (coord.noc_x as u64);
    (a << 36u64) | coord.offset
}

/// The system address a coordinate names.
pub fn get_sys_addr(coord: &EthCommCoord) -> (r: u64)
    ensures
        r == sys_addr_spec(*coord),
{
    let mut addr = coord.coord.shelf_y as u64;
    addr = (addr << 6) | (coord.coord.shelf_x as u64);
    addr = (addr << 6) | (coord.noc_y as u64);
    addr = (addr << 6) | (coord.noc_x as u64);
    addr = (addr << 36) | coord.offset;
    addr
}

/// Offset of the request queue in the command-queue block.
pub const REQ_Q_ADDR: u32 = 0x80;
/// Bytes of one queue.
pub const Q_SIZE: u32 = 192;
/// Offset of the response queue (the third queue).
pub const RESP_Q_ADDR: u32 = 0x200;
/// Entries of a queue.
pub const CMD_BUF_SIZE: u32 = 4;
/// Bytes of one queue entry.
pub const Q_ENTRY_BYTES: u32 = 32;

/// Flag: a write request.
pub const CMD_WR_REQ: u32 = 0x1;
/// Flag: a read request.
pub const CMD_RD_REQ: u32 = 0x4;
/// Flag: a response carrying read data.
pub const CMD_RD_DATA: u32 = 0x8;
/// Flag: the block lives in host memory.
pub const CMD_DATA_BLOCK_DRAM: u32 = 0x10;
/// Flag: a block transfer.
pub const CMD_DATA_BLOCK: u32 = 0x40;
/// Flag: no data block could be reserved on the route.
pub const CMD_DATA_BLOCK_UNAVAILABLE: u32 = 0x40000000;
/// Flag: the destination could not be reached.
pub const CMD_DEST_UNREACHABLE: u32 = 0x80000000;

/// Whether the queue block at `cq` and every register of it fit 32 bits.
pub open spec fn queue_addressable(cq: u32) -> bool {
    cq <= 0xFFFF_0000
}

/// Write pointer of the request queue.
pub open spec fn req_wptr_addr(cq: u32) -> u64 {
    (cq + 0x80 + 32) as u64
}

/// Read pointer of the request queue.
pub open spec fn req_rptr_addr(cq: u32) -> u64 {
    (cq + 0x80 + 48) as u64
}

/// Write pointer of the response queue.
pub open spec fn resp_wptr_addr(cq: u32) -> u64 {
    (cq + 0x200 + 32) as u64
}

/// Read pointer of the response queue.
pub open spec fn resp_rptr_addr(cq: u32) -> u64 {
    (cq + 0x200 + 48) as u64
}

/// The request entry that write pointer `wptr` selects.
pub open spec fn req_cmd_addr(cq: u32, wptr: u32) -> u64 {
    (cq + 0x80 + 64 + (wptr % 4) * 32) as u64
}

/// The response entry that read pointer `rptr` selects.
pub open spec fn resp_cmd_addr(cq: u32, rptr: u32) -> u64 {
    (cq + 0x200 + 64 + (rptr % 4) * 32) as u64
}

/// A queue is full when its pointers differ but select the same entry.
pub open spec fn queue_full(wptr: u32, rptr: u32) -> bool {
    wptr != rptr && wptr % 4 == rptr % 4
}

/// The pointer after `p`: pointers run modulo twice the number of entries.
pub open spec fn next_ptr(p: u32) -> u32 {
    ((p + 1) % 8) as u32
}

/// Whether the queue is full.
pub fn is_command_q_full(wptr: u32, rptr: u32) -> (r: bool)
    ensures
        r == queue_full(wptr, rptr),
{
    wptr != rptr && wptr % 4 == rptr % 4
}

/// The pointer after `p`.
pub fn next_queue_ptr(p: u32) -> (r: u32)
    ensures
        r == next_ptr(p),
{
    (p % 8 + 1) % 8
}

/// What a remote transaction does.
#[derive(Clone, Copy, Debug, PartialEq, Eq, Structural)]
pub enum EthRequest {
    /// Read one word.
    Read32,
    /// Write one word.
    Write32(u32),
    /// Read `len` bytes through the DMA buffer at physical address
    /// `dma_phys`, `slice_len` bytes (a quarter of the buffer) at a time.
    BlockRead { len: u64, slice_len: u64, dma_phys: u64 },
    /// Write `len` bytes the same way.
    BlockWrite { len: u64, slice_len: u64, dma_phys: u64 },
}

/// Why the remote side refused a transaction.
#[derive(Clone, Copy, Debug, PartialEq, Eq, Structural)]
pub enum EthError {
    DestinationUnreachable,
    DataBlockUnavailable,
    /// A word read was answered with a block.
    UnexpectedBlockResponse,
    /// A block read was answered with something else.
    UnexpectedNonBlockResponse,
}

impl EthError {
    /// The message of the error.
    pub fn message(&self) -> (r: &'static str)
        ensures
            r@ == eth_error_text(*self),
    {
        match self {
            EthError::DestinationUnreachable => "Destination Unreachable.",
            EthError::DataBlockUnavailable => "Unable to reserve data block on destination route.",
            EthError::UnexpectedBlockResponse => "Found block read response expected something else",
            EthError::UnexpectedNonBlockResponse => "Found non block read response expected something else",
        }
    }
}

/// The message of an error.
pub open spec fn eth_error_text(e: EthError) -> Seq<char> {
    match e {
        EthError::DestinationUnreachable => "Destination Unreachable."@,
        EthError::DataBlockUnavailable => "Unable to reserve data block on destination route."@,
        EthError::UnexpectedBlockResponse => "Found block read response expected something else"@,
        EthError::UnexpectedNonBlockResponse => "Found non block read response expected something else"@,
    }
}

/// One access the transaction asks of the caller.
#[derive(Clone, Copy, Debug, PartialEq, Eq, Structural)]
pub enum EthAccess {
    /// Read a register of the ethernet core.
    Read(u64),
    /// Write a register of the ethernet core.
    Write(u64, u32),
    /// Copy `len` bytes from position `pos` of the caller's data into the
    /// DMA buffer at `dma_offset`.
    ToDma { dma_offset: u64, pos: u64, len: u64 },
    /// Copy `len` bytes from the DMA buffer at `dma_offset` to position
    /// `pos` of the caller's data.
    FromDma { dma_offset: u64, pos: u64, len: u64 },
}

/// Where a transaction stands; each phase says what the next value fed to
/// it is.
#[derive(Clone, Copy, Debug, PartialEq, Eq, Structural)]
pub enum EthPhase {
    /// The request queue's write pointer; `polling` while waiting for room.
    IdleWptr { polling: bool },
    /// The request queue's read pointer, given its write pointer.
    IdleRptr { wptr: u32 },
    /// The response queue's read pointer.
    RespRptr,
    /// The response queue's write pointer, until it moves past `rptr`.
    RespWptr { rptr: u32 },
    /// The flags of the response entry, until they are set.
    Flags { rptr: u32 },
    /// The data word of the response entry.
    Data { rptr: u32, flags: u32 },
    /// Nothing: the response was consumed.
    Reply { data: u32, flags: u32 },
    /// Nothing: a request was posted (a word write) or a block moved.
    Posted,
}

/// What the caller does next.
#[derive(Debug)]
pub enum EthAction {
    /// Perform these accesses in order, then feed the value the last
    /// `Read` returned (or any value where there is none).
    Access(Vec<EthAccess>),
    /// Fail with a timeout if the wait that this poll belongs to has run
    /// too long; otherwise read the register and feed its value.
    WaitAndPoll(u64),
    /// The transaction is over, with the word read (0 for the others).
    Finish(Result<u32, EthError>),
}

/// The actions, as values of the proof.
pub ghost enum EthStep {
    Access(Seq<EthAccess>),
    WaitAndPoll(u64),
    Finish(Result<u32, EthError>),
}

/// Whether an action is the one described.
pub open spec fn action_is(a: EthAction, s: EthStep) -> bool {
    match (a, s) {
        (EthAction::Access(v), EthStep::Access(t)) => v@ == t,
        (EthAction::WaitAndPoll(x), EthStep::WaitAndPoll(y)) => x == y,
        (EthAction::Finish(x), EthStep::Finish(y)) => x == y,
        _ => false,
    }
}

/// A transaction in progress: for block transfers, the current block starts
/// `pos` bytes into the data and is `block_len` bytes at `dma_offset` in
/// the buffer.
#[derive(Clone, Copy, Debug)]
pub struct EthExchange {
    pub command_q_addr: u32,
    pub coord: EthCommCoord,
    pub request: EthRequest,
    pub pos: u64,
    pub dma_offset: u64,
    pub block_len: u64,
    pub phase: EthPhase,
}

/// Whether a transaction's arithmetic stays in range: the queue registers
/// fit, a block transfer moves a positive amount per step, and positions,
/// offsets and DMA addresses fit 64 bits.
pub open spec fn exchange_ok(x: EthExchange) -> bool {
    &&& queue_addressable(x.command_q_addr)
    &&& match x.request {
        EthRequest::BlockRead { len, slice_len, dma_phys } | EthRequest::BlockWrite {
            len,
            slice_len,
            dma_phys,
        } => {
            &&& slice_len > 0
            &&& len + slice_len <= u64::MAX
            &&& x.pos <= len
            &&& x.coord.offset + (len - x.pos) + slice_len <= u64::MAX
            &&& dma_phys + 4 * slice_len <= u64::MAX
            &&& !(x.phase is IdleWptr || x.phase is IdleRptr) ==> block_in_buffer(x)
        },
        _ => x.pos == 0,
    }
}

/// Whether the current block of a block transfer is the one at its position
/// and lies inside the DMA buffer.
pub open spec fn block_in_buffer(x: EthExchange) -> bool {
    let total = block_len_total(x.request);
    let slice = block_slice(x.request);
    &&& x.block_len == (if total - x.pos < slice { total - x.pos } else { slice as int })
    &&& x.dma_offset + x.block_len <= 4 * slice
}

/// The flags word of a request: read or write, the NOC, and for a block
/// the block bits.
pub open spec fn request_flags(request: EthRequest, noc_id: u8) -> u32 {
    let base: u32 = match request {
        EthRequest::Read32 => CMD_RD_REQ,
        EthRequest::Write32(_) => CMD_WR_REQ,
        EthRequest::BlockRead { .. } => (CMD_RD_REQ + CMD_DATA_BLOCK + CMD_DATA_BLOCK_DRAM) as u32,
        EthRequest::BlockWrite { .. } => (CMD_WR_REQ + CMD_DATA_BLOCK + CMD_DATA_BLOCK_DRAM) as u32,
    };
    (base + (noc_id % 2) * 0x200) as u32
}

/// The words written into the request entry at `cmd`: the system address
/// (low, high), the rack address, then the data word and DMA address where
/// the request has them, and the flags last.
pub open spec fn request_writes(x: EthExchange, cmd: u64, dma_offset: u64, block_len: u64) -> Seq<EthAccess> {
    let sys = sys_addr_spec(x.coord);
    let head = seq![
        EthAccess::Write(cmd, (sys % 0x100000000) as u32),
        EthAccess::Write((cmd + 4) as u64, (sys / 0x100000000) as u32),
        EthAccess::Write((cmd + 16) as u64, rack_addr_spec(x.coord) as u32),
    ];
    let flags = EthAccess::Write((cmd + 12) as u64, request_flags(x.request, x.coord.noc_id));
    match x.request {
        EthRequest::Read32 => head.push(flags),
        EthRequest::Write32(v) => head.push(EthAccess::Write((cmd + 8) as u64, v)).push(flags),
        EthRequest::BlockRead { dma_phys, .. } | EthRequest::BlockWrite { dma_phys, .. } => head.push(
            EthAccess::Write((cmd + 8) as u64, (block_len % 0x100000000) as u32),
        ).push(EthAccess::Write((cmd + 28) as u64, ((dma_phys + dma_offset) % 0x100000000) as u32)).push(
            flags,
        ),
    }
}

/// The result of a word read whose response carried `flags` and `data`:
/// a refused destination, then an unavailable data block, then a block
/// answer, each overriding the one before.
pub open spec fn read32_result(flags: u32, data: u32) -> Result<u32, EthError> {
    if flags / 0x40 % 2 == 1 && flags / 0x8 % 2 == 1 {
        Err(EthError::UnexpectedBlockResponse)
    } else if flags / 0x40000000 % 2 == 1 {
        Err(EthError::DataBlockUnavailable)
    } else if flags / 0x80000000 % 2 == 1 {
        Err(EthError::DestinationUnreachable)
    } else {
        Ok(data)
    }
}

/// Whether the block transfer has more to move after the current position.
pub open spec fn block_len_total(r: EthRequest) -> u64 {
    match r {
        EthRequest::BlockRead { len, .. } | EthRequest::BlockWrite { len, .. } => len,
        _ => 0,
    }
}

/// The bytes moved per block.
pub open spec fn block_slice(r: EthRequest) -> u64 {
    match r {
        EthRequest::BlockRead { slice_len, .. } | EthRequest::BlockWrite { slice_len, .. } => slice_len,
        _ => 0,
    }
}

/// The next state and action of transaction `x` fed `value`.
pub open spec fn eth_next(x: EthExchange, value: u32) -> (EthExchange, EthStep) {
    let cq = x.command_q_addr;
    match x.phase {
        EthPhase::IdleWptr { polling } => (
            EthExchange { phase: EthPhase::IdleRptr { wptr: value }, ..x },
            if polling {
                EthStep::WaitAndPoll(req_rptr_addr(cq))
            } else {
                EthStep::Access(seq![EthAccess::Read(req_rptr_addr(cq))])
            },
        ),
        EthPhase::IdleRptr { wptr } => if queue_full(wptr, value) {
            (EthExchange { phase: EthPhase::IdleWptr { polling: true }, ..x }, EthStep::WaitAndPoll(req_wptr_addr(cq)))
        } else {
            let cmd = req_cmd_addr(cq, wptr);
            let slice = block_slice(x.request);
            let dma_offset = (slice * (wptr % 4)) as u64;
            let left = block_len_total(x.request) - x.pos;
            let block_len = (if left < slice { left } else { slice as int }) as u64;
            let writes = request_writes(x, cmd, dma_offset, block_len).push(
                EthAccess::Write(req_wptr_addr(cq), next_ptr(wptr)),
            );
            let y = EthExchange { dma_offset, block_len, ..x };
            match x.request {
                EthRequest::Read32 | EthRequest::BlockRead { .. } => (
                    EthExchange { phase: EthPhase::RespRptr, ..y },
                    EthStep::Access(writes.push(EthAccess::Read(resp_rptr_addr(cq)))),
                ),
                EthRequest::Write32(_) => (EthExchange { phase: EthPhase::Posted, ..y }, EthStep::Access(writes)),
                EthRequest::BlockWrite { .. } => (
                    EthExchange { phase: EthPhase::Posted, ..y },
                    EthStep::Access(seq![EthAccess::ToDma { dma_offset, pos: x.pos, len: block_len }] + writes),
                ),
            }
        },
        EthPhase::RespRptr => (
            EthExchange { phase: EthPhase::RespWptr { rptr: value }, ..x },
            EthStep::Access(seq![EthAccess::Read(resp_wptr_addr(cq))]),
        ),
        EthPhase::RespWptr { rptr } => if value == rptr {
            (x, EthStep::WaitAndPoll(resp_wptr_addr(cq)))
        } else {
            (
                EthExchange { phase: EthPhase::Flags { rptr }, ..x },
                EthStep::Access(seq![EthAccess::Read((resp_cmd_addr(cq, rptr) + 12) as u64)]),
            )
        },
        EthPhase::Flags { rptr } => if value == 0 {
            (x, EthStep::WaitAndPoll((resp_cmd_addr(cq, rptr) + 12) as u64))
        } else {
            match x.request {
                EthRequest::BlockRead { .. } => if value / 0x80000000 % 2 == 1 {
                    (x, EthStep::Finish(Err(EthError::DestinationUnreachable)))
                } else if value / 0x40000000 % 2 == 1 {
                    (x, EthStep::Finish(Err(EthError::DataBlockUnavailable)))
                } else if !(value / 0x40 % 2 == 1 && value / 0x8 % 2 == 1) {
                    (x, EthStep::Finish(Err(EthError::UnexpectedNonBlockResponse)))
                } else {
                    (
                        EthExchange { phase: EthPhase::Posted, ..x },
                        EthStep::Access(seq![
                            EthAccess::Write(resp_rptr_addr(cq), next_ptr(rptr)),
                            EthAccess::FromDma { dma_offset: x.dma_offset, pos: x.pos, len: x.block_len },
                        ]),
                    )
                },
                _ => (
                    EthExchange { phase: EthPhase::Data { rptr, flags: value }, ..x },
                    EthStep::Access(seq![EthAccess::Read((resp_cmd_addr(cq, rptr) + 8) as u64)]),
                ),
            }
        },
        EthPhase::Data { rptr, flags } => (
            EthExchange { phase: EthPhase::Reply { data: value, flags }, ..x },
            EthStep::Access(seq![EthAccess::Write(resp_rptr_addr(cq), next_ptr(rptr))]),
        ),
        EthPhase::Reply { data, flags } => (x, EthStep::Finish(read32_result(flags, data))),
        EthPhase::Posted => match x.request {
            EthRequest::BlockRead { len, slice_len, .. } | EthRequest::BlockWrite { len, slice_len, .. } => {
                let pos = (x.pos + slice_len) as u64;
                let coord = EthCommCoord { offset: (x.coord.offset + slice_len) as u64, ..x.coord };
                if pos < len {
                    (
                        EthExchange { pos, coord, phase: EthPhase::IdleWptr { polling: false }, ..x },
                        EthStep::Access(seq![EthAccess::Read(req_wptr_addr(cq))]),
                    )
                } else {
                    (x, EthStep::Finish(Ok(0)))
                }
            },
            _ => (x, EthStep::Finish(Ok(0))),
        },
    }
}

fn flags_for(request: EthRequest, noc_id: u8) -> (r: u32)
    ensures
        r == request_flags(request, noc_id),
{
    let base: u32 = match request {
        EthRequest::Read32 => CMD_RD_REQ,
        EthRequest::Write32(_) => CMD_WR_REQ,
        EthRequest::BlockRead { .. } => CMD_RD_REQ + CMD_DATA_BLOCK + CMD_DATA_BLOCK_DRAM,
        EthRequest::BlockWrite { .. } => CMD_WR_REQ + CMD_DATA_BLOCK + CMD_DATA_BLOCK_DRAM,
    };
    base + (noc_id as u32 % 2) * 0x200
}

fn low_word(v: u64) -> (r: u32)
    ensures
        r == v % 0x100000000,
{
    (v % 0x100000000) as u32
}

fn high_word(v: u64) -> (r: u32)
    ensures
        r == v / 0x100000000,
{
    (v / 0x100000000) as u32
}

impl EthExchange {
    fn push_request(&self, out: &mut Vec<EthAccess>, cmd: u64, dma_offset: u64, block_len: u64)
        requires
            cmd + 28 <= u64::MAX,
            match self.request {
                EthRequest::BlockRead { dma_phys, .. } | EthRequest::BlockWrite { dma_phys, .. } =>
                    dma_phys + dma_offset <= u64::MAX,
                _ => true,
            },
        ensures
            final(out)@ == old(out)@ + request_writes(*self, cmd, dma_offset, block_len),
    {
        let sys = get_sys_addr(&self.coord);
        let rack = get_rack_addr(&self.coord);
        let flags = flags_for(self.request, self.coord.noc_id);
        out.push(EthAccess::Write(cmd, low_word(sys)));
        out.push(EthAccess::Write(cmd + 4, high_word(sys)));
        out.push(EthAccess::Write(cmd + 16, rack as u32));
        match self.request {
            EthRequest::Read32 => {},
            EthRequest::Write32(v) => {
                out.push(EthAccess::Write(cmd + 8, v));
            },
            EthRequest::BlockRead { dma_phys, .. } | EthRequest::BlockWrite { dma_phys, .. } => {
                out.push(EthAccess::Write(cmd + 8, low_word(block_len)));
                out.push(EthAccess::Write(cmd + 28, low_word(dma_phys + dma_offset)));
            },
        }
        out.push(EthAccess::Write(cmd + 12, flags));
        assert(final(out)@ =~= old(out)@ + request_writes(*self, cmd, dma_offset, block_len));
    }

    /// Begin a transaction on the queues at `command_q_addr`: the first
    /// step reads the request queue's write pointer.  A block transfer of
    /// no bytes is over at once.
    pub fn start(command_q_addr: u32, coord: EthCommCoord, request: EthRequest) -> (r: (EthExchange, EthAction))
        requires
            exchange_ok(EthExchange { command_q_addr, coord, request, pos: 0, dma_offset: 0, block_len: 0, phase: EthPhase::Posted }),
        ensures
            r.0 == (EthExchange { command_q_addr, coord, request, pos: 0, dma_offset: 0, block_len: 0, phase: EthPhase::IdleWptr { polling: false } }),
            exchange_ok(r.0),
            if block_len_total(request) == 0 && (request is BlockRead || request is BlockWrite) {
                r.1 matches EthAction::Finish(Ok(0))
            } else {
                action_is(r.1, EthStep::Access(seq![EthAccess::Read(req_wptr_addr(command_q_addr))]))
            },
    {
        let x = EthExchange { command_q_addr, coord, request, pos: 0, dma_offset: 0, block_len: 0, phase: EthPhase::IdleWptr { polling: false } };
        let empty = match request {
            EthRequest::BlockRead { len, .. } | EthRequest::BlockWrite { len, .. } => len == 0,
            _ => false,
        };
        if empty {
            return (x, EthAction::Finish(Ok(0)));
        }
        let mut v: Vec<EthAccess> = Vec::new();
        v.push(EthAccess::Read((command_q_addr + 0x80 + 32) as u64));
        assert(v@ =~= seq![EthAccess::Read(req_wptr_addr(command_q_addr))]);
        (x, EthAction::Access(v))
    }

    /// Advance the transaction with the value the last read returned.
    pub fn step(&self, value: u32) -> (r: (EthExchange, EthAction))
        requires
            exchange_ok(*self),
        ensures
            r.0 == eth_next(*self, value).0,
            action_is(r.1, eth_next(*self, value).1),
            exchange_ok(r.0),
    {
        let cq = self.command_q_addr;
        match self.phase {
            EthPhase::IdleWptr { polling } => {
                let x = EthExchange { phase: EthPhase::IdleRptr { wptr: value }, ..*self };
                let a = (cq + 0x80 + 48) as u64;
                if polling {
                    (x, EthAction::WaitAndPoll(a))
                } else {
                    let mut v: Vec<EthAccess> = Vec::new();
                    v.push(EthAccess::Read(a));
                    assert(v@ =~= seq![EthAccess::Read(req_rptr_addr(cq))]);
                    (x, EthAction::Access(v))
                }
            },
            EthPhase::IdleRptr { wptr } => {
                if is_command_q_full(wptr, value) {
                    return (
                        EthExchange { phase: EthPhase::IdleWptr { polling: true }, ..*self },
                        EthAction::WaitAndPoll((cq + 0x80 + 32) as u64),
                    );
                }
                let cmd = (cq + 0x80 + 64 + (wptr % 4) * 32) as u64;
                let (slice, total) = match self.request {
                    EthRequest::BlockRead { len, slice_len, .. } | EthRequest::BlockWrite { len, slice_len, .. } => (slice_len, len),
                    _ => (0u64, 0u64),
                };
                assert(slice * (wptr % 4) + slice <= 4 * slice) by (nonlinear_arith)
                    requires
                        wptr % 4 < 4,
                ;
                let dma_offset: u64 = slice * ((wptr % 4) as u64);
                let block_len: u64 = if total >= self.pos && total - self.pos < slice {
                    total - self.pos
                } else {
                    slice
                };
                let ghost left = total - self.pos;
                assert(block_len == (if left < slice { left } else { slice as int }) as u64);
                let mut writes: Vec<EthAccess> = Vec::new();
                if let EthRequest::BlockWrite { .. } = self.request {
                    writes.push(EthAccess::ToDma { dma_offset, pos: self.pos, len: block_len });
                }
                let ghost before = writes@;
                self.push_request(&mut writes, cmd, dma_offset, block_len);
                writes.push(EthAccess::Write((cq + 0x80 + 32) as u64, next_queue_ptr(wptr)));
                let y = EthExchange { dma_offset, block_len, ..*self };
                match self.request {
                    EthRequest::Read32 | EthRequest::BlockRead { .. } => {
                        writes.push(EthAccess::Read((cq + 0x200 + 48) as u64));
                        (EthExchange { phase: EthPhase::RespRptr, ..y }, EthAction::Access(writes))
                    },
                    EthRequest::Write32(_) => {
                        (EthExchange { phase: EthPhase::Posted, ..y }, EthAction::Access(writes))
                    },
                    EthRequest::BlockWrite { .. } => {
                        assert(writes@ =~= seq![EthAccess::ToDma { dma_offset, pos: self.pos, len: block_len }] + request_writes(*self, cmd, dma_offset, block_len).push(EthAccess::Write(req_wptr_addr(cq), next_ptr(wptr))));
                        (EthExchange { phase: EthPhase::Posted, ..y }, EthAction::Access(writes))
                    },
                }
            },
            EthPhase::RespRptr => {
                let mut v: Vec<EthAccess> = Vec::new();
                v.push(EthAccess::Read((cq + 0x200 + 32) as u64));
                assert(v@ =~= seq![EthAccess::Read(resp_wptr_addr(cq))]);
                (EthExchange { phase: EthPhase::RespWptr { rptr: value }, ..*self }, EthAction::Access(v))
            },
            EthPhase::RespWptr { rptr } => {
                if value == rptr {
                    (*self, EthAction::WaitAndPoll((cq + 0x200 + 32) as u64))
                } else {
                    let mut v: Vec<EthAccess> = Vec::new();
                    v.push(EthAccess::Read((cq + 0x200 + 64 + (rptr % 4) * 32 + 12) as u64));
                    assert(v@ =~= seq![EthAccess::Read((resp_cmd_addr(cq, rptr) + 12) as u64)]);
                    (EthExchange { phase: EthPhase::Flags { rptr }, ..*self }, EthAction::Access(v))
                }
            },
            EthPhase::Flags { rptr } => {
                let entry = (cq + 0x200 + 64 + (rptr % 4) * 32) as u64;
                if value == 0 {
                    return (*self, EthAction::WaitAndPoll(entry + 12));
                }
                match self.request {
                    EthRequest::BlockRead { .. } => {
                        if value / 0x80000000 % 2 == 1 {
                            (*self, EthAction::Finish(Err(EthError::DestinationUnreachable)))
                        } else if value / 0x40000000 % 2 == 1 {
                            (*self, EthAction::Finish(Err(EthError::DataBlockUnavailable)))
                        } else if !(value / 0x40 % 2 == 1 && value / 0x8 % 2 == 1) {
                            (*self, EthAction::Finish(Err(EthError::UnexpectedNonBlockResponse)))
                        } else {
                            let mut v: Vec<EthAccess> = Vec::new();
                            v.push(EthAccess::Write((cq + 0x200 + 48) as u64, next_queue_ptr(rptr)));
                            v.push(EthAccess::FromDma { dma_offset: self.dma_offset, pos: self.pos, len: self.block_len });
                            assert(v@ =~= seq![
                                EthAccess::Write(resp_rptr_addr(cq), next_ptr(rptr)),
                                EthAccess::FromDma { dma_offset: self.dma_offset, pos: self.pos, len: self.block_len },
                            ]);
                            (EthExchange { phase: EthPhase::Posted, ..*self }, EthAction::Access(v))
                        }
                    },
                    _ => {
                        let mut v: Vec<EthAccess> = Vec::new();
                        v.push(EthAccess::Read(entry + 8));
                        assert(v@ =~= seq![EthAccess::Read((resp_cmd_addr(cq, rptr) + 8) as u64)]);
                        (EthExchange { phase: EthPhase::Data { rptr, flags: value }, ..*self }, EthAction::Access(v))
                    },
                }
            },
            EthPhase::Data { rptr, flags } => {
                let mut v: Vec<EthAccess> = Vec::new();
                v.push(EthAccess::Write((cq + 0x200 + 48) as u64, next_queue_ptr(rptr)));
                assert(v@ =~= seq![EthAccess::Write(resp_rptr_addr(cq), next_ptr(rptr))]);
                (EthExchange { phase: EthPhase::Reply { data: value, flags }, ..*self }, EthAction::Access(v))
            },
            EthPhase::Reply { data, flags } => {
                let mut error: Option<EthError> = None;
                if flags / 0x80000000 % 2 == 1 {
                    error = Some(EthError::DestinationUnreachable);
                }
                if flags / 0x40000000 % 2 == 1 {
                    error = Some(EthError::DataBlockUnavailable);
                }
                if flags / 0x40 % 2 == 1 && flags / 0x8 % 2 == 1 {
                    error = Some(EthError::UnexpectedBlockResponse);
                }
                match error {
                    Some(e) => (*self, EthAction::Finish(Err(e))),
                    None => (*self, EthAction::Finish(Ok(data))),
                }
            },
            EthPhase::Posted => {
                match self.request {
                    EthRequest::BlockRead { len, slice_len, .. } | EthRequest::BlockWrite { len, slice_len, .. } => {
                        let pos = self.pos + slice_len;
                        let coord = EthCommCoord { offset: self.coord.offset + slice_len, ..self.coord };
                        if pos < len {
                            let mut v: Vec<EthAccess> = Vec::new();
                            v.push(EthAccess::Read((cq + 0x80 + 32) as u64));
                            assert(v@ =~= seq![EthAccess::Read(req_wptr_addr(cq))]);
                            (EthExchange { pos, coord, phase: EthPhase::IdleWptr { polling: false }, ..*self }, EthAction::Access(v))
                        } else {
                            (*self, EthAction::Finish(Ok(0)))
                        }
                    },
                    _ => (*self, EthAction::Finish(Ok(0))),
                }
            },
        }
    }
}

/// A word read consumes its response before it reports: once the response
/// entry's flags are set, the data word is read, the response read pointer
/// is moved on to the next entry, and only then does the read finish, with
/// the data word or the error the flags give (on error too).
pub proof fn lemma_word_read_consumes_response(x: EthExchange, flags: u32, data: u32, any: u32)
    requires
        x.request is Read32,
        x.phase matches EthPhase::Flags { .. },
        flags != 0,
    ensures
        ({
            let rptr = x.phase->Flags_rptr;
            let cq = x.command_q_addr;
            let (y, s1) = eth_next(x, flags);
            let (z, s2) = eth_next(y, data);
            let (_, s3) = eth_next(z, any);
            &&& resp_rptr_addr(cq) == cq + 0x230
            &&& s1 == EthStep::Access(seq![EthAccess::Read((resp_cmd_addr(cq, rptr) + 8) as u64)])
            &&& s2 == EthStep::Access(seq![EthAccess::Write(resp_rptr_addr(cq), ((rptr + 1) % 8) as u32)])
            &&& s3 == EthStep::Finish(read32_result(flags, data))
        }),
{
}

/// Whether a register access stays inside the command-queue block at `cq`
/// (the request queue through the response queue).
pub open spec fn access_in_block(a: EthAccess, cq: u32) -> bool {
    match a {
        EthAccess::Read(addr) => cq + 0x80 <= addr < cq + 0x2B0,
        EthAccess::Write(addr, _) => cq + 0x80 <= addr < cq + 0x2B0,
        _ => true,
    }
}

/// Every register a transaction touches on the ethernet core lies in its
/// command-queue block: each step's reads, writes and polls.
pub proof fn lemma_accesses_stay_in_queue_block(x: EthExchange, value: u32)
    requires
        exchange_ok(x),
    ensures
        match eth_next(x, value).1 {
            EthStep::Access(v) => forall|i: int|
                0 <= i < v.len() ==> access_in_block(#[trigger] v[i], x.command_q_addr),
            EthStep::WaitAndPoll(addr) => x.command_q_addr + 0x80 <= addr < x.command_q_addr
                + 0x2B0,
            EthStep::Finish(_) => true,
        },
{
    let cq = x.command_q_addr;
    if let EthPhase::IdleRptr { wptr } = x.phase {
        if !queue_full(wptr, value) {
            let cmd = req_cmd_addr(cq, wptr);
            assert(cq + 0x80 + 64 <= cmd <= cq + 0x80 + 64 + 96);
            let slice = block_slice(x.request);
            let dma_offset = (slice * (wptr % 4)) as u64;
            let left = block_len_total(x.request) - x.pos;
            let block_len = (if left < slice { left } else { slice as int }) as u64;
            let w = request_writes(x, cmd, dma_offset, block_len);
            assert forall|i: int| 0 <= i < w.len() implies access_in_block(#[trigger] w[i], cq) by {
            }
        }
    }
    if let EthPhase::RespWptr { rptr } = x.phase {
        assert(resp_cmd_addr(cq, rptr) <= cq + 0x200 + 64 + 96);
    }
    if let EthPhase::Flags { rptr } = x.phase {
        assert(resp_cmd_addr(cq, rptr) <= cq + 0x200 + 64 + 96);
    }
}

/// Where the response queue's pointers are read to bring it back in step:
/// its write pointer, then its read pointer.
pub fn response_pointer_addrs(cq: u32) -> (r: (u64, u64))
    requires
        queue_addressable(cq),
    ensures
        r == (resp_wptr_addr(cq), resp_rptr_addr(cq)),
{
    ((cq + 0x200 + 32) as u64, (cq + 0x200 + 48) as u64)
}

/// After reading the response queue's pointers: when they differ, the
/// write that sets its read pointer to its write pointer, dropping stale
/// responses.
pub fn response_queue_fixup(cq: u32, wr_ptr: u32, rd_ptr: u32) -> (r: Option<(u64, u32)>)
    requires
        queue_addressable(cq),
    ensures
        wr_ptr == rd_ptr ==> r is None,
        wr_ptr != rd_ptr ==> r == Some((resp_rptr_addr(cq), wr_ptr)),
{
    if wr_ptr != rd_ptr {
        Some(((cq + 0x200 + 48) as u64, wr_ptr))
    } else {
        None
    }
}

/// Words of one queue in a dump of the command-queue block.
pub const Q_SIZE_WORDS: u32 = 48;

/// Number of queues in a dump of the command-queue block.
pub const DUMPED_QUEUES: u32 = 14;

/// One command of a queue, as dumped.
#[derive(Clone, Copy, Debug, PartialEq, Eq, Structural)]
pub struct QueueCommand {
    pub addr_l: u32,
    pub addr_h: u32,
    pub data: u32,
    pub flags: u32,
    pub src_resp_buf_index: u32,
    pub lcl_buf_index: u32,
    pub src_resp_q_id: u32,
    pub src_addr_tag: u32,
}

/// One queue of a dump: its pointers and its four commands.
#[derive(Clone, Debug)]
pub struct QueueState {
    pub wptr: u32,
    pub rptr: u32,
    pub commands: Vec<QueueCommand>,
}

/// Command `c` of queue `q` in the dump `d`: eight words from word
/// `48 q + 16 + 8 c` on.
pub open spec fn dumped_command(d: Seq<u32>, q: int, c: int) -> QueueCommand {
    let base = 48 * q + 16 + 8 * c;
    QueueCommand {
        addr_l: d[base],
        addr_h: d[base + 1],
        data: d[base + 2],
        flags: d[base + 3],
        src_resp_buf_index: d[base + 4],
        lcl_buf_index: d[base + 5],
        src_resp_q_id: d[base + 6],
        src_addr_tag: d[base + 7],
    }
}

/// Queue `q` (0 to 3: request, ethernet in, response, ethernet out) of a
/// dump of the command-queue block: its write pointer at word 8, read
/// pointer at word 12, and four commands from word 16.
pub fn queue_state(dump: &Vec<u32>, q: u32) -> (r: QueueState)
    requires
        q < 4,
        dump@.len() >= 48 * (q + 1),
    ensures
        r.wptr == dump@[48 * q + 8],
        r.rptr == dump@[48 * q + 12],
        r.commands@.len() == 4,
        forall|c: int| 0 <= c < 4 ==> #[trigger] r.commands@[c] == dumped_command(dump@, q as int, c),
{
    let base = (q * Q_SIZE_WORDS) as usize;
    let mut commands: Vec<QueueCommand> = Vec::new();
    let mut c: usize = 0;
    while c < 4
        invariant
            q < 4,
            dump@.len() >= 48 * (q + 1),
            base == 48 * q,
            c <= 4,
            commands@.len() == c,
            forall|k: int| 0 <= k < c ==> #[trigger] commands@[k] == dumped_command(dump@, q as int, k),
        decreases 4 - c,
    {
        let b = base + 16 + 8 * c;
        commands.push(QueueCommand {
            addr_l: dump[b],
            addr_h: dump[b + 1],
            data: dump[b + 2],
            flags: dump[b + 3],
            src_resp_buf_index: dump[b + 4],
            lcl_buf_index: dump[b + 5],
            src_resp_q_id: dump[b + 6],
            src_addr_tag: dump[b + 7],
        });
        c = c + 1;
    }
    QueueState { wptr: dump[base + 8], rptr: dump[base + 12], commands }
}

/// Whether a copy between the caller's data and the DMA buffer is one
/// block of the transfer starting at `pos`: `slice` bytes, or what is left
/// of the `total` when that is less, at the DMA slice its queue entry
/// selects.
pub open spec fn copy_is_block(a: EthAccess, pos: u64, total: u64, slice: u64) -> bool {
    match a {
        EthAccess::ToDma { dma_offset, pos: p, len } | EthAccess::FromDma { dma_offset, pos: p, len } => {
            &&& p == pos
            &&& len == (if total - pos < slice { total - pos } else { slice as int })
            &&& p + len <= total
            &&& dma_offset + len <= 4 * slice
        },
        _ => true,
    }
}

/// Every copy a block transfer asks for stays inside the caller's data and
/// the DMA buffer, and copies the current block: so the blocks of a
/// transfer cover its data once, in order.
pub proof fn lemma_block_copies_in_bounds(x: EthExchange, value: u32)
    requires
        exchange_ok(x),
    ensures
        match eth_next(x, value).1 {
            EthStep::Access(v) => forall|i: int|
                0 <= i < v.len() ==> copy_is_block(
                    #[trigger] v[i],
                    x.pos,
                    block_len_total(x.request),
                    block_slice(x.request),
                ),
            _ => true,
        },
{
    let cq = x.command_q_addr;
    if let EthPhase::IdleRptr { wptr } = x.phase {
        if !queue_full(wptr, value) {
            let slice = block_slice(x.request);
            let dma_offset = (slice * (wptr % 4)) as u64;
            assert(slice * (wptr % 4) + slice <= 4 * slice) by (nonlinear_arith)
                requires
                    wptr % 4 < 4,
            ;
            let cmd = req_cmd_addr(cq, wptr);
            let left = block_len_total(x.request) - x.pos;
            let block_len = (if left < slice { left } else { slice as int }) as u64;
            let w = request_writes(x, cmd, dma_offset, block_len);
            assert forall|i: int| 0 <= i < w.len() implies copy_is_block(#[trigger] w[i], x.pos, block_len_total(x.request), slice) by {
            }
        }
    }
}

/// The word accesses that stand in for a block transfer of `len` bytes at
/// `coord` where block transfers are not used: one per 4 bytes, at
/// successive offsets.
pub fn word_coords(coord: EthCommCoord, len: usize) -> (r: Vec<EthCommCoord>)
    requires
        len % 4 == 0,
        coord.offset + len <= u64::MAX,
    ensures
        r@.len() == len / 4,
        forall|i: int| 0 <= i < r@.len() ==> #[trigger] r@[i] == (EthCommCoord { offset: (coord.offset + 4 * i) as u64, ..coord }),
{
    let mut out: Vec<EthCommCoord> = Vec::new();
    let n = len / 4;
    let mut i: usize = 0;
    while i < n
        invariant
            n == len / 4,
            len % 4 == 0,
            coord.offset + len <= u64::MAX,
            i <= n,
            out@.len() == i,
            forall|k: int| 0 <= k < i ==> #[trigger] out@[k] == (EthCommCoord { offset: (coord.offset + 4 * k) as u64, ..coord }),
        decreases n - i,
    {
        out.push(EthCommCoord { offset: coord.offset + 4 * i as u64, ..coord });
        i = i + 1;
    }
    out
}

} // verus!
