//! Messages to the ARC management core, and the mailbox protocol used to send
//! them.
//!
//! A message is sent by writing its arguments to the return register and its
//! code to the message register of the ARC scratch space, then raising a
//! firmware interrupt.  The firmware answers by replacing the message register
//! with the low byte of the code and an exit code in the upper half-word.
use crate::axi::{axi_translate, table_faults, translate_spec, AxiData, AxiError, MemorySlices};
use vstd::prelude::*;

verus! {

/// The power states a chip can be asked to enter.
#[derive(Clone, Copy, Debug, PartialEq, Eq, Structural)]
pub enum PowerState {
    Busy,
    ShortIdle,
    LongIdle,
}

/// A message to the ARC firmware.
#[derive(Clone, Copy, Debug, PartialEq, Eq, Structural)]
pub enum ArcMsg {
    Nop,
    Test { arg: u32 },
    ArcGoToSleep,
    SetPowerState(PowerState),
    FwVersion,
    GetSmbusTelemetryAddr,
    GetAiclk,
    GetHarvesting,
}

/// The message code the firmware knows `msg` by.
pub open spec fn arc_msg_code(msg: ArcMsg) -> u16 {
    match msg {
        ArcMsg::Nop => 0xaa11,
        ArcMsg::ArcGoToSleep => 0xaa55,
        ArcMsg::Test { .. } => 0xaa90,
        ArcMsg::GetSmbusTelemetryAddr => 0xaa2c,
        ArcMsg::SetPowerState(PowerState::Busy) => 0xaa52,
        ArcMsg::SetPowerState(PowerState::ShortIdle) => 0xaa53,
        ArcMsg::SetPowerState(PowerState::LongIdle) => 0xaa54,
        ArcMsg::GetHarvesting => 0xaa57,
        ArcMsg::GetAiclk => 0xaa34,
        ArcMsg::FwVersion => 0xaab9,
    }
}

/// The two 16-bit arguments sent with `msg`: a test message carries its
/// argument split into low and high half-words, every other message zeros.
pub open spec fn arc_msg_args(msg: ArcMsg) -> (u16, u16) {
    match msg {
        ArcMsg::Test { arg } => ((arg % 0x10000) as u16, (arg / 0x10000) as u16),
        _ => (0, 0),
    }
}

/// Whether `from_values` knows the message whose code ends in `code`.
pub open spec fn known_msg_byte(code: u32) -> bool {
    let b = code % 0x100;
    b == 0x11 || b == 0x34 || b == 0x52 || b == 0x53 || b == 0x54 || b == 0x57 || b == 0x90
}

/// The message named by the low byte of `msg`, with arguments `arg0`, `arg1`.
pub open spec fn arc_msg_from_values(msg: u32, arg0: u16, arg1: u16) -> ArcMsg {
    let b = msg % 0x100;
    if b == 0x11 {
        ArcMsg::Nop
    } else if b == 0x34 {
        ArcMsg::GetAiclk
    } else if b == 0x52 {
        ArcMsg::SetPowerState(PowerState::Busy)
    } else if b == 0x53 {
        ArcMsg::SetPowerState(PowerState::ShortIdle)
    } else if b == 0x54 {
        ArcMsg::SetPowerState(PowerState::LongIdle)
    } else if b == 0x57 {
        ArcMsg::GetHarvesting
    } else {
        ArcMsg::Test { arg: (arg1 * 0x10000 + arg0) as u32 }
    }
}

impl ArcMsg {
    /// The code the firmware knows this message by.
    pub fn msg_code(&self) -> (r: u16)
        ensures
            r == arc_msg_code(*self),
    {
        let code: u16 = match self {
            ArcMsg::Nop => 0x11,
            ArcMsg::ArcGoToSleep => 0x55,
            ArcMsg::Test { .. } => 0x90,
            ArcMsg::GetSmbusTelemetryAddr => 0x2C,
            ArcMsg::SetPowerState(state) => match state {
                PowerState::Busy => 0x52,
                PowerState::ShortIdle => 0x53,
                PowerState::LongIdle => 0x54,
            },
            ArcMsg::GetHarvesting => 0x57,
            ArcMsg::GetAiclk => 0x34,
            ArcMsg::FwVersion => 0xb9,
        };
        0xaa00 + code
    }

    /// The two 16-bit arguments sent with this message.
    pub fn args(&self) -> (r: (u16, u16))
        ensures
            r == arc_msg_args(*self),
    {
        match self {
            ArcMsg::Test { arg } => {
                let a = *arg;
                ((a % 0x10000) as u16, (a / 0x10000) as u16)
            },
            ArcMsg::Nop
            | ArcMsg::ArcGoToSleep
            | ArcMsg::GetSmbusTelemetryAddr
            | ArcMsg::SetPowerState(_)
            | ArcMsg::GetAiclk
            | ArcMsg::FwVersion
            | ArcMsg::GetHarvesting => (0, 0),
        }
    }

    /// Whether `from_values` knows the message with code `msg`.
    pub fn is_known(msg: u32) -> (r: bool)
        ensures
            r == known_msg_byte(msg),
    {
        let b = msg % 0x100;
        b == 0x11 || b == 0x34 || b == 0x52 || b == 0x53 || b == 0x54 || b == 0x57 || b == 0x90
    }

    /// The message with code `msg` (only its low byte counts) and arguments
    /// `arg0`, `arg1`.  Codes of messages this table does not know are refused.
    pub fn from_values(msg: u32, arg0: u16, arg1: u16) -> (r: Self)
        requires
            known_msg_byte(msg),
        ensures
            r == arc_msg_from_values(msg, arg0, arg1),
    {
        let m = msg % 0x100;
        if m == 0x11 {
            ArcMsg::Nop
        } else if m == 0x34 {
            ArcMsg::GetAiclk
        } else if m == 0x52 {
            ArcMsg::SetPowerState(PowerState::Busy)
        } else if m == 0x53 {
            ArcMsg::SetPowerState(PowerState::ShortIdle)
        } else if m == 0x54 {
            ArcMsg::SetPowerState(PowerState::LongIdle)
        } else if m == 0x57 {
            ArcMsg::GetHarvesting
        } else {
            let a1 = arg1 as u32;
            let a0 = arg0 as u32;
            ArcMsg::Test { arg: a1 * 0x10000 + a0 }
        }
    }
}

/// The codes the ARC firmware knows each message by: 0xaa00 with the
/// message number in the low byte (no-op 0x11, sleep 0x55, test 0x90,
/// telemetry address 0x2c, power states 0x52 to 0x54 for busy, short idle
/// and long idle, harvesting 0x57, AI clock 0x34, firmware version 0xb9).
pub proof fn lemma_msg_code_table(arg: u32)
    ensures
        arc_msg_code(ArcMsg::Nop) == 0xaa11,
        arc_msg_code(ArcMsg::ArcGoToSleep) == 0xaa55,
        arc_msg_code(ArcMsg::Test { arg }) == 0xaa90,
        arc_msg_code(ArcMsg::GetSmbusTelemetryAddr) == 0xaa2c,
        arc_msg_code(ArcMsg::SetPowerState(PowerState::Busy)) == 0xaa52,
        arc_msg_code(ArcMsg::SetPowerState(PowerState::ShortIdle)) == 0xaa53,
        arc_msg_code(ArcMsg::SetPowerState(PowerState::LongIdle)) == 0xaa54,
        arc_msg_code(ArcMsg::GetHarvesting) == 0xaa57,
        arc_msg_code(ArcMsg::GetAiclk) == 0xaa34,
        arc_msg_code(ArcMsg::FwVersion) == 0xaab9,
{
}

/// Different messages (test messages aside, whose argument travels
/// separately) have different codes, so the firmware can tell them apart.
pub proof fn lemma_msg_codes_distinct(a: ArcMsg, b: ArcMsg)
    requires
        !(a is Test && b is Test),
        a != b,
    ensures
        arc_msg_code(a) != arc_msg_code(b),
{
}

/// Sending a message's own code and arguments back through `from_values`
/// gives the message again, for every message `from_values` knows.
pub proof fn lemma_from_values_round_trip(msg: ArcMsg)
    requires
        known_msg_byte(arc_msg_code(msg) as u32),
    ensures
        arc_msg_from_values(arc_msg_code(msg) as u32, arc_msg_args(msg).0, arc_msg_args(msg).1)
            == msg,
{
    if let ArcMsg::Test { arg } = msg {
        assert((arg / 0x10000) * 0x10000 + arg % 0x10000 == arg);
    }
}

/// Only the low byte of a message code decides which message `from_values`
/// gives, and whether it knows the code at all.
pub proof fn lemma_from_values_reads_low_byte(a: u32, b: u32, arg0: u16, arg1: u16)
    requires
        a % 0x100 == b % 0x100,
    ensures
        known_msg_byte(a) == known_msg_byte(b),
        arc_msg_from_values(a, arg0, arg1) == arc_msg_from_values(b, arg0, arg1),
{
}

/// Why the mailbox protocol failed.
#[derive(Debug)]
pub enum ArcMsgProtocolError {
    MsgNotRecognized(u16),
    Timeout(std::time::Duration),
    ArcAsleep,
    FwIntFailed,
    UnsafeToSendArcMsg(String),
    InvalidMailbox(usize),
    /// The firmware answered with a status code it does not define.
    UnknownErrorCode(u8),
}

/// A captured call-stack backtrace.
#[derive(Debug)]
pub struct BtWrapper(pub std::backtrace::Backtrace);

#[verifier::external_type_specification]
#[verifier::external_body]
pub struct ExBacktrace(std::backtrace::Backtrace);

/// `std::backtrace::Backtrace::capture`: records the current call stack
/// (whether anything is recorded depends on the environment); nothing is
/// claimed of the result.
#[verifier::external_body]
fn capture_backtrace() -> std::backtrace::Backtrace {
    std::backtrace::Backtrace::capture()
}

impl BtWrapper {
    /// The backtrace of the current call stack.
    pub fn capture() -> Self {
        BtWrapper(capture_backtrace())
    }
}

/// Why a message could not be sent or was refused.
#[derive(Debug)]
pub enum ArcMsgError {
    ProtocolError { source: ArcMsgProtocolError, backtrace: BtWrapper },
    AxiError(AxiError),
}

impl ArcMsgProtocolError {
    /// This protocol error as a message error, with the current backtrace.
    pub fn into_error(self) -> (r: ArcMsgError)
        ensures
            r matches ArcMsgError::ProtocolError { source, .. } && source == self,
    {
        ArcMsgError::ProtocolError { source: self, backtrace: BtWrapper::capture() }
    }
}

/// A successful reply: the exit code and the value left in the return
/// register, or nothing when the caller did not wait.
#[derive(Clone, Copy, Debug, PartialEq, Eq, Structural)]
pub enum ArcMsgOk {
    Done { rc: u32, arg: u32 },
    OkNoWait,
}

/// Addresses of the ARC scratch registers and of its interrupt control register.
#[derive(Clone, Copy, Debug)]
pub struct ArcMsgAddr {
    pub scratch_base: u64,
    pub arc_misc_cntl: u64,
}

/// The value the firmware leaves in the message register when it does not
/// know a message.
pub const MSG_ERROR_REPLY: u32 = 0xffffffff;

/// Bit of the interrupt control register that raises the firmware interrupt.
pub const FW_INT_BIT: u32 = 0x10000;

/// Address of scratch register `reg`.
pub open spec fn scratch_addr(addrs: ArcMsgAddr, reg: u64) -> int {
    addrs.scratch_base + reg * 4
}

/// One register access the mailbox protocol asks for.
#[derive(Clone, Copy, Debug, PartialEq, Eq, Structural)]
pub enum ArcAccess {
    Read(u64),
    Write(u64, u32),
}

/// Where a message exchange stands.
#[derive(Clone, Copy, Debug, PartialEq, Eq, Structural)]
pub enum ArcMsgPhase {
    /// Waiting for the current contents of the message register.
    CheckAsleep,
    /// Waiting for the interrupt control register.
    TriggerInterrupt,
    /// The interrupt has been raised for a message nobody waits on; the
    /// next step ends the exchange.
    Raised,
    /// Waiting for the message register to show the reply.
    Poll,
    /// Waiting for the return register; the reply carried exit code `rc`.
    ReadReturn { rc: u32 },
}

/// What the caller does next.
#[derive(Debug)]
pub enum ArcMsgAction {
    /// Perform these register accesses in order, then report the value read
    /// by the last `Read` (0 where there is none) as the next event.
    Access(Vec<ArcAccess>),
    /// Sleep a millisecond; report a timeout if the deadline has passed,
    /// otherwise read the message register again.
    WaitAndPoll(u64),
    /// The exchange is over.
    Finish(Result<ArcMsgOk, ArcMsgProtocolError>),
}

/// A message exchange in progress.
#[derive(Clone, Copy, Debug)]
pub struct ArcMsgExchange {
    pub code: u16,
    pub args: (u16, u16),
    pub wait_for_done: bool,
    pub msg_reg: u64,
    pub return_reg: u64,
    pub addrs: ArcMsgAddr,
    pub phase: ArcMsgPhase,
}

/// Whether the exchange's registers lie in the 64-bit address space.
pub open spec fn exchange_addressable(x: ArcMsgExchange) -> bool {
    &&& x.msg_reg < 0x4000_0000_0000_0000
    &&& x.return_reg < 0x4000_0000_0000_0000
    &&& scratch_addr(x.addrs, x.msg_reg) <= u64::MAX
    &&& scratch_addr(x.addrs, x.return_reg) <= u64::MAX
}

/// The argument word: `arg0` in the low half, `arg1` in the high half.
pub open spec fn arg_word(args: (u16, u16)) -> u32 {
    (args.0 + args.1 * 0x10000) as u32
}

/// Whether a message register value shows that the firmware is asleep.
pub open spec fn shows_asleep(value: u32) -> bool {
    value % 0x10000 == 0xaa55
}

/// Whether a message register value is the reply to the message with `code`.
pub open spec fn is_reply(value: u32, code: u16) -> bool {
    value % 0x10000 == code % 0x100
}

impl ArcMsgExchange {
    /// Begin sending `msg` through the mailbox `msg_reg`/`return_reg`: the
    /// first step reads the message register.
    pub fn start(
        msg: &ArcMsg,
        wait_for_done: bool,
        msg_reg: u64,
        return_reg: u64,
        addrs: ArcMsgAddr,
    ) -> (r: (ArcMsgExchange, ArcMsgAction))
        requires
            msg_reg < 0x4000_0000_0000_0000,
            return_reg < 0x4000_0000_0000_0000,
            addrs.scratch_base + msg_reg * 4 <= u64::MAX,
            addrs.scratch_base + return_reg * 4 <= u64::MAX,
        ensures
            r.0.code == arc_msg_code(*msg),
            r.0.args == arc_msg_args(*msg),
            r.0.wait_for_done == wait_for_done,
            r.0.msg_reg == msg_reg,
            r.0.return_reg == return_reg,
            r.0.addrs == addrs,
            r.0.phase == ArcMsgPhase::CheckAsleep,
            exchange_addressable(r.0),
            r.1 matches ArcMsgAction::Access(v) && v@ == seq![
                ArcAccess::Read((addrs.scratch_base + msg_reg * 4) as u64),
            ],
    {
        let x = ArcMsgExchange {
            code: msg.msg_code(),
            args: msg.args(),
            wait_for_done,
            msg_reg,
            return_reg,
            addrs,
            phase: ArcMsgPhase::CheckAsleep,
        };
        let mut v = Vec::new();
        v.push(ArcAccess::Read(addrs.scratch_base + msg_reg * 4));
        (x, ArcMsgAction::Access(v))
    }

    /// Advance the exchange with the value read by the last access.
    pub fn step(&self, value: u32) -> (r: (ArcMsgExchange, ArcMsgAction))
        requires
            exchange_addressable(*self),
        ensures
            exchange_addressable(r.0),
            r.0.code == self.code && r.0.args == self.args && r.0.wait_for_done
                == self.wait_for_done && r.0.msg_reg == self.msg_reg && r.0.return_reg
                == self.return_reg && r.0.addrs == self.addrs,
            ({
                let msg_addr = scratch_addr(self.addrs, self.msg_reg) as u64;
                let ret_addr = scratch_addr(self.addrs, self.return_reg) as u64;
                match self.phase {
                    ArcMsgPhase::CheckAsleep => if shows_asleep(value) {
                        r.1 matches ArcMsgAction::Finish(Err(ArcMsgProtocolError::ArcAsleep))
                    } else {
                        &&& r.0.phase == ArcMsgPhase::TriggerInterrupt
                        &&& r.1 matches ArcMsgAction::Access(v)
                        &&& v@ == seq![
                            ArcAccess::Write(ret_addr, arg_word(self.args)),
                            ArcAccess::Write(msg_addr, self.code as u32),
                            ArcAccess::Read(self.addrs.arc_misc_cntl),
                        ]
                    },
                    ArcMsgPhase::TriggerInterrupt => if value / FW_INT_BIT % 2 == 1 {
                        r.1 matches ArcMsgAction::Finish(Err(ArcMsgProtocolError::FwIntFailed))
                    } else if self.wait_for_done {
                        &&& r.0.phase == ArcMsgPhase::Poll
                        &&& r.1 matches ArcMsgAction::Access(v)
                        &&& v@ == seq![
                            ArcAccess::Write(self.addrs.arc_misc_cntl, (value + FW_INT_BIT) as u32),
                            ArcAccess::Read(msg_addr),
                        ]
                    } else {
                        &&& r.0.phase == ArcMsgPhase::Raised
                        &&& r.1 matches ArcMsgAction::Access(v)
                        &&& v@ == seq![
                            ArcAccess::Write(self.addrs.arc_misc_cntl, (value + FW_INT_BIT) as u32),
                        ]
                    },
                    ArcMsgPhase::Raised => r.1 matches ArcMsgAction::Finish(Ok(ArcMsgOk::OkNoWait)),
                    ArcMsgPhase::Poll => if is_reply(value, self.code) {
                        &&& r.0.phase == (ArcMsgPhase::ReadReturn { rc: value / 0x10000 })
                        &&& r.1 matches ArcMsgAction::Access(v)
                        &&& v@ == seq![ArcAccess::Read(ret_addr)]
                    } else if value == MSG_ERROR_REPLY {
                        r.1 matches ArcMsgAction::Finish(
                            Err(ArcMsgProtocolError::MsgNotRecognized(c)),
                        ) && c == self.code
                    } else {
                        &&& r.0.phase == ArcMsgPhase::Poll
                        &&& r.1 matches ArcMsgAction::WaitAndPoll(a)
                        &&& a == msg_addr
                    },
                    ArcMsgPhase::ReadReturn { rc } => r.1 matches ArcMsgAction::Finish(
                        Ok(ArcMsgOk::Done { rc: c, arg }),
                    ) && c == rc && arg == value,
                }
            }),
    {
        let msg_addr = self.addrs.scratch_base + self.msg_reg * 4;
        let ret_addr = self.addrs.scratch_base + self.return_reg * 4;
        match self.phase {
            ArcMsgPhase::CheckAsleep => {
                if value % 0x10000 == 0xaa55 {
                    return (*self, ArcMsgAction::Finish(Err(ArcMsgProtocolError::ArcAsleep)));
                }
                let a0 = self.args.0 as u32;
                let a1 = self.args.1 as u32;
                let mut v = Vec::new();
                v.push(ArcAccess::Write(ret_addr, a0 + a1 * 0x10000));
                v.push(ArcAccess::Write(msg_addr, self.code as u32));
                v.push(ArcAccess::Read(self.addrs.arc_misc_cntl));
                let next = ArcMsgExchange { phase: ArcMsgPhase::TriggerInterrupt, ..*self };
                (next, ArcMsgAction::Access(v))
            },
            ArcMsgPhase::TriggerInterrupt => {
                if value / 0x10000 % 2 == 1 {
                    return (*self, ArcMsgAction::Finish(Err(ArcMsgProtocolError::FwIntFailed)));
                }
                let mut v = Vec::new();
                v.push(ArcAccess::Write(self.addrs.arc_misc_cntl, value + 0x10000));
                if !self.wait_for_done {
                    return (ArcMsgExchange { phase: ArcMsgPhase::Raised, ..*self }, ArcMsgAction::Access(v));
                }
                v.push(ArcAccess::Read(msg_addr));
                (ArcMsgExchange { phase: ArcMsgPhase::Poll, ..*self }, ArcMsgAction::Access(v))
            },
            ArcMsgPhase::Raised => (*self, ArcMsgAction::Finish(Ok(ArcMsgOk::OkNoWait))),
            ArcMsgPhase::Poll => {
                let c = self.code;
                if value % 0x10000 == (c % 0x100) as u32 {
                    let rc = value / 0x10000;
                    let mut v = Vec::new();
                    v.push(ArcAccess::Read(ret_addr));
                    (
                        ArcMsgExchange { phase: ArcMsgPhase::ReadReturn { rc }, ..*self },
                        ArcMsgAction::Access(v),
                    )
                } else if value == MSG_ERROR_REPLY {
                    (*self, ArcMsgAction::Finish(Err(ArcMsgProtocolError::MsgNotRecognized(c))))
                } else {
                    (*self, ArcMsgAction::WaitAndPoll(msg_addr))
                }
            },
            ArcMsgPhase::ReadReturn { rc } => {
                (*self, ArcMsgAction::Finish(Ok(ArcMsgOk::Done { rc, arg: value })))
            },
        }
    }
}

/// How a message is sent: the message, whether to wait for the reply and
/// for how long, which mailbox, and the register addresses where they
/// differ from the chip's own.
#[derive(Debug)]
pub struct ArcMsgOptions {
    pub msg: ArcMsg,
    pub wait_for_done: bool,
    pub timeout: std::time::Duration,
    pub use_second_mailbox: bool,
    pub addrs: Option<ArcMsgAddr>,
}

impl Default for ArcMsgOptions {
    /// A no-op message through the first mailbox, waiting up to a second
    /// for the reply.
    fn default() -> (r: Self)
        ensures
            r.msg == ArcMsg::Nop,
            r.wait_for_done,
            r.timeout == crate::status::secs_duration(1),
            !r.use_second_mailbox,
            r.addrs is None,
    {
        ArcMsgOptions {
            msg: ArcMsg::Nop,
            wait_for_done: true,
            timeout: crate::status::duration_from_secs(1),
            use_second_mailbox: false,
            addrs: None,
        }
    }
}

impl ArcMsgAddr {
    /// The ARC's mailbox registers, looked up in its address table: the
    /// first scratch register and the interrupt control register.
    pub fn try_from(data: Option<&MemorySlices>) -> (r: Result<ArcMsgAddr, AxiError>)
        requires
            !table_faults(data, "ARC_RESET.SCRATCH[0]"@),
            !table_faults(data, "ARC_RESET.ARC_MISC_CNTL"@),
        ensures
            match r {
                Ok(a) => (exists|d: AxiData| #[trigger] translate_spec(data, "ARC_RESET.SCRATCH[0]"@, Ok(d))
                    && d.addr == a.scratch_base) && (exists|d: AxiData| #[trigger] translate_spec(
                    data,
                    "ARC_RESET.ARC_MISC_CNTL"@,
                    Ok(d),
                ) && d.addr == a.arc_misc_cntl),
                Err(e) => translate_spec(data, "ARC_RESET.SCRATCH[0]"@, Err(e)) || (exists|d: AxiData|
                    #[trigger] translate_spec(data, "ARC_RESET.SCRATCH[0]"@, Ok(d))
                        && translate_spec(data, "ARC_RESET.ARC_MISC_CNTL"@, Err(e))),
            },
    {
        let scratch = match axi_translate(data, "ARC_RESET.SCRATCH[0]") {
            Ok(d) => d,
            Err(e) => {
                return Err(e);
            },
        };
        let misc = match axi_translate(data, "ARC_RESET.ARC_MISC_CNTL") {
            Ok(d) => d,
            Err(e) => {
                return Err(e);
            },
        };
        Ok(ArcMsgAddr { scratch_base: scratch.addr, arc_misc_cntl: misc.addr })
    }
}

} // verus!
