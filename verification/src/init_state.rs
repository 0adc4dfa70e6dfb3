//! The decisions of one round of chip initialization.  The caller performs
//! the register reads and firmware checks that a round needs; the functions
//! here take what they returned and move each component's status on.
use vstd::prelude::*;
use crate::arc_msg::{ArcMsgError, ArcMsgProtocolError, BtWrapper};
use crate::arc_ready::{arc_ready_text, ArcReadyError};
use crate::error::PlatformError;
use crate::kmd::Arch;
use crate::status::{
    any_error, any_waiting, ArcInitError, ArcPartiallyInitError, ChipInitResult, CommsStatus,
    ComponentStatusInfo, DramChannelStatus, DramInitError, DramPartiallyInitError,
    EthernetInitError, EthernetPartialInitError, InitOptions, InitStatus, WaitStatus,
    duration_from_secs, dram_channel_status_of, is_failure, secs_duration, some_error, some_waiting,
};
use crate::telemetry::Telemetry;

verus! {

/// Whether `s` has `n` instances, all waiting with no message yet.
pub open spec fn fresh_waiting<P, E>(s: Seq<WaitStatus<P, E>>, n: nat) -> bool {
    &&& s.len() == n
    &&& forall|i: int| 0 <= i < n ==> #[trigger] s[i] == WaitStatus::<P, E>::Waiting(None)
}

/// How many DRAM channels, ethernet ports and CPUs a chip of `arch` has
/// (an ARC it always has one of).
pub open spec fn component_counts(arch: Arch) -> (nat, nat, nat) {
    match arch {
        Arch::Grayskull => (4, 0, 0),
        Arch::Wormhole => (4, 16, 0),
        Arch::Blackhole => (8, 14, 4),
    }
}

/// How long the ARC, DRAM, ethernet and CPU of a chip of `arch` may take
/// to initialize, in seconds.
pub open spec fn component_timeouts(arch: Arch) -> (u64, u64, u64, u64) {
    match arch {
        Arch::Grayskull => (10, 10, 0, 0),
        Arch::Wormhole => (300, 300, 900, 0),
        Arch::Blackhole => (5, 300, 900, 60),
    }
}

/// Whether `s` is the status that initialization of a chip of `arch` starts from.
pub open spec fn is_start_status(s: InitStatus, arch: Arch) -> bool {
    let (dram, eth, cpu) = component_counts(arch);
    &&& s.comms_status is CanCommunicate
    &&& fresh_waiting(s.arc_status.wait_status@, 1)
    &&& fresh_waiting(s.dram_status.wait_status@, dram)
    &&& fresh_waiting(s.eth_status.wait_status@, eth)
    &&& fresh_waiting(s.cpu_status.wait_status@, cpu)
    &&& s.arc_status.status@ == "ARC"@
    &&& s.dram_status.status@ == "DRAM"@
    &&& s.eth_status.status@ == "ETH"@
    &&& s.cpu_status.status@ == "CPU"@
    &&& s.arc_status.timeout == secs_duration(component_timeouts(arch).0)
    &&& s.dram_status.timeout == secs_duration(component_timeouts(arch).1)
    &&& s.eth_status.timeout == secs_duration(component_timeouts(arch).2)
    &&& s.cpu_status.timeout == secs_duration(component_timeouts(arch).3)
    &&& !s.unknown_state
}

fn component<P, E>(name: &str, timeout_secs: u64, count: usize) -> (r: ComponentStatusInfo<P, E>)
    ensures
        fresh_waiting(r.wait_status@, count as nat),
        r.status@ == name@,
        r.timeout == secs_duration(timeout_secs),
{
    ComponentStatusInfo::init_waiting(name.to_owned(), duration_from_secs(timeout_secs), count)
}

/// The status initialization of a chip of `arch` starts from, with the
/// given options.  Every component present is waiting; the ARC times out
/// after 10 s (Grayskull), 300 s (Wormhole) or 5 s (Blackhole).
pub fn default_status(arch: Arch, init_options: InitOptions) -> (r: InitStatus)
    ensures
        is_start_status(r, arch),
        r.init_options == init_options,
{
    match arch {
        Arch::Grayskull => InitStatus {
            comms_status: CommsStatus::CanCommunicate,
            arc_status: component("ARC", 10, 1),
            dram_status: component("DRAM", 10, 4),
            eth_status: component("ETH", 0, 0),
            cpu_status: component("CPU", 0, 0),
            init_options,
            unknown_state: false,
        },
        Arch::Wormhole => InitStatus {
            comms_status: CommsStatus::CanCommunicate,
            arc_status: component("ARC", 300, 1),
            dram_status: component("DRAM", 300, 4),
            eth_status: component("ETH", 900, 16),
            cpu_status: component("CPU", 0, 0),
            init_options,
            unknown_state: false,
        },
        Arch::Blackhole => InitStatus {
            comms_status: CommsStatus::CanCommunicate,
            arc_status: component("ARC", 5, 1),
            dram_status: component("DRAM", 300, 8),
            eth_status: component("ETH", 900, 14),
            cpu_status: component("CPU", 60, 4),
            init_options,
            unknown_state: false,
        },
    }
}

/// The first step of every round: a chip whose state is still unknown is
/// given its starting status, keeping the caller's options.
pub fn begin_round(status: &mut InitStatus, arch: Arch)
    ensures
        old(status).unknown_state ==> is_start_status(*final(status), arch)
            && final(status).init_options == old(status).init_options,
        !old(status).unknown_state ==> *final(status) == *old(status),
{
    if status.unknown_state {
        let options = status.init_options;
        *status = default_status(arch, options);
    }
}

/// Whether an ARC that is not ready for this reason will stay so: waiting
/// longer does not help.
pub open spec fn arc_reason_final(reason: ArcReadyError) -> bool {
    reason is NoAccess || reason is BootError || reason is WatchdogTriggered || reason is Asleep
        || reason is OldPostCode
}

/// Whether `w` is waiting with the message `text`.
pub open spec fn waiting_with<P, E>(w: WaitStatus<P, E>, text: Seq<char>) -> bool {
    w matches WaitStatus::Waiting(Some(m)) && m@ == text
}

/// Whether `c` records a communication failure with the message `text`.
pub open spec fn comms_failed_with(c: CommsStatus, text: Seq<char>) -> bool {
    c matches CommsStatus::CommunicationError(m) && m@ == text
}

/// Whether `r` stops this chip's initialization with the message `text`.
pub open spec fn continue_with(r: Option<ChipInitResult>, text: Seq<char>) -> bool {
    r matches Some(ChipInitResult::ErrorContinue(m, _)) && m@ == text
}

/// Whether `r` aborts all initialization with the message `text`.
pub open spec fn abort_with(r: Option<ChipInitResult>, text: Seq<char>) -> bool {
    r matches Some(ChipInitResult::ErrorAbort(m, _)) && m@ == text
}

/// The message of an abort caused by error `e` of a kind that the round
/// does not expect.
pub open spec fn unexpected_text(e: PlatformError) -> Seq<char> {
    match e {
        PlatformError::WrongChipArch { .. } => "unexpected chip architecture"@,
        PlatformError::WrongChipArchs { .. } => "unexpected chip architecture"@,
        PlatformError::Generic(m, _) => m@,
        PlatformError::GenericError(m, _) => m@,
        _ => "unexpected error"@,
    }
}

/// The abort for an error that the round does not expect.
fn unexpected(e: PlatformError) -> (r: ChipInitResult)
    ensures
        abort_with(Some(r), unexpected_text(e)),
{
    match e {
        PlatformError::WrongChipArch { backtrace, .. } => ChipInitResult::ErrorAbort(
            "unexpected chip architecture".to_owned(),
            backtrace.0,
        ),
        PlatformError::WrongChipArchs { backtrace, .. } => ChipInitResult::ErrorAbort(
            "unexpected chip architecture".to_owned(),
            backtrace.0,
        ),
        PlatformError::Generic(m, backtrace) => ChipInitResult::ErrorAbort(m, backtrace.0),
        PlatformError::GenericError(m, backtrace) => ChipInitResult::ErrorAbort(m, backtrace.0),
        _ => ChipInitResult::ErrorAbort(
            "unexpected error".to_owned(),
            BtWrapper::capture().0,
        ),
    }
}

/// How an ARC instance `oe` and the comms status `oc` move on to `ne` and
/// `nc` in the ARC step, given the readiness check `check` (where it was
/// made), with result `r`.
pub open spec fn arc_entry_post(
    oe: WaitStatus<ArcPartiallyInitError, ArcInitError>,
    ne: WaitStatus<ArcPartiallyInitError, ArcInitError>,
    oc: CommsStatus,
    nc: CommsStatus,
    check: Option<Result<(), PlatformError>>,
    timed_out: bool,
    timeout: std::time::Duration,
    arch: Arch,
    r: Option<ChipInitResult>,
) -> bool {
    if !(oe is Waiting) {
        &&& nc == oc
        &&& r is None
        &&& if oe is JustFinished { ne is Done } else { ne == oe }
    } else {
        match check {
            None => ne == oe && nc == oc && r is None,
            Some(Ok(())) => ne is JustFinished && nc == oc && r is None,
            Some(Err(e)) => match e {
                PlatformError::ArcNotReady(reason, _) => r is None && nc == oc && if arc_reason_final(reason) || timed_out {
                    ne == WaitStatus::<ArcPartiallyInitError, ArcInitError>::Error(ArcInitError::WaitingForInit(reason))
                } else {
                    waiting_with(ne, arc_ready_text(reason))
                },
                PlatformError::UnsupportedFwVersion { version, required } => r is None && nc == oc
                    && ne == WaitStatus::<ArcPartiallyInitError, ArcInitError>::Error(
                    ArcInitError::FwVersionTooOld { version: Some(version), required },
                ),
                PlatformError::ArcMsgError(_) => continue_with(r, "ARC message failed"@) && nc == oc && ne == oe,
                PlatformError::EthernetTrainingNotComplete(_) => nc == oc && if arch == Arch::Wormhole {
                    r is None && if timed_out {
                        ne == WaitStatus::<ArcPartiallyInitError, ArcInitError>::Timeout(timeout)
                    } else {
                        waiting_with(ne, arc_eth_wait_text())
                    }
                } else {
                    continue_with(r, "Ethernet training not complete"@) && ne == oe
                },
                PlatformError::AxiError(_) => abort_with(r, "AXI Error"@) && comms_failed_with(nc, "AXI Error"@) && ne == oe,
                _ => abort_with(r, unexpected_text(e)) && nc == oc && ne == oe,
            },
        }
    }
}

/// One ARC instance in a round on a Grayskull or Wormhole chip.  `check` is
/// what the readiness check of the ARC firmware returned, where it was made
/// (it is owed for a waiting instance); `timed_out` says whether the ARC's
/// time is up.  A result stops the round.
pub fn arc_entry_step(
    entry: &mut WaitStatus<ArcPartiallyInitError, ArcInitError>,
    comms: &mut CommsStatus,
    check: Option<Result<(), PlatformError>>,
    timed_out: bool,
    timeout: std::time::Duration,
    arch: Arch,
) -> (r: Option<ChipInitResult>)
    ensures
        arc_entry_post(*old(entry), *final(entry), *old(comms), *final(comms), check, timed_out, timeout, arch, r),
{
    match entry {
        WaitStatus::Waiting(_) => {},
        WaitStatus::JustFinished => {
            *entry = WaitStatus::Done;
            return None;
        },
        _ => {
            return None;
        },
    }
    let check = match check {
        None => {
            return None;
        },
        Some(c) => c,
    };
    match check {
        Ok(()) => {
            *entry = WaitStatus::JustFinished;
            None
        },
        Err(PlatformError::ArcNotReady(reason, _)) => {
            let is_final = match reason {
                ArcReadyError::NoAccess | ArcReadyError::BootError
                | ArcReadyError::WatchdogTriggered | ArcReadyError::Asleep
                | ArcReadyError::OldPostCode(_) => true,
                _ => false,
            };
            if is_final || timed_out {
                *entry = WaitStatus::Error(ArcInitError::WaitingForInit(reason));
            } else {
                *entry = WaitStatus::Waiting(Some(reason.describe().to_owned()));
            }
            None
        },
        Err(PlatformError::UnsupportedFwVersion { version, required }) => {
            *entry = WaitStatus::Error(
                ArcInitError::FwVersionTooOld { version: Some(version), required },
            );
            None
        },
        Err(PlatformError::ArcMsgError(_)) => Some(
            ChipInitResult::ErrorContinue(
                "ARC message failed".to_owned(),
                BtWrapper::capture().0,
            ),
        ),
        Err(PlatformError::EthernetTrainingNotComplete(_)) => {
            if arch == Arch::Wormhole {
                if timed_out {
                    *entry = WaitStatus::Timeout(timeout);
                } else {
                    *entry = WaitStatus::Waiting(
                        Some(
                            "Waiting on arc/ethernet; this is unexpected but we'll assume that things will clear up if we wait.".to_owned(),
                        ),
                    );
                }
                None
            } else {
                Some(
                    ChipInitResult::ErrorContinue(
                        "Ethernet training not complete".to_owned(),
                        BtWrapper::capture().0,
                    ),
                )
            }
        },
        Err(PlatformError::AxiError(_)) => {
            *comms = CommsStatus::CommunicationError("AXI Error".to_owned());
            Some(ChipInitResult::ErrorAbort("AXI Error".to_owned(), BtWrapper::capture().0))
        },
        Err(e) => Some(unexpected(e)),
    }
}


/// The message of a waiting instance whose check could not be made because
/// the ARC or ethernet was briefly unavailable.
pub open spec fn arc_eth_wait_text() -> Seq<char> {
    "Waiting on arc/ethernet; this is unexpected but we'll assume that things will clear up if we wait."@
}

/// Whether every instance of `o` became the one at the same place in `n`
/// by `step`.
pub open spec fn each_step<P, E>(
    o: Seq<WaitStatus<P, E>>,
    n: Seq<WaitStatus<P, E>>,
    step: spec_fn(int, WaitStatus<P, E>, WaitStatus<P, E>) -> bool,
) -> bool {
    &&& n.len() == o.len()
    &&& forall|i: int| 0 <= i < o.len() ==> #[trigger] step(i, o[i], n[i])
}

/// A waiting instance takes the message `text`; the others stay as they are.
pub open spec fn mark_waiting<P, E>(o: WaitStatus<P, E>, n: WaitStatus<P, E>, text: Seq<char>) -> bool {
    if o is Waiting {
        waiting_with(n, text)
    } else {
        n == o
    }
}

/// A waiting instance times out, or else takes the message `text`; the
/// others stay as they are.
pub open spec fn wait_or_time_out<P, E>(
    o: WaitStatus<P, E>,
    n: WaitStatus<P, E>,
    timed_out: bool,
    timeout: std::time::Duration,
    text: Seq<char>,
) -> bool {
    if o is Waiting {
        if timed_out {
            n == WaitStatus::<P, E>::Timeout(timeout)
        } else {
            waiting_with(n, text)
        }
    } else {
        n == o
    }
}

/// Every instance becomes `v`.
pub open spec fn all_become<P, E>(n: Seq<WaitStatus<P, E>>, len: nat, v: WaitStatus<P, E>) -> bool {
    &&& n.len() == len
    &&& forall|i: int| 0 <= i < len ==> #[trigger] n[i] == v
}

fn mark_all_waiting<P, E>(v: &mut Vec<WaitStatus<P, E>>, text: &str)
    ensures
        each_step(old(v)@, final(v)@, |i: int, o: WaitStatus<P, E>, n: WaitStatus<P, E>| mark_waiting(o, n, text@)),
{
    let ghost o = v@;
    let mut i: usize = 0;
    while i < v.len()
        invariant
            i <= v@.len(),
            v@.len() == o.len(),
            forall|j: int| 0 <= j < i ==> mark_waiting(#[trigger] o[j], v@[j], text@),
            forall|j: int| i <= j < o.len() ==> #[trigger] v@[j] == o[j],
        decreases o.len() - i,
    {
        let waiting = match &v[i] {
            WaitStatus::Waiting(_) => true,
            _ => false,
        };
        if waiting {
            v.set(i, WaitStatus::Waiting(Some(text.to_owned())));
        }
        i = i + 1;
    }
}

fn wait_or_time_out_all<P, E>(v: &mut Vec<WaitStatus<P, E>>, timed_out: bool, timeout: std::time::Duration, text: &str)
    ensures
        each_step(old(v)@, final(v)@, |i: int, o: WaitStatus<P, E>, n: WaitStatus<P, E>| wait_or_time_out(o, n, timed_out, timeout, text@)),
{
    let ghost o = v@;
    let mut i: usize = 0;
    while i < v.len()
        invariant
            i <= v@.len(),
            v@.len() == o.len(),
            forall|j: int| 0 <= j < i ==> wait_or_time_out(#[trigger] o[j], v@[j], timed_out, timeout, text@),
            forall|j: int| i <= j < o.len() ==> #[trigger] v@[j] == o[j],
        decreases o.len() - i,
    {
        let waiting = match &v[i] {
            WaitStatus::Waiting(_) => true,
            _ => false,
        };
        if waiting {
            if timed_out {
                v.set(i, WaitStatus::Timeout(timeout));
            } else {
                v.set(i, WaitStatus::Waiting(Some(text.to_owned())));
            }
        }
        i = i + 1;
    }
}

fn set_all<P, E>(v: &mut Vec<WaitStatus<P, E>>, done: bool)
    ensures
        all_become(final(v)@, old(v)@.len(), if done { WaitStatus::<P, E>::Done } else { WaitStatus::<P, E>::NoCheck }),
{
    let ghost len = v@.len();
    let mut i: usize = 0;
    while i < v.len()
        invariant
            i <= v@.len(),
            v@.len() == len,
            forall|j: int| 0 <= j < i ==> #[trigger] v@[j] == if done { WaitStatus::<P, E>::Done } else { WaitStatus::<P, E>::NoCheck },
        decreases len - i,
    {
        if done {
            v.set(i, WaitStatus::Done);
        } else {
            v.set(i, WaitStatus::NoCheck);
        }
        i = i + 1;
    }
}

/// Whether the round must read the chip's telemetry for DRAM: the ARC has
/// finished without error and some DRAM channel is still waiting.
pub open spec fn dram_check_due(
    arc: Seq<WaitStatus<ArcPartiallyInitError, ArcInitError>>,
    dram: Seq<WaitStatus<DramPartiallyInitError, DramInitError>>,
) -> bool {
    !any_waiting(arc) && !any_error(arc) && any_waiting(dram)
}

/// Whether the DRAM step of a round needs the chip's telemetry.
pub fn needs_dram_check(status: &InitStatus) -> (r: bool)
    ensures
        r == dram_check_due(status.arc_status.wait_status@, status.dram_status.wait_status@),
{
    !status.arc_status.is_waiting() && !status.arc_status.has_error()
        && status.dram_status.is_waiting()
}

/// Nibble `i` of `word`, counting from the least significant.
pub open spec fn nibble(word: u32, i: nat) -> nat
    decreases i,
{
    if i == 0 {
        (word % 16) as nat
    } else {
        nibble(word / 16, (i - 1) as nat)
    }
}

/// The state of a DRAM channel with code `code`.  Wormhole firmware reports
/// the codes of `DramChannelStatus`; Grayskull firmware reports 1 for a
/// trained channel and 0 for a failed one.
pub open spec fn dram_channel(code: nat, arch: Arch) -> Option<DramChannelStatus> {
    if arch == Arch::Grayskull {
        if code == 1 {
            Some(DramChannelStatus::TrainingPass)
        } else if code == 0 {
            Some(DramChannelStatus::TrainingFail)
        } else {
            None
        }
    } else if code <= 7 {
        dram_channel_status_of(code as u8)
    } else {
        None
    }
}

/// The message of a DRAM channel that has not trained.
pub open spec fn channel_text(c: Option<DramChannelStatus>) -> Seq<char> {
    match c {
        Some(st) => crate::status::dram_channel_text(st),
        None => "Unknown"@,
    }
}

/// How a DRAM instance moves on, given what its channel reports.
pub open spec fn dram_channel_step(
    o: WaitStatus<DramPartiallyInitError, DramInitError>,
    n: WaitStatus<DramPartiallyInitError, DramInitError>,
    c: Option<DramChannelStatus>,
    timed_out: bool,
    timeout: std::time::Duration,
) -> bool {
    match o {
        WaitStatus::Waiting(_) => if c == Some(DramChannelStatus::TrainingPass) {
            n is Done
        } else if timed_out {
            match c {
                Some(st) => n == WaitStatus::<DramPartiallyInitError, DramInitError>::Error(
                    DramInitError::NotTrained(st),
                ),
                None => n == WaitStatus::<DramPartiallyInitError, DramInitError>::Timeout(timeout),
            }
        } else {
            waiting_with(n, channel_text(c))
        },
        WaitStatus::JustFinished => n is Done,
        _ => n == o,
    }
}

/// How the DRAM instance at place `i` moves on, given the DRAM status word
/// of the telemetry; the word describes six channels.
pub open spec fn dram_word_step(
    i: int,
    o: WaitStatus<DramPartiallyInitError, DramInitError>,
    n: WaitStatus<DramPartiallyInitError, DramInitError>,
    word: u32,
    arch: Arch,
    timed_out: bool,
    timeout: std::time::Duration,
) -> bool {
    if 0 <= i < 6 {
        dram_channel_step(o, n, dram_channel(nibble(word, i as nat), arch), timed_out, timeout)
    } else {
        n == o
    }
}

fn decode_channel(code: u32, arch: Arch) -> (r: Option<DramChannelStatus>)
    requires
        code < 16,
    ensures
        r == dram_channel(code as nat, arch),
{
    if arch == Arch::Grayskull {
        if code == 1 {
            Some(DramChannelStatus::TrainingPass)
        } else if code == 0 {
            Some(DramChannelStatus::TrainingFail)
        } else {
            None
        }
    } else {
        match DramChannelStatus::try_from(code as u8) {
            Ok(st) => Some(st),
            Err(()) => None,
        }
    }
}

fn dram_channel_update(
    entry: &mut WaitStatus<DramPartiallyInitError, DramInitError>,
    c: Option<DramChannelStatus>,
    timed_out: bool,
    timeout: std::time::Duration,
)
    ensures
        dram_channel_step(*old(entry), *final(entry), c, timed_out, timeout),
{
    match entry {
        WaitStatus::Waiting(_) => {
            if c == Some(DramChannelStatus::TrainingPass) {
                *entry = WaitStatus::Done;
            } else if timed_out {
                match c {
                    Some(st) => {
                        *entry = WaitStatus::Error(DramInitError::NotTrained(st));
                    },
                    None => {
                        *entry = WaitStatus::Timeout(timeout);
                    },
                }
            } else {
                let text = match c {
                    Some(st) => st.describe(),
                    None => "Unknown",
                };
                *entry = WaitStatus::Waiting(Some(text.to_owned()));
            }
        },
        WaitStatus::JustFinished => {
            *entry = WaitStatus::Done;
        },
        _ => {},
    }
}

/// Move every DRAM instance on by the DRAM status word of the telemetry.
pub fn apply_dram_word(
    dram: &mut Vec<WaitStatus<DramPartiallyInitError, DramInitError>>,
    word: u32,
    arch: Arch,
    timed_out: bool,
    timeout: std::time::Duration,
)
    ensures
        each_step(old(dram)@, final(dram)@, |i: int, o: WaitStatus<DramPartiallyInitError, DramInitError>, n: WaitStatus<DramPartiallyInitError, DramInitError>| dram_word_step(i, o, n, word, arch, timed_out, timeout)),
{
    let ghost o = dram@;
    let mut w: u32 = word;
    let mut i: usize = 0;
    while i < dram.len()
        invariant
            i <= dram@.len(),
            dram@.len() == o.len(),
            i < 6 ==> forall|k: nat| #[trigger] nibble(w, k) == nibble(word, (k + i) as nat),
            forall|j: int| 0 <= j < i ==> dram_word_step(j, #[trigger] o[j], dram@[j], word, arch, timed_out, timeout),
            forall|j: int| i <= j < o.len() ==> #[trigger] dram@[j] == o[j],
        decreases o.len() - i,
    {
        if i < 6 {
            let code: u32 = w % 16;
            assert(nibble(w, 0) == nibble(word, i as nat));
            let c = decode_channel(code, arch);
            dram_channel_update(&mut dram[i], c, timed_out, timeout);
            proof {
                assert forall|k: nat| #[trigger] nibble(w / 16, k) == nibble(word, (k + i + 1) as nat) by {
                    assert(nibble(w, k + 1) == nibble(w / 16, k));
                }
            }
            w = w / 16;
        }
        i = i + 1;
    }
}

/// The message of an abort because the telemetry could not be read over AXI.
pub open spec fn telemetry_axi_text() -> Seq<char> {
    "Telemetry AXI error; we expected to have communication, but lost it."@
}

/// The firmware version from which a Grayskull ARC knows the telemetry message.
pub const GRAYSKULL_MIN_FW_VERSION: u32 = 0x0140000;

/// The first instance becomes `v`, where there is one; the others stay.
pub open spec fn first_becomes<P, E>(o: Seq<WaitStatus<P, E>>, n: Seq<WaitStatus<P, E>>, v: WaitStatus<P, E>) -> bool {
    if o.len() > 0 {
        n == o.update(0, v)
    } else {
        n == o
    }
}

fn set_first<P, E>(v: &mut Vec<WaitStatus<P, E>>, value: WaitStatus<P, E>)
    ensures
        first_becomes(old(v)@, final(v)@, value),
{
    if v.len() > 0 {
        v.set(0, value);
    }
}

/// How the DRAM step moves the ARC instances `oa` and DRAM channels `od`
/// on to `na` and `nd`, given the telemetry read (where it was read), with
/// result `r`.
pub open spec fn dram_round_post(
    oa: Seq<WaitStatus<ArcPartiallyInitError, ArcInitError>>,
    na: Seq<WaitStatus<ArcPartiallyInitError, ArcInitError>>,
    od: Seq<WaitStatus<DramPartiallyInitError, DramInitError>>,
    nd: Seq<WaitStatus<DramPartiallyInitError, DramInitError>>,
    dram_timeout: std::time::Duration,
    telemetry: Option<Result<Telemetry, PlatformError>>,
    timed_out: bool,
    arch: Arch,
    r: Option<ChipInitResult>,
) -> bool {
    &&& (any_waiting(oa) ==> {
        &&& na == oa
        &&& r is None
        &&& each_step(od, nd, |i: int, o: WaitStatus<DramPartiallyInitError, DramInitError>, n: WaitStatus<DramPartiallyInitError, DramInitError>| mark_waiting(o, n, "Waiting for ARC"@))
    })
    &&& (!any_waiting(oa) && any_error(oa) ==> {
        &&& na == oa
        &&& r is None
        &&& all_become(nd, od.len(), WaitStatus::<DramPartiallyInitError, DramInitError>::NoCheck)
    })
    &&& (!any_waiting(oa) && !any_error(oa) && !any_waiting(od) ==> {
        &&& na == oa
        &&& nd == od
        &&& r is None
    })
    &&& (dram_check_due(oa, od) ==> match telemetry {
        None => na == oa && nd == od && r is None,
        Some(Ok(t)) => na == oa && r is None && each_step(od, nd, |i: int, o: WaitStatus<DramPartiallyInitError, DramInitError>, n: WaitStatus<DramPartiallyInitError, DramInitError>| dram_word_step(i, o, n, t.smbus_tx_ddr_status, arch, timed_out, dram_timeout)),
        Some(Err(e)) => match e {
            PlatformError::ArcNotReady(..) => na == oa && r is None && each_step(od, nd, |i: int, o: WaitStatus<DramPartiallyInitError, DramInitError>, n: WaitStatus<DramPartiallyInitError, DramInitError>| wait_or_time_out(o, n, timed_out, dram_timeout, arc_eth_wait_text())),
            PlatformError::EthernetTrainingNotComplete(..) => na == oa && r is None && each_step(od, nd, |i: int, o: WaitStatus<DramPartiallyInitError, DramInitError>, n: WaitStatus<DramPartiallyInitError, DramInitError>| wait_or_time_out(o, n, timed_out, dram_timeout, arc_eth_wait_text())),
            PlatformError::UnsupportedFwVersion { version, required } => nd == od && r is None && first_becomes(oa, na, WaitStatus::<ArcPartiallyInitError, ArcInitError>::Error(ArcInitError::FwVersionTooOld { version: Some(version), required })),
            PlatformError::ArcMsgError(m) => nd == od && if arch == Arch::Grayskull {
                match m {
                    ArcMsgError::ProtocolError { source: ArcMsgProtocolError::MsgNotRecognized(_), .. } => r is None && first_becomes(oa, na, WaitStatus::<ArcPartiallyInitError, ArcInitError>::Error(ArcInitError::FwVersionTooOld { version: None, required: GRAYSKULL_MIN_FW_VERSION })),
                    ArcMsgError::ProtocolError { .. } => r is None && first_becomes(oa, na, WaitStatus::<ArcPartiallyInitError, ArcInitError>::Error(ArcInitError::NoAccess)),
                    ArcMsgError::AxiError(_) => abort_with(r, telemetry_axi_text()) && na == oa,
                }
            } else {
                continue_with(r, "ARC message failed"@) && na == oa
            },
            PlatformError::AxiError(_) => abort_with(r, telemetry_axi_text()) && na == oa && nd == od,
            _ => abort_with(r, unexpected_text(e)) && na == oa && nd == od,
        },
    })
}

/// The DRAM step of a round on a Grayskull or Wormhole chip, after the ARC
/// step.  `telemetry` is what reading the chip's telemetry returned, where
/// it was read (it is owed when `needs_dram_check` holds); `timed_out` says
/// whether DRAM's time is up.  A result stops the round.
pub fn dram_round(
    arc: &mut Vec<WaitStatus<ArcPartiallyInitError, ArcInitError>>,
    dram: &mut Vec<WaitStatus<DramPartiallyInitError, DramInitError>>,
    dram_timeout: std::time::Duration,
    telemetry: Option<Result<Telemetry, PlatformError>>,
    timed_out: bool,
    arch: Arch,
) -> (r: Option<ChipInitResult>)
    ensures
        dram_round_post(old(arc)@, final(arc)@, old(dram)@, final(dram)@, dram_timeout, telemetry, timed_out, arch, r),
{
    if some_waiting(arc) {
        mark_all_waiting(dram, "Waiting for ARC");
        return None;
    }
    if some_error(arc) {
        set_all(dram, false);
        return None;
    }
    if !some_waiting(dram) {
        return None;
    }
    let telemetry = match telemetry {
        None => {
            return None;
        },
        Some(t) => t,
    };
    match telemetry {
        Ok(t) => {
            apply_dram_word(dram, t.smbus_tx_ddr_status, arch, timed_out, dram_timeout);
            None
        },
        Err(PlatformError::ArcNotReady(..)) | Err(PlatformError::EthernetTrainingNotComplete(..)) => {
            wait_or_time_out_all(dram, timed_out, dram_timeout, "Waiting on arc/ethernet; this is unexpected but we'll assume that things will clear up if we wait.");
            None
        },
        Err(PlatformError::UnsupportedFwVersion { version, required }) => {
            set_first(arc, WaitStatus::Error(ArcInitError::FwVersionTooOld { version: Some(version), required }));
            None
        },
        Err(PlatformError::ArcMsgError(m)) => {
            if arch == Arch::Grayskull {
                match m {
                    ArcMsgError::ProtocolError { source: ArcMsgProtocolError::MsgNotRecognized(_), .. } => {
                        set_first(arc, WaitStatus::Error(ArcInitError::FwVersionTooOld { version: None, required: GRAYSKULL_MIN_FW_VERSION }));
                        None
                    },
                    ArcMsgError::ProtocolError { .. } => {
                        set_first(arc, WaitStatus::Error(ArcInitError::NoAccess));
                        None
                    },
                    ArcMsgError::AxiError(_) => Some(ChipInitResult::ErrorAbort("Telemetry AXI error; we expected to have communication, but lost it.".to_owned(), BtWrapper::capture().0)),
                }
            } else {
                Some(ChipInitResult::ErrorContinue("ARC message failed".to_owned(), BtWrapper::capture().0))
            }
        },
        Err(PlatformError::AxiError(_)) => Some(ChipInitResult::ErrorAbort("Telemetry AXI error; we expected to have communication, but lost it.".to_owned(), BtWrapper::capture().0)),
        Err(e) => Some(unexpected(e)),
    }
}

/// Whether the round must read the ethernet training state: the ARC has
/// finished without error, the caller allows talking on the NOC
/// (`noc_safe`) and some port is waiting.
pub open spec fn eth_check_due(
    arc: Seq<WaitStatus<ArcPartiallyInitError, ArcInitError>>,
    eth: Seq<WaitStatus<EthernetPartialInitError, EthernetInitError>>,
    noc_safe: bool,
) -> bool {
    !any_waiting(arc) && !any_error(arc) && noc_safe && any_waiting(eth)
}

/// Whether the ethernet step of a round needs the training state of the ports.
pub fn needs_eth_check(status: &InitStatus) -> (r: bool)
    ensures
        r == eth_check_due(
            status.arc_status.wait_status@,
            status.eth_status.wait_status@,
            status.init_options.noc_safe,
        ),
{
    !some_waiting(&status.arc_status.wait_status) && !some_error(&status.arc_status.wait_status)
        && status.init_options.noc_safe && some_waiting(&status.eth_status.wait_status)
}

/// How the ethernet instance at place `i` moves on, given which ports have
/// trained and whether the ethernet firmware version is well formed.
pub open spec fn eth_port_step(
    i: int,
    o: WaitStatus<EthernetPartialInitError, EthernetInitError>,
    n: WaitStatus<EthernetPartialInitError, EthernetInitError>,
    trained: Seq<bool>,
    fw_ok: bool,
    timed_out: bool,
    timeout: std::time::Duration,
) -> bool {
    if 0 <= i < trained.len() {
        match o {
            WaitStatus::Waiting(_) => if trained[i] {
                if fw_ok {
                    n is JustFinished
                } else {
                    n == WaitStatus::<EthernetPartialInitError, EthernetInitError>::NotInitialized(
                        EthernetPartialInitError::FwOverwritten,
                    )
                }
            } else if timed_out {
                n == WaitStatus::<EthernetPartialInitError, EthernetInitError>::Timeout(timeout)
            } else {
                waiting_with(n, "Waiting for initial training to complete"@)
            },
            WaitStatus::JustFinished => n is Done,
            _ => n == o,
        }
    } else {
        n == o
    }
}

fn apply_training(
    eth: &mut Vec<WaitStatus<EthernetPartialInitError, EthernetInitError>>,
    trained: &Vec<bool>,
    fw_ok: bool,
    timed_out: bool,
    timeout: std::time::Duration,
)
    ensures
        each_step(old(eth)@, final(eth)@, |i: int, o: WaitStatus<EthernetPartialInitError, EthernetInitError>, n: WaitStatus<EthernetPartialInitError, EthernetInitError>| eth_port_step(i, o, n, trained@, fw_ok, timed_out, timeout)),
{
    let ghost o = eth@;
    let mut i: usize = 0;
    while i < eth.len()
        invariant
            i <= eth@.len(),
            eth@.len() == o.len(),
            forall|j: int| 0 <= j < i ==> eth_port_step(j, #[trigger] o[j], eth@[j], trained@, fw_ok, timed_out, timeout),
            forall|j: int| i <= j < o.len() ==> #[trigger] eth@[j] == o[j],
        decreases o.len() - i,
    {
        if i < trained.len() {
            let waiting = match &eth[i] {
                WaitStatus::Waiting(_) => true,
                _ => false,
            };
            let finished = match &eth[i] {
                WaitStatus::JustFinished => true,
                _ => false,
            };
            if waiting {
                if trained[i] {
                    if fw_ok {
                        eth.set(i, WaitStatus::JustFinished);
                    } else {
                        eth.set(i, WaitStatus::NotInitialized(EthernetPartialInitError::FwOverwritten));
                    }
                } else if timed_out {
                    eth.set(i, WaitStatus::Timeout(timeout));
                } else {
                    eth.set(i, WaitStatus::Waiting(Some("Waiting for initial training to complete".to_owned())));
                }
            } else if finished {
                eth.set(i, WaitStatus::Done);
            }
        }
        i = i + 1;
    }
}

/// How the ethernet step moves the ports `oe` on to `ne`, given the ARC
/// instances `arc` and the training state read (where it was read), with
/// result `r`.
pub open spec fn eth_round_post(
    arc: Seq<WaitStatus<ArcPartiallyInitError, ArcInitError>>,
    oe: Seq<WaitStatus<EthernetPartialInitError, EthernetInitError>>,
    ne: Seq<WaitStatus<EthernetPartialInitError, EthernetInitError>>,
    eth_timeout: std::time::Duration,
    noc_safe: bool,
    training: Option<Result<Vec<bool>, PlatformError>>,
    fw_ok: bool,
    timed_out: bool,
    r: Option<ChipInitResult>,
) -> bool {
    &&& (any_waiting(arc) ==> r is None && each_step(oe, ne, |i: int, o: WaitStatus<EthernetPartialInitError, EthernetInitError>, n: WaitStatus<EthernetPartialInitError, EthernetInitError>| mark_waiting(o, n, "Waiting for ARC"@)))
    &&& (!any_waiting(arc) && any_error(arc) ==> r is None && all_become(ne, oe.len(), WaitStatus::<EthernetPartialInitError, EthernetInitError>::NoCheck))
    &&& (!any_waiting(arc) && !any_error(arc) && !noc_safe ==> r is None && all_become(ne, oe.len(), WaitStatus::<EthernetPartialInitError, EthernetInitError>::Done))
    &&& (!any_waiting(arc) && !any_error(arc) && noc_safe && !any_waiting(oe) ==> r is None && ne == oe)
    &&& (eth_check_due(arc, oe, noc_safe) ==> match training {
        None => r is None && ne == oe,
        Some(Ok(trained)) => r is None && each_step(oe, ne, |i: int, o: WaitStatus<EthernetPartialInitError, EthernetInitError>, n: WaitStatus<EthernetPartialInitError, EthernetInitError>| eth_port_step(i, o, n, trained@, fw_ok, timed_out, eth_timeout)),
        Some(Err(e)) => ne == oe && match e {
            PlatformError::ArcMsgError(_) => continue_with(r, "Ethernet training check failed"@),
            PlatformError::ArcNotReady(..) => continue_with(r, "Ethernet training check failed"@),
            PlatformError::EthernetTrainingNotComplete(_) => continue_with(r, "Ethernet training check failed"@),
            PlatformError::AxiError(_) => abort_with(r, "AXI Error"@),
            _ => abort_with(r, unexpected_text(e)),
        },
    })
}

/// The ethernet step of a round on a Wormhole chip, after the ARC step.
/// `training` is what reading the training state of the ports returned,
/// where it was read (it is owed when `needs_eth_check` holds); `fw_ok` says
/// whether the ethernet firmware version is well formed; `timed_out` whether
/// ethernet's time is up.  A result stops the round.
pub fn eth_round(
    arc: &Vec<WaitStatus<ArcPartiallyInitError, ArcInitError>>,
    eth: &mut Vec<WaitStatus<EthernetPartialInitError, EthernetInitError>>,
    eth_timeout: std::time::Duration,
    noc_safe: bool,
    training: Option<Result<Vec<bool>, PlatformError>>,
    fw_ok: bool,
    timed_out: bool,
) -> (r: Option<ChipInitResult>)
    ensures
        eth_round_post(arc@, old(eth)@, final(eth)@, eth_timeout, noc_safe, training, fw_ok, timed_out, r),
{
    if some_waiting(arc) {
        mark_all_waiting(eth, "Waiting for ARC");
        return None;
    }
    if some_error(arc) {
        set_all(eth, false);
        return None;
    }
    if !noc_safe {
        set_all(eth, true);
        return None;
    }
    if !some_waiting(eth) {
        return None;
    }
    match training {
        None => None,
        Some(Ok(trained)) => {
            apply_training(eth, &trained, fw_ok, timed_out, eth_timeout);
            None
        },
        Some(Err(PlatformError::ArcMsgError(_))) | Some(Err(PlatformError::ArcNotReady(..))) | Some(Err(PlatformError::EthernetTrainingNotComplete(_))) => Some(ChipInitResult::ErrorContinue("Ethernet training check failed".to_owned(), BtWrapper::capture().0)),
        Some(Err(PlatformError::AxiError(_))) => Some(ChipInitResult::ErrorAbort("AXI Error".to_owned(), BtWrapper::capture().0)),
        Some(Err(e)) => Some(unexpected(e)),
    }
}

/// How a Blackhole ARC instance moves on, given whether the firmware can
/// take messages.
pub open spec fn blackhole_arc_step(
    o: WaitStatus<ArcPartiallyInitError, ArcInitError>,
    n: WaitStatus<ArcPartiallyInitError, ArcInitError>,
    arc_safe: bool,
    timed_out: bool,
) -> bool {
    match o {
        WaitStatus::Waiting(_) => if arc_safe {
            n is JustFinished
        } else if timed_out {
            n == WaitStatus::<ArcPartiallyInitError, ArcInitError>::Error(
                ArcInitError::WaitingForInit(ArcReadyError::BootIncomplete),
            )
        } else {
            waiting_with(n, "BH FW boot not complete"@)
        },
        WaitStatus::JustFinished => n is Done,
        _ => n == o,
    }
}

/// How a Blackhole round moves the comms status and the instances of each
/// component on, given the scratch read and whether the firmware can take
/// messages, with result `r`.
pub open spec fn blackhole_round_post(
    oc: CommsStatus,
    nc: CommsStatus,
    oa: Seq<WaitStatus<ArcPartiallyInitError, ArcInitError>>,
    na: Seq<WaitStatus<ArcPartiallyInitError, ArcInitError>>,
    od: Seq<WaitStatus<DramPartiallyInitError, DramInitError>>,
    nd: Seq<WaitStatus<DramPartiallyInitError, DramInitError>>,
    oe: Seq<WaitStatus<EthernetPartialInitError, EthernetInitError>>,
    ne: Seq<WaitStatus<EthernetPartialInitError, EthernetInitError>>,
    ocpu: Seq<WaitStatus<crate::status::CpuPartiallyInitError, crate::status::CpuInitError>>,
    ncpu: Seq<WaitStatus<crate::status::CpuPartiallyInitError, crate::status::CpuInitError>>,
    scratch_read: Result<u32, String>,
    arc_safe: bool,
    timed_out: bool,
    r: ChipInitResult,
) -> bool {
    &&& (r is NoError)
    &&& (match scratch_read {
        Ok(_) => nc is CanCommunicate,
        Err(m) => nc == CommsStatus::CommunicationError(m),
    })
    &&& (each_step(oa, na, |i: int, o: WaitStatus<ArcPartiallyInitError, ArcInitError>, n: WaitStatus<ArcPartiallyInitError, ArcInitError>| blackhole_arc_step(o, n, arc_safe, timed_out)))
    &&& (all_become(nd, od.len(), WaitStatus::<DramPartiallyInitError, DramInitError>::Done))
    &&& (all_become(ne, oe.len(), WaitStatus::<EthernetPartialInitError, EthernetInitError>::Done))
    &&& (all_become(ncpu, ocpu.len(), WaitStatus::<crate::status::CpuPartiallyInitError, crate::status::CpuInitError>::Done))
}

/// A round on a Blackhole chip.  `scratch_read` is what reading a scratch
/// register returned (the error by its message); `arc_safe` whether the
/// firmware can take messages; `timed_out` whether the ARC's time is up.
/// DRAM, ethernet and CPU are taken as initialized.
pub fn blackhole_round(
    comms: &mut CommsStatus,
    arc: &mut Vec<WaitStatus<ArcPartiallyInitError, ArcInitError>>,
    dram: &mut Vec<WaitStatus<DramPartiallyInitError, DramInitError>>,
    eth: &mut Vec<WaitStatus<EthernetPartialInitError, EthernetInitError>>,
    cpu: &mut Vec<WaitStatus<crate::status::CpuPartiallyInitError, crate::status::CpuInitError>>,
    scratch_read: Result<u32, String>,
    arc_safe: bool,
    timed_out: bool,
) -> (r: ChipInitResult)
    ensures
        blackhole_round_post(*old(comms), *final(comms), old(arc)@, final(arc)@, old(dram)@, final(dram)@, old(eth)@, final(eth)@, old(cpu)@, final(cpu)@, scratch_read, arc_safe, timed_out, r),
{
    *comms = match scratch_read {
        Ok(_) => CommsStatus::CanCommunicate,
        Err(m) => CommsStatus::CommunicationError(m),
    };
    let ghost o = arc@;
    let mut i: usize = 0;
    while i < arc.len()
        invariant
            i <= arc@.len(),
            arc@.len() == o.len(),
            forall|j: int| 0 <= j < i ==> blackhole_arc_step(#[trigger] o[j], arc@[j], arc_safe, timed_out),
            forall|j: int| i <= j < o.len() ==> #[trigger] arc@[j] == o[j],
        decreases o.len() - i,
    {
        let waiting = match &arc[i] {
            WaitStatus::Waiting(_) => true,
            _ => false,
        };
        let finished = match &arc[i] {
            WaitStatus::JustFinished => true,
            _ => false,
        };
        if waiting {
            if arc_safe {
                arc.set(i, WaitStatus::JustFinished);
            } else if timed_out {
                arc.set(i, WaitStatus::Error(ArcInitError::WaitingForInit(ArcReadyError::BootIncomplete)));
            } else {
                arc.set(i, WaitStatus::Waiting(Some("BH FW boot not complete".to_owned())));
            }
        } else if finished {
            arc.set(i, WaitStatus::Done);
        }
        i = i + 1;
    }
    set_all(dram, true);
    set_all(eth, true);
    set_all(cpu, true);
    ChipInitResult::NoError
}

/// Why the caller of chip initialization is being told about a chip.
#[derive(Debug)]
pub enum CallReason<'a> {
    /// A chip was found.
    NewChip,
    /// The named component is still initializing.
    InitWait(&'a str, &'a InitStatus),
    /// Initialization of the chip is over.
    ChipInitCompleted(&'a InitStatus),
}

/// What waiting for a chip to initialize does after a round.
#[derive(Clone, Copy, Debug)]
pub enum RoundDecision {
    /// Run another round; the named component is the first still waiting.
    KeepWaiting(&'static str),
    /// Stop and hand the status to the caller.
    Completed,
    /// Stop with the error "Chip initialization failed".
    Failed,
}

/// The name of the first component, in the order ARC, DRAM, ethernet, CPU,
/// that is still waiting, if one is.
pub open spec fn first_waiting(s: InitStatus) -> Option<Seq<char>> {
    if any_waiting(s.arc_status.wait_status@) {
        Some("ARC"@)
    } else if any_waiting(s.dram_status.wait_status@) {
        Some("DRAM"@)
    } else if any_waiting(s.eth_status.wait_status@) {
        Some("ETH"@)
    } else if any_waiting(s.cpu_status.wait_status@) {
        Some("CPU"@)
    } else {
        None
    }
}

/// What to do after a round that gave `result`: an abort fails; a chip
/// that cannot go on fails unless failures are allowed, in which case its
/// status is handed back; otherwise the wait goes on while a component is
/// waiting.
pub fn after_round(result: &ChipInitResult, allow_failure: bool, status: &InitStatus) -> (r: RoundDecision)
    ensures
        *result is ErrorAbort ==> r is Failed,
        *result is ErrorContinue ==> if allow_failure { r is Completed } else { r is Failed },
        *result is NoError ==> match first_waiting(*status) {
            Some(name) => r matches RoundDecision::KeepWaiting(n) && n@ == name,
            None => r is Completed,
        },
{
    match result {
        ChipInitResult::ErrorAbort(..) => RoundDecision::Failed,
        ChipInitResult::ErrorContinue(..) => if allow_failure {
            RoundDecision::Completed
        } else {
            RoundDecision::Failed
        },
        ChipInitResult::NoError => {
            if status.arc_status.is_waiting() {
                RoundDecision::KeepWaiting("ARC")
            } else if status.dram_status.is_waiting() {
                RoundDecision::KeepWaiting("DRAM")
            } else if status.eth_status.is_waiting() {
                RoundDecision::KeepWaiting("ETH")
            } else if status.cpu_status.is_waiting() {
                RoundDecision::KeepWaiting("CPU")
            } else {
                RoundDecision::Completed
            }
        },
    }
}

/// Whether an instance has settled: done, failed, timed out, only partly
/// initialized, or not checked.
pub open spec fn settled<P, E>(w: WaitStatus<P, E>) -> bool {
    w is Done || w is Error || w is Timeout || w is NotInitialized || w is NoCheck
}

/// A round leaves a settled instance as it is: in the ARC step of every
/// generation, in the DRAM step when the telemetry was read, in the
/// ethernet step when the training state was read, and while other
/// components wait for the ARC or time out.
pub proof fn lemma_settled_instances_keep_state(
    dram_i: int,
    dram_o: WaitStatus<DramPartiallyInitError, DramInitError>,
    dram_n: WaitStatus<DramPartiallyInitError, DramInitError>,
    word: u32,
    arch: Arch,
    eth_i: int,
    eth_o: WaitStatus<EthernetPartialInitError, EthernetInitError>,
    eth_n: WaitStatus<EthernetPartialInitError, EthernetInitError>,
    trained: Seq<bool>,
    fw_ok: bool,
    arc_o: WaitStatus<ArcPartiallyInitError, ArcInitError>,
    arc_n: WaitStatus<ArcPartiallyInitError, ArcInitError>,
    arc_safe: bool,
    timed_out: bool,
    timeout: std::time::Duration,
    text: Seq<char>,
)
    ensures
        settled(dram_o) && dram_word_step(dram_i, dram_o, dram_n, word, arch, timed_out, timeout)
            ==> dram_n == dram_o,
        settled(eth_o) && eth_port_step(eth_i, eth_o, eth_n, trained, fw_ok, timed_out, timeout)
            ==> eth_n == eth_o,
        settled(arc_o) && blackhole_arc_step(arc_o, arc_n, arc_safe, timed_out) ==> arc_n == arc_o,
        settled(dram_o) && mark_waiting(dram_o, dram_n, text) ==> dram_n == dram_o,
        settled(dram_o) && wait_or_time_out(dram_o, dram_n, timed_out, timeout, text) ==> dram_n
            == dram_o,
        settled(eth_o) && mark_waiting(eth_o, eth_n, text) ==> eth_n == eth_o,
{
}

/// The checks a round of initialization makes on a chip, by register reads
/// and firmware messages; each chip type provides them.
pub trait InitChecks {
    /// Whether the ARC firmware can take a message (Grayskull, Wormhole).
    fn check_arc_msg_safe(&self) -> Result<(), PlatformError>;
    /// The chip's telemetry (Grayskull, Wormhole).
    fn get_telemetry(&self) -> Result<Telemetry, PlatformError>;
    /// Which ethernet ports have finished training (Wormhole).
    fn check_ethernet_training_complete(&self) -> Result<Vec<bool>, PlatformError>;
    /// Whether the ethernet firmware version is well formed (Wormhole).
    fn check_ethernet_fw_version(&self) -> bool;
    /// A read of a scratch register, the error by its message (Blackhole).
    fn read_scratch(&self) -> Result<u32, String>;
    /// The Blackhole firmware's boot status word, where it can be read.
    fn read_boot_status(&self) -> Option<u32>;
    /// Whether the time a component was given to initialize is up.
    fn timed_out<P, E>(&self, component: &ComponentStatusInfo<P, E>) -> bool;
}

/// The status a round works from: the starting status of a chip of `arch`
/// (with the caller's options) where the state was unknown, else the
/// status as it was.
pub open spec fn round_base(o: InitStatus, b: InitStatus, arch: Arch) -> bool {
    if o.unknown_state {
        is_start_status(b, arch) && b.init_options == o.init_options
    } else {
        b == o
    }
}

/// Every instance of `o` that was waiting is still waiting in `n`.
pub open spec fn keeps_waiting<P, E>(o: Seq<WaitStatus<P, E>>, n: Seq<WaitStatus<P, E>>) -> bool {
    &&& n.len() == o.len()
    &&& forall|i: int| 0 <= i < o.len() && (#[trigger] o[i]) is Waiting ==> n[i] is Waiting
}

/// What a round on a Grayskull or Wormhole chip keeps, from the status `b`
/// it worked from to the status `f` it left, with result `r`: the CPU and
/// the options are untouched, and so is ethernet on Grayskull; while the
/// ARC is still waiting, no waiting DRAM channel or ethernet port has moved
/// on; and once the ARC has failed without any instance still waiting,
/// every DRAM channel (and every Wormhole ethernet port) is no longer
/// checked, and the round goes on without error.
pub open spec fn round_law(b: InitStatus, f: InitStatus, arch: Arch, r: ChipInitResult) -> bool {
    &&& f.cpu_status == b.cpu_status
    &&& f.init_options == b.init_options
    &&& arch == Arch::Grayskull ==> f.eth_status == b.eth_status
    &&& any_waiting(f.arc_status.wait_status@) ==> {
        &&& keeps_waiting(b.dram_status.wait_status@, f.dram_status.wait_status@)
        &&& keeps_waiting(b.eth_status.wait_status@, f.eth_status.wait_status@)
    }
    &&& !any_waiting(b.arc_status.wait_status@) && any_error(b.arc_status.wait_status@) ==> {
        &&& r is NoError
        &&& all_become(f.dram_status.wait_status@, b.dram_status.wait_status@.len(), WaitStatus::<DramPartiallyInitError, DramInitError>::NoCheck)
        &&& arch == Arch::Wormhole ==> all_become(f.eth_status.wait_status@, b.eth_status.wait_status@.len(), WaitStatus::<EthernetPartialInitError, EthernetInitError>::NoCheck)
    }
}

/// How an ARC instance that was not waiting comes out of the ARC step.
pub open spec fn idle_arc_step(o: WaitStatus<ArcPartiallyInitError, ArcInitError>, n: WaitStatus<ArcPartiallyInitError, ArcInitError>) -> bool {
    if o is JustFinished {
        n is Done
    } else {
        n == o
    }
}

fn some_true(v: &Vec<bool>) -> (r: bool)
    ensures
        r == exists|i: int| 0 <= i < v@.len() && v@[i],
{
    let mut i: usize = 0;
    while i < v.len()
        invariant
            i <= v@.len(),
            forall|j: int| 0 <= j < i ==> !v@[j],
        decreases v@.len() - i,
    {
        if v[i] {
            return true;
        }
        i = i + 1;
    }
    false
}

proof fn lemma_keeps_waiting_refl<P, E>(s: Seq<WaitStatus<P, E>>)
    ensures
        keeps_waiting(s, s),
{
}

proof fn lemma_mark_keeps_waiting<P, E>(o: Seq<WaitStatus<P, E>>, n: Seq<WaitStatus<P, E>>, text: Seq<char>)
    requires
        each_step(o, n, |i: int, a: WaitStatus<P, E>, b: WaitStatus<P, E>| mark_waiting(a, b, text)),
    ensures
        keeps_waiting(o, n),
{
    assert forall|i: int| 0 <= i < o.len() && (#[trigger] o[i]) is Waiting implies n[i] is Waiting by {
        let step = |i: int, a: WaitStatus<P, E>, b: WaitStatus<P, E>| mark_waiting(a, b, text);
        assert(step(i, o[i], n[i]));
    }
}

proof fn lemma_first_error_not_waiting(
    o: Seq<WaitStatus<ArcPartiallyInitError, ArcInitError>>,
    n: Seq<WaitStatus<ArcPartiallyInitError, ArcInitError>>,
    e: ArcInitError,
)
    requires
        !any_waiting(o),
        first_becomes(o, n, WaitStatus::<ArcPartiallyInitError, ArcInitError>::Error(e)),
    ensures
        !any_waiting(n),
{
    if o.len() > 0 {
        assert forall|i: int| 0 <= i < n.len() implies !(n[i] is Waiting) by {
            if i != 0 {
                assert(n[i] == o[i]);
            }
        }
    }
}

/// How many ARC instances the ARC step of a round on `arch` looks at:
/// Grayskull only its first, Wormhole all.
pub open spec fn arc_instances_checked(arch: Arch, len: nat) -> nat {
    if arch == Arch::Grayskull {
        if len > 0 { 1 } else { 0 }
    } else {
        len
    }
}

/// The ARC step of a round: the first `count` instances of `o` are taken in
/// order, each by `arc_entry_post` with the readiness check `checks[j]`
/// (made exactly for the waiting ones), until one gives a result, at
/// `stop`; the instances after it are left as they are.
pub open spec fn arc_pass(
    o: Seq<WaitStatus<ArcPartiallyInitError, ArcInitError>>,
    n: Seq<WaitStatus<ArcPartiallyInitError, ArcInitError>>,
    oc: CommsStatus,
    nc: CommsStatus,
    count: int,
    checks: Seq<Option<Result<(), PlatformError>>>,
    timed_out: bool,
    timeout: std::time::Duration,
    arch: Arch,
    stop: int,
    r: Option<ChipInitResult>,
) -> bool {
    &&& n.len() == o.len()
    &&& 0 <= stop <= count <= o.len()
    &&& checks.len() == count
    &&& forall|j: int| 0 <= j < count ==> ((#[trigger] checks[j]) is Some <==> (o[j] is Waiting && j <= stop))
    &&& forall|j: int| 0 <= j < stop ==> arc_entry_post(o[j], #[trigger] n[j], oc, oc, checks[j], timed_out, timeout, arch, None)
    &&& if stop < count {
        &&& r is Some
        &&& arc_entry_post(o[stop], n[stop], oc, nc, checks[stop], timed_out, timeout, arch, r)
        &&& forall|j: int| stop < j < o.len() ==> #[trigger] n[j] == o[j]
    } else {
        &&& r is None
        &&& nc == oc
        &&& forall|j: int| count <= j < o.len() ==> #[trigger] n[j] == o[j]
    }
}

/// A component's name, timeout and start time are those of `b`.
pub open spec fn frame_kept<P, E>(b: ComponentStatusInfo<P, E>, f: ComponentStatusInfo<P, E>) -> bool {
    &&& f.status == b.status
    &&& f.timeout == b.timeout
    &&& f.start_time == b.start_time
}

/// What the chip's checks returned in one round, and the steps' results.
pub ghost struct RoundOutcome {
    /// The status the round worked from.
    pub base: InitStatus,
    /// The ARC readiness checks, one per instance looked at.
    pub checks: Seq<Option<Result<(), PlatformError>>>,
    /// Where the ARC step stopped (its count where it did not).
    pub stop: int,
    pub arc_timed_out: bool,
    pub arc_result: Option<ChipInitResult>,
    /// The ARC instances and comms status after the ARC step.
    pub arc: Seq<WaitStatus<ArcPartiallyInitError, ArcInitError>>,
    pub comms: CommsStatus,
    pub telemetry: Option<Result<Telemetry, PlatformError>>,
    pub dram_timed_out: bool,
    pub dram_result: Option<ChipInitResult>,
    pub training: Option<Result<Vec<bool>, PlatformError>>,
    pub fw_ok: bool,
    pub eth_timed_out: bool,
    pub eth_result: Option<ChipInitResult>,
    /// The Blackhole scratch read and boot status.
    pub scratch: Result<u32, String>,
    pub arc_safe: bool,
}

/// What one round does from `o` to `f` with result `r`, the chip's checks
/// having returned what `w` records.  The round starts from `w.base` (see
/// `round_base`).  On Blackhole, `blackhole_round_post` gives the rest.  On
/// Grayskull and Wormhole: the ARC step (`arc_pass`); where it gave no
/// result, the DRAM step (`dram_round_post`), with the telemetry read
/// exactly when `dram_check_due`; where that gave no result, on Wormhole
/// the ethernet step (`eth_round_post`), with the training state read
/// exactly when `eth_check_due`, and `NoError` at the end.  The CPU and each
/// component's name, timeout and start time are left as they are.
pub open spec fn round_post(o: InitStatus, f: InitStatus, arch: Arch, r: ChipInitResult, w: RoundOutcome) -> bool {
    let b = w.base;
    &&& round_base(o, b, arch)
    &&& frame_kept(b.arc_status, f.arc_status)
    &&& frame_kept(b.dram_status, f.dram_status)
    &&& frame_kept(b.eth_status, f.eth_status)
    &&& frame_kept(b.cpu_status, f.cpu_status)
    &&& f.init_options == b.init_options
    &&& f.unknown_state == b.unknown_state
    &&& if arch == Arch::Blackhole {
        blackhole_round_post(
            b.comms_status,
            f.comms_status,
            b.arc_status.wait_status@,
            f.arc_status.wait_status@,
            b.dram_status.wait_status@,
            f.dram_status.wait_status@,
            b.eth_status.wait_status@,
            f.eth_status.wait_status@,
            b.cpu_status.wait_status@,
            f.cpu_status.wait_status@,
            w.scratch,
            w.arc_safe,
            w.arc_timed_out,
            r,
        )
    } else {
        &&& f.cpu_status.wait_status@ == b.cpu_status.wait_status@
        &&& f.comms_status == w.comms
        &&& arc_pass(
            b.arc_status.wait_status@,
            w.arc,
            b.comms_status,
            w.comms,
            arc_instances_checked(arch, b.arc_status.wait_status@.len()) as int,
            w.checks,
            w.arc_timed_out,
            b.arc_status.timeout,
            arch,
            w.stop,
            w.arc_result,
        )
        &&& match w.arc_result {
            Some(x) => {
                &&& r == x
                &&& f.arc_status.wait_status@ == w.arc
                &&& f.dram_status.wait_status@ == b.dram_status.wait_status@
                &&& f.eth_status.wait_status@ == b.eth_status.wait_status@
            },
            None => {
                &&& (w.telemetry is Some <==> dram_check_due(w.arc, b.dram_status.wait_status@))
                &&& dram_round_post(
                    w.arc,
                    f.arc_status.wait_status@,
                    b.dram_status.wait_status@,
                    f.dram_status.wait_status@,
                    b.dram_status.timeout,
                    w.telemetry,
                    w.dram_timed_out,
                    arch,
                    w.dram_result,
                )
                &&& match w.dram_result {
                    Some(x) => r == x && f.eth_status.wait_status@ == b.eth_status.wait_status@,
                    None => if arch == Arch::Wormhole {
                        &&& (w.training is Some <==> eth_check_due(
                            f.arc_status.wait_status@,
                            b.eth_status.wait_status@,
                            b.init_options.noc_safe,
                        ))
                        &&& eth_round_post(
                            f.arc_status.wait_status@,
                            b.eth_status.wait_status@,
                            f.eth_status.wait_status@,
                            b.eth_status.timeout,
                            b.init_options.noc_safe,
                            w.training,
                            w.fw_ok,
                            w.eth_timed_out,
                            w.eth_result,
                        )
                        &&& r == (match w.eth_result {
                            Some(x) => x,
                            None => ChipInitResult::NoError,
                        })
                    } else {
                        f.eth_status.wait_status@ == b.eth_status.wait_status@ && r is NoError
                    },
                }
            },
        }
    }
}

/// One round of initialization of a chip of `arch`, whose checks `chip`
/// makes, moving `status` on.  A chip whose state is unknown starts afresh;
/// then, on Grayskull and Wormhole, the waiting ARC instances are checked
/// (the one ARC on Grayskull), then the DRAM channels from the telemetry
/// and, on Wormhole, the ethernet ports from their training state, each
/// step only where its own `needs_*_check` holds.  A Blackhole chip is
/// checked by its boot status.
pub fn update_init_state<C: InitChecks>(chip: &C, arch: Arch, status: &mut InitStatus) -> (r: ChipInitResult)
    ensures
        exists|w: RoundOutcome| #[trigger] round_post(*old(status), *final(status), arch, r, w),
        arch != Arch::Blackhole ==> exists|b: InitStatus| #[trigger] round_base(*old(status), b, arch) && round_law(b, *final(status), arch, r),
        arch == Arch::Blackhole ==> r is NoError,
        arch == Arch::Wormhole && !old(status).init_options.noc_safe && r is NoError
            && !any_waiting(final(status).arc_status.wait_status@) && !any_error(final(status).arc_status.wait_status@)
            ==> forall|i: int| 0 <= i < final(status).eth_status.wait_status@.len()
            ==> #[trigger] final(status).eth_status.wait_status@[i] is Done,
{
    begin_round(status, arch);
    let ghost base: InitStatus = *status;
    assert(round_base(*old(status), base, arch));
    if arch == Arch::Blackhole {
        let first = chip.read_boot_status();
        let second = chip.read_boot_status();
        let arc_safe = crate::chip::bh_arc_msg_safe(first, second);
        let arc_timed_out = chip.timed_out(&status.arc_status);
        let scratch = chip.read_scratch();
        let ghost scratch_seen = scratch;
        let result = blackhole_round(
            &mut status.comms_status,
            &mut status.arc_status.wait_status,
            &mut status.dram_status.wait_status,
            &mut status.eth_status.wait_status,
            &mut status.cpu_status.wait_status,
            scratch,
            arc_safe,
            arc_timed_out,
        );
        assert(round_post(*old(status), *status, arch, result, RoundOutcome {
            base, checks: seq![], stop: 0, arc_timed_out, arc_result: None,
            arc: base.arc_status.wait_status@, comms: base.comms_status,
            telemetry: None, dram_timed_out: false, dram_result: None,
            training: None, fw_ok: true, eth_timed_out: false, eth_result: None,
            scratch: scratch_seen, arc_safe,
        }));
        return result;
    }
    proof {
        lemma_keeps_waiting_refl(base.dram_status.wait_status@);
        lemma_keeps_waiting_refl(base.eth_status.wait_status@);
    }

    // The ARC instances: Grayskull has one, Wormhole may have several.
    let arc_timed_out = chip.timed_out(&status.arc_status);
    let arc_timeout = status.arc_status.timeout;
    let len = status.arc_status.wait_status.len();
    let count: usize = if arch == Arch::Grayskull {
        if len > 0 { 1 } else { 0 }
    } else {
        len
    };
    let ghost mut checks: Seq<Option<Result<(), PlatformError>>> = seq![];
    let mut i: usize = 0;
    while i < count
        invariant
            i <= count <= len,
            count == arc_instances_checked(arch, len as nat),
            len == base.arc_status.wait_status@.len(),
            status.arc_status.wait_status@.len() == len,
            status.dram_status == base.dram_status,
            status.eth_status == base.eth_status,
            status.cpu_status == base.cpu_status,
            status.init_options == base.init_options,
            status.unknown_state == base.unknown_state,
            status.comms_status == base.comms_status,
            frame_kept(base.arc_status, status.arc_status),
            arc_timeout == base.arc_status.timeout,
            round_base(*old(status), base, arch),
            arch != Arch::Blackhole,
            checks.len() == i,
            forall|j: int| 0 <= j < i ==> ((#[trigger] checks[j]) is Some <==> base.arc_status.wait_status@[j] is Waiting),
            forall|j: int| 0 <= j < i ==> arc_entry_post(base.arc_status.wait_status@[j], #[trigger] status.arc_status.wait_status@[j], base.comms_status, base.comms_status, checks[j], arc_timed_out, arc_timeout, arch, None),
            forall|j: int| 0 <= j < i && !(base.arc_status.wait_status@[j] is Waiting) ==> idle_arc_step(base.arc_status.wait_status@[j], #[trigger] status.arc_status.wait_status@[j]),
            forall|j: int| i <= j < len ==> #[trigger] status.arc_status.wait_status@[j] == base.arc_status.wait_status@[j],
        decreases count - i,
    {
        let ghost cur = status.arc_status.wait_status@;
        let waiting = match &status.arc_status.wait_status[i] {
            WaitStatus::Waiting(_) => true,
            _ => false,
        };
        let check = if waiting { Some(chip.check_arc_msg_safe()) } else { None };
        let ghost check_seen = check;
        let mut entry = status.arc_status.wait_status.remove(i);
        let ghost e0 = entry;
        assert(e0 == base.arc_status.wait_status@[i as int]);
        let res = arc_entry_step(&mut entry, &mut status.comms_status, check, arc_timed_out, arc_timeout, arch);
        status.arc_status.wait_status.insert(i, entry);
        assert(status.arc_status.wait_status@ =~= cur.update(i as int, entry));
        match res {
            Some(result) => {
                assert(round_law(base, *status, arch, result));
                assert(round_base(*old(status), base, arch));
                proof {
                    let all = checks.push(check_seen) + Seq::new((count - i - 1) as nat, |k: int| None::<Result<(), PlatformError>>);
                    assert forall|j: int| 0 <= j < count implies ((#[trigger] all[j]) is Some <==> (base.arc_status.wait_status@[j] is Waiting && j <= i)) by {
                        if j < i {
                            assert(all[j] == checks[j]);
                        } else if j == i {
                            assert(all[j] == check_seen);
                        } else {
                            assert(all[j] is None);
                        }
                    }
                    assert forall|j: int| 0 <= j < i implies arc_entry_post(base.arc_status.wait_status@[j], #[trigger] status.arc_status.wait_status@[j], base.comms_status, base.comms_status, all[j], arc_timed_out, arc_timeout, arch, None) by {
                        assert(all[j] == checks[j]);
                    }
                    assert(all[i as int] == check_seen);
                    let w = RoundOutcome {
                        base, checks: all, stop: i as int, arc_timed_out, arc_result: Some(result),
                        arc: status.arc_status.wait_status@, comms: status.comms_status,
                        telemetry: None, dram_timed_out: false, dram_result: None,
                        training: None, fw_ok: true, eth_timed_out: false, eth_result: None,
                        scratch: Ok(0), arc_safe: false,
                    };
                    assert(arc_pass(base.arc_status.wait_status@, w.arc, base.comms_status, w.comms, count as int, all, arc_timed_out, arc_timeout, arch, i as int, Some(result)));
                    assert(round_post(*old(status), *status, arch, result, w));
                }
                return result;
            },
            None => {},
        }
        proof {
            checks = checks.push(check_seen);
        }
        i = i + 1;
    }
    let ghost a2 = status.arc_status.wait_status@;
    let ghost c2 = status.comms_status;
    proof {
        if !any_waiting(base.arc_status.wait_status@) && any_error(base.arc_status.wait_status@) {
            let k = choose|k: int| 0 <= k < len && is_failure(base.arc_status.wait_status@[k]);
            if k < count {
                assert(idle_arc_step(base.arc_status.wait_status@[k], a2[k]));
            } else {
                assert(a2[k] == base.arc_status.wait_status@[k]);
            }
            assert(is_failure(a2[k]));
            assert forall|j: int| 0 <= j < len implies !(a2[j] is Waiting) by {
                if j < count {
                    assert(idle_arc_step(base.arc_status.wait_status@[j], a2[j]));
                } else {
                    assert(a2[j] == base.arc_status.wait_status@[j]);
                }
            }
        }
        assert(arc_pass(base.arc_status.wait_status@, a2, base.comms_status, c2, count as int, checks, arc_timed_out, arc_timeout, arch, count as int, None));
    }

    // The DRAM channels, from the telemetry.
    let telemetry = if needs_dram_check(status) { Some(chip.get_telemetry()) } else { None };
    let ghost telemetry_seen = telemetry;
    let dram_timed_out = chip.timed_out(&status.dram_status);
    let dram_timeout = status.dram_status.timeout;
    let dram_result = dram_round(
        &mut status.arc_status.wait_status,
        &mut status.dram_status.wait_status,
        dram_timeout,
        telemetry,
        dram_timed_out,
        arch,
    );
    let ghost a3 = status.arc_status.wait_status@;
    proof {
        if any_waiting(a2) {
            lemma_mark_keeps_waiting(base.dram_status.wait_status@, status.dram_status.wait_status@, "Waiting for ARC"@);
        } else if any_waiting(a3) {
            if a3 != a2 {
                let t = telemetry_seen->Some_0;
                let e = t->Err_0;
                match e {
                    PlatformError::UnsupportedFwVersion { version, required } => {
                        lemma_first_error_not_waiting(a2, a3, ArcInitError::FwVersionTooOld { version: Some(version), required });
                    },
                    PlatformError::ArcMsgError(m) => {
                        match m {
                            ArcMsgError::ProtocolError { source: ArcMsgProtocolError::MsgNotRecognized(_), .. } => {
                                lemma_first_error_not_waiting(a2, a3, ArcInitError::FwVersionTooOld { version: None, required: GRAYSKULL_MIN_FW_VERSION });
                            },
                            _ => {
                                lemma_first_error_not_waiting(a2, a3, ArcInitError::NoAccess);
                            },
                        }
                    },
                    _ => {},
                }
            }
        }
    }
    let ghost w0 = RoundOutcome {
        base, checks, stop: count as int, arc_timed_out, arc_result: None,
        arc: a2, comms: c2,
        telemetry: telemetry_seen, dram_timed_out, dram_result,
        training: None, fw_ok: true, eth_timed_out: false, eth_result: None,
        scratch: Ok(0), arc_safe: false,
    };
    match dram_result {
        Some(result) => {
            assert(round_post(*old(status), *status, arch, result, w0));
            return result;
        },
        None => {},
    }

    if arch == Arch::Wormhole {
        // The ethernet ports, from their training state.
        let training = if needs_eth_check(status) {
            Some(chip.check_ethernet_training_complete())
        } else {
            None
        };
        let ghost training_seen = training;
        let any_trained = match &training {
            Some(Ok(trained)) => some_true(trained),
            _ => false,
        };
        let fw_ok = if any_trained { chip.check_ethernet_fw_version() } else { true };
        let eth_timed_out = chip.timed_out(&status.eth_status);
        let eth_timeout = status.eth_status.timeout;
        let noc_safe = status.init_options.noc_safe;
        let ghost e1 = status.eth_status.wait_status@;
        let eth_result = eth_round(
            &status.arc_status.wait_status,
            &mut status.eth_status.wait_status,
            eth_timeout,
            noc_safe,
            training,
            fw_ok,
            eth_timed_out,
        );
        proof {
            if any_waiting(a3) {
                lemma_mark_keeps_waiting(e1, status.eth_status.wait_status@, "Waiting for ARC"@);
            }
        }
        let ghost w1 = RoundOutcome { training: training_seen, fw_ok, eth_timed_out, eth_result, ..w0 };
        match eth_result {
            Some(result) => {
                assert(round_post(*old(status), *status, arch, result, w1));
                return result;
            },
            None => {},
        }
        assert(round_post(*old(status), *status, arch, ChipInitResult::NoError, w1));
        return ChipInitResult::NoError;
    }
    assert(round_post(*old(status), *status, arch, ChipInitResult::NoError, w0));
    ChipInitResult::NoError
}

} // verus!
