//! Initialization status of a chip's components (ARC, DRAM, ethernet, CPU).
use vstd::prelude::*;
use crate::arc_ready::ArcReadyError;

verus! {

/// Why ethernet failed to initialize.
#[derive(Clone, Copy, Debug, PartialEq, Eq, Structural)]
pub enum EthernetInitError {
    FwCorrupted,
    NotTrained,
}

/// The description of a value of `EthernetInitError`.
pub open spec fn ethernet_init_error_text(e: EthernetInitError) -> Seq<char> {
    match e {
        EthernetInitError::FwCorrupted => "Ethernet firmware is corrupted"@,
        EthernetInitError::NotTrained => "Ethernet is not trained"@,
    }
}

impl EthernetInitError {
    /// A one-line description.
    pub fn describe(&self) -> (r: &'static str)
        ensures
            r@ == ethernet_init_error_text(*self),
    {
        match self {
            EthernetInitError::FwCorrupted => "Ethernet firmware is corrupted",
            EthernetInitError::NotTrained => "Ethernet is not trained",
        }
    }
}

/// Why ethernet is up but not fully initialized.
#[derive(Clone, Copy, Debug, PartialEq, Eq, Structural)]
pub enum EthernetPartialInitError {
    FwOverwritten,
}

/// The description of a value of `EthernetPartialInitError`.
pub open spec fn ethernet_partial_init_error_text(e: EthernetPartialInitError) -> Seq<char> {
    match e {
        EthernetPartialInitError::FwOverwritten => "Ethernet firmware version has an invalid format and is assumed to have been overwritten"@,
    }
}

impl EthernetPartialInitError {
    /// A one-line description.
    pub fn describe(&self) -> (r: &'static str)
        ensures
            r@ == ethernet_partial_init_error_text(*self),
    {
        match self {
            EthernetPartialInitError::FwOverwritten =>
                "Ethernet firmware version has an invalid format and is assumed to have been overwritten",
        }
    }
}

/// Why the ARC firmware failed to initialize.
#[derive(Clone, Copy, Debug, PartialEq, Eq, Structural)]
pub enum ArcInitError {
    FwCorrupted,
    WaitingForInit(ArcReadyError),
    Hung,
    /// The firmware is older than required; `version` is `None` where the
    /// firmware is too old even to report it.
    FwVersionTooOld { version: Option<u32>, required: u32 },
    /// The firmware passed its readiness check but does not answer.
    NoAccess,
}

/// The description of a value of `ArcInitError`.
pub open spec fn arc_init_error_text(e: ArcInitError) -> Seq<char> {
    match e {
        ArcInitError::FwCorrupted => "ARC firmware is corrupted"@,
        ArcInitError::WaitingForInit(_) => "ARC is waiting for initialization"@,
        ArcInitError::Hung => "ARC is hung"@,
        ArcInitError::FwVersionTooOld { .. } => "ARC firmware is too old"@,
        ArcInitError::NoAccess => "ARC does not answer"@,
    }
}

impl ArcInitError {
    /// A one-line description.
    pub fn describe(&self) -> (r: &'static str)
        ensures
            r@ == arc_init_error_text(*self),
    {
        match self {
            ArcInitError::FwCorrupted => "ARC firmware is corrupted",
            ArcInitError::WaitingForInit(_) => "ARC is waiting for initialization",
            ArcInitError::Hung => "ARC is hung",
            ArcInitError::FwVersionTooOld { .. } => "ARC firmware is too old",
            ArcInitError::NoAccess => "ARC does not answer",
        }
    }
}

/// Training state of one DRAM channel, as the firmware reports it in a nibble.
#[derive(Clone, Copy, Debug, PartialEq, Eq, Structural)]
pub enum DramChannelStatus {
    TrainingNone,
    TrainingFail,
    TrainingPass,
    TrainingSkip,
    PhyOff,
    ReadEye,
    BistEye,
    CaDebug,
}

/// The channel status with code `value`, if there is one.
pub open spec fn dram_channel_status_of(value: u8) -> Option<DramChannelStatus> {
    if value == 0 {
        Some(DramChannelStatus::TrainingNone)
    } else if value == 1 {
        Some(DramChannelStatus::TrainingFail)
    } else if value == 2 {
        Some(DramChannelStatus::TrainingPass)
    } else if value == 3 {
        Some(DramChannelStatus::TrainingSkip)
    } else if value == 4 {
        Some(DramChannelStatus::PhyOff)
    } else if value == 5 {
        Some(DramChannelStatus::ReadEye)
    } else if value == 6 {
        Some(DramChannelStatus::BistEye)
    } else if value == 7 {
        Some(DramChannelStatus::CaDebug)
    } else {
        None
    }
}

/// The name of a channel status.
pub open spec fn dram_channel_text(s: DramChannelStatus) -> Seq<char> {
    match s {
        DramChannelStatus::TrainingNone => "TrainingNone"@,
        DramChannelStatus::TrainingFail => "TrainingFail"@,
        DramChannelStatus::TrainingPass => "TrainingPass"@,
        DramChannelStatus::TrainingSkip => "TrainingSkip"@,
        DramChannelStatus::PhyOff => "PhyOff"@,
        DramChannelStatus::ReadEye => "ReadEye"@,
        DramChannelStatus::BistEye => "BistEye"@,
        DramChannelStatus::CaDebug => "CaDebug"@,
    }
}

impl DramChannelStatus {
    /// Decode a channel status code; codes above 7 are refused.
    pub fn try_from(value: u8) -> (r: Result<DramChannelStatus, ()>)
        ensures
            value <= 7 ==> r == Ok::<DramChannelStatus, ()>(dram_channel_status_of(value).unwrap()),
            value > 7 ==> r is Err,
    {
        match value {
            0 => Ok(DramChannelStatus::TrainingNone),
            1 => Ok(DramChannelStatus::TrainingFail),
            2 => Ok(DramChannelStatus::TrainingPass),
            3 => Ok(DramChannelStatus::TrainingSkip),
            4 => Ok(DramChannelStatus::PhyOff),
            5 => Ok(DramChannelStatus::ReadEye),
            6 => Ok(DramChannelStatus::BistEye),
            7 => Ok(DramChannelStatus::CaDebug),
            _ => Err(()),
        }
    }

    /// The name of the status.
    pub fn describe(&self) -> (r: &'static str)
        ensures
            r@ == dram_channel_text(*self),
    {
        match self {
            DramChannelStatus::TrainingNone => "TrainingNone",
            DramChannelStatus::TrainingFail => "TrainingFail",
            DramChannelStatus::TrainingPass => "TrainingPass",
            DramChannelStatus::TrainingSkip => "TrainingSkip",
            DramChannelStatus::PhyOff => "PhyOff",
            DramChannelStatus::ReadEye => "ReadEye",
            DramChannelStatus::BistEye => "BistEye",
            DramChannelStatus::CaDebug => "CaDebug",
        }
    }
}

/// Why DRAM failed to initialize.
#[derive(Clone, Copy, Debug, PartialEq, Eq, Structural)]
pub enum DramInitError {
    NotTrained(DramChannelStatus),
}

/// The description of a value of `DramInitError`.
pub open spec fn dram_init_error_text(e: DramInitError) -> Seq<char> {
    match e {
        DramInitError::NotTrained(_) => "DRAM was not able to train"@,
    }
}

impl DramInitError {
    /// A one-line description.
    pub fn describe(&self) -> (r: &'static str)
        ensures
            r@ == dram_init_error_text(*self),
    {
        match self {
            DramInitError::NotTrained(_) => "DRAM was not able to train",
        }
    }
}

/// Why the CPU failed to initialize: no chip reports such a failure yet, so
/// the type has no values.
pub type CpuInitError = core::convert::Infallible;

/// Why the ARC is only partly initialized: no such state is known, so the
/// type has no values.
pub type ArcPartiallyInitError = core::convert::Infallible;

/// Why DRAM is only partly initialized: no such state is known.
pub type DramPartiallyInitError = core::convert::Infallible;

/// Why the CPU is only partly initialized: no such state is known.
pub type CpuPartiallyInitError = core::convert::Infallible;

/// Why ethernet is only partly initialized.
pub type EthernetPartiallyInitError = EthernetPartialInitError;

#[verifier::external_type_specification]
#[verifier::external_body]
pub struct ExInstant(std::time::Instant);

/// `std::time::Instant::now`: the current reading of the monotonic clock.
/// Nothing is stated of it.
#[verifier::external_body]
fn instant_now() -> (r: std::time::Instant) {
    std::time::Instant::now()
}

/// The duration of `secs` whole seconds.
pub uninterp spec fn secs_duration(secs: u64) -> std::time::Duration;

/// `std::time::Duration::from_secs`: the duration of `secs` whole seconds,
/// a function of `secs` alone; the contract names it and says no more.
#[verifier::external_body]
pub(crate) fn duration_from_secs(secs: u64) -> (r: std::time::Duration)
    ensures
        r == secs_duration(secs),
{
    std::time::Duration::from_secs(secs)
}

/// The state of one instance of a component (one DRAM channel, one ethernet
/// port, ...).  `P` says why it is only partly initialized, `E` why it failed.
#[derive(Debug)]
pub enum WaitStatus<P, E> {
    NotPresent,
    /// Still initializing, with what it is waiting on where that is known.
    Waiting(Option<String>),
    JustFinished,
    Done,
    /// The caller asked that it not be checked.
    NoCheck,
    Timeout(std::time::Duration),
    NotInitialized(P),
    Error(E),
}

impl<P, E> WaitStatus<P, E> {
    /// Whether the instance has finished initializing.
    pub fn is_done(&self) -> (r: bool)
        ensures
            r == (*self is Done),
    {
        match self {
            WaitStatus::Done => true,
            _ => false,
        }
    }
}

/// Whether some instance is still waiting.
pub open spec fn any_waiting<P, E>(s: Seq<WaitStatus<P, E>>) -> bool {
    exists|i: int| 0 <= i < s.len() && s[i] is Waiting
}

/// Whether some instance is present.
pub open spec fn any_present<P, E>(s: Seq<WaitStatus<P, E>>) -> bool {
    exists|i: int| 0 <= i < s.len() && !(s[i] is NotPresent)
}

/// Whether an instance failed or timed out.
pub open spec fn is_failure<P, E>(w: WaitStatus<P, E>) -> bool {
    w is Error || w is Timeout
}

/// Whether some instance failed or timed out.
pub open spec fn any_error<P, E>(s: Seq<WaitStatus<P, E>>) -> bool {
    exists|i: int| 0 <= i < s.len() && is_failure(s[i])
}

/// Whether an instance counts as completed in a progress report.
pub open spec fn is_completed<P, E>(w: WaitStatus<P, E>) -> bool {
    w is NoCheck || w is Done || w is NotPresent
}

/// How many instances are waiting.
pub open spec fn count_waiting<P, E>(s: Seq<WaitStatus<P, E>>) -> nat
    decreases s.len(),
{
    if s.len() == 0 {
        0
    } else {
        count_waiting(s.drop_last()) + if s.last() is Waiting {
            1nat
        } else {
            0nat
        }
    }
}

/// How many instances are completed.
pub open spec fn count_completed<P, E>(s: Seq<WaitStatus<P, E>>) -> nat
    decreases s.len(),
{
    if s.len() == 0 {
        0
    } else {
        count_completed(s.drop_last()) + if is_completed(s.last()) {
            1nat
        } else {
            0nat
        }
    }
}

proof fn lemma_counts_bounded<P, E>(s: Seq<WaitStatus<P, E>>)
    ensures
        count_waiting(s) <= s.len(),
        count_completed(s) <= s.len(),
    decreases s.len(),
{
    if s.len() > 0 {
        lemma_counts_bounded(s.drop_last());
    }
}

/// Whether some instance in `v` is still waiting.
pub fn some_waiting<P, E>(v: &Vec<WaitStatus<P, E>>) -> (r: bool)
    ensures
        r == any_waiting(v@),
{
    let mut i: usize = 0;
    while i < v.len()
        invariant
            i <= v@.len(),
            forall|j: int| 0 <= j < i ==> !(v@[j] is Waiting),
        decreases v@.len() - i,
    {
        if let WaitStatus::Waiting(_) = &v[i] {
            return true;
        }
        i = i + 1;
    }
    false
}

/// Whether some instance in `v` failed or timed out.
pub fn some_error<P, E>(v: &Vec<WaitStatus<P, E>>) -> (r: bool)
    ensures
        r == any_error(v@),
{
    let mut i: usize = 0;
    while i < v.len()
        invariant
            i <= v@.len(),
            forall|j: int| 0 <= j < i ==> !is_failure(#[trigger] v@[j]),
        decreases v@.len() - i,
    {
        match &v[i] {
            WaitStatus::Error(_) | WaitStatus::Timeout(_) => {
                return true;
            },
            _ => {},
        }
        i = i + 1;
    }
    false
}

/// The status of every instance of one component of a chip.
#[derive(Debug)]
pub struct ComponentStatusInfo<P, E> {
    pub wait_status: Vec<WaitStatus<P, E>>,
    pub timeout: std::time::Duration,
    pub start_time: std::time::Instant,
    pub status: String,
}

impl<P, E> ComponentStatusInfo<P, E> {
    /// A component with no instances.
    pub fn not_present() -> (r: Self)
        ensures
            r.wait_status@.len() == 0,
            r.status@ == "No components present"@,
            r.timeout == secs_duration(0),
    {
        ComponentStatusInfo {
            wait_status: Vec::new(),
            status: "No components present".to_owned(),
            timeout: duration_from_secs(0),
            start_time: instant_now(),
        }
    }

    /// A component of `count` instances, all waiting, timing out after `timeout`.
    pub fn init_waiting(status: String, timeout: std::time::Duration, count: usize) -> (r: Self)
        ensures
            r.wait_status@.len() == count,
            forall|i: int|
                0 <= i < count ==> #[trigger] r.wait_status@[i] == WaitStatus::<P, E>::Waiting(
                    None,
                ),
            r.status == status,
            r.timeout == timeout,
    {
        let mut wait_status: Vec<WaitStatus<P, E>> = Vec::new();
        let mut k: usize = 0;
        while k < count
            invariant
                k <= count,
                wait_status@.len() == k,
                forall|i: int|
                    0 <= i < k ==> #[trigger] wait_status@[i] == WaitStatus::<P, E>::Waiting(None),
            decreases count - k,
        {
            wait_status.push(WaitStatus::Waiting(None));
            k = k + 1;
        }
        ComponentStatusInfo { wait_status, status, start_time: instant_now(), timeout }
    }

    /// Whether some instance is still waiting.
    pub fn is_waiting(&self) -> (r: bool)
        ensures
            r == any_waiting(self.wait_status@),
    {
        some_waiting(&self.wait_status)
    }

    /// Whether some instance is present.
    pub fn is_present(&self) -> (r: bool)
        ensures
            r == any_present(self.wait_status@),
    {
        let mut i: usize = 0;
        while i < self.wait_status.len()
            invariant
                i <= self.wait_status@.len(),
                forall|j: int| 0 <= j < i ==> self.wait_status@[j] is NotPresent,
            decreases self.wait_status@.len() - i,
        {
            if let WaitStatus::NotPresent = &self.wait_status[i] {
            } else {
                return true;
            }
            i = i + 1;
        }
        false
    }

    /// Whether some instance failed or timed out.
    /// Whether communication failed, or some instance of a component failed or timed out.
    pub fn has_error(&self) -> (r: bool)
        ensures
            r == any_error(self.wait_status@),
    {
        some_error(&self.wait_status)
    }

    /// How many instances are waiting and how many are completed (done, not
    /// checked or not present), for a progress report.
    pub fn progress(&self) -> (r: (usize, usize))
        ensures
            r.0 == count_waiting(self.wait_status@),
            r.1 == count_completed(self.wait_status@),
    {
        let ghost s = self.wait_status@;
        let mut waiting: usize = 0;
        let mut completed: usize = 0;
        let mut i: usize = 0;
        while i < self.wait_status.len()
            invariant
                s == self.wait_status@,
                i <= s.len(),
                waiting == count_waiting(s.subrange(0, i as int)),
                completed == count_completed(s.subrange(0, i as int)),
            decreases s.len() - i,
        {
            proof {
                assert(s.subrange(0, i + 1).drop_last() == s.subrange(0, i as int));
                lemma_counts_bounded(s.subrange(0, i as int));
            }
            match &self.wait_status[i] {
                WaitStatus::Waiting(_) => {
                    waiting = waiting + 1;
                },
                WaitStatus::NoCheck | WaitStatus::Done | WaitStatus::NotPresent => {
                    completed = completed + 1;
                },
                _ => {},
            }
            i = i + 1;
        }
        assert(s.subrange(0, s.len() as int) == s);
        (waiting, completed)
    }
}

/// Options that limit what initialization may touch.
#[derive(Clone, Copy, Debug)]
pub struct InitOptions {
    /// If false, nothing that needs the NOC is initialized.
    pub noc_safe: bool,
}

impl Default for InitOptions {
    fn default() -> (r: Self)
        ensures
            !r.noc_safe,
    {
        InitOptions { noc_safe: false }
    }
}

/// Whether the chip can be talked to at all.
#[derive(Clone, Debug)]
pub enum CommsStatus {
    CanCommunicate,
    CommunicationError(String),
}

impl CommsStatus {
    /// Whether the chip can be talked to.
    pub fn ok(&self) -> (r: bool)
        ensures
            r == (*self is CanCommunicate),
    {
        match self {
            CommsStatus::CanCommunicate => true,
            CommsStatus::CommunicationError(_) => false,
        }
    }
}

/// The initialization status of a whole chip.
#[derive(Debug)]
pub struct InitStatus {
    pub comms_status: CommsStatus,
    pub dram_status: ComponentStatusInfo<DramPartiallyInitError, DramInitError>,
    pub cpu_status: ComponentStatusInfo<CpuPartiallyInitError, CpuInitError>,
    pub arc_status: ComponentStatusInfo<ArcPartiallyInitError, ArcInitError>,
    pub eth_status: ComponentStatusInfo<EthernetPartialInitError, EthernetInitError>,
    pub init_options: InitOptions,
    /// Nothing is known of the chip yet: every component is marked not present.
    pub unknown_state: bool,
}

/// Whether every component of the chip is still waiting.
pub open spec fn status_waiting(s: InitStatus) -> bool {
    any_waiting(s.arc_status.wait_status@) && any_waiting(s.dram_status.wait_status@)
        && any_waiting(s.eth_status.wait_status@) && any_waiting(s.cpu_status.wait_status@)
}

/// Whether communication failed or some component failed or timed out.
pub open spec fn status_has_error(s: InitStatus) -> bool {
    !(s.comms_status is CanCommunicate) || any_error(s.arc_status.wait_status@) || any_error(
        s.dram_status.wait_status@,
    ) || any_error(s.eth_status.wait_status@) || any_error(s.cpu_status.wait_status@)
}

impl InitStatus {
    /// The status of a chip that has not been looked at yet.
    pub fn new_unknown() -> (r: Self)
        ensures
            r.comms_status matches CommsStatus::CommunicationError(m) && m@ == "Haven't checked"@,
            r.dram_status.wait_status@.len() == 0,
            r.cpu_status.wait_status@.len() == 0,
            r.arc_status.wait_status@.len() == 0,
            r.eth_status.wait_status@.len() == 0,
            !r.init_options.noc_safe,
            r.unknown_state,
    {
        InitStatus {
            comms_status: CommsStatus::CommunicationError("Haven't checked".to_owned()),
            dram_status: ComponentStatusInfo::not_present(),
            cpu_status: ComponentStatusInfo::not_present(),
            arc_status: ComponentStatusInfo::not_present(),
            eth_status: ComponentStatusInfo::not_present(),
            init_options: InitOptions { noc_safe: false },
            unknown_state: true,
        }
    }

    /// Whether the chip can be talked to.
    pub fn can_communicate(&self) -> (r: bool)
        ensures
            r == (self.comms_status is CanCommunicate),
    {
        self.comms_status.ok()
    }

    /// Whether every component is still waiting.
    pub fn is_waiting(&self) -> (r: bool)
        ensures
            r == status_waiting(*self),
    {
        self.arc_status.is_waiting() && self.dram_status.is_waiting()
            && self.eth_status.is_waiting() && self.cpu_status.is_waiting()
    }

    /// Whether initialization is over: not every component is still waiting.
    pub fn init_complete(&self) -> (r: bool)
        ensures
            r == !status_waiting(*self),
    {
        !self.is_waiting()
    }

    pub fn has_error(&self) -> (r: bool)
        ensures
            r == status_has_error(*self),
    {
        !self.comms_status.ok() || self.arc_status.has_error() || self.dram_status.has_error()
            || self.eth_status.has_error() || self.cpu_status.has_error()
    }
}

/// What one round of initialization found.
#[derive(Debug)]
pub enum ChipInitResult {
    /// Nothing went wrong; initialization can go on.
    NoError,
    /// This chip cannot be initialized further, but other chips can.
    ErrorContinue(String, std::backtrace::Backtrace),
    /// Going on with initialization would be unsafe.
    ErrorAbort(String, std::backtrace::Backtrace),
}

} // verus!
