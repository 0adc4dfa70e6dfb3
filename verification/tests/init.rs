use std::time::Duration;

use luwen::arc_msg::{ArcMsgError, ArcMsgProtocolError, BtWrapper};
use luwen::arc_ready::ArcReadyError;
use luwen::axi::AxiError;
use luwen::error::PlatformError;
use luwen::init_state::{
    after_round, arc_entry_step, begin_round, blackhole_round, default_status, dram_round,
    eth_round, needs_dram_check, needs_eth_check, RoundDecision,
};
use luwen::kmd::Arch;
use luwen::status::{
    ArcInitError, ChipInitResult, CommsStatus, ComponentStatusInfo, DramChannelStatus,
    DramInitError, EthernetPartialInitError, InitOptions, InitStatus, WaitStatus,
};
use luwen::telemetry::Telemetry;

type Arc = WaitStatus<std::convert::Infallible, ArcInitError>;

#[test]
fn unknown_status_has_nothing_present() {
    let s = InitStatus::new_unknown();
    assert!(!s.can_communicate());
    assert!(s.unknown_state);
    assert!(!s.arc_status.is_present());
    assert!(s.has_error());
    assert!(s.init_complete());
    match &s.comms_status {
        CommsStatus::CommunicationError(m) => assert_eq!(m, "Haven't checked"),
        _ => panic!("expected a communication error"),
    }
    assert_eq!(ComponentStatusInfo::<u8, u8>::not_present().status, "No components present");
}

#[test]
fn waiting_components_count_progress() {
    let mut c = ComponentStatusInfo::<u8, u8>::init_waiting("DRAM".to_string(), Duration::from_secs(1), 3);
    assert!(c.is_waiting());
    assert!(c.is_present());
    assert!(!c.has_error());
    assert_eq!(c.progress(), (3, 0));
    c.wait_status[0] = WaitStatus::Done;
    c.wait_status[1] = WaitStatus::Error(1);
    assert_eq!(c.progress(), (1, 1));
    assert!(c.has_error());
    assert!(c.wait_status[0].is_done());
}

#[test]
fn default_statuses_per_generation() {
    let s = default_status(Arch::Wormhole, InitOptions { noc_safe: true });
    assert!(s.init_options.noc_safe);
    assert_eq!(s.arc_status.wait_status.len(), 1);
    assert_eq!(s.dram_status.wait_status.len(), 4);
    assert_eq!(s.eth_status.wait_status.len(), 16);
    assert_eq!(s.cpu_status.wait_status.len(), 0);
    assert_eq!(s.arc_status.timeout, Duration::from_secs(300));
    let s = default_status(Arch::Blackhole, InitOptions::default());
    assert_eq!((s.dram_status.wait_status.len(), s.eth_status.wait_status.len(), s.cpu_status.wait_status.len()), (8, 14, 4));
    assert!(s.is_waiting());
    let mut u = InitStatus::new_unknown();
    u.init_options.noc_safe = true;
    begin_round(&mut u, Arch::Grayskull);
    assert!(!u.unknown_state);
    assert!(u.init_options.noc_safe);
    assert_eq!(u.dram_status.wait_status.len(), 4);
    assert_eq!(u.eth_status.wait_status.len(), 0);
}

fn not_ready(r: ArcReadyError) -> Option<Result<(), PlatformError>> {
    Some(Err(PlatformError::ArcNotReady(r, BtWrapper::capture())))
}

#[test]
fn arc_entries_follow_the_readiness_check() {
    let t = Duration::from_secs(5);
    let mut comms = CommsStatus::CanCommunicate;
    let mut e: Arc = WaitStatus::Waiting(None);
    assert!(arc_entry_step(&mut e, &mut comms, Some(Ok(())), false, t, Arch::Wormhole).is_none());
    assert!(matches!(e, WaitStatus::JustFinished));
    assert!(arc_entry_step(&mut e, &mut comms, None, false, t, Arch::Wormhole).is_none());
    assert!(e.is_done());

    let mut e: Arc = WaitStatus::Waiting(None);
    arc_entry_step(&mut e, &mut comms, not_ready(ArcReadyError::BootIncomplete), false, t, Arch::Wormhole);
    match &e {
        WaitStatus::Waiting(Some(m)) => assert_eq!(m, "ARC boot is not complete"),
        other => panic!("unexpected {other:?}"),
    }
    arc_entry_step(&mut e, &mut comms, not_ready(ArcReadyError::BootIncomplete), true, t, Arch::Wormhole);
    assert!(matches!(e, WaitStatus::Error(ArcInitError::WaitingForInit(ArcReadyError::BootIncomplete))));

    let mut e: Arc = WaitStatus::Waiting(None);
    arc_entry_step(&mut e, &mut comms, not_ready(ArcReadyError::WatchdogTriggered), false, t, Arch::Grayskull);
    assert!(matches!(e, WaitStatus::Error(ArcInitError::WaitingForInit(ArcReadyError::WatchdogTriggered))));

    let mut e: Arc = WaitStatus::Waiting(None);
    let check = Some(Err(PlatformError::UnsupportedFwVersion { version: 1, required: 2 }));
    arc_entry_step(&mut e, &mut comms, check, false, t, Arch::Wormhole);
    assert!(matches!(e, WaitStatus::Error(ArcInitError::FwVersionTooOld { version: Some(1), required: 2 })));
}

#[test]
fn arc_entry_failures_stop_the_round() {
    let t = Duration::from_secs(5);
    let mut comms = CommsStatus::CanCommunicate;
    let mut e: Arc = WaitStatus::Waiting(None);
    let check = Some(Err(PlatformError::AxiError(AxiError::NoAxiData)));
    let r = arc_entry_step(&mut e, &mut comms, check, false, t, Arch::Wormhole);
    assert!(matches!(r, Some(ChipInitResult::ErrorAbort(..))));
    assert!(matches!(comms, CommsStatus::CommunicationError(_)));
    let mut comms = CommsStatus::CanCommunicate;
    let check = Some(Err(PlatformError::EthernetTrainingNotComplete(vec![false])));
    let r = arc_entry_step(&mut e, &mut comms, check, false, t, Arch::Grayskull);
    assert!(matches!(r, Some(ChipInitResult::ErrorContinue(..))));
    let check = Some(Err(PlatformError::EthernetTrainingNotComplete(vec![false])));
    let r = arc_entry_step(&mut e, &mut comms, check, true, t, Arch::Wormhole);
    assert!(r.is_none());
    assert!(matches!(e, WaitStatus::Timeout(_)));
    let mut e: Arc = WaitStatus::Waiting(None);
    let check = Some(Err(PlatformError::generic("boom".to_string())));
    match arc_entry_step(&mut e, &mut comms, check, false, t, Arch::Wormhole) {
        Some(ChipInitResult::ErrorAbort(m, _)) => assert_eq!(m, "boom"),
        _ => panic!("expected an abort"),
    }
}

fn telemetry_with_ddr(word: u32) -> Telemetry {
    let mut t = Telemetry::default();
    t.smbus_tx_ddr_status = word;
    t
}

#[test]
fn dram_follows_the_telemetry() {
    let t = Duration::from_secs(5);
    let mut arc: Vec<Arc> = vec![WaitStatus::Done];
    let mut dram = vec![WaitStatus::Waiting(None), WaitStatus::Waiting(None), WaitStatus::JustFinished, WaitStatus::Waiting(None)];
    // Channels 0..3 report pass, fail, pass, and code 9 (unknown).
    let r = dram_round(&mut arc, &mut dram, t, Some(Ok(telemetry_with_ddr(0x9212))), false, Arch::Wormhole);
    assert!(r.is_none());
    assert!(dram[0].is_done());
    match &dram[1] {
        WaitStatus::Waiting(Some(m)) => assert_eq!(m, "TrainingFail"),
        other => panic!("unexpected {other:?}"),
    }
    assert!(dram[2].is_done());
    match &dram[3] {
        WaitStatus::Waiting(Some(m)) => assert_eq!(m, "Unknown"),
        other => panic!("unexpected {other:?}"),
    }
    dram_round(&mut arc, &mut dram, t, Some(Ok(telemetry_with_ddr(0x9212))), true, Arch::Wormhole);
    assert!(matches!(dram[1], WaitStatus::Error(DramInitError::NotTrained(DramChannelStatus::TrainingFail))));
    assert!(matches!(dram[3], WaitStatus::Timeout(_)));

    // Grayskull reports 1 for a trained channel.
    let mut dram = vec![WaitStatus::Waiting(None), WaitStatus::Waiting(None)];
    dram_round(&mut arc, &mut dram, t, Some(Ok(telemetry_with_ddr(0x01))), false, Arch::Grayskull);
    assert!(dram[0].is_done());
    assert!(matches!(&dram[1], WaitStatus::Waiting(Some(m)) if m == "TrainingFail"));
}

#[test]
fn dram_waits_for_the_arc() {
    let t = Duration::from_secs(5);
    let mut arc: Vec<Arc> = vec![WaitStatus::Waiting(None)];
    let mut dram = vec![WaitStatus::Waiting(None), WaitStatus::Done];
    dram_round(&mut arc, &mut dram, t, None, false, Arch::Wormhole);
    assert!(matches!(&dram[0], WaitStatus::Waiting(Some(m)) if m == "Waiting for ARC"));
    assert!(dram[1].is_done());
    let mut arc: Vec<Arc> = vec![WaitStatus::Error(ArcInitError::Hung)];
    dram_round(&mut arc, &mut dram, t, None, false, Arch::Wormhole);
    assert!(matches!(dram[0], WaitStatus::NoCheck) && matches!(dram[1], WaitStatus::NoCheck));
}

#[test]
fn dram_handles_telemetry_errors() {
    let t = Duration::from_secs(5);
    let mut arc: Vec<Arc> = vec![WaitStatus::Done];
    let mut dram = vec![WaitStatus::Waiting(None)];
    let e = PlatformError::ArcMsgError(ArcMsgError::ProtocolError {
        source: ArcMsgProtocolError::MsgNotRecognized(0xaa2c),
        backtrace: BtWrapper::capture(),
    });
    let r = dram_round(&mut arc, &mut dram, t, Some(Err(e)), false, Arch::Grayskull);
    assert!(r.is_none());
    assert!(matches!(arc[0], WaitStatus::Error(ArcInitError::FwVersionTooOld { version: None, required: 0x0140000 })));
    let mut arc: Vec<Arc> = vec![WaitStatus::Done];
    let r = dram_round(&mut arc, &mut dram, t, Some(Err(PlatformError::AxiError(AxiError::NoAxiData))), false, Arch::Wormhole);
    match r {
        Some(ChipInitResult::ErrorAbort(m, _)) => assert!(m.starts_with("Telemetry AXI error")),
        _ => panic!("expected an abort"),
    }
    let e = PlatformError::ArcNotReady(ArcReadyError::Asleep, BtWrapper::capture());
    dram_round(&mut arc, &mut dram, t, Some(Err(e)), true, Arch::Wormhole);
    assert!(matches!(dram[0], WaitStatus::Timeout(_)));
}

#[test]
fn ethernet_follows_training() {
    let t = Duration::from_secs(5);
    let arc: Vec<Arc> = vec![WaitStatus::Done];
    let mut eth: Vec<WaitStatus<EthernetPartialInitError, luwen::status::EthernetInitError>> =
        vec![WaitStatus::Waiting(None), WaitStatus::Waiting(None), WaitStatus::Waiting(None)];
    let r = eth_round(&arc, &mut eth, t, true, Some(Ok(vec![true, false])), true, false);
    assert!(r.is_none());
    assert!(matches!(eth[0], WaitStatus::JustFinished));
    assert!(matches!(&eth[1], WaitStatus::Waiting(Some(m)) if m == "Waiting for initial training to complete"));
    assert!(matches!(eth[2], WaitStatus::Waiting(None)));
    eth_round(&arc, &mut eth, t, true, Some(Ok(vec![true, true])), false, false);
    assert!(eth[0].is_done());
    assert!(matches!(eth[1], WaitStatus::NotInitialized(EthernetPartialInitError::FwOverwritten)));
    let mut eth2: Vec<WaitStatus<EthernetPartialInitError, luwen::status::EthernetInitError>> = vec![WaitStatus::Waiting(None)];
    eth_round(&arc, &mut eth2, t, false, None, true, false);
    assert!(eth2[0].is_done());
    let mut eth3: Vec<WaitStatus<EthernetPartialInitError, luwen::status::EthernetInitError>> = vec![WaitStatus::Waiting(None)];
    let r = eth_round(&arc, &mut eth3, t, true, Some(Err(PlatformError::EthernetTrainingNotComplete(vec![]))), true, false);
    assert!(matches!(r, Some(ChipInitResult::ErrorContinue(..))));
}

#[test]
fn round_checks_are_due_when_the_arc_is_up() {
    let mut s = default_status(Arch::Wormhole, InitOptions::default());
    assert!(!needs_dram_check(&s));
    s.arc_status.wait_status[0] = WaitStatus::Done;
    assert!(needs_dram_check(&s));
    // Without leave to talk on the NOC the ethernet ports are not checked.
    assert!(!needs_eth_check(&s));
    s.init_options.noc_safe = true;
    assert!(needs_eth_check(&s));
}

#[test]
fn blackhole_round_marks_the_rest_done() {
    let mut s = default_status(Arch::Blackhole, InitOptions::default());
    let r = blackhole_round(
        &mut s.comms_status,
        &mut s.arc_status.wait_status,
        &mut s.dram_status.wait_status,
        &mut s.eth_status.wait_status,
        &mut s.cpu_status.wait_status,
        Ok(0),
        false,
        false,
    );
    assert!(matches!(r, ChipInitResult::NoError));
    assert!(matches!(&s.arc_status.wait_status[0], WaitStatus::Waiting(Some(m)) if m == "BH FW boot not complete"));
    assert!(s.dram_status.wait_status.iter().all(|w| w.is_done()));
    assert!(s.cpu_status.wait_status.iter().all(|w| w.is_done()));
    blackhole_round(
        &mut s.comms_status,
        &mut s.arc_status.wait_status,
        &mut s.dram_status.wait_status,
        &mut s.eth_status.wait_status,
        &mut s.cpu_status.wait_status,
        Err("no access".to_string()),
        true,
        false,
    );
    assert!(matches!(&s.comms_status, CommsStatus::CommunicationError(m) if m == "no access"));
    assert!(matches!(s.arc_status.wait_status[0], WaitStatus::JustFinished));
}

#[test]
fn waiting_for_init_decides_after_each_round() {
    let s = default_status(Arch::Wormhole, InitOptions::default());
    assert!(matches!(after_round(&ChipInitResult::NoError, false, &s), RoundDecision::KeepWaiting("ARC")));
    let bt = || BtWrapper::capture().0;
    assert!(matches!(after_round(&ChipInitResult::ErrorContinue("x".to_string(), bt()), true, &s), RoundDecision::Completed));
    assert!(matches!(after_round(&ChipInitResult::ErrorContinue("x".to_string(), bt()), false, &s), RoundDecision::Failed));
    assert!(matches!(after_round(&ChipInitResult::ErrorAbort("x".to_string(), bt()), true, &s), RoundDecision::Failed));
    let done = default_status(Arch::Grayskull, InitOptions::default());
    let mut done = done;
    done.arc_status.wait_status[0] = WaitStatus::Done;
    assert!(matches!(after_round(&ChipInitResult::NoError, false, &done), RoundDecision::KeepWaiting("DRAM")));
    for w in done.dram_status.wait_status.iter_mut() {
        *w = WaitStatus::Done;
    }
    assert!(matches!(after_round(&ChipInitResult::NoError, false, &done), RoundDecision::Completed));
}

#[test]
fn dram_channel_codes() {
    assert_eq!(DramChannelStatus::try_from(2), Ok(DramChannelStatus::TrainingPass));
    assert_eq!(DramChannelStatus::try_from(7), Ok(DramChannelStatus::CaDebug));
    assert_eq!(DramChannelStatus::try_from(8), Err(()));
    assert_eq!(DramChannelStatus::PhyOff.describe(), "PhyOff");
    assert_eq!(ArcInitError::Hung.describe(), "ARC is hung");
}

/// A chip whose ARC check answers as given and whose other checks fail.
struct FakeChip {
    arc_ready: bool,
    arc_error: bool,
}

impl luwen::init_state::InitChecks for FakeChip {
    fn check_arc_msg_safe(&self) -> Result<(), PlatformError> {
        if self.arc_ready {
            Ok(())
        } else if self.arc_error {
            Err(PlatformError::ArcNotReady(
                luwen::arc_ready::ArcReadyError::BootError,
                luwen::arc_msg::BtWrapper::capture(),
            ))
        } else {
            Err(PlatformError::ArcNotReady(
                luwen::arc_ready::ArcReadyError::BootIncomplete,
                luwen::arc_msg::BtWrapper::capture(),
            ))
        }
    }
    fn get_telemetry(&self) -> Result<Telemetry, PlatformError> {
        Err(PlatformError::generic("no telemetry here".to_string()))
    }
    fn check_ethernet_training_complete(&self) -> Result<Vec<bool>, PlatformError> {
        Ok(vec![true; 16])
    }
    fn check_ethernet_fw_version(&self) -> bool {
        true
    }
    fn read_scratch(&self) -> Result<u32, String> {
        Ok(0)
    }
    fn read_boot_status(&self) -> Option<u32> {
        None
    }
    fn timed_out<P, E>(&self, _c: &ComponentStatusInfo<P, E>) -> bool {
        false
    }
}

#[test]
fn round_with_a_booting_arc_leaves_dram_and_eth_waiting() {
    let chip = FakeChip { arc_ready: false, arc_error: false };
    let mut s = default_status(Arch::Wormhole, InitOptions { noc_safe: true });
    let r = luwen::init_state::update_init_state(&chip, Arch::Wormhole, &mut s);
    assert!(matches!(r, ChipInitResult::NoError));
    assert!(s.arc_status.is_waiting());
    assert!(s.dram_status.wait_status.iter().all(|w| matches!(w, WaitStatus::Waiting(_))));
    assert!(s.eth_status.wait_status.iter().all(|w| matches!(w, WaitStatus::Waiting(_))));
}

#[test]
fn round_after_a_failed_arc_stops_checking_dram_and_eth() {
    let chip = FakeChip { arc_ready: false, arc_error: true };
    let mut s = default_status(Arch::Wormhole, InitOptions { noc_safe: true });
    luwen::init_state::update_init_state(&chip, Arch::Wormhole, &mut s);
    assert!(s.arc_status.has_error());
    let r = luwen::init_state::update_init_state(&chip, Arch::Wormhole, &mut s);
    assert!(matches!(r, ChipInitResult::NoError));
    assert!(s.dram_status.wait_status.iter().all(|w| matches!(w, WaitStatus::NoCheck)));
    assert!(s.eth_status.wait_status.iter().all(|w| matches!(w, WaitStatus::NoCheck)));
}

#[test]
fn round_with_a_ready_arc_reads_the_telemetry() {
    let chip = FakeChip { arc_ready: true, arc_error: false };
    let mut s = default_status(Arch::Wormhole, InitOptions { noc_safe: true });
    luwen::init_state::update_init_state(&chip, Arch::Wormhole, &mut s);
    // The ARC has just finished; the telemetry read fails, which aborts.
    let r = luwen::init_state::update_init_state(&chip, Arch::Wormhole, &mut s);
    assert!(matches!(r, ChipInitResult::ErrorAbort(..)));
    let mut t = default_status(Arch::Grayskull, InitOptions::default());
    t.dram_status.wait_status.clear();
    let r = luwen::init_state::update_init_state(&chip, Arch::Grayskull, &mut t);
    assert!(matches!(r, ChipInitResult::NoError));
    assert!(t.arc_status.wait_status[0].is_done() || matches!(t.arc_status.wait_status[0], WaitStatus::JustFinished));
}
