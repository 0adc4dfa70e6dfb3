use luwen::arc_msg::{
    ArcAccess, ArcMsg, ArcMsgAction, ArcMsgAddr, ArcMsgExchange, ArcMsgOk, ArcMsgOptions,
    ArcMsgProtocolError, PowerState,
};
use luwen::arc_ready::{arc_ready, ArcReadyError};

#[test]
fn message_codes_carry_the_aa_prefix() {
    assert_eq!(ArcMsg::Nop.msg_code(), 0xaa11);
    assert_eq!(ArcMsg::ArcGoToSleep.msg_code(), 0xaa55);
    assert_eq!(ArcMsg::Test { arg: 0 }.msg_code(), 0xaa90);
    assert_eq!(ArcMsg::SetPowerState(PowerState::LongIdle).msg_code(), 0xaa54);
    assert_eq!(ArcMsg::FwVersion.msg_code(), 0xaab9);
}

#[test]
fn test_message_splits_its_argument() {
    assert_eq!(ArcMsg::Test { arg: 0x1234_5678 }.args(), (0x5678, 0x1234));
    assert_eq!(ArcMsg::GetAiclk.args(), (0, 0));
}

#[test]
fn from_values_round_trips_known_messages() {
    let m = ArcMsg::from_values(0xaa90, 0x5678, 0x1234);
    assert!(matches!(m, ArcMsg::Test { arg: 0x1234_5678 }));
    assert!(matches!(ArcMsg::from_values(0x52, 0, 0), ArcMsg::SetPowerState(PowerState::Busy)));
    let m = ArcMsg::Test { arg: 77 };
    let (a0, a1) = m.args();
    assert!(matches!(ArcMsg::from_values(m.msg_code() as u32, a0, a1), ArcMsg::Test { arg: 77 }));
}

fn addrs() -> ArcMsgAddr {
    ArcMsgAddr { scratch_base: 0x1000, arc_misc_cntl: 0x2000 }
}

#[test]
fn exchange_runs_through_a_reply() {
    let (x, a) = ArcMsgExchange::start(&ArcMsg::Test { arg: 0x0002_0001 }, true, 5, 3, addrs());
    match a {
        ArcMsgAction::Access(v) => assert!(v == vec![ArcAccess::Read(0x1014)]),
        _ => panic!("expected an access"),
    }
    let (x, a) = x.step(0);
    match a {
        ArcMsgAction::Access(v) => assert!(
            v == vec![
                ArcAccess::Write(0x100c, 0x0002_0001),
                ArcAccess::Write(0x1014, 0xaa90),
                ArcAccess::Read(0x2000)
            ]
        ),
        _ => panic!("expected an access"),
    }
    let (x, a) = x.step(0x5);
    match a {
        ArcMsgAction::Access(v) => {
            assert!(v == vec![ArcAccess::Write(0x2000, 0x10005), ArcAccess::Read(0x1014)])
        }
        _ => panic!("expected an access"),
    }
    // Not yet answered: poll again.
    let (x, a) = x.step(0xaa90);
    assert!(matches!(a, ArcMsgAction::WaitAndPoll(0x1014)));
    let (x, a) = x.step(0x0007_0090);
    match a {
        ArcMsgAction::Access(v) => assert!(v == vec![ArcAccess::Read(0x100c)]),
        _ => panic!("expected an access"),
    }
    let (_, a) = x.step(42);
    assert!(matches!(a, ArcMsgAction::Finish(Ok(ArcMsgOk::Done { rc: 7, arg: 42 }))));
}

#[test]
fn exchange_refuses_an_asleep_arc() {
    let (x, _) = ArcMsgExchange::start(&ArcMsg::Nop, true, 5, 3, addrs());
    let (_, a) = x.step(0x1234_aa55);
    assert!(matches!(a, ArcMsgAction::Finish(Err(ArcMsgProtocolError::ArcAsleep))));
}

#[test]
fn exchange_reports_a_busy_interrupt() {
    let (x, _) = ArcMsgExchange::start(&ArcMsg::Nop, true, 5, 3, addrs());
    let (x, _) = x.step(0);
    let (_, a) = x.step(0x10000);
    assert!(matches!(a, ArcMsgAction::Finish(Err(ArcMsgProtocolError::FwIntFailed))));
}

#[test]
fn exchange_without_waiting_finishes_after_the_interrupt() {
    let (x, _) = ArcMsgExchange::start(&ArcMsg::Nop, false, 5, 3, addrs());
    let (x, _) = x.step(0);
    let (x, a) = x.step(5);
    match a {
        ArcMsgAction::Access(v) => assert!(v == vec![ArcAccess::Write(0x2000, 0x10005)]),
        _ => panic!("the interrupt must be raised"),
    }
    let (_, a) = x.step(0);
    assert!(matches!(a, ArcMsgAction::Finish(Ok(ArcMsgOk::OkNoWait))));
}

#[test]
fn exchange_reports_an_unknown_message() {
    let (x, _) = ArcMsgExchange::start(&ArcMsg::GetHarvesting, true, 5, 3, addrs());
    let (x, _) = x.step(0);
    let (x, _) = x.step(0);
    let (_, a) = x.step(0xffff_ffff);
    assert!(matches!(
        a,
        ArcMsgAction::Finish(Err(ArcMsgProtocolError::MsgNotRecognized(0xaa57)))
    ));
}

#[test]
fn default_options_send_a_nop() {
    let o = ArcMsgOptions::default();
    assert!(matches!(o.msg, ArcMsg::Nop));
    assert!(o.wait_for_done);
    assert!(!o.use_second_mailbox);
    assert!(o.addrs.is_none());
    assert_eq!(o.timeout, std::time::Duration::from_secs(1));
}

#[test]
fn arc_ready_classifies_the_registers() {
    assert_eq!(arc_ready(0, 0xffff_ffff, 0, true), Err(ArcReadyError::NoAccess));
    assert_eq!(arc_ready(0xdead_c0de, 0, 0, true), Err(ArcReadyError::WatchdogTriggered));
    assert_eq!(arc_ready(0x60, 0, 0, true), Err(ArcReadyError::BootIncomplete));
    assert_eq!(arc_ready(0, 0x1111_0000, 0, true), Err(ArcReadyError::BootIncomplete));
    assert_eq!(arc_ready(0xaa55, 0, 0, true), Err(ArcReadyError::Asleep));
    assert_eq!(arc_ready(1, 0, 1, true), Err(ArcReadyError::OutstandingPcieDMA));
    assert_eq!(arc_ready(0xaa12, 0, 0, true), Err(ArcReadyError::MessageQueued(0x12)));
    assert_eq!(arc_ready(0xaa34_0000, 0, 0, true), Err(ArcReadyError::HandlingMessage(0x34)));
    assert_eq!(arc_ready(1, 0, 0, true), Ok(()));
    assert_eq!(arc_ready(0x0003_0005, 0, 0, true), Ok(()));
    assert_eq!(arc_ready(0, 0xc0de_0001, 0, false), Ok(()));
    assert_eq!(arc_ready(0, 0xc0de_0040, 0, true), Ok(()));
    assert_eq!(arc_ready(0, 0xc0de_0040, 0, false), Err(ArcReadyError::OldPostCode(0xc0de_0040)));
}

#[test]
fn arc_ready_reasons_have_descriptions() {
    assert_eq!(ArcReadyError::Asleep.describe(), "ARC is asleep");
    assert_eq!(ArcReadyError::NoAccess.describe(), "ARC registers read back all ones");
}

#[test]
fn known_message_codes() {
    assert!(ArcMsg::is_known(0xaa90));
    assert!(ArcMsg::is_known(0x57));
    assert!(!ArcMsg::is_known(0xaa55));
}
