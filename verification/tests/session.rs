use std::sync::Arc;

use buzzer::room::{RoomMessage, RoomMode};
use buzzer::session::{
    is_known_operation, read_mode, read_operation, relay, ClientOperation, InformAuthority,
    ParticipantAction, ParticipantEvent, Phase, Session,
};

fn operation(op: &str, value: &str) -> ClientOperation {
    ClientOperation {
        op: op.to_string(),
        value: value.to_string(),
    }
}

/// A session that converses.
fn opened(my_id: u32) -> Session {
    let mut session = Session::new(my_id);
    session.next(ParticipantEvent::NoAction);
    session.next(ParticipantEvent::NoAction);
    session
}

#[test]
fn a_session_opens_with_the_room_and_then_the_browser() {
    let mut session = Session::new(1000);
    assert_eq!(session.phase, Phase::Entering);
    assert!(matches!(
        session.next(ParticipantEvent::NoAction),
        ParticipantAction::ToRoom(RoomMessage::ParticipantJoined(1000))
    ));
    assert_eq!(session.phase, Phase::Introducing);
    assert!(matches!(
        session.next(ParticipantEvent::NoAction),
        ParticipantAction::Introduce(InformAuthority { your_id: 1000 })
    ));
    assert_eq!(session.phase, Phase::Conversing);
}

#[test]
fn operations_become_messages() {
    let mut session = opened(1000);
    match session.next(ParticipantEvent::FromBrowser(operation("set_name", "Ada"))) {
        ParticipantAction::ToRoom(RoomMessage::ParticipantSetName(1000, name)) => {
            assert_eq!(name, "Ada")
        }
        other => panic!("{:?}", other),
    }
    assert!(matches!(
        session.next(ParticipantEvent::FromBrowser(operation("buzzer_hit", ""))),
        ParticipantAction::ToRoom(RoomMessage::ParticipantBuzzed(1000))
    ));
    assert!(matches!(
        session.next(ParticipantEvent::FromBrowser(operation("reset_buzzers", ""))),
        ParticipantAction::ToRoom(RoomMessage::ResetBuzzers(1000))
    ));
    assert_eq!(session.phase, Phase::Conversing);
}

#[test]
fn a_lock_is_off_unless_it_says_true() {
    for (value, state) in [
        ("true", true),
        ("false", false),
        ("True", false),
        ("", false),
        ("yes", false),
    ] {
        match read_operation(7, operation("set_buzzer_lock", value)) {
            Some(RoomMessage::SetLockState(7, s)) => assert_eq!(s, state),
            other => panic!("{:?}", other),
        }
    }
}

#[test]
fn modes_that_do_not_exist_send_nothing() {
    assert_eq!(read_mode("first_to_buzz"), Some(RoomMode::FirstToBuzz));
    assert_eq!(read_mode("buzz_race"), Some(RoomMode::BuzzerRace));
    assert_eq!(read_mode("buzzer_race"), None);
    assert!(matches!(
        read_operation(7, operation("set_mode", "first_to_buzz")),
        Some(RoomMessage::SetRoomMode(7, RoomMode::FirstToBuzz))
    ));
    assert!(matches!(
        read_operation(7, operation("set_mode", "buzz_race")),
        Some(RoomMessage::SetRoomMode(7, RoomMode::BuzzerRace))
    ));
    assert!(read_operation(7, operation("set_mode", "FirstToBuzz")).is_none());
    let mut session = opened(7);
    assert!(matches!(
        session.next(ParticipantEvent::FromBrowser(operation("set_mode", "?"))),
        ParticipantAction::Wait
    ));
}

#[test]
fn operations_are_known_by_name() {
    for op in [
        "set_name",
        "buzzer_hit",
        "reset_buzzers",
        "set_buzzer_lock",
        "set_mode",
    ] {
        assert!(is_known_operation(op));
    }
    for op in ["", "set_nam", "set_names", "SET_NAME", "quit"] {
        assert!(!is_known_operation(op));
    }
}

#[test]
fn what_the_room_says_reaches_the_browser() {
    match relay(RoomMessage::Ping) {
        ParticipantAction::Pong(payload) => assert_eq!(payload, b"!".to_vec()),
        other => panic!("{:?}", other),
    }
    match relay(RoomMessage::NewRoomState(Arc::new("{\"a\":1}".to_string()))) {
        ParticipantAction::Text(text) => assert_eq!(text, "{\"a\":1}"),
        other => panic!("{:?}", other),
    }
    assert!(matches!(
        relay(RoomMessage::ParticipantJoined(1)),
        ParticipantAction::Wait
    ));
    assert!(matches!(
        relay(RoomMessage::SetLockState(1, true)),
        ParticipantAction::Wait
    ));
    let mut session = opened(1000);
    assert!(matches!(
        session.next(ParticipantEvent::FromRoom(RoomMessage::Ping)),
        ParticipantAction::Pong(_)
    ));
}

#[test]
fn nothing_comes_of_nothing() {
    let mut session = opened(1000);
    assert!(matches!(
        session.next(ParticipantEvent::NoAction),
        ParticipantAction::Wait
    ));
    assert_eq!(session.phase, Phase::Conversing);
}

#[test]
fn a_lost_browser_ends_the_session() {
    let mut session = opened(1000);
    assert!(matches!(
        session.next(ParticipantEvent::BrowserLost),
        ParticipantAction::ToRoom(RoomMessage::ParticipantQuit(1000))
    ));
    assert_eq!(session.phase, Phase::Ended);
    assert!(matches!(
        session.next(ParticipantEvent::BrowserLost),
        ParticipantAction::Stop
    ));
    assert!(matches!(
        session.next(ParticipantEvent::FromRoom(RoomMessage::Ping)),
        ParticipantAction::Stop
    ));
}
