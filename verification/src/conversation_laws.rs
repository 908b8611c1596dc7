//! What each event brings about in a session: what [`Session::next`] answers,
//! in every phase, and what becomes of the session.

use vstd::prelude::*;

use crate::room::{RoomMessage, RoomMode};
use crate::session::{ClientOperation, ParticipantAction, ParticipantEvent, Session};

verus! {

/// A session begins with its participant's id, and has yet to enter the room.
pub proof fn law_a_session_begins(my_id: u32, session: Session)
    requires
        call_ensures(Session::new, (my_id,), session),
    ensures
        session.my_id == my_id,
        session.phase is Entering,
{
}

/// A session is its participant's for good. It enters the room, introduces
/// itself and converses, and ends when its browser is lost; there is no way
/// back.
pub proof fn law_how_a_session_goes_on(
    session: &mut Session,
    event: ParticipantEvent,
    action: ParticipantAction,
)
    requires
        call_ensures(Session::next, (session, event), action),
    ensures
        final(session).my_id == old(session).my_id,
        old(session).phase is Entering ==> final(session).phase is Introducing,
        old(session).phase is Introducing ==> final(session).phase is Conversing,
        old(session).phase is Conversing && !(event is BrowserLost)
            ==> final(session).phase is Conversing,
        old(session).phase is Conversing && event is BrowserLost ==> final(session).phase is Ended,
        old(session).phase is Ended ==> final(session).phase is Ended,
{
}

/// Whatever the event, the room is first told who came, then the browser who it
/// is; and once a session has ended there is nothing to do.
pub proof fn law_a_session_opens_and_ends(
    session: &mut Session,
    event: ParticipantEvent,
    action: ParticipantAction,
)
    requires
        call_ensures(Session::next, (session, event), action),
    ensures
        old(session).phase is Entering ==> action == ParticipantAction::ToRoom(
            RoomMessage::ParticipantJoined(old(session).my_id),
        ),
        old(session).phase is Introducing ==> (action matches ParticipantAction::Introduce(authority)
            && authority.your_id == old(session).my_id),
        old(session).phase is Conversing && event is BrowserLost ==> action
            == ParticipantAction::ToRoom(RoomMessage::ParticipantQuit(old(session).my_id)),
        old(session).phase is Ended ==> action is Stop,
{
    assert(action@ is ToRoom ==> action is ToRoom);
}

/// What a browser asks for in a conversation is sent into the room as what it
/// is, in the name of the session's participant: their name, their buzz, and
/// what a captain may say. A lock is asked for by `true` alone. A mode that
/// there is not is sent nowhere.
pub proof fn law_a_browser_is_heard(
    session: &mut Session,
    operation: ClientOperation,
    action: ParticipantAction,
)
    requires
        call_ensures(
            Session::next,
            (session, ParticipantEvent::FromBrowser(operation)),
            action,
        ),
        old(session).phase is Conversing,
    ensures
        operation.op@ == "set_name"@ ==> (action matches ParticipantAction::ToRoom(
            RoomMessage::ParticipantSetName(id, name),
        ) && id == old(session).my_id && name@ == operation.value@),
        operation.op@ == "buzzer_hit"@ ==> action == ParticipantAction::ToRoom(
            RoomMessage::ParticipantBuzzed(old(session).my_id),
        ),
        operation.op@ == "reset_buzzers"@ ==> action == ParticipantAction::ToRoom(
            RoomMessage::ResetBuzzers(old(session).my_id),
        ),
        operation.op@ == "set_buzzer_lock"@ ==> action == ParticipantAction::ToRoom(
            RoomMessage::SetLockState(old(session).my_id, operation.value@ == "true"@),
        ),
        operation.op@ == "set_mode"@ && operation.value@ == "first_to_buzz"@ ==> action
            == ParticipantAction::ToRoom(
            RoomMessage::SetRoomMode(old(session).my_id, RoomMode::FirstToBuzz),
        ),
        operation.op@ == "set_mode"@ && operation.value@ == "buzz_race"@ ==> action
            == ParticipantAction::ToRoom(
            RoomMessage::SetRoomMode(old(session).my_id, RoomMode::BuzzerRace),
        ),
        operation.op@ == "set_mode"@ && operation.value@ != "first_to_buzz"@ && operation.value@
            != "buzz_race"@ ==> action is Wait,
{
    lemma_operations_differ();
}

/// The words of a browser are different words.
proof fn lemma_operations_differ()
    ensures
        "set_name"@ != "buzzer_hit"@,
        "set_name"@ != "reset_buzzers"@,
        "set_name"@ != "set_buzzer_lock"@,
        "set_name"@ != "set_mode"@,
        "buzzer_hit"@ != "reset_buzzers"@,
        "buzzer_hit"@ != "set_buzzer_lock"@,
        "buzzer_hit"@ != "set_mode"@,
        "reset_buzzers"@ != "set_buzzer_lock"@,
        "reset_buzzers"@ != "set_mode"@,
        "set_buzzer_lock"@ != "set_mode"@,
        "first_to_buzz"@ != "buzz_race"@,
{
    reveal_strlit("set_name");
    reveal_strlit("buzzer_hit");
    reveal_strlit("reset_buzzers");
    reveal_strlit("set_buzzer_lock");
    reveal_strlit("set_mode");
    reveal_strlit("first_to_buzz");
    reveal_strlit("buzz_race");
    assert("set_name"@.len() == 8 && "set_mode"@.len() == 8 && "buzzer_hit"@.len() == 10);
    assert("reset_buzzers"@.len() == 13 && "set_buzzer_lock"@.len() == 15);
    assert("first_to_buzz"@.len() == 13 && "buzz_race"@.len() == 9);
    assert("set_name"@[4] != "set_mode"@[4]);
}

/// What a room says in a conversation goes to the browser: its state letter by
/// letter, its heartbeat as a pong with an exclamation mark, and nothing else.
/// An event that asks for nothing brings nothing about.
pub proof fn law_a_room_is_heard(
    session: &mut Session,
    event: ParticipantEvent,
    action: ParticipantAction,
)
    requires
        call_ensures(Session::next, (session, event), action),
        old(session).phase is Conversing,
    ensures
        event matches ParticipantEvent::FromRoom(RoomMessage::NewRoomState(state)) ==> (
        action matches ParticipantAction::Text(text) && text@ == (*state)@),
        event matches ParticipantEvent::FromRoom(RoomMessage::Ping) ==> (
        action matches ParticipantAction::Pong(payload) && payload@ == seq![0x21u8]),
        event matches ParticipantEvent::FromRoom(message) ==> !(message is NewRoomState) && !(
        message is Ping) ==> action is Wait,
        event is NoAction ==> action is Wait,
{
}

/// A session takes every event, unless in a conversation a browser asks for what
/// there is not; and what there is to ask for is told apart from everything
/// else.
pub proof fn law_what_can_be_asked_for(
    session: &mut Session,
    event: ParticipantEvent,
    op: &str,
    known: bool,
)
    requires
        call_ensures(crate::session::is_known_operation, (op,), known),
    ensures
        known <==> (op@ == "set_name"@ || op@ == "buzzer_hit"@ || op@ == "reset_buzzers"@ || op@
            == "set_buzzer_lock"@ || op@ == "set_mode"@),
        !(event is FromBrowser) || !(old(session).phase is Conversing) ==> call_requires(
            Session::next,
            (session, event),
        ),
        event matches ParticipantEvent::FromBrowser(operation) ==> operation.op@ == op@ ==> known
            ==> call_requires(Session::next, (session, event)),
{
}

/// Read by themselves, operations, modes and what rooms say mean the same as in
/// a conversation.
pub proof fn law_reading_is_the_same(
    my_id: u32,
    operation: ClientOperation,
    message: Option<RoomMessage>,
    session: &mut Session,
    action: ParticipantAction,
)
    requires
        call_ensures(crate::session::read_operation, (my_id, operation), message),
        call_ensures(
            Session::next,
            (session, ParticipantEvent::FromBrowser(operation)),
            action,
        ),
        old(session).phase is Conversing,
        old(session).my_id == my_id,
    ensures
        message is None ==> action is Wait,
        message matches Some(sent) ==> (action matches ParticipantAction::ToRoom(told)
            && same_message(sent, told)),
{
}

/// Two messages that say the same.
pub open spec fn same_message(a: RoomMessage, b: RoomMessage) -> bool {
    match a {
        RoomMessage::ParticipantSetName(id, name) => b matches RoomMessage::ParticipantSetName(
            other,
            other_name,
        ) && other == id && other_name@ == name@,
        RoomMessage::NewRoomState(text) => b matches RoomMessage::NewRoomState(other)
            && (*other)@ == (*text)@,
        _ => b == a,
    }
}

/// The two modes are read from their names, and from nothing else.
pub proof fn law_modes_have_names(value: &str, mode: Option<RoomMode>)
    requires
        call_ensures(crate::session::read_mode, (value,), mode),
    ensures
        mode == Some(RoomMode::FirstToBuzz) <==> value@ == "first_to_buzz"@,
        mode == Some(RoomMode::BuzzerRace) <==> value@ == "buzz_race"@,
{
    lemma_operations_differ();
}

/// What is relayed of a room's message is what a conversation answers it with.
pub proof fn law_relaying(message: RoomMessage, action: ParticipantAction)
    requires
        call_ensures(crate::session::relay, (message,), action),
    ensures
        message matches RoomMessage::NewRoomState(state) ==> (
        action matches ParticipantAction::Text(text) && text@ == (*state)@),
        message is Ping ==> (action matches ParticipantAction::Pong(payload) && payload@
            == seq![0x21u8]),
        !(message is NewRoomState) && !(message is Ping) ==> action is Wait,
{
}

} // verus!
