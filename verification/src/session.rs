//! One participant's connection: what a browser asks for goes into the room,
//! and what the room says goes to the browser.
//!
//! A [`Session`] decides and does nothing itself. It is handed one event at a
//! time, and its answer is the next thing to do.

use vstd::prelude::*;

use crate::room::{RoomMessage, RoomMessageView, RoomMode};
use crate::text::same_text;

verus! {

/// What a browser asks for.
#[derive(Debug)]
pub struct ClientOperation {
    pub op: String,
    pub value: String,
}

/// Tells a browser which id is its own.
#[derive(Clone, Copy, Debug, PartialEq, Eq, Structural)]
pub struct InformAuthority {
    pub your_id: u32,
}

/// What comes to a session.
#[derive(Debug)]
pub enum ParticipantEvent {
    FromBrowser(ClientOperation),
    FromRoom(RoomMessage),
    /// Nothing that asks for anything.
    NoAction,
    /// The browser did not take what was sent to it.
    BrowserLost,
}

/// An event with its texts as sequences of characters.
pub enum ParticipantEventView {
    FromBrowser { op: Seq<char>, value: Seq<char> },
    FromRoom(RoomMessageView),
    NoAction,
    BrowserLost,
}

impl View for ParticipantEvent {
    type V = ParticipantEventView;

    open spec fn view(&self) -> ParticipantEventView {
        match *self {
            ParticipantEvent::FromBrowser(operation) => ParticipantEventView::FromBrowser {
                op: operation.op@,
                value: operation.value@,
            },
            ParticipantEvent::FromRoom(message) => ParticipantEventView::FromRoom(message@),
            ParticipantEvent::NoAction => ParticipantEventView::NoAction,
            ParticipantEvent::BrowserLost => ParticipantEventView::BrowserLost,
        }
    }
}

impl ParticipantEventView {
    /// What a browser asks for is an operation that there is.
    pub open spec fn is_understood(self) -> bool {
        match self {
            ParticipantEventView::FromBrowser { op, value: _ } => known_operation(op),
            _ => true,
        }
    }
}

/// What is to be done for a session.
#[derive(Debug)]
pub enum ParticipantAction {
    /// Send a message into the room.
    ToRoom(RoomMessage),
    /// Tell the browser who it is.
    Introduce(InformAuthority),
    /// Send the browser a pong.
    Pong(Vec<u8>),
    /// Send the browser a text.
    Text(String),
    /// Wait for the next event.
    Wait,
    /// Nothing more: the session is over.
    Stop,
}

/// An action with its texts as sequences.
#[verifier::ext_equal]
pub enum ParticipantActionView {
    ToRoom(RoomMessageView),
    Introduce(InformAuthority),
    Pong(Seq<u8>),
    Text(Seq<char>),
    Wait,
    Stop,
}

impl View for ParticipantAction {
    type V = ParticipantActionView;

    open spec fn view(&self) -> ParticipantActionView {
        match *self {
            ParticipantAction::ToRoom(message) => ParticipantActionView::ToRoom(message@),
            ParticipantAction::Introduce(authority) => ParticipantActionView::Introduce(authority),
            ParticipantAction::Pong(payload) => ParticipantActionView::Pong(payload@),
            ParticipantAction::Text(text) => ParticipantActionView::Text(text@),
            ParticipantAction::Wait => ParticipantActionView::Wait,
            ParticipantAction::Stop => ParticipantActionView::Stop,
        }
    }
}

/// How far a session has come.
#[derive(Clone, Copy, Debug, PartialEq, Eq, Structural)]
pub enum Phase {
    /// The room does not know the participant yet.
    Entering,
    /// The browser does not know the participant's id yet.
    Introducing,
    /// Events are taken.
    Conversing,
    /// The participant has left.
    Ended,
}

/// The operations that a browser can ask for.
pub open spec fn known_operation(op: Seq<char>) -> bool {
    ||| op == "set_name"@
    ||| op == "buzzer_hit"@
    ||| op == "reset_buzzers"@
    ||| op == "set_buzzer_lock"@
    ||| op == "set_mode"@
}

/// The mode that a browser names.
pub open spec fn named_mode(value: Seq<char>) -> Option<RoomMode> {
    if value == "first_to_buzz"@ {
        Some(RoomMode::FirstToBuzz)
    } else if value == "buzz_race"@ {
        Some(RoomMode::BuzzerRace)
    } else {
        None
    }
}

/// What an operation of the participant `my_id` sends into the room. A mode
/// or an operation that does not exist sends nothing; a lock is off unless it
/// says `true`.
pub open spec fn operation_message(my_id: u32, op: Seq<char>, value: Seq<char>) -> Option<
    RoomMessageView,
> {
    if op == "set_name"@ {
        Some(RoomMessageView::ParticipantSetName(my_id, value))
    } else if op == "buzzer_hit"@ {
        Some(RoomMessageView::ParticipantBuzzed(my_id))
    } else if op == "reset_buzzers"@ {
        Some(RoomMessageView::ResetBuzzers(my_id))
    } else if op == "set_buzzer_lock"@ {
        Some(RoomMessageView::SetLockState(my_id, value == "true"@))
    } else if op == "set_mode"@ {
        match named_mode(value) {
            Some(mode) => Some(RoomMessageView::SetRoomMode(my_id, mode)),
            None => None,
        }
    } else {
        None
    }
}

/// What the browser is sent when the room says something.
pub open spec fn relayed(message: RoomMessageView) -> ParticipantActionView {
    match message {
        RoomMessageView::Ping => ParticipantActionView::Pong(seq![33u8]),
        RoomMessageView::NewRoomState(text) => ParticipantActionView::Text(text),
        _ => ParticipantActionView::Wait,
    }
}

/// A session's next phase, and what is to be done.
pub open spec fn session_step(phase: Phase, my_id: u32, event: ParticipantEventView) -> (
    Phase,
    ParticipantActionView,
) {
    match phase {
        Phase::Entering => (
            Phase::Introducing,
            ParticipantActionView::ToRoom(RoomMessageView::ParticipantJoined(my_id)),
        ),
        Phase::Introducing => (
            Phase::Conversing,
            ParticipantActionView::Introduce(InformAuthority { your_id: my_id }),
        ),
        Phase::Conversing => match event {
            ParticipantEventView::FromBrowser { op, value } => (
                Phase::Conversing,
                match operation_message(my_id, op, value) {
                    Some(message) => ParticipantActionView::ToRoom(message),
                    None => ParticipantActionView::Wait,
                },
            ),
            ParticipantEventView::FromRoom(message) => (Phase::Conversing, relayed(message)),
            ParticipantEventView::NoAction => (Phase::Conversing, ParticipantActionView::Wait),
            ParticipantEventView::BrowserLost => (
                Phase::Ended,
                ParticipantActionView::ToRoom(RoomMessageView::ParticipantQuit(my_id)),
            ),
        },
        Phase::Ended => (Phase::Ended, ParticipantActionView::Stop),
    }
}

/// Whether a browser can ask for this.
pub fn is_known_operation(op: &str) -> (known: bool)
    ensures
        known == known_operation(op@),
{
    same_text(op, "set_name") || same_text(op, "buzzer_hit") || same_text(op, "reset_buzzers")
        || same_text(op, "set_buzzer_lock") || same_text(op, "set_mode")
}

/// Reads a mode.
pub fn read_mode(value: &str) -> (mode: Option<RoomMode>)
    ensures
        mode == named_mode(value@),
{
    if same_text(value, "first_to_buzz") {
        Some(RoomMode::FirstToBuzz)
    } else if same_text(value, "buzz_race") {
        Some(RoomMode::BuzzerRace)
    } else {
        None
    }
}

/// Reads what a browser asks for.
pub fn read_operation(my_id: u32, operation: ClientOperation) -> (message: Option<RoomMessage>)
    requires
        known_operation(operation.op@),
    ensures
        match message {
            Some(m) => operation_message(my_id, operation.op@, operation.value@) == Some(m@),
            None => operation_message(my_id, operation.op@, operation.value@) is None,
        },
{
    let op = operation.op.as_str();
    if same_text(op, "set_name") {
        Some(RoomMessage::ParticipantSetName(my_id, operation.value))
    } else if same_text(op, "buzzer_hit") {
        Some(RoomMessage::ParticipantBuzzed(my_id))
    } else if same_text(op, "reset_buzzers") {
        Some(RoomMessage::ResetBuzzers(my_id))
    } else if same_text(op, "set_buzzer_lock") {
        Some(RoomMessage::SetLockState(my_id, same_text(operation.value.as_str(), "true")))
    } else {
        match read_mode(operation.value.as_str()) {
            Some(mode) => Some(RoomMessage::SetRoomMode(my_id, mode)),
            None => None,
        }
    }
}

/// What the browser is sent when the room says `message`.
pub fn relay(message: RoomMessage) -> (action: ParticipantAction)
    ensures
        action@ == relayed(message@),
{
    match message {
        RoomMessage::Ping => {
            let payload: Vec<u8> = vec![33u8];
            assert(payload@ =~= seq![33u8]);
            ParticipantAction::Pong(payload)
        },
        RoomMessage::NewRoomState(text) => ParticipantAction::Text((*text).clone()),
        _ => ParticipantAction::Wait,
    }
}

/// A participant's connection.
#[derive(Debug)]
pub struct Session {
    pub my_id: u32,
    pub phase: Phase,
}

impl Session {
    /// A session that has yet to begin.
    pub fn new(my_id: u32) -> (session: Session)
        ensures
            session.my_id == my_id,
            session.phase == Phase::Entering,
    {
        Session { my_id, phase: Phase::Entering }
    }

    /// Takes an event and says what to do. The first two calls open the
    /// session, whatever the event.
    pub fn next(&mut self, event: ParticipantEvent) -> (action: ParticipantAction)
        requires
            old(self).phase == Phase::Conversing ==> event@.is_understood(),
        ensures
            final(self).my_id == old(self).my_id,
            (final(self).phase, action@) == session_step(
                old(self).phase,
                old(self).my_id,
                event@,
            ),
    {
        match self.phase {
            Phase::Entering => {
                self.phase = Phase::Introducing;
                ParticipantAction::ToRoom(RoomMessage::ParticipantJoined(self.my_id))
            },
            Phase::Introducing => {
                self.phase = Phase::Conversing;
                ParticipantAction::Introduce(InformAuthority { your_id: self.my_id })
            },
            Phase::Conversing => match event {
                ParticipantEvent::FromBrowser(operation) => {
                    match read_operation(self.my_id, operation) {
                        Some(message) => ParticipantAction::ToRoom(message),
                        None => ParticipantAction::Wait,
                    }
                },
                ParticipantEvent::FromRoom(message) => relay(message),
                ParticipantEvent::NoAction => ParticipantAction::Wait,
                ParticipantEvent::BrowserLost => {
                    self.phase = Phase::Ended;
                    ParticipantAction::ToRoom(RoomMessage::ParticipantQuit(self.my_id))
                },
            },
            Phase::Ended => ParticipantAction::Stop,
        }
    }
}

} // verus!
