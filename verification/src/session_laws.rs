//! What can be relied on in a session, whatever comes to it.

use vstd::prelude::*;

use crate::room::{RoomMessageView, RoomMode};
use crate::session::{InformAuthority, ParticipantActionView, ParticipantEventView, Phase};

verus! {

/// How far a new session has come after `events`.
pub open spec fn phase_after(my_id: u32, events: Seq<ParticipantEventView>) -> Phase
    decreases events.len(),
{
    if events.len() == 0 {
        Phase::Entering
    } else {
        crate::session::session_step(
            phase_after(my_id, events.drop_last()),
            my_id,
            events.last(),
        ).0
    }
}

/// What a new session does when the event `n` comes.
pub open spec fn action_at(
    my_id: u32,
    events: Seq<ParticipantEventView>,
    n: int,
) -> ParticipantActionView {
    crate::session::session_step(phase_after(my_id, events.take(n)), my_id, events[n]).1
}

/// The phase before the event `n`, step by step.
proof fn lemma_phase(my_id: u32, events: Seq<ParticipantEventView>, n: int)
    requires
        0 < n <= events.len(),
    ensures
        phase_after(my_id, events.take(n)) == crate::session::session_step(
            phase_after(my_id, events.take(n - 1)),
            my_id,
            events[n - 1],
        ).0,
{
    assert(events.take(n).drop_last() =~= events.take(n - 1));
}

/// Which phase a session is in: it opens in two steps, and then converses until
/// its browser is lost.
pub proof fn law_phases(my_id: u32, events: Seq<ParticipantEventView>, n: int)
    requires
        0 <= n <= events.len(),
    ensures
        phase_after(my_id, events.take(n)) == if n == 0 {
            Phase::Entering
        } else if n == 1 {
            Phase::Introducing
        } else if forall|i: int| 2 <= i < n ==> !(#[trigger] events[i] is BrowserLost) {
            Phase::Conversing
        } else {
            Phase::Ended
        },
    decreases n,
{
    if n > 0 {
        lemma_phase(my_id, events, n);
        law_phases(my_id, events, n - 1);
    }
}

/// A session first tells the room that its participant has come, and then the
/// browser which id it has.
pub proof fn law_a_session_opens_properly(my_id: u32, events: Seq<ParticipantEventView>)
    requires
        events.len() >= 2,
    ensures
        action_at(my_id, events, 0) == ParticipantActionView::ToRoom(
            RoomMessageView::ParticipantJoined(my_id),
        ),
        action_at(my_id, events, 1) == ParticipantActionView::Introduce(
            InformAuthority { your_id: my_id },
        ),
{
    law_phases(my_id, events, 0);
    law_phases(my_id, events, 1);
}

/// A session speaks for its own participant only, announces it once, and only
/// once that it left; it never sends what rooms send.
pub proof fn law_a_session_speaks_for_itself(
    my_id: u32,
    events: Seq<ParticipantEventView>,
    n: int,
    message: RoomMessageView,
)
    requires
        0 <= n < events.len(),
        action_at(my_id, events, n) == ParticipantActionView::ToRoom(message),
    ensures
        message.sender() == Some(my_id),
        message is ParticipantJoined <==> n == 0,
        message is ParticipantQuit <==> n >= 2 && events[n] is BrowserLost,
{
    law_phases(my_id, events, n);
}

/// When its browser is lost, a session tells the room that its participant has
/// left, and does nothing from then on.
pub proof fn law_a_session_ends_properly(
    my_id: u32,
    events: Seq<ParticipantEventView>,
    lost: int,
    n: int,
)
    requires
        2 <= lost < events.len(),
        events[lost] is BrowserLost,
        forall|i: int| 2 <= i < lost ==> !(#[trigger] events[i] is BrowserLost),
        lost < n < events.len(),
    ensures
        action_at(my_id, events, lost) == ParticipantActionView::ToRoom(
            RoomMessageView::ParticipantQuit(my_id),
        ),
        action_at(my_id, events, n) == ParticipantActionView::Stop,
{
    law_phases(my_id, events, lost);
    law_phases(my_id, events, n);
}

/// Every state that the room sends out reaches the browser of whoever converses
/// with it, as it is; every heartbeat is passed on, and nothing else.
pub proof fn law_room_states_reach_the_browser(
    my_id: u32,
    events: Seq<ParticipantEventView>,
    n: int,
    message: RoomMessageView,
)
    requires
        2 <= n < events.len(),
        forall|i: int| 2 <= i < n ==> !(#[trigger] events[i] is BrowserLost),
        events[n] == ParticipantEventView::FromRoom(message),
    ensures
        action_at(my_id, events, n) == match message {
            RoomMessageView::NewRoomState(text) => ParticipantActionView::Text(text),
            RoomMessageView::Ping => ParticipantActionView::Pong(seq![33u8]),
            _ => ParticipantActionView::Wait,
        },
{
    law_phases(my_id, events, n);
}

/// What a browser asks for while its session converses goes into the room as
/// the message that it stands for, in the participant's name; only a mode that
/// there is not goes nowhere.
pub proof fn law_what_a_browser_asks_for_is_sent(
    my_id: u32,
    events: Seq<ParticipantEventView>,
    n: int,
    op: Seq<char>,
    value: Seq<char>,
)
    requires
        2 <= n < events.len(),
        forall|i: int| 2 <= i < n ==> !(#[trigger] events[i] is BrowserLost),
        events[n] == (ParticipantEventView::FromBrowser { op, value }),
    ensures
        op == "set_name"@ ==> action_at(my_id, events, n) == ParticipantActionView::ToRoom(
            RoomMessageView::ParticipantSetName(my_id, value),
        ),
        op == "buzzer_hit"@ ==> action_at(my_id, events, n) == ParticipantActionView::ToRoom(
            RoomMessageView::ParticipantBuzzed(my_id),
        ),
        op == "reset_buzzers"@ ==> action_at(my_id, events, n) == ParticipantActionView::ToRoom(
            RoomMessageView::ResetBuzzers(my_id),
        ),
        op == "set_buzzer_lock"@ ==> action_at(my_id, events, n) == ParticipantActionView::ToRoom(
            RoomMessageView::SetLockState(my_id, value == "true"@),
        ),
        op == "set_mode"@ && value == "first_to_buzz"@ ==> action_at(my_id, events, n)
            == ParticipantActionView::ToRoom(
            RoomMessageView::SetRoomMode(my_id, RoomMode::FirstToBuzz),
        ),
        op == "set_mode"@ && value == "buzz_race"@ ==> action_at(my_id, events, n)
            == ParticipantActionView::ToRoom(
            RoomMessageView::SetRoomMode(my_id, RoomMode::BuzzerRace),
        ),
        op == "set_mode"@ && value != "first_to_buzz"@ && value != "buzz_race"@ ==> action_at(
            my_id,
            events,
            n,
        ) == ParticipantActionView::Wait,
{
    law_phases(my_id, events, n);
    law_operations_reach_the_room(my_id, value);
    reveal_strlit("set_mode");
    reveal_strlit("set_name");
    reveal_strlit("buzzer_hit");
    reveal_strlit("reset_buzzers");
    reveal_strlit("set_buzzer_lock");
    assert("set_mode"@.len() == 8 && "set_mode"@[4] != "set_name"@[4]);
    assert("buzzer_hit"@.len() == 10);
    assert("reset_buzzers"@.len() == 13);
    assert("set_buzzer_lock"@.len() == 15);
}

/// An event that asks for nothing is waited out.
pub proof fn law_nothing_asked_nothing_done(
    my_id: u32,
    events: Seq<ParticipantEventView>,
    n: int,
)
    requires
        2 <= n < events.len(),
        forall|i: int| 2 <= i < n ==> !(#[trigger] events[i] is BrowserLost),
        events[n] is NoAction,
    ensures
        action_at(my_id, events, n) == ParticipantActionView::Wait,
{
    law_phases(my_id, events, n);
}

/// Every operation that there is reaches the room as what it says, with the id
/// of the participant who asks for it.
pub proof fn law_operations_reach_the_room(my_id: u32, value: Seq<char>)
    ensures
        crate::session::operation_message(my_id, "set_name"@, value) == Some(
            RoomMessageView::ParticipantSetName(my_id, value),
        ),
        crate::session::operation_message(my_id, "buzzer_hit"@, value) == Some(
            RoomMessageView::ParticipantBuzzed(my_id),
        ),
        crate::session::operation_message(my_id, "reset_buzzers"@, value) == Some(
            RoomMessageView::ResetBuzzers(my_id),
        ),
        crate::session::operation_message(my_id, "set_buzzer_lock"@, value) == Some(
            RoomMessageView::SetLockState(my_id, value == "true"@),
        ),
        crate::session::operation_message(my_id, "set_mode"@, "first_to_buzz"@) == Some(
            RoomMessageView::SetRoomMode(my_id, RoomMode::FirstToBuzz),
        ),
        crate::session::operation_message(my_id, "set_mode"@, "buzz_race"@) == Some(
            RoomMessageView::SetRoomMode(my_id, RoomMode::BuzzerRace),
        ),
{
    reveal_strlit("set_name");
    reveal_strlit("buzzer_hit");
    reveal_strlit("reset_buzzers");
    reveal_strlit("set_buzzer_lock");
    reveal_strlit("set_mode");
    reveal_strlit("first_to_buzz");
    reveal_strlit("buzz_race");
    assert("set_name"@.len() == 8 && "set_mode"@.len() == 8 && "buzzer_hit"@.len() == 10);
    assert("reset_buzzers"@.len() == 13 && "set_buzzer_lock"@.len() == 15);
    assert("first_to_buzz"@.len() == 13 && "buzz_race"@.len() == 9);
    assert("set_name"@[4] != "set_mode"@[4]);
}

} // verus!
