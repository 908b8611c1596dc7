//! What can be relied on in a room, whatever is sent into it.

use vstd::prelude::*;

use crate::room::{Broadcast, RoomMessageView, RoomMode, RoomView};

verus! {

/// `rooms` is what becomes of a room while it takes `messages`, one by one.
pub open spec fn is_history(rooms: Seq<RoomView>, messages: Seq<RoomMessageView>) -> bool {
    &&& rooms.len() == messages.len() + 1
    &&& forall|i: int|
        0 <= i < messages.len() ==> #[trigger] rooms[i].steps_to(messages[i], rooms[i + 1])
}

/// A room that was opened is well-formed for good, and keeps its number.
pub proof fn law_rooms_stay_wf(
    room_id: u32,
    rooms: Seq<RoomView>,
    messages: Seq<RoomMessageView>,
    n: int,
)
    requires
        is_history(rooms, messages),
        rooms[0] == RoomView::opened(room_id),
        0 <= n < rooms.len(),
    ensures
        rooms[n].wf(),
        rooms[n].room_id == room_id,
    decreases n,
{
    if n > 0 {
        law_rooms_stay_wf(room_id, rooms, messages, n - 1);
        assert(rooms[n - 1].steps_to(messages[n - 1], rooms[n - 1 + 1]));
        crate::room::law_steps_keep_wf(rooms[n - 1], messages[n - 1], rooms[n]);
    }
}

/// All of a room's state is public: whenever anything about a room changes,
/// everybody in it is sent the new state.
pub proof fn law_changes_are_broadcast(
    room: RoomView,
    message: RoomMessageView,
    next: RoomView,
)
    requires
        room.steps_to(message, next),
        next != room,
    ensures
        room.broadcast(message) == Broadcast::State,
{
}

/// Heartbeats, and what rooms send out, change nothing in a room.
pub proof fn law_heartbeats_change_nothing(
    room: RoomView,
    message: RoomMessageView,
    next: RoomView,
)
    requires
        room.steps_to(message, next),
        message.sender() is None,
    ensures
        next == room,
        room.broadcast(message) == if message is Ping {
            Broadcast::Ping
        } else {
            Broadcast::Nothing
        },
{
}

/// Only the captain resets the buzzers, locks the room or sets its mode: from
/// anybody else such a message changes nothing and nobody hears of it.
pub proof fn law_only_the_captain_rules(
    room: RoomView,
    message: RoomMessageView,
    next: RoomView,
)
    requires
        room.steps_to(message, next),
        message.is_captains(),
        room.room_captain != message.sender(),
    ensures
        next == room,
        room.broadcast(message) == Broadcast::Nothing,
{
}

/// What the captain says goes, and touches nothing else.
pub proof fn law_the_captain_is_obeyed(room: RoomView, message: RoomMessageView, next: RoomView)
    requires
        room.steps_to(message, next),
        message.is_captains(),
        room.room_captain == message.sender(),
    ensures
        room.broadcast(message) == Broadcast::State,
        next.room_id == room.room_id,
        next.participants == room.participants,
        next.room_captain == room.room_captain,
        next.activated_buzzers == if message is ResetBuzzers {
            Seq::empty()
        } else {
            room.activated_buzzers
        },
        next.room_locked == if message is SetLockState {
            message->SetLockState_1
        } else {
            room.room_locked
        },
        next.room_mode == if message is SetRoomMode {
            message->SetRoomMode_1
        } else {
            room.room_mode
        },
{
}

/// A captain remains captain until they leave.
pub proof fn law_the_captain_stays(
    room: RoomView,
    captain: u32,
    message: RoomMessageView,
    next: RoomView,
)
    requires
        room.wf(),
        room.room_captain == Some(captain),
        room.steps_to(message, next),
        message != RoomMessageView::ParticipantQuit(captain),
    ensures
        next.room_captain == Some(captain),
{
    if let RoomMessageView::ParticipantJoined(id) = message {
        assert(room.participants.contains_key(captain));
    }
}

/// Who comes into an empty room is its captain, and alone there.
pub proof fn law_the_first_is_captain(room: RoomView, id: u32, next: RoomView)
    requires
        room.is_empty(),
        room.steps_to(RoomMessageView::ParticipantJoined(id), next),
    ensures
        next.room_captain == Some(id),
        next.participants == Map::<u32, Seq<char>>::empty().insert(id, "New Player"@),
{
    assert forall|p: u32| #[trigger] room.participants.contains_key(p) implies p == id by {
        assert(!room.participants.contains_key(p));
    }
    assert forall|p: u32| next.participants.contains_key(p) <==> p == id by {
        assert(!room.participants.contains_key(p));
    }
    assert(next.participants =~= Map::<u32, Seq<char>>::empty().insert(id, "New Player"@));
}

/// Who leaves is gone: not among the participants, not the captain and not
/// among those who buzzed. The others keep their names, and those of them who
/// buzzed their order.
pub proof fn law_who_leaves_is_gone(room: RoomView, id: u32, next: RoomView)
    requires
        room.wf(),
        room.steps_to(RoomMessageView::ParticipantQuit(id), next),
    ensures
        !next.participants.contains_key(id),
        next.room_captain != Some(id),
        next.activated_buzzers == room.activated_buzzers.filter(|p: u32| p != id),
        forall|p: u32|
            p != id ==> (#[trigger] next.participants.contains_key(p)
                <==> room.participants.contains_key(p)),
        forall|p: u32|
            p != id && #[trigger] next.participants.contains_key(p) ==> next.participants[p]
                == room.participants[p],
{
    assert(!next.participants.contains_key(id));
    lemma_remove_is_filter(room.activated_buzzers, id);
}

/// A captain who leaves others behind is followed by one of them.
pub proof fn law_a_captain_is_followed(room: RoomView, captain: u32, other: u32, next: RoomView)
    requires
        room.room_captain == Some(captain),
        room.participants.contains_key(other),
        other != captain,
        room.steps_to(RoomMessageView::ParticipantQuit(captain), next),
    ensures
        next.room_captain matches Some(follower) && follower != captain
            && room.participants.contains_key(follower),
{
    assert(next.participants.contains_key(other));
}

/// Taking the only occurrence of a value out of a sequence filters it.
proof fn lemma_remove_is_filter(s: Seq<u32>, id: u32)
    requires
        s.no_duplicates(),
    ensures
        s.remove_value(id) == s.filter(|p: u32| p != id),
    decreases s.len(),
{
    let others = |p: u32| p != id;
    reveal(Seq::filter);
    s.index_of_first_ensures(id);
    if s.len() > 0 {
        let init = s.drop_last();
        init.index_of_first_ensures(id);
        lemma_remove_is_filter(init, id);
        if s.last() == id {
            assert(!init.contains(id));
            assert(s.remove_value(id) =~= init);
        } else {
            assert(s.contains(id) ==> init.contains(id)) by {
                if s.contains(id) {
                    let i = choose|i: int| 0 <= i < s.len() && s[i] == id;
                    assert(init[i] == id);
                }
            }
            assert(init.contains(id) ==> s.contains(id)) by {
                if init.contains(id) {
                    let i = choose|i: int| 0 <= i < init.len() && init[i] == id;
                    assert(s[i] == id);
                }
            }
            assert(s.remove_value(id) =~= init.remove_value(id).push(s.last()));
        }
    }
}

/// The room after the participants `ids` pressed the buzzer, in this order.
pub open spec fn after_buzzes(room: RoomView, ids: Seq<u32>) -> RoomView
    decreases ids.len(),
{
    if ids.len() == 0 {
        room
    } else {
        after_buzzes(room, ids.drop_last()).after_buzz(ids.last())
    }
}

/// A locked room takes no buzz, and a buzz counts but once.
pub proof fn law_no_buzz_when_locked_or_twice(room: RoomView, id: u32, next: RoomView)
    requires
        room.room_locked || room.activated_buzzers.contains(id),
        room.steps_to(RoomMessageView::ParticipantBuzzed(id), next),
    ensures
        next == room,
        room.broadcast(RoomMessageView::ParticipantBuzzed(id)) == Broadcast::Nothing,
{
}

/// First to buzz: of all who press the buzzer only the first gets to buzz, and
/// the room is locked from then on.
pub proof fn law_first_to_buzz_wins(room: RoomView, ids: Seq<u32>)
    requires
        room.room_mode is FirstToBuzz,
        !room.room_locked,
        room.activated_buzzers.len() == 0,
        ids.len() > 0,
    ensures
        after_buzzes(room, ids).activated_buzzers == seq![ids[0]],
        after_buzzes(room, ids).room_locked,
        after_buzzes(room, ids).room_mode is FirstToBuzz,
    decreases ids.len(),
{
    if ids.len() > 1 {
        law_first_to_buzz_wins(room, ids.drop_last());
    } else {
        assert(after_buzzes(room, ids.drop_last()) == room);
        assert(!room.activated_buzzers.contains(ids[0]));
        assert(room.activated_buzzers.push(ids[0]) =~= seq![ids[0]]);
    }
}

/// A captain makes the room a race by this message.
pub open spec fn starts_a_race(room: RoomView, message: RoomMessageView) -> bool {
    message matches RoomMessageView::SetRoomMode(id, mode) && mode is BuzzerRace
        && room.room_captain == Some(id)
}

/// A room takes a first buzz and no other, whatever else is sent into it: until
/// a captain makes it a race, at most one participant has buzzed.
pub proof fn law_at_most_one_buzzes(
    room_id: u32,
    rooms: Seq<RoomView>,
    messages: Seq<RoomMessageView>,
    n: int,
)
    requires
        is_history(rooms, messages),
        rooms[0] == RoomView::opened(room_id),
        0 <= n < rooms.len(),
        forall|i: int| 0 <= i < n ==> !starts_a_race(rooms[i], #[trigger] messages[i]),
    ensures
        rooms[n].room_mode == RoomMode::FirstToBuzz,
        rooms[n].activated_buzzers.len() <= 1,
    decreases n,
{
    if n > 0 {
        law_at_most_one_buzzes(room_id, rooms, messages, n - 1);
        assert(rooms[n - 1].steps_to(messages[n - 1], rooms[n - 1 + 1]));
        assert(!starts_a_race(rooms[n - 1], messages[n - 1]));
        if let RoomMessageView::ParticipantQuit(id) = messages[n - 1] {
            rooms[n - 1].activated_buzzers.index_of_first_ensures(id);
        }
    }
}

/// A message that takes back buzzes: the captain resets them, or someone who
/// buzzed leaves.
pub open spec fn takes_buzzes_back(room: RoomView, message: RoomMessageView) -> bool {
    match message {
        RoomMessageView::ResetBuzzers(id) => room.room_captain == Some(id),
        RoomMessageView::ParticipantQuit(id) => room.activated_buzzers.contains(id),
        _ => false,
    }
}

/// Buzzes stand, in their order, until they are taken back: later ones come
/// behind them.
pub proof fn law_buzzes_stand(
    rooms: Seq<RoomView>,
    messages: Seq<RoomMessageView>,
    m: int,
    n: int,
)
    requires
        is_history(rooms, messages),
        0 <= m <= n < rooms.len(),
        forall|i: int| m <= i < n ==> !takes_buzzes_back(rooms[i], #[trigger] messages[i]),
    ensures
        rooms[m].activated_buzzers.is_prefix_of(rooms[n].activated_buzzers),
    decreases n,
{
    if m < n {
        law_buzzes_stand(rooms, messages, m, n - 1);
        assert(rooms[n - 1].steps_to(messages[n - 1], rooms[n - 1 + 1]));
        assert(!takes_buzzes_back(rooms[n - 1], messages[n - 1]));
        if let RoomMessageView::ParticipantQuit(id) = messages[n - 1] {
            rooms[n - 1].activated_buzzers.index_of_first_ensures(id);
        }
        assert(rooms[n - 1].activated_buzzers.is_prefix_of(rooms[n].activated_buzzers));
    }
}

/// Buzzer race: everyone who presses the buzzer gets to buzz, once, and they
/// are listed in the order in which they first pressed it.
pub proof fn law_race_keeps_the_order(room: RoomView, ids: Seq<u32>)
    requires
        room.room_mode is BuzzerRace,
        !room.room_locked,
        room.activated_buzzers.len() == 0,
    ensures
        ({
            let listed = after_buzzes(room, ids).activated_buzzers;
            &&& listed.no_duplicates()
            &&& forall|id: u32| #[trigger] listed.contains(id) <==> ids.contains(id)
            &&& forall|i: int, j: int|
                0 <= i < j < listed.len() ==> ids.index_of_first(#[trigger] listed[i])->0
                    < ids.index_of_first(#[trigger] listed[j])->0
        }),
        !after_buzzes(room, ids).room_locked,
        after_buzzes(room, ids).room_mode is BuzzerRace,
    decreases ids.len(),
{
    if ids.len() > 0 {
        let init = ids.drop_last();
        let last = ids.last();
        law_race_keeps_the_order(room, init);
        let before = after_buzzes(room, init);
        let listed = after_buzzes(room, ids).activated_buzzers;
        assert forall|id: u32| #[trigger] listed.contains(id) <==> ids.contains(id) by {
            assert(ids =~= init.push(last));
            if ids.contains(id) && id != last {
                let i = choose|i: int| 0 <= i < ids.len() && ids[i] == id;
                assert(init[i] == id);
            }
            if init.contains(id) {
                let i = choose|i: int| 0 <= i < init.len() && init[i] == id;
                assert(ids[i] == id);
            }
            assert(ids[ids.len() - 1] == last);
            if before.activated_buzzers.contains(id) {
                let i = choose|i: int|
                    0 <= i < before.activated_buzzers.len() && before.activated_buzzers[i] == id;
                assert(listed[i] == id);
            }
            if !before.activated_buzzers.contains(last) {
                assert(listed[listed.len() - 1] == last);
            }
        }
        assert forall|i: int, j: int| 0 <= i < j < listed.len() implies ids.index_of_first(
            #[trigger] listed[i],
        )->0 < ids.index_of_first(#[trigger] listed[j])->0 by {
            lemma_first_index_in_prefix(ids, listed[i]);
            lemma_first_index_in_prefix(ids, listed[j]);
            assert(before.activated_buzzers[i] == listed[i]);
            assert(before.activated_buzzers.contains(listed[i]));
            if j < before.activated_buzzers.len() {
                assert(before.activated_buzzers[j] == listed[j]);
                assert(before.activated_buzzers.contains(listed[j]));
            } else {
                assert(listed[j] == last);
                assert(!init.contains(last));
                init.index_of_first_ensures(listed[i]);
            }
        }
    }
}

/// Where a value first occurs is decided by the prefix that holds it; where
/// only the last place holds it, it is there.
proof fn lemma_first_index_in_prefix(s: Seq<u32>, id: u32)
    requires
        s.len() > 0,
    ensures
        s.drop_last().contains(id) ==> s.index_of_first(id) == s.drop_last().index_of_first(id),
        !s.drop_last().contains(id) && s.last() == id ==> s.index_of_first(id) == Some(
            s.len() - 1,
        ),
{
    let init = s.drop_last();
    s.index_of_first_ensures(id);
    init.index_of_first_ensures(id);
    if init.contains(id) {
        let k = init.index_of_first(id)->0;
        assert(s[k] == id);
        let n = s.index_of_first(id)->0;
        if n < k {
            assert(init[n] == id);
        }
    } else if s.last() == id {
        assert(s[s.len() - 1] == id);
        let n = s.index_of_first(id)->0;
        if n < s.len() - 1 {
            assert(init[n] == id);
        }
    }
}

/// Who comes in finds the lock, the mode and the buzzes as they were, and is
/// called "New Player"; so do those who are there, and they keep their names.
pub proof fn law_who_comes_changes_little(room: RoomView, id: u32, next: RoomView, p: u32)
    requires
        room.steps_to(RoomMessageView::ParticipantJoined(id), next),
    ensures
        next.room_id == room.room_id,
        next.room_locked == room.room_locked,
        next.room_mode == room.room_mode,
        next.activated_buzzers == room.activated_buzzers,
        next.participants.contains_key(id) && next.participants[id] == "New Player"@,
        p != id ==> (next.participants.contains_key(p) <==> room.participants.contains_key(p)),
        p != id && room.participants.contains_key(p) ==> next.participants[p]
            == room.participants[p],
{
}

/// Who leaves leaves the lock and the mode as they were.
pub proof fn law_who_leaves_changes_little(room: RoomView, id: u32, next: RoomView)
    requires
        room.steps_to(RoomMessageView::ParticipantQuit(id), next),
    ensures
        next.room_id == room.room_id,
        next.room_locked == room.room_locked,
        next.room_mode == room.room_mode,
{
}

/// The mode changes only when the captain sets it. The lock changes only when
/// the captain sets it, or when the first buzz locks a room where only the first
/// counts.
pub proof fn law_lock_and_mode_are_the_captains(
    room: RoomView,
    message: RoomMessageView,
    next: RoomView,
)
    requires
        room.steps_to(message, next),
    ensures
        next.room_mode != room.room_mode ==> message is SetRoomMode && room.room_captain
            == message.sender() && next.room_mode == message->SetRoomMode_1,
        next.room_locked != room.room_locked ==> {
            ||| message is SetLockState && room.room_captain == message.sender()
                && next.room_locked == message->SetLockState_1
            ||| message is ParticipantBuzzed && room.room_mode is FirstToBuzz
                && room.activated_buzzers.len() == 0 && next.activated_buzzers.len() == 1
                && next.room_locked
        },
{
}

/// A lock holds whatever is sent, until the captain lifts it; while it holds,
/// nobody's buzz is added.
pub proof fn law_a_lock_holds(
    rooms: Seq<RoomView>,
    messages: Seq<RoomMessageView>,
    m: int,
    n: int,
    id: u32,
)
    requires
        is_history(rooms, messages),
        0 <= m <= n < rooms.len(),
        rooms[m].room_locked,
        forall|i: int|
            m <= i < n ==> !(#[trigger] messages[i] matches RoomMessageView::SetLockState(
                sender,
                state,
            ) && !state && rooms[i].room_captain == Some(sender)),
    ensures
        rooms[n].room_locked,
        rooms[n].activated_buzzers.contains(id) ==> rooms[m].activated_buzzers.contains(id),
    decreases n,
{
    if m < n {
        law_a_lock_holds(rooms, messages, m, n - 1, id);
        assert(rooms[n - 1].steps_to(messages[n - 1], rooms[n - 1 + 1]));
        assert(!(messages[n - 1] matches RoomMessageView::SetLockState(sender, state) && !state
            && rooms[n - 1].room_captain == Some(sender)));
        if let RoomMessageView::ParticipantQuit(gone) = messages[n - 1] {
            let before = rooms[n - 1].activated_buzzers;
            before.index_of_first_ensures(gone);
            if rooms[n].activated_buzzers.contains(id) {
                let i = choose|i: int|
                    0 <= i < rooms[n].activated_buzzers.len() && rooms[n].activated_buzzers[i]
                        == id;
                if before.contains(gone) && i >= before.index_of_first(gone)->0 {
                    assert(before[i + 1] == id);
                } else {
                    assert(before[i] == id);
                }
            }
        }
    }
}

/// The mode that a room has stays, whoever comes, leaves or buzzes, until the
/// captain sets another.
pub proof fn law_a_mode_holds(
    rooms: Seq<RoomView>,
    messages: Seq<RoomMessageView>,
    m: int,
    n: int,
)
    requires
        is_history(rooms, messages),
        0 <= m <= n < rooms.len(),
        forall|i: int|
            m <= i < n ==> !(#[trigger] messages[i] matches RoomMessageView::SetRoomMode(
                sender,
                mode,
            ) && rooms[i].room_captain == Some(sender) && mode != rooms[i].room_mode),
    ensures
        rooms[n].room_mode == rooms[m].room_mode,
    decreases n,
{
    if m < n {
        law_a_mode_holds(rooms, messages, m, n - 1);
        assert(rooms[n - 1].steps_to(messages[n - 1], rooms[n - 1 + 1]));
        assert(!(messages[n - 1] matches RoomMessageView::SetRoomMode(sender, mode)
            && rooms[n - 1].room_captain == Some(sender) && mode != rooms[n - 1].room_mode));
    }
}

/// A reset clears the buzzers and no more: a room that was locked stays locked.
/// Once the captain has unlocked it too, anybody's buzz counts.
pub proof fn law_reset_and_unlock_start_a_round(
    room: RoomView,
    captain: u32,
    reset: RoomView,
    unlocked: RoomView,
    id: u32,
)
    requires
        room.room_captain == Some(captain),
        room.steps_to(RoomMessageView::ResetBuzzers(captain), reset),
        reset.steps_to(RoomMessageView::SetLockState(captain, false), unlocked),
    ensures
        reset.room_locked == room.room_locked,
        room.room_locked ==> !reset.accepts_buzz(id),
        unlocked.accepts_buzz(id),
{
    assert(!unlocked.activated_buzzers.contains(id));
}

/// Everyone listed as having buzzed is in the room.
pub open spec fn buzzers_are_members(room: RoomView) -> bool {
    forall|id: u32| #[trigger]
        room.activated_buzzers.contains(id) ==> room.participants.contains_key(id)
}

/// A message of someone who is in the room, or comes in by it; or of nobody.
pub open spec fn from_a_member(room: RoomView, message: RoomMessageView) -> bool {
    match message.sender() {
        Some(id) => message is ParticipantJoined || room.participants.contains_key(id),
        None => true,
    }
}

/// As long as only members send, everyone listed as having buzzed is in the
/// room.
pub proof fn law_buzzers_are_members(
    room_id: u32,
    rooms: Seq<RoomView>,
    messages: Seq<RoomMessageView>,
    n: int,
)
    requires
        is_history(rooms, messages),
        rooms[0] == RoomView::opened(room_id),
        forall|i: int|
            0 <= i < messages.len() ==> from_a_member(rooms[i], #[trigger] messages[i]),
        0 <= n < rooms.len(),
    ensures
        buzzers_are_members(rooms[n]),
    decreases n,
{
    if n > 0 {
        law_buzzers_are_members(room_id, rooms, messages, n - 1);
        law_rooms_stay_wf(room_id, rooms, messages, n - 1);
        let room = rooms[n - 1];
        let message = messages[n - 1];
        let next = rooms[n];
        assert(rooms[n - 1].steps_to(message, rooms[n - 1 + 1]));
        assert forall|id: u32| #[trigger]
            next.activated_buzzers.contains(id) implies next.participants.contains_key(id) by {
            let i = choose|i: int|
                0 <= i < next.activated_buzzers.len() && next.activated_buzzers[i] == id;
            match message {
                RoomMessageView::ParticipantQuit(gone) => {
                    law_who_leaves_is_gone(room, gone, next);
                    room.activated_buzzers.index_of_first_ensures(gone);
                    room.activated_buzzers.lemma_filter_contains_rev(|p: u32| p != gone, id);
                    assert(room.activated_buzzers.contains(id));
                },
                RoomMessageView::ParticipantBuzzed(sender) => {
                    if id != sender {
                        assert(room.activated_buzzers[i] == id);
                        assert(room.activated_buzzers.contains(id));
                    }
                },
                _ => {
                    assert(room.activated_buzzers.contains(id));
                },
            }
        }
    }
}

/// Who came into a room is in it until they leave.
pub proof fn law_who_came_is_in(
    rooms: Seq<RoomView>,
    messages: Seq<RoomMessageView>,
    id: u32,
    came: int,
    n: int,
)
    requires
        is_history(rooms, messages),
        0 <= came < n < rooms.len(),
        messages[came] == RoomMessageView::ParticipantJoined(id),
        forall|i: int|
            came < i < n ==> #[trigger] messages[i] != RoomMessageView::ParticipantQuit(id),
    ensures
        rooms[n].participants.contains_key(id),
    decreases n,
{
    assert(rooms[n - 1].steps_to(messages[n - 1], rooms[n - 1 + 1]));
    if came < n - 1 {
        law_who_came_is_in(rooms, messages, id, came, n - 1);
        assert(messages[n - 1] != RoomMessageView::ParticipantQuit(id));
    }
    assert(rooms[n].participants.contains_key(id));
}

/// Everyone sends only between coming in and leaving.
pub open spec fn sent_in_turn(messages: Seq<RoomMessageView>) -> bool {
    forall|i: int| #![trigger messages[i]]
        0 <= i < messages.len() ==> match messages[i].sender() {
            Some(id) => messages[i] is ParticipantJoined || exists|came: int|
                came_before(messages, id, came, i),
            None => true,
        }
}

/// `id` came in with the message `came`, and has not left before the message
/// `n`.
pub open spec fn came_before(messages: Seq<RoomMessageView>, id: u32, came: int, n: int) -> bool {
    &&& 0 <= came < n
    &&& messages[came] == RoomMessageView::ParticipantJoined(id)
    &&& forall|i: int|
        came < i < n ==> #[trigger] messages[i] != RoomMessageView::ParticipantQuit(id)
}

/// As long as everyone sends only between coming in and leaving, everyone
/// listed as having buzzed is in the room.
pub proof fn law_proper_senders_are_members(
    room_id: u32,
    rooms: Seq<RoomView>,
    messages: Seq<RoomMessageView>,
    n: int,
)
    requires
        is_history(rooms, messages),
        rooms[0] == RoomView::opened(room_id),
        sent_in_turn(messages),
        0 <= n < rooms.len(),
    ensures
        buzzers_are_members(rooms[n]),
{
    assert forall|i: int| 0 <= i < messages.len() implies from_a_member(
        rooms[i],
        #[trigger] messages[i],
    ) by {
        if let Some(id) = messages[i].sender() {
            if !(messages[i] is ParticipantJoined) {
                let came = choose|came: int| came_before(messages, id, came, i);
                law_who_came_is_in(rooms, messages, id, came, i);
            }
        }
    }
    law_buzzers_are_members(room_id, rooms, messages, n);
}

/// Nobody but a participant changes that participant's name.
pub proof fn law_names_are_ones_own(
    room: RoomView,
    message: RoomMessageView,
    next: RoomView,
    id: u32,
)
    requires
        room.steps_to(message, next),
        room.participants.contains_key(id),
        message.sender() != Some(id),
    ensures
        next.participants.contains_key(id),
        next.participants[id] == room.participants[id],
{
}

/// Who takes a name has it, if they are in the room; who is not there does not
/// get in that way.
pub proof fn law_a_name_is_taken(room: RoomView, id: u32, name: Seq<char>, next: RoomView)
    requires
        room.steps_to(RoomMessageView::ParticipantSetName(id, name), next),
    ensures
        next.participants.dom() == room.participants.dom(),
        room.participants.contains_key(id) ==> next.participants[id] == name,
        !room.participants.contains_key(id) ==> next == room,
{
    assert(next.participants.dom() =~= room.participants.dom());
}

/// A room empties only when its last participant leaves; while anyone else is
/// in it, it goes on.
pub proof fn law_the_last_one_out_closes(room: RoomView, message: RoomMessageView, next: RoomView)
    requires
        !room.is_empty(),
        room.steps_to(message, next),
    ensures
        next.is_empty() <==> (message matches RoomMessageView::ParticipantQuit(id)
            && room.nobody_but(id)),
{
    let someone = choose|p: u32| room.participants.contains_key(p);
    match message {
        RoomMessageView::ParticipantQuit(id) => {
            if room.nobody_but(id) {
                assert forall|p: u32| !#[trigger] next.participants.contains_key(p) by {}
            } else {
                let other = choose|p: u32| room.participants.contains_key(p) && p != id;
                assert(next.participants.contains_key(other));
            }
        },
        _ => {
            assert(next.participants.contains_key(someone));
        },
    }
}

/// A room that nobody is in is closed by whatever is sent next, unless someone
/// comes in.
pub proof fn law_an_empty_room_waits_for_nobody(
    room: RoomView,
    message: RoomMessageView,
    next: RoomView,
)
    requires
        room.is_empty(),
        room.steps_to(message, next),
    ensures
        next.is_empty() <==> !(message is ParticipantJoined),
{
    if let RoomMessageView::ParticipantJoined(id) = message {
        assert(next.participants.contains_key(id));
    } else {
        assert forall|p: u32| !#[trigger] next.participants.contains_key(p) by {
            assert(!room.participants.contains_key(p));
        }
    }
}

} // verus!
