//! What a message changes in a room, and what it leaves: for each thing that
//! there is about a room, what it is after [`RoomState::handle`] has taken a
//! message, and after each of the steps that it is made of.

use vstd::prelude::*;

use crate::room::{Broadcast, Reaction, RoomMessage, RoomState};

verus! {

/// A new room has its number, nobody in it, no captain and no buzzes; it is
/// open, and the first to buzz will lock it.
pub proof fn law_a_new_room_is_bare(room_id: u32, room: RoomState, p: u32)
    requires
        call_ensures(RoomState::new, (room_id,), room),
    ensures
        room.room_id == room_id,
        !room.participants@.contains_key(p),
        room.room_captain is None,
        room.room_mode is FirstToBuzz,
        !room.room_locked,
        room.activated_buzzers@.len() == 0,
{
    assert(!room@.participants.contains_key(p));
}

/// A room takes every message, whatever state it is in.
pub proof fn law_every_message_is_taken(room: &mut RoomState, message: RoomMessage)
    ensures
        call_requires(RoomState::handle, (room, message)),
{
}

/// Whatever is sent into a room, it keeps its number.
pub proof fn law_a_room_keeps_its_number(
    room: &mut RoomState,
    message: RoomMessage,
    reaction: Reaction,
)
    requires
        call_ensures(RoomState::handle, (room, message), reaction),
    ensures
        final(room).room_id == old(room).room_id,
{
}

/// People get into a room by coming in, and out of it by leaving; no other
/// message, and no message of anybody else, changes whether someone is there.
pub proof fn law_who_is_in_a_room(
    room: &mut RoomState,
    message: RoomMessage,
    reaction: Reaction,
    p: u32,
)
    requires
        call_ensures(RoomState::handle, (room, message), reaction),
    ensures
        message == RoomMessage::ParticipantJoined(p) ==> final(room).participants@.contains_key(p),
        message == RoomMessage::ParticipantQuit(p) ==> !final(room).participants@.contains_key(p),
        message != RoomMessage::ParticipantJoined(p) && message != RoomMessage::ParticipantQuit(p)
            ==> (final(room).participants@.contains_key(p)
            <==> old(room).participants@.contains_key(p)),
{
    assert(final(room)@.participants.contains_key(p) <==> final(room).participants@.contains_key(
        p,
    ));
    assert(old(room)@.participants.contains_key(p) <==> old(room).participants@.contains_key(p));
}

/// Whoever comes in is called "New Player", whoever is in a room and takes a
/// name has it, and every other name stays what it was.
pub proof fn law_what_people_are_called(
    room: &mut RoomState,
    message: RoomMessage,
    reaction: Reaction,
    p: u32,
)
    requires
        call_ensures(RoomState::handle, (room, message), reaction),
    ensures
        message == RoomMessage::ParticipantJoined(p) ==> final(room).participants@[p].name@
            == "New Player"@,
        message matches RoomMessage::ParticipantSetName(id, name) ==> id == p
            ==> old(room).participants@.contains_key(p) ==> final(room).participants@[p].name@
            == name@,
        final(room).participants@.contains_key(p) && message != RoomMessage::ParticipantJoined(p)
            && !(message matches RoomMessage::ParticipantSetName(id, _) && id == p)
            ==> final(room).participants@[p].name@ == old(room).participants@[p].name@,
{
    assert(final(room)@.participants.contains_key(p) <==> final(room).participants@.contains_key(
        p,
    ));
    assert(old(room)@.participants.contains_key(p) <==> old(room).participants@.contains_key(p));
    assert(final(room).participants@.contains_key(p) ==> final(room)@.participants[p]
        == final(room).participants@[p].name@);
    assert(old(room).participants@.contains_key(p) ==> old(room)@.participants[p]
        == old(room).participants@[p].name@);
}

/// A room is locked by the buzz that is first where only the first counts, and
/// locked or unlocked by its captain, as they say. Nothing else touches the
/// lock: neither who comes nor who leaves, nor what anybody else says.
pub proof fn law_what_locks_a_room(
    room: &mut RoomState,
    message: RoomMessage,
    reaction: Reaction,
)
    requires
        call_ensures(RoomState::handle, (room, message), reaction),
    ensures
        message matches RoomMessage::SetLockState(id, state) ==> old(room).room_captain == Some(id)
            ==> final(room).room_locked == state,
        message is ParticipantBuzzed && old(room).room_mode is FirstToBuzz
            && old(room).activated_buzzers@.len() == 0 ==> final(room).room_locked,
        final(room).room_locked != old(room).room_locked ==> {
            ||| message matches RoomMessage::SetLockState(id, state) && old(room).room_captain
                == Some(id) && final(room).room_locked == state
            ||| message is ParticipantBuzzed && old(room).room_mode is FirstToBuzz
                && old(room).activated_buzzers@.len() == 0 && final(room).room_locked
        },
{
}

/// The mode of a room is the one that its captain sets, and changes in no other
/// way.
pub proof fn law_what_sets_the_mode(
    room: &mut RoomState,
    message: RoomMessage,
    reaction: Reaction,
)
    requires
        call_ensures(RoomState::handle, (room, message), reaction),
    ensures
        message matches RoomMessage::SetRoomMode(id, mode) ==> old(room).room_captain == Some(id)
            ==> final(room).room_mode == mode,
        final(room).room_mode != old(room).room_mode ==> (
        message matches RoomMessage::SetRoomMode(id, mode) && old(room).room_captain == Some(id)
            && final(room).room_mode == mode),
{
}

/// A buzz is listed behind the others if the room is open, its sender is not
/// listed yet and, where only the first counts, nobody is. The captain's reset
/// clears the list, and who leaves is taken out of it. It changes in no other
/// way.
pub proof fn law_what_changes_the_buzzes(
    room: &mut RoomState,
    message: RoomMessage,
    reaction: Reaction,
)
    requires
        call_ensures(RoomState::handle, (room, message), reaction),
    ensures
        message matches RoomMessage::ParticipantBuzzed(id) ==> final(room).activated_buzzers@
            == if old(room).room_locked || old(room).activated_buzzers@.contains(id) || old(room).room_mode is FirstToBuzz && old(room).activated_buzzers@.len() > 0 {
            old(room).activated_buzzers@
        } else {
            old(room).activated_buzzers@.push(id)
        },
        message matches RoomMessage::ResetBuzzers(id) ==> old(room).room_captain == Some(id)
            ==> final(room).activated_buzzers@.len() == 0,
        message matches RoomMessage::ParticipantQuit(id) ==> forall|i: int|
            0 <= i < old(room).activated_buzzers@.len() && #[trigger] old(room).activated_buzzers@[i] == id && (forall|j: int|
                0 <= j < i ==> old(room).activated_buzzers@[j] != id)
                ==> final(room).activated_buzzers@ == old(room).activated_buzzers@.remove(i),
        message matches RoomMessage::ParticipantQuit(id) ==> !old(room).activated_buzzers@.contains(id) ==> final(room).activated_buzzers@ == old(room).activated_buzzers@,
        final(room).activated_buzzers@ != old(room).activated_buzzers@ ==> {
            ||| message is ParticipantBuzzed
            ||| message is ParticipantQuit
            ||| message matches RoomMessage::ResetBuzzers(id) && old(room).room_captain == Some(id)
        },
{
    if let RoomMessage::ParticipantQuit(id) = message {
        old(room).activated_buzzers@.index_of_first_ensures(id);
        assert forall|i: int|
            0 <= i < old(room).activated_buzzers@.len() && #[trigger] old(room).activated_buzzers@[i] == id && (forall|j: int|
                0 <= j < i ==> old(room).activated_buzzers@[j] != id) implies final(room).activated_buzzers@ == old(room).activated_buzzers@.remove(i) by {
            assert(old(room).activated_buzzers@.index_of_first(id) == Some(i));
        }
    }
}

/// Who comes into a room where nobody else is becomes its captain. A captain
/// who leaves is followed by someone who is still there, or by nobody where
/// nobody is. Nothing else changes who is captain.
pub proof fn law_who_becomes_captain(
    room: &mut RoomState,
    message: RoomMessage,
    reaction: Reaction,
)
    requires
        call_ensures(RoomState::handle, (room, message), reaction),
    ensures
        message matches RoomMessage::ParticipantJoined(id) ==> final(room).room_captain == if (
        forall|p: u32| #[trigger] old(room).participants@.contains_key(p) ==> p == id) {
            Some(id)
        } else {
            old(room).room_captain
        },
        message matches RoomMessage::ParticipantQuit(id) ==> old(room).room_captain == Some(id)
            ==> match final(room).room_captain {
            Some(captain) => captain != id && old(room).participants@.contains_key(captain),
            None => forall|p: u32| #[trigger]
                old(room).participants@.contains_key(p) ==> p == id,
        },
        final(room).room_captain != old(room).room_captain ==> {
            ||| message is ParticipantJoined
            ||| message matches RoomMessage::ParticipantQuit(id) && old(room).room_captain == Some(
                id,
            )
        },
{
    assert forall|p: u32| #[trigger] old(room).participants@.contains_key(p) <==> old(room)@.participants.contains_key(p) by {}
    assert forall|p: u32| #[trigger] old(room)@.participants.contains_key(p) <==> old(room).participants@.contains_key(p) by {}
    if let RoomMessage::ParticipantQuit(id) = message {
        assert forall|p: u32| #[trigger] old(room).participants@.contains_key(p) && p
            != id implies final(room)@.participants.contains_key(p) by {}
    }
}

/// Everybody is told the new state when someone comes, leaves or takes a name,
/// when a buzz counts, and when the captain rules. A heartbeat is passed on.
/// Of anything else nobody hears.
pub proof fn law_what_everybody_is_told(
    room: &mut RoomState,
    message: RoomMessage,
    reaction: Reaction,
)
    requires
        call_ensures(RoomState::handle, (room, message), reaction),
    ensures
        reaction.broadcast == Broadcast::Ping <==> message is Ping,
        message is ParticipantJoined || message is ParticipantQuit || message is ParticipantSetName
            ==> reaction.broadcast == Broadcast::State,
        message is NewRoomState ==> reaction.broadcast == Broadcast::Nothing,
        message is ParticipantBuzzed ==> (reaction.broadcast == Broadcast::State
            <==> final(room).activated_buzzers@.len() > old(room).activated_buzzers@.len()),
        message matches RoomMessage::ResetBuzzers(id) ==> (reaction.broadcast == Broadcast::State
            <==> old(room).room_captain == Some(id)),
        message matches RoomMessage::SetLockState(id, _) ==> (reaction.broadcast
            == Broadcast::State <==> old(room).room_captain == Some(id)),
        message matches RoomMessage::SetRoomMode(id, _) ==> (reaction.broadcast
            == Broadcast::State <==> old(room).room_captain == Some(id)),
{
}

/// A room is over when nobody is in it after a message, and only then.
pub proof fn law_when_a_room_is_over(
    room: &mut RoomState,
    message: RoomMessage,
    reaction: Reaction,
)
    requires
        call_ensures(RoomState::handle, (room, message), reaction),
    ensures
        reaction.closes <==> forall|p: u32| !#[trigger] final(room).participants@.contains_key(p),
{
    assert forall|p: u32| #[trigger] final(room).participants@.contains_key(p) <==> final(room)@.participants.contains_key(p) by {}
    assert forall|p: u32| #[trigger] final(room)@.participants.contains_key(p) <==> final(room).participants@.contains_key(p) by {}
}

/// Coming in concerns who comes, and nobody and nothing else but who is captain
/// of a room that was empty.
pub proof fn law_coming_in(room: &mut RoomState, id: u32, p: u32)
    requires
        call_ensures(RoomState::participant_joined, (room, id), ()),
    ensures
        final(room).participants@.contains_key(p) <==> p == id || old(
            room
        ).participants@.contains_key(p),
        final(room).participants@[id].name@ == "New Player"@,
        p != id && old(room).participants@.contains_key(p) ==> final(room).participants@[p].name@
            == old(room).participants@[p].name@,
        final(room).room_captain == if (forall|q: u32| #[trigger]
            old(room).participants@.contains_key(q) ==> q == id) {
            Some(id)
        } else {
            old(room).room_captain
        },
        final(room).room_id == old(room).room_id,
        final(room).room_mode == old(room).room_mode,
        final(room).room_locked == old(room).room_locked,
        final(room).activated_buzzers@ == old(room).activated_buzzers@,
{
    assert forall|q: u32| #[trigger] old(room).participants@.contains_key(q) <==> old(
        room
    )@.participants.contains_key(q) by {}
    assert forall|q: u32| #[trigger] old(room)@.participants.contains_key(q) <==> old(
        room
    ).participants@.contains_key(q) by {}
    assert(final(room)@.participants.contains_key(p) <==> final(room).participants@.contains_key(
        p,
    ));
    assert(final(room)@.participants.contains_key(id));
    assert(final(room)@.participants[id] == final(room).participants@[id].name@);
    assert(final(room).participants@.contains_key(p) ==> final(room)@.participants[p]
        == final(room).participants@[p].name@);
    assert(old(room).participants@.contains_key(p) ==> old(room)@.participants[p] == old(
        room
    ).participants@[p].name@);
}

/// Leaving concerns who leaves, and nobody and nothing else but who is captain
/// in their place.
pub proof fn law_leaving(room: &mut RoomState, id: u32, p: u32)
    requires
        call_ensures(RoomState::participant_quit, (room, id), ()),
    ensures
        final(room).participants@.contains_key(p) <==> p != id && old(
            room
        ).participants@.contains_key(p),
        final(room).participants@.contains_key(p) ==> final(room).participants@[p].name@ == old(
            room
        ).participants@[p].name@,
        old(room).room_captain != Some(id) ==> final(room).room_captain == old(room).room_captain,
        old(room).room_captain == Some(id) ==> match final(room).room_captain {
            Some(captain) => captain != id && old(room).participants@.contains_key(captain),
            None => forall|q: u32| #[trigger]
                old(room).participants@.contains_key(q) ==> q == id,
        },
        final(room).room_id == old(room).room_id,
        final(room).room_mode == old(room).room_mode,
        final(room).room_locked == old(room).room_locked,
        forall|i: int|
            0 <= i < old(room).activated_buzzers@.len() && #[trigger] old(
                room
            ).activated_buzzers@[i] == id && (forall|j: int|
                0 <= j < i ==> old(room).activated_buzzers@[j] != id)
                ==> final(room).activated_buzzers@ == old(room).activated_buzzers@.remove(i),
        !old(room).activated_buzzers@.contains(id) ==> final(room).activated_buzzers@ == old(
            room
        ).activated_buzzers@,
{
    old(room).activated_buzzers@.index_of_first_ensures(id);
    assert forall|i: int|
        0 <= i < old(room).activated_buzzers@.len() && #[trigger] old(room).activated_buzzers@[i]
            == id && (forall|j: int| 0 <= j < i ==> old(room).activated_buzzers@[j]
            != id) implies final(room).activated_buzzers@ == old(room).activated_buzzers@.remove(
        i,
    ) by {
        assert(old(room).activated_buzzers@.index_of_first(id) == Some(i));
    }
    assert forall|q: u32| #[trigger] old(room).participants@.contains_key(q) <==> old(
        room
    )@.participants.contains_key(q) by {}
    assert forall|q: u32| #[trigger] old(room)@.participants.contains_key(q) <==> old(
        room
    ).participants@.contains_key(q) by {}
    assert forall|q: u32| #[trigger] old(room).participants@.contains_key(q) && q
        != id implies final(room)@.participants.contains_key(q) by {}
    assert(final(room)@.participants.contains_key(p) <==> final(room).participants@.contains_key(
        p,
    ));
    assert(final(room).participants@.contains_key(p) ==> final(room)@.participants[p]
        == final(room).participants@[p].name@);
    assert(old(room).participants@.contains_key(p) ==> old(room)@.participants[p] == old(
        room
    ).participants@[p].name@);
}

/// Settling what someone left behind takes their buzz out of the list and puts
/// the successor in their place as captain, where they had one; it does nothing
/// else.
pub proof fn law_settling(room: &mut RoomState, id: u32, successor: Option<u32>, p: u32)
    requires
        call_ensures(RoomState::settle_quit, (room, id, successor), ()),
    ensures
        final(room).participants@.contains_key(p) <==> old(room).participants@.contains_key(p),
        old(room).participants@.contains_key(p) ==> final(room).participants@[p].name@ == old(
            room
        ).participants@[p].name@,
        old(room).room_captain == Some(id) ==> final(room).room_captain == successor,
        old(room).room_captain != Some(id) ==> final(room).room_captain == old(room).room_captain,
        final(room).room_id == old(room).room_id,
        final(room).room_mode == old(room).room_mode,
        final(room).room_locked == old(room).room_locked,
        forall|i: int|
            0 <= i < old(room).activated_buzzers@.len() && #[trigger] old(
                room
            ).activated_buzzers@[i] == id && (forall|j: int|
                0 <= j < i ==> old(room).activated_buzzers@[j] != id)
                ==> final(room).activated_buzzers@ == old(room).activated_buzzers@.remove(i),
        !old(room).activated_buzzers@.contains(id) ==> final(room).activated_buzzers@ == old(
            room
        ).activated_buzzers@,
{
    old(room).activated_buzzers@.index_of_first_ensures(id);
    assert forall|i: int|
        0 <= i < old(room).activated_buzzers@.len() && #[trigger] old(room).activated_buzzers@[i]
            == id && (forall|j: int| 0 <= j < i ==> old(room).activated_buzzers@[j]
            != id) implies final(room).activated_buzzers@ == old(room).activated_buzzers@.remove(
        i,
    ) by {
        assert(old(room).activated_buzzers@.index_of_first(id) == Some(i));
    }
    assert(final(room)@.participants.contains_key(p) <==> final(room).participants@.contains_key(
        p,
    ));
    assert(old(room)@.participants.contains_key(p) <==> old(room).participants@.contains_key(p));
    assert(final(room).participants@.contains_key(p) ==> final(room)@.participants[p]
        == final(room).participants@[p].name@);
    assert(old(room).participants@.contains_key(p) ==> old(room)@.participants[p] == old(
        room
    ).participants@[p].name@);
}

/// Taking a name concerns who takes it, if they are in the room, and nothing
/// else.
pub proof fn law_taking_a_name(room: &mut RoomState, id: u32, new_name: String, p: u32)
    requires
        call_ensures(RoomState::participant_set_name, (room, id, new_name), ()),
    ensures
        final(room).participants@.contains_key(p) <==> old(room).participants@.contains_key(p),
        old(room).participants@.contains_key(p) && p == id
            ==> final(room).participants@[p].name@ == new_name@,
        old(room).participants@.contains_key(p) && p != id
            ==> final(room).participants@[p].name@ == old(room).participants@[p].name@,
        final(room).room_captain == old(room).room_captain,
        final(room).room_id == old(room).room_id,
        final(room).room_mode == old(room).room_mode,
        final(room).room_locked == old(room).room_locked,
        final(room).activated_buzzers@ == old(room).activated_buzzers@,
{
    assert(final(room)@.participants.contains_key(p) <==> final(room).participants@.contains_key(
        p,
    ));
    assert(old(room)@.participants.contains_key(p) <==> old(room).participants@.contains_key(p));
    assert(old(room)@.participants.contains_key(id) <==> old(room).participants@.contains_key(id));
    assert(final(room).participants@.contains_key(p) ==> final(room)@.participants[p]
        == final(room).participants@[p].name@);
    assert(old(room).participants@.contains_key(p) ==> old(room)@.participants[p] == old(
        room
    ).participants@[p].name@);
}

/// A buzz counts exactly if it is then listed, and where only the first counts
/// it locks the room; it does nothing else.
pub proof fn law_buzzing(room: &mut RoomState, id: u32, counted: bool, p: u32)
    requires
        call_ensures(RoomState::participant_buzzed, (room, id), counted),
    ensures
        counted <==> !old(room).room_locked && !old(room).activated_buzzers@.contains(id) && (old(
            room
        ).room_mode is FirstToBuzz ==> old(room).activated_buzzers@.len() == 0),
        final(room).activated_buzzers@ == if counted {
            old(room).activated_buzzers@.push(id)
        } else {
            old(room).activated_buzzers@
        },
        final(room).room_locked <==> old(room).room_locked || counted && old(
            room
        ).room_mode is FirstToBuzz,
        final(room).participants@.contains_key(p) <==> old(room).participants@.contains_key(p),
        old(room).participants@.contains_key(p) ==> final(room).participants@[p].name@ == old(
            room
        ).participants@[p].name@,
        final(room).room_captain == old(room).room_captain,
        final(room).room_id == old(room).room_id,
        final(room).room_mode == old(room).room_mode,
{
    assert(final(room)@.participants.contains_key(p) <==> final(room).participants@.contains_key(
        p,
    ));
    assert(old(room)@.participants.contains_key(p) <==> old(room).participants@.contains_key(p));
    assert(final(room).participants@.contains_key(p) ==> final(room)@.participants[p]
        == final(room).participants@[p].name@);
    assert(old(room).participants@.contains_key(p) ==> old(room)@.participants[p] == old(
        room
    ).participants@[p].name@);
}

/// Who is asked whether they are captain is told the truth, and whoever is
/// picked from a room is in it.
pub proof fn law_asking_about_a_room(room: RoomState, id: u32, captain: bool, found: Option<u32>)
    requires
        call_ensures(RoomState::is_captain, (&room, id), captain),
        call_ensures(RoomState::any_participant, (&room,), found),
    ensures
        captain <==> room.room_captain == Some(id),
        found is Some ==> room.participants@.contains_key(found->0),
        found is None ==> forall|p: u32| !#[trigger] room.participants@.contains_key(p),
{
    if let Some(someone) = found {
        assert(room@.participants.contains_key(someone));
    } else {
        assert forall|p: u32| !#[trigger] room.participants@.contains_key(p) by {
            assert(!room@.participants.contains_key(p));
        }
    }
}

} // verus!
