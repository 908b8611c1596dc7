//! What can be relied on in the lobby.

use vstd::prelude::*;

use crate::lobby::RoomRequest;

verus! {

/// An open room is found by its id: who gives it as a hint, in decimal, asks
/// for this room, and who asks whether it exists is told that it does.
pub proof fn law_a_room_is_found_by_its_id<T>(
    rooms: Map<u32, T>,
    id: u32,
    params: Map<Seq<char>, Seq<char>>,
)
    requires
        rooms.contains_key(id),
        params.contains_key("room_id"@),
        params["room_id"@] == crate::text::decimal(id as nat),
    ensures
        crate::lobby::requested_room(crate::text::decimal(id as nat)) == RoomRequest::Join(id),
        crate::lobby::asks_for_open_room(params, rooms),
{
    crate::text::law_decimal_is_read_back(id);
    crate::text::law_decimal_value(id as nat);
    reveal_strlit("new");
    assert("new"@[0] == 'n');
    assert(crate::text::is_digit(crate::text::decimal(id as nat)[0]));
}

/// The hint of a query is the value of its parameter `room`, whatever that is;
/// so who gives the number of a room there, in decimal, asks for this room.
pub proof fn law_a_query_asks_for_its_room(params: Map<Seq<char>, Seq<char>>, id: u32)
    requires
        params.contains_key("room"@),
    ensures
        crate::lobby::hint_in(params) == params["room"@],
        params["room"@] == crate::text::decimal(id as nat) ==> crate::lobby::requested_room(
            crate::lobby::hint_in(params),
        ) == RoomRequest::Join(id),
{
    crate::text::law_decimal_is_read_back(id);
    crate::text::law_decimal_value(id as nat);
    reveal_strlit("new");
    assert("new"@[0] == 'n');
    assert(crate::text::is_digit(crate::text::decimal(id as nat)[0]));
}

/// A room that is closed is no longer found, by its id or otherwise; a query
/// that asks for another room is answered as before.
pub proof fn law_a_closed_room_is_gone<T>(
    rooms: Map<u32, T>,
    id: u32,
    params: Map<Seq<char>, Seq<char>>,
)
    requires
        params.contains_key("room_id"@),
    ensures
        !rooms.remove(id).contains_key(id),
        crate::text::parsed_u32(params["room_id"@]) == Some(id)
            ==> !crate::lobby::asks_for_open_room(params, rooms.remove(id)),
        crate::text::parsed_u32(params["room_id"@]) != Some(id)
            ==> crate::lobby::asks_for_open_room(params, rooms.remove(id))
            == crate::lobby::asks_for_open_room(params, rooms),
{
}

/// A new room disturbs no open room: who opens one under a free id, such as the
/// lobby gives for new rooms, finds every other room as it was, and whoever asks
/// for another room is answered as before.
pub proof fn law_a_new_room_disturbs_no_other<T>(
    rooms: Map<u32, T>,
    id: u32,
    entrance: T,
    params: Map<Seq<char>, Seq<char>>,
)
    requires
        crate::lobby::is_free_id(rooms, id),
    ensures
        rooms.submap_of(rooms.insert(id, entrance)),
        forall|other: u32|
            other != id ==> (#[trigger] rooms.insert(id, entrance).contains_key(other)
                <==> rooms.contains_key(other)),
        rooms.insert(id, entrance).contains_key(id) && rooms.insert(id, entrance)[id] == entrance,
        params.contains_key("room_id"@) && crate::text::parsed_u32(params["room_id"@]) != Some(id)
            ==> crate::lobby::asks_for_open_room(params, rooms.insert(id, entrance))
            == crate::lobby::asks_for_open_room(params, rooms),
        rooms.insert(id, entrance).remove(id) == rooms,
{
    law_opening_and_closing_cancel(rooms, id, entrance);
}

/// Where rooms are opened under free ids, all of them have numbers that a room
/// can get, and closing a room changes nothing about that.
pub proof fn law_rooms_have_room_ids<T>(rooms: Map<u32, T>, id: u32, entrance: T, closed: u32)
    requires
        forall|n: u32| #[trigger] rooms.contains_key(n) ==> crate::lobby::is_room_id(n),
        crate::lobby::is_free_id(rooms, id),
    ensures
        forall|n: u32| #[trigger]
            rooms.insert(id, entrance).contains_key(n) ==> crate::lobby::is_room_id(n),
        forall|n: u32| #[trigger]
            rooms.remove(closed).contains_key(n) ==> crate::lobby::is_room_id(n),
{
}

/// A room that is opened under a free id and closed again leaves the lobby as
/// it was.
pub proof fn law_opening_and_closing_cancel<T>(rooms: Map<u32, T>, id: u32, entrance: T)
    requires
        !rooms.contains_key(id),
    ensures
        rooms.insert(id, entrance).remove(id) == rooms,
{
    assert(rooms.insert(id, entrance).remove(id) =~= rooms);
}

/// Where all rooms have ids that were drawn for them, a hint that is neither
/// `new` nor a number leads into no room.
pub proof fn law_nonsense_leads_nowhere<T>(rooms: Map<u32, T>, hint: Seq<char>)
    requires
        forall|id: u32| #[trigger] rooms.contains_key(id) ==> crate::lobby::is_room_id(id),
        hint != "new"@,
        crate::text::parsed_u32(hint) is None,
    ensures
        crate::lobby::requested_room(hint) matches RoomRequest::Join(id)
            && !rooms.contains_key(id),
{
}

/// A query without a room leads into no room either.
pub proof fn law_no_hint_leads_nowhere<T>(
    rooms: Map<u32, T>,
    params: Map<Seq<char>, Seq<char>>,
)
    requires
        forall|id: u32| #[trigger] rooms.contains_key(id) ==> crate::lobby::is_room_id(id),
        !params.contains_key("room"@),
    ensures
        crate::lobby::requested_room(crate::lobby::hint_in(params)) matches RoomRequest::Join(id)
            && !rooms.contains_key(id),
{
    reveal_strlit("none");
    reveal_strlit("new");
    assert("none"@.len() == 4 && "new"@.len() == 3);
    assert("none"@[0] == 'n');
    assert(!crate::text::is_digit("none"@[0]));
    law_nonsense_leads_nowhere(rooms, "none"@);
}

/// The id that is handed out after `n` others.
pub open spec fn nth_player_id(n: nat) -> u32
    decreases n,
{
    if n == 0 {
        crate::lobby::FIRST_PLAYER_ID
    } else {
        crate::lobby::next_player_id(nth_player_id((n - 1) as nat))
    }
}

/// Player ids count up from the first, and begin again at 0 after the largest.
pub proof fn law_player_ids_count_up(n: nat)
    ensures
        nth_player_id(n) == (crate::lobby::FIRST_PLAYER_ID + n) % 0x1_0000_0000,
    decreases n,
{
    if n > 0 {
        law_player_ids_count_up((n - 1) as nat);
    }
}

/// Two players have different ids, unless all the other ids were handed out
/// between them.
pub proof fn law_player_ids_differ(m: nat, n: nat)
    requires
        m < n < m + 0x1_0000_0000,
    ensures
        nth_player_id(m) != nth_player_id(n),
{
    law_player_ids_count_up(m);
    law_player_ids_count_up(n);
}

} // verus!
