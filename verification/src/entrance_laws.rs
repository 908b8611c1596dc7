//! How people get into rooms: what comes of a query, of a hint and of a search
//! for a free number, call by call.

use std::collections::HashMap;

use vstd::prelude::*;

use crate::lobby::{Admission, CodeAttempt, Lobby, PlayerIds, Room, RoomRequest};
use crate::params::QueryParams;
use crate::text::{parse_u32, write_decimal};

verus! {

/// The hint of a query is the whole value of its parameter `room`, whatever
/// that is; without this parameter it is `none`.
pub proof fn law_the_hint_is_the_room(params: QueryParams, hint: String)
    requires
        call_ensures(crate::lobby::room_hint, (&params,), hint),
    ensures
        params@.contains_key("room"@) ==> hint@ == params@["room"@],
        !params@.contains_key("room"@) ==> hint@ == "none"@,
{
}

/// The last pair named `room` in a query is its hint.
pub proof fn law_the_last_room_is_the_hint(
    pairs: Vec<(String, String)>,
    params: QueryParams,
    hint: String,
    i: int,
)
    requires
        call_ensures(QueryParams::from_pairs, (pairs,), params),
        call_ensures(crate::lobby::room_hint, (&params,), hint),
        0 <= i < pairs@.len(),
        pairs@[i].0@ == "room"@,
        forall|j: int| i < j < pairs@.len() ==> (#[trigger] pairs@[j]).0@ != "room"@,
    ensures
        hint@ == pairs@[i].1@,
{
    let texts = crate::params::pair_texts(pairs@);
    assert(texts[i] == (pairs@[i].0@, pairs@[i].1@));
    assert forall|j: int| i < j < texts.len() implies (#[trigger] texts[j]).0 != texts[i].0 by {
        assert(pairs@[j].0@ != "room"@);
    }
    crate::params_laws::lemma_last_value(texts, i);
}

/// The hint `new` asks for a new room. Every other hint asks for the room whose
/// number it is, and for room 0 where it is none.
pub proof fn law_a_hint_is_read_as_a_number(
    hint: &str,
    request: RoomRequest,
    number: Option<u32>,
)
    requires
        call_ensures(crate::lobby::read_hint, (hint,), request),
        call_ensures(parse_u32, (hint,), number),
    ensures
        hint@ == "new"@ <==> request is New,
        hint@ != "new"@ && number is Some ==> request == RoomRequest::Join(number->0),
        hint@ != "new"@ && number is None ==> request == RoomRequest::Join(0),
{
}

/// Every number is a way to its room: written into a query as `room`, it is
/// asked for.
pub proof fn law_every_number_can_be_asked_for(
    id: u32,
    text: String,
    params: QueryParams,
    hint: String,
    copy: &str,
    request: RoomRequest,
)
    requires
        call_ensures(write_decimal, (id,), text),
        params@.contains_key("room"@),
        params@["room"@] == text@,
        call_ensures(crate::lobby::room_hint, (&params,), hint),
        copy@ == hint@,
        call_ensures(crate::lobby::read_hint, (copy,), request),
    ensures
        request == RoomRequest::Join(id),
{
    crate::text::law_decimal_is_read_back(id);
    crate::text::law_decimal_value(id as nat);
    reveal_strlit("new");
    assert("new"@[0] == 'n');
    assert(crate::text::is_digit(crate::text::decimal(id as nat)[0]));
}

/// A hint that is no `new` leads into the room whose number it is, if that room
/// is open, and nowhere otherwise; where it is no number, room 0 is meant.
pub proof fn law_where_a_hint_leads<T>(
    lobby: Lobby<T>,
    hint: &str,
    admission: Admission<'_, T>,
    number: Option<u32>,
)
    requires
        call_ensures(Lobby::<T>::lead, (&lobby, hint), admission),
        call_ensures(parse_u32, (hint,), number),
        hint@ != "new"@,
    ensures
        ({
            let id = if number is Some {
                number->0
            } else {
                0
            };
            &&& lobby.rooms@.contains_key(id) ==> (admission matches Admission::Enter(entrance)
                && *entrance == lobby.rooms@[id])
            &&& !lobby.rooms@.contains_key(id) ==> admission is Nowhere
        }),
{
}

/// The hint `new` leads into a room with a number of four digits below 9999 that
/// no room has: the first such among twenty that are drawn. Where all twenty
/// are taken, no number is found.
pub proof fn law_where_new_leads<T>(lobby: Lobby<T>, hint: &str, admission: Admission<'_, T>)
    requires
        call_ensures(Lobby::<T>::lead, (&lobby, hint), admission),
        hint@ == "new"@,
    ensures
        admission is Open || admission is NoFreeId,
        admission matches Admission::Open(id) ==> 1000 <= id < 9999 && !lobby.rooms@.contains_key(
            id,
        ),
        exists|draws: Seq<u32>| #[trigger]
            draws.len() == 20 && (forall|i: int|
                0 <= i < 20 ==> 1000 <= #[trigger] draws[i] < 9999) && match admission {
                Admission::Open(id) => exists|i: int|
                    0 <= i < 20 && #[trigger] draws[i] == id && forall|j: int|
                        0 <= j < i ==> lobby.rooms@.contains_key(#[trigger] draws[j]),
                _ => forall|j: int|
                    0 <= j < 20 ==> lobby.rooms@.contains_key(#[trigger] draws[j]),
            },
{
    let draws = choose|draws: Seq<u32>|
        crate::lobby::are_draws(draws, 20) && crate::lobby::opens_new(
            admission,
            #[trigger] crate::lobby::first_free(lobby.rooms@, draws),
        );
    crate::lobby::law_first_free(lobby.rooms@, draws);
    assert(draws.len() == 20);
    assert forall|i: int| 0 <= i < 20 implies 1000 <= #[trigger] draws[i] < 9999 by {
        assert(crate::lobby::is_room_id(draws[i]));
    }
}

/// A drawn number is taken up exactly if no room has it.
pub proof fn law_a_draw_is_weighed<T>(rooms: HashMap<u32, T>, drawn: u32, id: Option<u32>)
    requires
        call_ensures(crate::lobby::weigh_room_id::<T>, (&rooms, drawn), id),
    ensures
        rooms@.contains_key(drawn) ==> id is None,
        !rooms@.contains_key(drawn) ==> id == Some(drawn),
{
}

/// Of given draws the first that no room has is picked, among the first twenty;
/// none is picked if and only if these are all taken.
pub proof fn law_the_first_free_draw_is_picked<T>(
    rooms: HashMap<u32, T>,
    draws: Vec<u32>,
    id: Option<u32>,
    i: int,
)
    requires
        call_ensures(crate::lobby::pick_room_id::<T>, (&rooms, &draws), id),
    ensures
        0 <= i < 20 && i < draws@.len() && !rooms@.contains_key(draws@[i]) && (forall|j: int|
            0 <= j < i ==> rooms@.contains_key(#[trigger] draws@[j])) ==> id == Some(draws@[i]),
        (forall|j: int|
            0 <= j < 20 && j < draws@.len() ==> rooms@.contains_key(#[trigger] draws@[j]))
            ==> id is None,
{
    let seen = crate::lobby::looked_at(draws@, 20);
    crate::lobby::law_first_free(rooms@, seen);
    assert forall|j: int| 0 <= j < seen.len() implies #[trigger] seen[j] == draws@[j] by {}
    if 0 <= i < 20 && i < draws@.len() && !rooms@.contains_key(draws@[i]) && (forall|j: int|
        0 <= j < i ==> rooms@.contains_key(#[trigger] draws@[j])) {
        assert(seen[i] == draws@[i]);
        assert(id is Some);
        let k = choose|k: int|
            0 <= k < seen.len() && #[trigger] seen[k] == id->0 && forall|j: int|
                0 <= j < k ==> rooms@.contains_key(#[trigger] seen[j]);
        if k < i {
            assert(rooms@.contains_key(draws@[k]));
        }
        if i < k {
            assert(rooms@.contains_key(seen[i]));
        }
    }
    if (forall|j: int|
        0 <= j < 20 && j < draws@.len() ==> rooms@.contains_key(#[trigger] draws@[j])) {
        if let Some(n) = id {
            let k = choose|k: int|
                0 <= k < seen.len() && #[trigger] seen[k] == n && forall|j: int|
                    0 <= j < k ==> rooms@.contains_key(#[trigger] seen[j]);
            assert(rooms@.contains_key(draws@[k]));
        }
    }
}

/// A number that is found for a new room has four digits, is below 9999, and no
/// room has it: it is the first such of twenty that are drawn. Where none is
/// found, all twenty are taken.
pub proof fn law_a_found_number_is_free<T>(rooms: HashMap<u32, T>, id: Option<u32>)
    requires
        call_ensures(crate::lobby::gen_room_id::<T>, (&rooms,), id),
    ensures
        id matches Some(n) ==> 1000 <= n < 9999 && !rooms@.contains_key(n),
        exists|draws: Seq<u32>| #[trigger]
            draws.len() == 20 && (forall|i: int|
                0 <= i < 20 ==> 1000 <= #[trigger] draws[i] < 9999) && match id {
                Some(n) => exists|i: int|
                    0 <= i < 20 && #[trigger] draws[i] == n && forall|j: int|
                        0 <= j < i ==> rooms@.contains_key(#[trigger] draws[j]),
                None => forall|j: int| 0 <= j < 20 ==> rooms@.contains_key(#[trigger] draws[j]),
            },
{
    let draws = choose|draws: Seq<u32>|
        crate::lobby::are_draws(draws, 20) && id == #[trigger] crate::lobby::first_free(
            rooms@,
            draws,
        );
    crate::lobby::law_first_free(rooms@, draws);
    assert(draws.len() == 20);
    assert forall|i: int| 0 <= i < 20 implies 1000 <= #[trigger] draws[i] < 9999 by {
        assert(crate::lobby::is_room_id(draws[i]));
    }
}

/// A free code is claimed and nothing else changes; a taken code is passed over
/// a hundred times, and changes nothing.
pub proof fn law_codes_are_claimed(
    rooms: &mut HashMap<u32, Room>,
    attempts: u8,
    drawn: u32,
    outcome: CodeAttempt,
    code: u32,
)
    requires
        call_ensures(crate::lobby::claim_room_code, (rooms, attempts, drawn), outcome),
        attempts <= 100,
    ensures
        call_requires(crate::lobby::claim_room_code, (rooms, attempts, drawn)),
        !old(rooms)@.contains_key(drawn) ==> outcome is Claimed && final(rooms)@.contains_key(
            drawn,
        ) && final(rooms)@[drawn].code == drawn,
        old(rooms)@.contains_key(drawn) && attempts < 100 ==> outcome == CodeAttempt::Taken(
            (attempts + 1) as u8,
        ),
        old(rooms)@.contains_key(drawn) && attempts == 100 ==> outcome is GaveUp,
        code != drawn || old(rooms)@.contains_key(drawn) ==> (final(rooms)@.contains_key(code)
            <==> old(rooms)@.contains_key(code)),
        old(rooms)@.contains_key(code) ==> final(rooms)@[code] == old(rooms)@[code],
{
}

/// Of given draws the first that no room has becomes the code of a new room,
/// among the first hundred and one; no room is opened if and only if these are
/// all taken. The other rooms stay as they are.
pub proof fn law_a_room_gets_the_first_free_code(
    rooms: &mut HashMap<u32, Room>,
    draws: Vec<u32>,
    created: Option<Room>,
    i: int,
    code: u32,
)
    requires
        call_ensures(crate::lobby::create_room_from, (rooms, &draws), created),
    ensures
        0 <= i <= 100 && i < draws@.len() && !old(rooms)@.contains_key(draws@[i]) && (forall|
            j: int,
        |
            0 <= j < i ==> old(rooms)@.contains_key(#[trigger] draws@[j])) ==> (
        created matches Some(room) && room.code == draws@[i]),
        (forall|j: int|
            0 <= j <= 100 && j < draws@.len() ==> old(rooms)@.contains_key(#[trigger] draws@[j]))
            ==> created is None,
        created matches Some(room) ==> final(rooms)@.contains_key(room.code)
            && final(rooms)@[room.code] == room,
        created is None || code != created->0.code ==> (final(rooms)@.contains_key(code)
            <==> old(rooms)@.contains_key(code)),
        old(rooms)@.contains_key(code) ==> final(rooms)@[code] == old(rooms)@[code],
{
    let before = old(rooms)@;
    let seen = crate::lobby::looked_at(draws@, 101);
    crate::lobby::law_first_free(before, seen);
    assert forall|j: int| 0 <= j < seen.len() implies #[trigger] seen[j] == draws@[j] by {}
    if 0 <= i <= 100 && i < draws@.len() && !before.contains_key(draws@[i]) && (forall|j: int|
        0 <= j < i ==> before.contains_key(#[trigger] draws@[j])) {
        assert(seen[i] == draws@[i]);
        let k = choose|k: int|
            0 <= k < seen.len() && #[trigger] seen[k] == created->0.code && forall|j: int|
                0 <= j < k ==> before.contains_key(#[trigger] seen[j]);
        if k < i {
            assert(before.contains_key(draws@[k]));
        }
        if i < k {
            assert(before.contains_key(seen[i]));
        }
    }
    if (forall|j: int|
        0 <= j <= 100 && j < draws@.len() ==> before.contains_key(#[trigger] draws@[j])) {
        if let Some(room) = created {
            let k = choose|k: int|
                0 <= k < seen.len() && #[trigger] seen[k] == room.code && forall|j: int|
                    0 <= j < k ==> before.contains_key(#[trigger] seen[j]);
            assert(before.contains_key(draws@[k]));
        }
    }
}

/// A room that is created has a code of four digits below 9999 that no room had,
/// and the others stay as they are. Where none is created, nothing changes, and
/// a hundred and one codes were drawn that are all taken.
pub proof fn law_a_created_room_is_new(
    rooms: &mut HashMap<u32, Room>,
    created: Option<Room>,
    code: u32,
)
    requires
        call_ensures(crate::lobby::create_room, (rooms,), created),
    ensures
        created matches Some(room) ==> 1000 <= room.code < 9999 && !old(rooms)@.contains_key(
            room.code,
        ) && final(rooms)@.contains_key(room.code) && final(rooms)@[room.code] == room,
        created is None || code != created->0.code ==> (final(rooms)@.contains_key(code)
            <==> old(rooms)@.contains_key(code)),
        old(rooms)@.contains_key(code) ==> final(rooms)@[code] == old(rooms)@[code],
        created is None ==> exists|draws: Seq<u32>| #[trigger]
            draws.len() == 101 && forall|i: int|
                0 <= i < 101 ==> 1000 <= #[trigger] draws[i] < 9999 && old(rooms)@.contains_key(
                    draws[i],
                ),
{
    let before = old(rooms)@;
    let draws = choose|draws: Seq<u32>|
        crate::lobby::are_draws(draws, 101) && created == crate::lobby::room_of(
            #[trigger] crate::lobby::first_free(before, draws),
        );
    crate::lobby::law_first_free(before, draws);
    assert(draws.len() == 101);
    if created is None {
        assert forall|i: int| 0 <= i < 101 implies 1000 <= #[trigger] draws[i] < 9999
            && before.contains_key(draws[i]) by {
            assert(crate::lobby::is_room_id(draws[i]));
        }
    }
}

/// A lobby begins without rooms.
pub proof fn law_a_lobby_begins_empty<T>(lobby: Lobby<T>, id: u32)
    requires
        call_ensures(Lobby::<T>::new, (), lobby),
    ensures
        !lobby.rooms@.contains_key(id),
{
}

/// Who opens a room finds it under its number, and every other room where it
/// was.
pub proof fn law_an_opened_room_is_found<T>(
    lobby: &mut Lobby<T>,
    room_id: u32,
    entrance: T,
    id: u32,
    found: Option<&T>,
)
    requires
        call_ensures(Lobby::<T>::open_room, (lobby, room_id, entrance), ()),
        call_ensures(Lobby::<T>::find_room, (&*final(lobby), id), found),
    ensures
        id == room_id ==> (found matches Some(way) && *way == entrance),
        id != room_id && old(lobby).rooms@.contains_key(id) ==> (found matches Some(way) && *way
            == old(lobby).rooms@[id]),
        id != room_id && !old(lobby).rooms@.contains_key(id) ==> found is None,
        forall|other: u32| #[trigger]
            final(lobby).rooms@.contains_key(other) <==> other == room_id || old(
                lobby
            ).rooms@.contains_key(other),
{
}

/// Who closes a room gets what led into it and finds it no more; every other
/// room stays where it was.
pub proof fn law_a_closed_room_is_not_found<T>(
    lobby: &mut Lobby<T>,
    room_id: u32,
    entrance: Option<T>,
    id: u32,
    found: Option<&T>,
)
    requires
        call_ensures(Lobby::<T>::close_room, (lobby, room_id), entrance),
        call_ensures(Lobby::<T>::find_room, (&*final(lobby), id), found),
    ensures
        old(lobby).rooms@.contains_key(room_id) ==> entrance == Some(old(lobby).rooms@[room_id]),
        !old(lobby).rooms@.contains_key(room_id) ==> entrance is None,
        id == room_id ==> found is None,
        id != room_id && old(lobby).rooms@.contains_key(id) ==> (found matches Some(way) && *way
            == old(lobby).rooms@[id]),
        id != room_id && !old(lobby).rooms@.contains_key(id) ==> found is None,
        forall|other: u32| #[trigger]
            final(lobby).rooms@.contains_key(other) <==> other != room_id && old(
                lobby
            ).rooms@.contains_key(other),
{
}

/// A room exists for a query exactly if its parameter `room_id` is the number of
/// an open room.
pub proof fn law_which_rooms_exist<T>(
    lobby: Lobby<T>,
    params: QueryParams,
    open: bool,
    text: &str,
    number: Option<u32>,
)
    requires
        call_ensures(Lobby::<T>::room_exists, (&lobby, &params), open),
        call_ensures(parse_u32, (text,), number),
    ensures
        !params@.contains_key("room_id"@) ==> !open,
        params@.contains_key("room_id"@) && params@["room_id"@] == text@ ==> (open <==> (
        number matches Some(id) && lobby.rooms@.contains_key(id))),
{
}

/// The first player is number 1000, each next one the next, and after the
/// largest number comes 0.
pub proof fn law_players_are_numbered(fresh: PlayerIds, ids: &mut PlayerIds, id: u32)
    requires
        call_ensures(PlayerIds::new, (), fresh),
        call_ensures(PlayerIds::issue, (ids,), id),
    ensures
        fresh.next == 1000,
        id == old(ids).next,
        id < u32::MAX ==> final(ids).next == id + 1,
        id == u32::MAX ==> final(ids).next == 0,
{
}

} // verus!
