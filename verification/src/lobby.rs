//! The lobby: which rooms are open, how one is asked for, and the numbers that
//! rooms and players get.

use std::collections::HashMap;

use vstd::prelude::*;

use crate::params::QueryParams;
use crate::text::{parse_u32, same_text};

verus! {

/// Room ids are drawn from here on.
pub const FIRST_ROOM_ID: u32 = 1000;

/// Room ids are below this.
pub const ROOM_ID_LIMIT: u32 = 9999;

/// How many ids are drawn for a new room before none is found.
pub const ROOM_ID_TRIES: u32 = 20;

/// How many taken codes a search for a free one passes over.
pub const CODE_ATTEMPTS: u8 = 100;

/// The id of the first player.
pub const FIRST_PLAYER_ID: u32 = 1000;

/// A number that a room can get.
pub open spec fn is_room_id(id: u32) -> bool {
    FIRST_ROOM_ID <= id < ROOM_ID_LIMIT
}

/// A number that comes out of a draw from the whole range of room ids.
pub closed spec fn can_be_drawn(id: u32) -> bool {
    call_ensures(crate::random::gen_range, (FIRST_ROOM_ID, ROOM_ID_LIMIT), id)
}

/// Draws a number that a room can get.
fn draw_room_id() -> (id: u32)
    ensures
        is_room_id(id),
        can_be_drawn(id),
{
    crate::random::gen_range(FIRST_ROOM_ID, ROOM_ID_LIMIT)
}

/// An id that a new room can get: one that rooms have, and none of these has.
pub open spec fn is_free_id<T>(rooms: Map<u32, T>, id: u32) -> bool {
    is_room_id(id) && !rooms.contains_key(id)
}

/// The first of `draws` that no room has.
pub open spec fn first_free<T>(rooms: Map<u32, T>, draws: Seq<u32>) -> Option<u32>
    decreases draws.len(),
{
    if draws.len() == 0 {
        None
    } else {
        match first_free(rooms, draws.drop_last()) {
            Some(id) => Some(id),
            None => if rooms.contains_key(draws.last()) {
                None
            } else {
                Some(draws.last())
            },
        }
    }
}

/// `n` numbers that a room can get, each of them drawn.
pub open spec fn are_draws(draws: Seq<u32>, n: nat) -> bool {
    &&& draws.len() == n
    &&& forall|i: int|
        0 <= i < n ==> is_room_id(#[trigger] draws[i]) && can_be_drawn(draws[i])
}

/// The draws that a search looks at: the first `n`, or all where there are
/// fewer.
pub open spec fn looked_at(draws: Seq<u32>, n: nat) -> Seq<u32> {
    if draws.len() <= n {
        draws
    } else {
        draws.take(n as int)
    }
}

/// The first free one among draws is one of them, is free, and comes behind
/// taken ones only. There is none exactly if all of them are taken.
pub proof fn law_first_free<T>(rooms: Map<u32, T>, draws: Seq<u32>)
    ensures
        match first_free(rooms, draws) {
            Some(id) => !rooms.contains_key(id) && exists|i: int|
                0 <= i < draws.len() && #[trigger] draws[i] == id && forall|j: int|
                    0 <= j < i ==> rooms.contains_key(#[trigger] draws[j]),
            None => forall|j: int|
                0 <= j < draws.len() ==> rooms.contains_key(#[trigger] draws[j]),
        },
    decreases draws.len(),
{
    if draws.len() > 0 {
        let init = draws.drop_last();
        law_first_free(rooms, init);
        if let Some(id) = first_free(rooms, init) {
            let i = choose|i: int|
                0 <= i < init.len() && #[trigger] init[i] == id && forall|j: int|
                    0 <= j < i ==> rooms.contains_key(#[trigger] init[j]);
            assert(draws[i] == id);
            assert forall|j: int| 0 <= j < i implies rooms.contains_key(#[trigger] draws[j]) by {
                assert(rooms.contains_key(init[j]));
            }
        } else {
            assert forall|j: int| 0 <= j < draws.len() - 1 implies rooms.contains_key(
                #[trigger] draws[j],
            ) by {
                assert(rooms.contains_key(init[j]));
            }
            assert(draws[draws.len() - 1] == draws.last());
        }
    }
}

/// What is found among the first of more draws is found among all.
proof fn lemma_first_free_prefix<T>(rooms: Map<u32, T>, draws: Seq<u32>, n: int)
    requires
        0 <= n <= draws.len(),
        first_free(rooms, draws.take(n)) is Some,
    ensures
        first_free(rooms, draws) == first_free(rooms, draws.take(n)),
    decreases draws.len(),
{
    if n == draws.len() {
        assert(draws.take(n) =~= draws);
    } else {
        assert(draws.drop_last().take(n) =~= draws.take(n));
        lemma_first_free_prefix(rooms, draws.drop_last(), n);
    }
}

/// What was found among draws is a number that a room can get; where nothing
/// was found, some room has one.
proof fn lemma_found_among_draws<T>(rooms: Map<u32, T>, draws: Seq<u32>, n: nat)
    requires
        are_draws(draws, n),
        n > 0,
    ensures
        match first_free(rooms, draws) {
            Some(id) => is_free_id(rooms, id),
            None => exists|code: u32| is_room_id(code) && #[trigger] rooms.contains_key(code),
        },
{
    law_first_free(rooms, draws);
    if first_free(rooms, draws) is None {
        assert(rooms.contains_key(draws[0]));
    }
}

/// Numbers are drawn from 1000 on and below 9999, and any of these that the
/// source of chance gives there can be drawn.
pub(crate) proof fn law_where_numbers_are_drawn(id: u32)
    ensures
        can_be_drawn(id) <==> call_ensures(crate::random::gen_range, (1000u32, 9999u32), id),
        can_be_drawn(id) ==> 1000 <= id < 9999,
        is_room_id(id) <==> 1000 <= id < 9999,
{
}

/// Draws `n` numbers that a room can get.
fn draw_room_ids(n: usize) -> (draws: Vec<u32>)
    ensures
        are_draws(draws@, n as nat),
{
    let mut draws: Vec<u32> = Vec::new();
    for i in 0..n
        invariant
            are_draws(draws@, i as nat),
    {
        draws.push(draw_room_id());
    }
    draws
}

/// Takes up a drawn id, unless a room has it.
pub fn weigh_room_id<T>(rooms: &HashMap<u32, T>, drawn: u32) -> (id: Option<u32>)
    ensures
        id == if rooms@.contains_key(drawn) {
            None::<u32>
        } else {
            Some(drawn)
        },
{
    if rooms.contains_key(&drawn) {
        None
    } else {
        Some(drawn)
    }
}

/// Takes up the first of `draws` that no room has. After as many as there are
/// tries, no more are looked at.
pub fn pick_room_id<T>(rooms: &HashMap<u32, T>, draws: &Vec<u32>) -> (id: Option<u32>)
    ensures
        id == first_free(rooms@, looked_at(draws@, ROOM_ID_TRIES as nat)),
{
    let ghost seen = looked_at(draws@, ROOM_ID_TRIES as nat);
    let mut tries: u32 = ROOM_ID_TRIES;
    let mut i: usize = 0;
    while i < draws.len() && tries > 0
        invariant
            i <= draws.len(),
            i + tries == ROOM_ID_TRIES,
            seen == looked_at(draws@, ROOM_ID_TRIES as nat),
            first_free(rooms@, seen.take(i as int)) is None,
        decreases tries,
    {
        assert(seen.take(i + 1).drop_last() =~= seen.take(i as int));
        let id = weigh_room_id(rooms, draws[i]);
        if id.is_some() {
            proof {
                lemma_first_free_prefix(rooms@, seen, i + 1);
            }
            return id;
        }
        tries = tries - 1;
        i = i + 1;
    }
    assert(seen.take(i as int) =~= seen);
    None
}

/// Finds an id for a new room, one that no room has. None is found where all
/// the ids that were drawn are taken, as many as there are tries.
pub fn gen_room_id<T>(rooms: &HashMap<u32, T>) -> (id: Option<u32>)
    ensures
        match id {
            Some(n) => is_free_id(rooms@, n),
            None => exists|code: u32| is_room_id(code) && #[trigger] rooms@.contains_key(code),
        },
        exists|draws: Seq<u32>|
            are_draws(draws, ROOM_ID_TRIES as nat) && id == #[trigger] first_free(rooms@, draws),
{
    let draws = draw_room_ids(ROOM_ID_TRIES as usize);
    proof {
        lemma_found_among_draws(rooms@, draws@, ROOM_ID_TRIES as nat);
    }
    pick_room_id(rooms, &draws)
}

/// A room that is known by its code alone.
#[derive(Clone, Copy, Debug, PartialEq, Eq, Structural)]
pub struct Room {
    pub code: u32,
}

/// What comes of a drawn room code.
#[derive(Clone, Copy, Debug, PartialEq, Eq, Structural)]
pub enum CodeAttempt {
    /// The code was free, and a room has it now.
    Claimed,
    /// The code is taken; so many were by now.
    Taken(u8),
    /// The code is taken, as too many were before.
    GaveUp,
}

/// Claims the code `drawn` for a new room, after `attempts` codes that were
/// taken.
pub fn claim_room_code(rooms: &mut HashMap<u32, Room>, attempts: u8, drawn: u32) -> (outcome:
    CodeAttempt)
    requires
        attempts <= CODE_ATTEMPTS,
    ensures
        outcome == if !old(rooms)@.contains_key(drawn) {
            CodeAttempt::Claimed
        } else if attempts < CODE_ATTEMPTS {
            CodeAttempt::Taken((attempts + 1) as u8)
        } else {
            CodeAttempt::GaveUp
        },
        final(rooms)@ == if old(rooms)@.contains_key(drawn) {
            old(rooms)@
        } else {
            old(rooms)@.insert(drawn, Room { code: drawn })
        },
{
    if !rooms.contains_key(&drawn) {
        rooms.insert(drawn, Room { code: drawn });
        return CodeAttempt::Claimed;
    }
    let attempts: u8 = attempts + 1;
    if attempts > CODE_ATTEMPTS {
        CodeAttempt::GaveUp
    } else {
        CodeAttempt::Taken(attempts)
    }
}

/// The room that a search for a free code opens.
pub open spec fn room_of(code: Option<u32>) -> Option<Room> {
    match code {
        Some(code) => Some(Room { code }),
        None => None,
    }
}

/// The rooms with one more, where one was opened.
pub open spec fn with_room(rooms: Map<u32, Room>, opened: Option<Room>) -> Map<u32, Room> {
    match opened {
        Some(room) => rooms.insert(room.code, room),
        None => rooms,
    }
}

/// Opens a room under the first of `draws` that no room has. After one more
/// than a search passes over, no more are looked at; nothing happens where all
/// of these are taken.
pub fn create_room_from(rooms: &mut HashMap<u32, Room>, draws: &Vec<u32>) -> (created: Option<
    Room,
>)
    ensures
        created == room_of(
            first_free(old(rooms)@, looked_at(draws@, (CODE_ATTEMPTS + 1) as nat)),
        ),
        final(rooms)@ == with_room(old(rooms)@, created),
{
    let ghost seen = looked_at(draws@, (CODE_ATTEMPTS + 1) as nat);
    let mut attempts: u8 = 0;
    let mut i: usize = 0;
    while i < draws.len()
        invariant
            i <= draws.len(),
            i == attempts,
            attempts <= CODE_ATTEMPTS,
            seen == looked_at(draws@, (CODE_ATTEMPTS + 1) as nat),
            rooms@ == old(rooms)@,
            first_free(old(rooms)@, seen.take(i as int)) is None,
        decreases draws.len() - i,
    {
        let room_code = draws[i];
        assert(seen.take(i + 1).drop_last() =~= seen.take(i as int));
        match claim_room_code(rooms, attempts, room_code) {
            CodeAttempt::Claimed => {
                proof {
                    lemma_first_free_prefix(old(rooms)@, seen, i + 1);
                }
                return Some(Room { code: room_code });
            },
            CodeAttempt::Taken(n) => {
                attempts = n;
            },
            CodeAttempt::GaveUp => {
                assert(seen.take(i + 1) =~= seen);
                return None;
            },
        }
        i = i + 1;
    }
    assert(seen.take(i as int) =~= seen);
    None
}

/// Opens a room under a code that no other room has: the first such code that
/// is drawn. Nothing happens where one more code than a search passes over was
/// drawn, and all of them are taken.
pub fn create_room(rooms: &mut HashMap<u32, Room>) -> (created: Option<Room>)
    ensures
        match created {
            Some(room) => is_free_id(old(rooms)@, room.code),
            None => exists|code: u32|
                is_room_id(code) && #[trigger] old(rooms)@.contains_key(code),
        },
        final(rooms)@ == with_room(old(rooms)@, created),
        exists|draws: Seq<u32>|
            are_draws(draws, (CODE_ATTEMPTS + 1) as nat) && created == room_of(
                #[trigger] first_free(old(rooms)@, draws),
            ),
{
    let draws = draw_room_ids(CODE_ATTEMPTS as usize + 1);
    proof {
        lemma_found_among_draws(rooms@, draws@, (CODE_ATTEMPTS + 1) as nat);
    }
    create_room_from(rooms, &draws)
}

/// Which room is asked for.
#[derive(Clone, Copy, Debug, PartialEq, Eq, Structural)]
pub enum RoomRequest {
    /// A new one.
    New,
    /// The one with this id.
    Join(u32),
}

/// The room that a hint asks for: a new one, or the one whose id it is. A hint
/// that is no number asks for room 0.
pub open spec fn requested_room(hint: Seq<char>) -> RoomRequest {
    if hint == "new"@ {
        RoomRequest::New
    } else {
        match crate::text::parsed_u32(hint) {
            Some(code) => RoomRequest::Join(code),
            None => RoomRequest::Join(0),
        }
    }
}

/// The hint that a query gives.
pub open spec fn hint_in(params: Map<Seq<char>, Seq<char>>) -> Seq<char> {
    if params.contains_key("room"@) {
        params["room"@]
    } else {
        "none"@
    }
}

/// Reads the hint out of a query.
pub fn room_hint(params: &QueryParams) -> (hint: String)
    ensures
        hint@ == hint_in(params@),
{
    match params.get("room") {
        Some(hint) => hint.clone(),
        None => "none".to_string(),
    }
}

/// Reads which room a hint asks for.
pub fn read_hint(hint: &str) -> (request: RoomRequest)
    ensures
        request == requested_room(hint@),
{
    if same_text(hint, "new") {
        RoomRequest::New
    } else {
        match parse_u32(hint) {
            Some(code) => RoomRequest::Join(code),
            None => RoomRequest::Join(0),
        }
    }
}

/// Where a hint leads.
pub enum Admission<'a, T> {
    /// Into a new room, to be opened under this id, which no room has.
    Open(u32),
    /// Into a new room, for which no free id was found.
    NoFreeId,
    /// Into a room that is open.
    Enter(&'a T),
    /// Into no room.
    Nowhere,
}

/// Where who asks for a new room is led, once a search has `found` an id for it
/// or none.
pub open spec fn opens_new<T>(admission: Admission<'_, T>, found: Option<u32>) -> bool {
    match found {
        Some(id) => admission matches Admission::Open(n) && n == id,
        None => admission is NoFreeId,
    }
}

/// The rooms that are open, each by its id with what leads into it.
pub struct Lobby<T> {
    pub rooms: HashMap<u32, T>,
}

impl<T> View for Lobby<T> {
    type V = Map<u32, T>;

    open spec fn view(&self) -> Map<u32, T> {
        self.rooms@
    }
}

/// A query asks for a room that is in `rooms`.
pub open spec fn asks_for_open_room<T>(
    params: Map<Seq<char>, Seq<char>>,
    rooms: Map<u32, T>,
) -> bool {
    &&& params.contains_key("room_id"@)
    &&& crate::text::parsed_u32(params["room_id"@]) matches Some(id) && rooms.contains_key(id)
}

impl<T> Lobby<T> {
    /// A lobby without rooms.
    pub fn new() -> (lobby: Lobby<T>)
        ensures
            lobby@ == Map::<u32, T>::empty(),
    {
        Lobby { rooms: HashMap::new() }
    }

    /// Opens a room. One that had the same id is replaced.
    pub fn open_room(&mut self, room_id: u32, entrance: T)
        ensures
            final(self)@ == old(self)@.insert(room_id, entrance),
    {
        self.rooms.insert(room_id, entrance);
    }

    /// What leads into a room.
    pub fn find_room(&self, room_id: u32) -> (entrance: Option<&T>)
        ensures
            match entrance {
                Some(t) => self@.contains_key(room_id) && *t == self@[room_id],
                None => !self@.contains_key(room_id),
            },
    {
        self.rooms.get(&room_id)
    }

    /// Closes a room; hands out what led into it, if it was open.
    pub fn close_room(&mut self, room_id: u32) -> (entrance: Option<T>)
        ensures
            final(self)@ == old(self)@.remove(room_id),
            match entrance {
                Some(t) => old(self)@.contains_key(room_id) && t == old(self)@[room_id],
                None => !old(self)@.contains_key(room_id),
            },
    {
        self.rooms.remove(&room_id)
    }

    /// Decides where a hint leads: into a new room, for which it finds an id
    /// that no room has, into a room that is open, or nowhere.
    pub fn lead(&self, hint: &str) -> (admission: Admission<'_, T>)
        ensures
            match requested_room(hint@) {
                RoomRequest::New => {
                    ||| admission matches Admission::Open(id) && is_free_id(self@, id)
                    ||| admission is NoFreeId && exists|code: u32|
                        is_room_id(code) && #[trigger] self.rooms@.contains_key(code)
                },
                RoomRequest::Join(id) => if self@.contains_key(id) {
                    admission matches Admission::Enter(entrance) && *entrance == self@[id]
                } else {
                    admission is Nowhere
                },
            },
            requested_room(hint@) is New ==> exists|draws: Seq<u32>|
                are_draws(draws, ROOM_ID_TRIES as nat) && opens_new(
                    admission,
                    #[trigger] first_free(self.rooms@, draws),
                ),
    {
        match read_hint(hint) {
            RoomRequest::New => match gen_room_id(&self.rooms) {
                Some(id) => Admission::Open(id),
                None => Admission::NoFreeId,
            },
            RoomRequest::Join(id) => match self.find_room(id) {
                Some(entrance) => Admission::Enter(entrance),
                None => Admission::Nowhere,
            },
        }
    }

    /// Whether the room that a query asks for is open.
    pub fn room_exists(&self, params: &QueryParams) -> (open: bool)
        ensures
            open == asks_for_open_room(params@, self@),
    {
        if let Some(room_id_str) = params.get("room_id") {
            if let Some(room_id) = parse_u32(room_id_str.as_str()) {
                return self.rooms.contains_key(&room_id);
            }
        }
        false
    }
}

/// The id that comes after `id`.
pub open spec fn next_player_id(id: u32) -> u32 {
    if id == u32::MAX {
        0
    } else {
        (id + 1) as u32
    }
}

/// The ids of players, handed out one after the other.
#[derive(Debug)]
pub struct PlayerIds {
    pub next: u32,
}

impl PlayerIds {
    pub fn new() -> (ids: PlayerIds)
        ensures
            ids.next == FIRST_PLAYER_ID,
    {
        PlayerIds { next: FIRST_PLAYER_ID }
    }

    /// Hands out an id. After the largest comes 0.
    pub fn issue(&mut self) -> (id: u32)
        ensures
            id == old(self).next,
            final(self).next == next_player_id(old(self).next),
    {
        let id = self.next;
        self.next = id.wrapping_add(1);
        id
    }
}

} // verus!
