//! One room: who is in it, who runs it, and who has buzzed.
//!
//! A room reacts to one message at a time. [`RoomView::after`] says what a
//! message does to the room, and [`RoomView::broadcast`] what everybody in it
//! is told.

use std::collections::HashMap;
use std::sync::Arc;

use vstd::prelude::*;

verus! {

/// How a room takes buzzes.
#[derive(Clone, Copy, Debug, PartialEq, Eq, Structural)]
pub enum RoomMode {
    /// The first to buzz locks the room.
    FirstToBuzz,
    /// Everyone may buzz, and the order is kept.
    BuzzerRace,
}

/// What a participant sends into a room, and what a room sends out.
#[derive(Clone, Debug)]
pub enum RoomMessage {
    /// The heartbeat.
    Ping,
    ParticipantJoined(u32),
    ParticipantQuit(u32),
    ParticipantSetName(u32, String),
    ParticipantBuzzed(u32),
    /// The state of a room as text, for the participants.
    NewRoomState(Arc<String>),
    ResetBuzzers(u32),
    SetLockState(u32, bool),
    SetRoomMode(u32, RoomMode),
}

/// A room message with its texts as sequences of characters.
pub enum RoomMessageView {
    Ping,
    ParticipantJoined(u32),
    ParticipantQuit(u32),
    ParticipantSetName(u32, Seq<char>),
    ParticipantBuzzed(u32),
    NewRoomState(Seq<char>),
    ResetBuzzers(u32),
    SetLockState(u32, bool),
    SetRoomMode(u32, RoomMode),
}

impl View for RoomMessage {
    type V = RoomMessageView;

    open spec fn view(&self) -> RoomMessageView {
        match *self {
            RoomMessage::Ping => RoomMessageView::Ping,
            RoomMessage::ParticipantJoined(id) => RoomMessageView::ParticipantJoined(id),
            RoomMessage::ParticipantQuit(id) => RoomMessageView::ParticipantQuit(id),
            RoomMessage::ParticipantSetName(id, name) => RoomMessageView::ParticipantSetName(
                id,
                name@,
            ),
            RoomMessage::ParticipantBuzzed(id) => RoomMessageView::ParticipantBuzzed(id),
            RoomMessage::NewRoomState(text) => RoomMessageView::NewRoomState((*text)@),
            RoomMessage::ResetBuzzers(id) => RoomMessageView::ResetBuzzers(id),
            RoomMessage::SetLockState(id, state) => RoomMessageView::SetLockState(id, state),
            RoomMessage::SetRoomMode(id, mode) => RoomMessageView::SetRoomMode(id, mode),
        }
    }
}

impl RoomMessageView {
    /// Whom a message comes from; the heartbeat and the room's own messages
    /// come from nobody.
    pub open spec fn sender(self) -> Option<u32> {
        match self {
            RoomMessageView::Ping => None,
            RoomMessageView::ParticipantJoined(id) => Some(id),
            RoomMessageView::ParticipantQuit(id) => Some(id),
            RoomMessageView::ParticipantSetName(id, _) => Some(id),
            RoomMessageView::ParticipantBuzzed(id) => Some(id),
            RoomMessageView::NewRoomState(_) => None,
            RoomMessageView::ResetBuzzers(id) => Some(id),
            RoomMessageView::SetLockState(id, _) => Some(id),
            RoomMessageView::SetRoomMode(id, _) => Some(id),
        }
    }

    /// The messages that only the captain's word makes effective.
    pub open spec fn is_captains(self) -> bool {
        self is ResetBuzzers || self is SetLockState || self is SetRoomMode
    }
}

/// Someone in a room.
#[derive(Debug)]
pub struct Participant {
    pub name: String,
}

/// A room.
#[derive(Debug)]
pub struct RoomState {
    pub room_id: u32,
    pub participants: HashMap<u32, Participant>,
    pub room_captain: Option<u32>,
    pub room_mode: RoomMode,
    pub room_locked: bool,
    pub activated_buzzers: Vec<u32>,
}

/// A room as its participants see it: each participant by name, and the ids of
/// those who have buzzed, the earliest first.
#[verifier::ext_equal]
pub struct RoomView {
    pub room_id: u32,
    pub participants: Map<u32, Seq<char>>,
    pub room_captain: Option<u32>,
    pub room_mode: RoomMode,
    pub room_locked: bool,
    pub activated_buzzers: Seq<u32>,
}

impl View for RoomState {
    type V = RoomView;

    open spec fn view(&self) -> RoomView {
        RoomView {
            room_id: self.room_id,
            participants: self.participants@.map_values(|p: Participant| p.name@),
            room_captain: self.room_captain,
            room_mode: self.room_mode,
            room_locked: self.room_locked,
            activated_buzzers: self.activated_buzzers@,
        }
    }
}

/// What everybody in a room is told after a message.
#[derive(Clone, Copy, Debug, PartialEq, Eq, Structural)]
pub enum Broadcast {
    Nothing,
    Ping,
    /// The state of the room.
    State,
}

/// How a room reacts to a message.
#[derive(Clone, Copy, Debug, PartialEq, Eq, Structural)]
pub struct Reaction {
    pub broadcast: Broadcast,
    /// Whether the room is over.
    pub closes: bool,
}

impl RoomView {
    /// A room that was just opened.
    pub open spec fn opened(room_id: u32) -> RoomView {
        RoomView {
            room_id,
            participants: Map::empty(),
            room_captain: None,
            room_mode: RoomMode::FirstToBuzz,
            room_locked: false,
            activated_buzzers: Seq::empty(),
        }
    }

    /// Nobody is in the room.
    pub open spec fn is_empty(self) -> bool {
        forall|p: u32| !#[trigger] self.participants.contains_key(p)
    }

    /// Nobody is in the room, or only the participant `id`.
    pub open spec fn nobody_but(self, id: u32) -> bool {
        forall|p: u32| #[trigger] self.participants.contains_key(p) ==> p == id
    }

    /// A buzz of `id` counts: the room is not locked, `id` has not buzzed yet
    /// and, unless it is a race, nobody else has.
    pub open spec fn accepts_buzz(self, id: u32) -> bool {
        &&& !self.room_locked
        &&& !self.activated_buzzers.contains(id)
        &&& self.room_mode is FirstToBuzz ==> self.activated_buzzers.len() == 0
    }

    /// The room after `id` came in.
    pub open spec fn after_join(self, id: u32) -> RoomView {
        RoomView {
            participants: self.participants.insert(id, "New Player"@),
            room_captain: if self.nobody_but(id) {
                Some(id)
            } else {
                self.room_captain
            },
            ..self
        }
    }

    /// The room after `id` left; where `id` was the captain, the new one is
    /// `successor`.
    pub open spec fn after_quit(self, id: u32, successor: Option<u32>) -> RoomView {
        RoomView {
            participants: self.participants.remove(id),
            room_captain: if self.room_captain == Some(id) {
                successor
            } else {
                self.room_captain
            },
            activated_buzzers: self.activated_buzzers.remove_value(id),
            ..self
        }
    }

    /// The room after `id` took a name.
    pub open spec fn after_set_name(self, id: u32, name: Seq<char>) -> RoomView {
        if self.participants.contains_key(id) {
            RoomView { participants: self.participants.insert(id, name), ..self }
        } else {
            self
        }
    }

    /// The room after `id` pressed the buzzer.
    pub open spec fn after_buzz(self, id: u32) -> RoomView {
        if self.accepts_buzz(id) {
            RoomView {
                activated_buzzers: self.activated_buzzers.push(id),
                room_locked: self.room_mode is FirstToBuzz,
                ..self
            }
        } else {
            self
        }
    }

    /// The room after a message; `successor` is the captain who follows one
    /// that leaves.
    pub open spec fn after(self, message: RoomMessageView, successor: Option<u32>) -> RoomView {
        match message {
            RoomMessageView::Ping => self,
            RoomMessageView::ParticipantJoined(id) => self.after_join(id),
            RoomMessageView::ParticipantQuit(id) => self.after_quit(id, successor),
            RoomMessageView::ParticipantSetName(id, name) => self.after_set_name(id, name),
            RoomMessageView::ParticipantBuzzed(id) => self.after_buzz(id),
            RoomMessageView::NewRoomState(_) => self,
            RoomMessageView::ResetBuzzers(id) => if self.room_captain == Some(id) {
                RoomView { activated_buzzers: Seq::empty(), ..self }
            } else {
                self
            },
            RoomMessageView::SetLockState(id, state) => if self.room_captain == Some(id) {
                RoomView { room_locked: state, ..self }
            } else {
                self
            },
            RoomMessageView::SetRoomMode(id, mode) => if self.room_captain == Some(id) {
                RoomView { room_mode: mode, ..self }
            } else {
                self
            },
        }
    }

    /// What everybody in the room is told after a message.
    pub open spec fn broadcast(self, message: RoomMessageView) -> Broadcast {
        match message {
            RoomMessageView::Ping => Broadcast::Ping,
            RoomMessageView::ParticipantJoined(_) => Broadcast::State,
            RoomMessageView::ParticipantQuit(_) => Broadcast::State,
            RoomMessageView::ParticipantSetName(_, _) => Broadcast::State,
            RoomMessageView::ParticipantBuzzed(id) => if self.accepts_buzz(id) {
                Broadcast::State
            } else {
                Broadcast::Nothing
            },
            RoomMessageView::NewRoomState(_) => Broadcast::Nothing,
            RoomMessageView::ResetBuzzers(id)
            | RoomMessageView::SetLockState(id, _)
            | RoomMessageView::SetRoomMode(id, _) => if self.room_captain == Some(id) {
                Broadcast::State
            } else {
                Broadcast::Nothing
            },
        }
    }

    /// `captain` can follow a captain who left this room: someone who is in
    /// it, or nobody where nobody is.
    pub open spec fn can_follow(self, captain: Option<u32>) -> bool {
        match captain {
            Some(id) => self.participants.contains_key(id),
            None => self.is_empty(),
        }
    }

    /// `next` can come after this room through `message`. Everything about it
    /// is settled but who follows a captain who leaves.
    pub open spec fn steps_to(self, message: RoomMessageView, next: RoomView) -> bool {
        &&& next == self.after(message, next.room_captain)
        &&& message matches RoomMessageView::ParticipantQuit(id) ==> self.room_captain == Some(id)
            ==> next.can_follow(next.room_captain)
    }

    /// What holds of every room: its captain is in it, only an empty room has
    /// none, and nobody has buzzed twice.
    pub open spec fn wf(self) -> bool {
        &&& self.can_follow(self.room_captain)
        &&& self.activated_buzzers.no_duplicates()
    }
}

/// Every step keeps a room well-formed: its captain is in it, an empty room
/// has none, and nobody has buzzed twice.
pub proof fn law_steps_keep_wf(room: RoomView, message: RoomMessageView, next: RoomView)
    requires
        room.wf(),
        room.steps_to(message, next),
    ensures
        next.wf(),
{
    match message {
        RoomMessageView::ParticipantJoined(id) => {
            assert(next.participants.contains_key(id));
        },
        RoomMessageView::ParticipantQuit(id) => {
            room.activated_buzzers.index_of_first_ensures(id);
            if room.room_captain != Some(id) {
                match room.room_captain {
                    Some(captain) => {
                        assert(next.participants.contains_key(captain));
                    },
                    None => {
                        assert(next.is_empty()) by {
                            assert forall|p: u32| !next.participants.contains_key(p) by {
                                assert(!room.participants.contains_key(p));
                            }
                        }
                    },
                }
            }
        },
        _ => {},
    }
}

/// A set that holds `id` has one element exactly if `id` is all that it holds.
proof fn lemma_one_element(s: Set<u32>, id: u32)
    requires
        s.finite(),
        s.contains(id),
    ensures
        s.len() == 1 <==> forall|p: u32| #[trigger] s.contains(p) ==> p == id,
{
    let rest = s.remove(id);
    if s.len() == 1 {
        rest.lemma_len0_is_empty();
        assert forall|p: u32| #[trigger] s.contains(p) implies p == id by {
            assert(!rest.contains(p));
        }
    }
    if forall|p: u32| #[trigger] s.contains(p) ==> p == id {
        assert(rest =~= Set::empty());
    }
}

/// Where `id` first occurs in `ids`.
fn position(ids: &Vec<u32>, id: u32) -> (found: Option<usize>)
    ensures
        match found {
            Some(i) => ids@.index_of_first(id) == Some(i as int) && i < ids.len(),
            None => ids@.index_of_first(id) is None,
        },
        found is Some <==> ids@.contains(id),
{
    proof {
        ids@.index_of_first_ensures(id);
    }
    for i in 0..ids.len()
        invariant
            forall|j: int| 0 <= j < i ==> ids@[j] != id,
            match ids@.index_of_first(id) {
                Some(k) => 0 <= k < ids@.len() && ids@[k] == id && forall|j: int|
                    0 <= j < k ==> ids@[j] != id,
                None => !ids@.contains(id),
            },
    {
        if ids[i] == id {
            assert(ids@.contains(ids@[i as int]));
            return Some(i);
        }
    }
    None
}

impl RoomState {
    /// Opens a room.
    pub fn new(room_id: u32) -> (room: RoomState)
        ensures
            room@ == RoomView::opened(room_id),
            room@.wf(),
    {
        let room = RoomState {
            participants: HashMap::new(),
            room_id,
            room_captain: None,
            room_mode: RoomMode::FirstToBuzz,
            room_locked: false,
            activated_buzzers: Vec::new(),
        };
        assert(room@.participants =~= Map::<u32, Seq<char>>::empty());
        room
    }

    /// Someone comes in, under the name that everyone starts with. Who is
    /// alone in the room becomes its captain.
    pub fn participant_joined(&mut self, id: u32)
        ensures
            final(self)@ == old(self)@.after_join(id),
    {
        self.participants.insert(id, Participant { name: "New Player".to_string() });
        assert(self@.participants =~= old(self)@.participants.insert(id, "New Player"@));
        proof {
            let before = old(self)@.participants.dom();
            let now = self.participants@.dom();
            assert(forall|p: u32| now.contains(p) <==> before.contains(p) || p == id);
            assert(forall|p: u32| before.contains(p) <==> old(self)@.participants.contains_key(p));
            lemma_one_element(now, id);
        }
        if self.participants.len() == 1 {
            self.room_captain = Some(id);
        }
    }

    /// Someone who is in the room, where anybody is. Which one it is depends
    /// on the order in which the participants are walked.
    pub fn any_participant(&self) -> (found: Option<u32>)
        ensures
            self@.can_follow(found),
    {
        if self.participants.len() == 0 {
            proof {
                self.participants@.dom().lemma_len0_is_empty();
            }
            return None;
        }
        for id in it: self.participants.keys()
            invariant
                it.index() == 0,
                it.seq().len() > 0,
                it.seq().unref().to_set() == self.participants@.dom(),
        {
            assert(it.seq().unref()[0] == *id);
            assert(it.seq().unref().to_set().contains(*id));
            return Some(*id);
        }
        None
    }

    /// Settles what `id`, who is no longer in the room, leaves behind: where
    /// it was the captain, `successor` follows, and its buzz goes.
    pub fn settle_quit(&mut self, id: u32, successor: Option<u32>)
        ensures
            final(self)@ == (RoomView {
                participants: old(self)@.participants,
                ..old(self)@.after_quit(id, successor)
            }),
    {
        if let Some(captain_id) = self.room_captain {
            if id == captain_id {
                self.room_captain = successor;
            }
        }
        if let Some(i) = position(&self.activated_buzzers, id) {
            self.activated_buzzers.remove(i);
        }
    }

    /// Someone leaves. Where it was the captain, someone who is left follows.
    pub fn participant_quit(&mut self, id: u32)
        ensures
            final(self)@ == old(self)@.after_quit(id, final(self)@.room_captain),
            old(self)@.room_captain == Some(id) ==> final(self)@.can_follow(
                final(self)@.room_captain,
            ),
    {
        self.participants.remove(&id);
        assert(self@.participants =~= old(self)@.participants.remove(id));
        let successor = self.any_participant();
        self.settle_quit(id, successor);
    }

    /// Someone takes a name. Nothing happens where `id` is not in the room.
    pub fn participant_set_name(&mut self, id: u32, new_name: String)
        ensures
            final(self)@ == old(self)@.after_set_name(id, new_name@),
    {
        if self.participants.contains_key(&id) {
            self.participants.insert(id, Participant { name: new_name });
            assert(self@.participants =~= old(self)@.participants.insert(id, new_name@));
        }
    }

    /// Someone presses the buzzer; says whether it counted.
    pub fn participant_buzzed(&mut self, id: u32) -> (counted: bool)
        ensures
            counted == old(self)@.accepts_buzz(id),
            final(self)@ == old(self)@.after_buzz(id),
    {
        if position(&self.activated_buzzers, id).is_none() && !self.room_locked {
            match self.room_mode {
                RoomMode::FirstToBuzz => {
                    if self.activated_buzzers.len() == 0 {
                        self.activated_buzzers.push(id);
                        self.room_locked = true;
                        true
                    } else {
                        false
                    }
                },
                RoomMode::BuzzerRace => {
                    self.activated_buzzers.push(id);
                    true
                },
            }
        } else {
            false
        }
    }

    /// Whether `id` is the captain.
    pub fn is_captain(&self, id: u32) -> (captain: bool)
        ensures
            captain == (self@.room_captain == Some(id)),
    {
        match self.room_captain {
            Some(captain_id) => captain_id == id,
            None => false,
        }
    }

    /// Takes a message that was sent into the room.
    pub fn handle(&mut self, message: RoomMessage) -> (reaction: Reaction)
        ensures
            old(self)@.steps_to(message@, final(self)@),
            reaction.broadcast == old(self)@.broadcast(message@),
            reaction.closes == final(self)@.is_empty(),
            old(self)@.wf() ==> final(self)@.wf(),
    {
        let broadcast = match message {
            RoomMessage::Ping => Broadcast::Ping,
            RoomMessage::ParticipantJoined(id) => {
                self.participant_joined(id);
                Broadcast::State
            },
            RoomMessage::ParticipantQuit(id) => {
                self.participant_quit(id);
                Broadcast::State
            },
            RoomMessage::ParticipantSetName(id, new_name) => {
                self.participant_set_name(id, new_name);
                Broadcast::State
            },
            RoomMessage::ParticipantBuzzed(id) => {
                if self.participant_buzzed(id) {
                    Broadcast::State
                } else {
                    Broadcast::Nothing
                }
            },
            RoomMessage::ResetBuzzers(id) => {
                if self.is_captain(id) {
                    self.activated_buzzers.clear();
                    Broadcast::State
                } else {
                    Broadcast::Nothing
                }
            },
            RoomMessage::SetLockState(id, state) => {
                if self.is_captain(id) {
                    self.room_locked = state;
                    Broadcast::State
                } else {
                    Broadcast::Nothing
                }
            },
            RoomMessage::SetRoomMode(id, new_mode) => {
                if self.is_captain(id) {
                    self.room_mode = new_mode;
                    Broadcast::State
                } else {
                    Broadcast::Nothing
                }
            },
            // these are meant for participants
            RoomMessage::NewRoomState(_) => Broadcast::Nothing,
        };
        proof {
            let dom = self.participants@.dom();
            if dom.len() == 0 {
                dom.lemma_len0_is_empty();
            }
            if self@.is_empty() {
                assert forall|p: u32| !dom.contains(p) by {
                    assert(!self@.participants.contains_key(p));
                }
                assert(dom =~= Set::empty());
            }
            if old(self)@.wf() {
                law_steps_keep_wf(old(self)@, message@, self@);
            }
        }
        Reaction { broadcast, closes: self.participants.len() == 0 }
    }
}

} // verus!
