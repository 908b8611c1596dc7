use std::sync::Arc;

use buzzer::room::{Broadcast, Participant, Reaction, RoomMessage, RoomMode, RoomState};

const STATE: Reaction = Reaction {
    broadcast: Broadcast::State,
    closes: false,
};
const SILENCE: Reaction = Reaction {
    broadcast: Broadcast::Nothing,
    closes: false,
};

/// A room that these participants came into, in this order.
fn room_with(ids: &[u32]) -> RoomState {
    let mut room = RoomState::new(1234);
    for id in ids {
        assert_eq!(room.handle(RoomMessage::ParticipantJoined(*id)), STATE);
    }
    room
}

fn name_of(room: &RoomState, id: u32) -> Option<&str> {
    room.participants.get(&id).map(|p| p.name.as_str())
}

/// Everything about a room, in a form that can be compared.
fn seen(room: &RoomState) -> (u32, Vec<(u32, String)>, Option<u32>, RoomMode, bool, Vec<u32>) {
    let mut participants: Vec<(u32, String)> = room
        .participants
        .iter()
        .map(|(id, p)| (*id, p.name.clone()))
        .collect();
    participants.sort();
    (
        room.room_id,
        participants,
        room.room_captain,
        room.room_mode,
        room.room_locked,
        room.activated_buzzers.clone(),
    )
}

#[test]
fn a_new_room_is_empty_and_open() {
    let room = RoomState::new(4321);
    assert_eq!(
        seen(&room),
        (4321, vec![], None, RoomMode::FirstToBuzz, false, vec![])
    );
}

#[test]
fn the_first_to_come_is_captain() {
    let mut room = room_with(&[1000]);
    assert_eq!(room.room_captain, Some(1000));
    assert_eq!(name_of(&room, 1000), Some("New Player"));
    assert_eq!(room.handle(RoomMessage::ParticipantJoined(1001)), STATE);
    assert_eq!(room.room_captain, Some(1000));
    assert_eq!(room.participants.len(), 2);
}

#[test]
fn who_comes_back_alone_is_captain_still() {
    let mut room = room_with(&[1000]);
    room.handle(RoomMessage::ParticipantSetName(1000, "Ada".to_string()));
    assert_eq!(room.handle(RoomMessage::ParticipantJoined(1000)), STATE);
    assert_eq!(room.room_captain, Some(1000));
    assert_eq!(name_of(&room, 1000), Some("New Player"));
}

#[test]
fn a_captain_who_leaves_is_followed() {
    let mut room = room_with(&[1000, 1001, 1002]);
    assert_eq!(room.handle(RoomMessage::ParticipantQuit(1000)), STATE);
    let captain = room.room_captain.unwrap();
    assert!(captain == 1001 || captain == 1002);
    assert!(room.participants.contains_key(&captain));
    assert!(!room.participants.contains_key(&1000));
}

#[test]
fn others_leave_without_a_new_captain() {
    let mut room = room_with(&[1000, 1001]);
    assert_eq!(room.handle(RoomMessage::ParticipantQuit(1001)), STATE);
    assert_eq!(room.room_captain, Some(1000));
    assert_eq!(room.handle(RoomMessage::ParticipantQuit(7)), STATE);
    assert_eq!(room.room_captain, Some(1000));
    assert_eq!(room.participants.len(), 1);
}

#[test]
fn the_last_one_out_closes_the_room() {
    let mut room = room_with(&[1000, 1001]);
    assert!(!room.handle(RoomMessage::ParticipantQuit(1000)).closes);
    assert_eq!(room.room_captain, Some(1001));
    let reaction = room.handle(RoomMessage::ParticipantQuit(1001));
    assert_eq!(reaction.broadcast, Broadcast::State);
    assert!(reaction.closes);
    assert_eq!(room.room_captain, None);
}

#[test]
fn a_heartbeat_closes_a_room_that_nobody_came_into() {
    let mut room = RoomState::new(1234);
    let reaction = room.handle(RoomMessage::Ping);
    assert_eq!(reaction.broadcast, Broadcast::Ping);
    assert!(reaction.closes);
}

#[test]
fn a_successor_is_settled_exactly() {
    let mut room = room_with(&[1000, 1001, 1002]);
    room.room_mode = RoomMode::BuzzerRace;
    room.activated_buzzers = vec![1001, 1000, 1002];
    room.participants.remove(&1000);
    room.settle_quit(1000, Some(1002));
    assert_eq!(room.room_captain, Some(1002));
    assert_eq!(room.activated_buzzers, vec![1001, 1002]);
    room.settle_quit(1001, Some(1000));
    assert_eq!(room.room_captain, Some(1002));
    assert_eq!(room.activated_buzzers, vec![1002]);
    room.settle_quit(1002, None);
    assert_eq!(room.room_captain, None);
    assert_eq!(room.activated_buzzers, Vec::<u32>::new());
}

#[test]
fn any_participant_is_one() {
    assert_eq!(RoomState::new(1).any_participant(), None);
    assert_eq!(room_with(&[5]).any_participant(), Some(5));
    let room = room_with(&[5, 6, 7]);
    assert!(room.participants.contains_key(&room.any_participant().unwrap()));
}

#[test]
fn participants_take_names() {
    let mut room = room_with(&[1000, 1001]);
    let reaction = room.handle(RoomMessage::ParticipantSetName(1001, "Grace".to_string()));
    assert_eq!(reaction, STATE);
    assert_eq!(name_of(&room, 1001), Some("Grace"));
    assert_eq!(name_of(&room, 1000), Some("New Player"));
}

#[test]
fn strangers_take_no_names() {
    let mut room = room_with(&[1000]);
    let before = seen(&room);
    let reaction = room.handle(RoomMessage::ParticipantSetName(5, "Eve".to_string()));
    assert_eq!(reaction, STATE);
    assert_eq!(seen(&room), before);
}

#[test]
fn only_the_first_gets_to_buzz() {
    let mut room = room_with(&[1000, 1001, 1002]);
    assert_eq!(room.handle(RoomMessage::ParticipantBuzzed(1001)), STATE);
    assert_eq!(room.activated_buzzers, vec![1001]);
    assert!(room.room_locked);
    for id in [1000, 1001, 1002] {
        assert_eq!(room.handle(RoomMessage::ParticipantBuzzed(id)), SILENCE);
    }
    assert_eq!(room.activated_buzzers, vec![1001]);
    assert!(room.room_locked);
}

#[test]
fn unlocking_alone_lets_nobody_else_be_first() {
    let mut room = room_with(&[1000, 1001]);
    room.handle(RoomMessage::ParticipantBuzzed(1001));
    room.handle(RoomMessage::SetLockState(1000, false));
    assert_eq!(room.handle(RoomMessage::ParticipantBuzzed(1000)), SILENCE);
    assert_eq!(room.activated_buzzers, vec![1001]);
    assert!(!room.room_locked);
}

#[test]
fn a_race_lists_everyone_in_order() {
    let mut room = room_with(&[1000, 1001, 1002]);
    room.handle(RoomMessage::SetRoomMode(1000, RoomMode::BuzzerRace));
    assert_eq!(room.handle(RoomMessage::ParticipantBuzzed(1002)), STATE);
    assert_eq!(room.handle(RoomMessage::ParticipantBuzzed(1000)), STATE);
    assert_eq!(room.handle(RoomMessage::ParticipantBuzzed(1002)), SILENCE);
    assert_eq!(room.handle(RoomMessage::ParticipantBuzzed(1001)), STATE);
    assert_eq!(room.activated_buzzers, vec![1002, 1000, 1001]);
    assert!(!room.room_locked);
}

#[test]
fn a_locked_race_takes_no_buzz() {
    let mut room = room_with(&[1000, 1001]);
    room.handle(RoomMessage::SetRoomMode(1000, RoomMode::BuzzerRace));
    room.handle(RoomMessage::SetLockState(1000, true));
    assert_eq!(room.handle(RoomMessage::ParticipantBuzzed(1001)), SILENCE);
    assert_eq!(room.activated_buzzers, Vec::<u32>::new());
}

#[test]
fn a_reset_leaves_the_room_locked() {
    let mut room = room_with(&[1000, 1001]);
    room.handle(RoomMessage::ParticipantBuzzed(1001));
    assert_eq!(room.handle(RoomMessage::ResetBuzzers(1000)), STATE);
    assert_eq!(room.activated_buzzers, Vec::<u32>::new());
    assert!(room.room_locked);
    assert_eq!(room.handle(RoomMessage::ParticipantBuzzed(1000)), SILENCE);
    assert_eq!(room.handle(RoomMessage::SetLockState(1000, false)), STATE);
    assert_eq!(room.handle(RoomMessage::ParticipantBuzzed(1000)), STATE);
    assert_eq!(room.activated_buzzers, vec![1000]);
}

#[test]
fn only_the_captain_rules() {
    let mut room = room_with(&[1000, 1001]);
    room.handle(RoomMessage::ParticipantBuzzed(1001));
    let before = seen(&room);
    for id in [1001, 7] {
        assert_eq!(room.handle(RoomMessage::ResetBuzzers(id)), SILENCE);
        assert_eq!(room.handle(RoomMessage::SetLockState(id, false)), SILENCE);
        assert_eq!(
            room.handle(RoomMessage::SetRoomMode(id, RoomMode::BuzzerRace)),
            SILENCE
        );
        assert_eq!(seen(&room), before);
    }
}

#[test]
fn a_room_without_a_captain_obeys_nobody() {
    let mut room = room_with(&[1000]);
    room.room_captain = None;
    assert!(!room.is_captain(1000));
    let before = seen(&room);
    assert_eq!(room.handle(RoomMessage::ResetBuzzers(1000)), SILENCE);
    assert_eq!(room.handle(RoomMessage::SetLockState(1000, true)), SILENCE);
    assert_eq!(seen(&room), before);
}

#[test]
fn the_captain_is_obeyed() {
    let mut room = room_with(&[1000, 1001]);
    assert!(room.is_captain(1000));
    assert!(!room.is_captain(1001));
    assert_eq!(room.handle(RoomMessage::SetLockState(1000, true)), STATE);
    assert!(room.room_locked);
    assert_eq!(
        room.handle(RoomMessage::SetRoomMode(1000, RoomMode::BuzzerRace)),
        STATE
    );
    assert_eq!(room.room_mode, RoomMode::BuzzerRace);
}

#[test]
fn who_leaves_takes_their_buzz_along() {
    let mut room = room_with(&[1000, 1001, 1002]);
    room.handle(RoomMessage::SetRoomMode(1000, RoomMode::BuzzerRace));
    for id in [1002, 1001, 1000] {
        room.handle(RoomMessage::ParticipantBuzzed(id));
    }
    room.handle(RoomMessage::ParticipantQuit(1001));
    assert_eq!(room.activated_buzzers, vec![1002, 1000]);
}

#[test]
fn a_buzz_that_leaves_does_not_unlock() {
    let mut room = room_with(&[1000, 1001]);
    room.handle(RoomMessage::ParticipantBuzzed(1001));
    room.handle(RoomMessage::ParticipantQuit(1001));
    assert_eq!(room.activated_buzzers, Vec::<u32>::new());
    assert!(room.room_locked);
}

#[test]
fn heartbeats_and_states_change_nothing() {
    let mut room = room_with(&[1000, 1001]);
    let before = seen(&room);
    let reaction = room.handle(RoomMessage::Ping);
    assert_eq!(reaction.broadcast, Broadcast::Ping);
    assert!(!reaction.closes);
    let state = RoomMessage::NewRoomState(Arc::new("{}".to_string()));
    assert_eq!(room.handle(state), SILENCE);
    assert_eq!(seen(&room), before);
}

#[test]
fn every_change_is_broadcast() {
    let mut room = RoomState::new(1);
    let ids: [u32; 4] = [10, 11, 12, 13];
    let mut seed: u32 = 7;
    for _ in 0..2000 {
        seed = seed.wrapping_mul(1_664_525).wrapping_add(1_013_904_223);
        let id = ids[(seed >> 8) as usize % 4];
        let flag = (seed >> 12) % 2 == 0;
        let message = match (seed >> 16) % 8 {
            0 => RoomMessage::ParticipantJoined(id),
            1 => RoomMessage::ParticipantQuit(id),
            2 => RoomMessage::ParticipantSetName(id, format!("p{}", seed % 5)),
            3 => RoomMessage::ParticipantBuzzed(id),
            4 => RoomMessage::ResetBuzzers(id),
            5 => RoomMessage::SetLockState(id, flag),
            6 => RoomMessage::SetRoomMode(
                id,
                if flag {
                    RoomMode::BuzzerRace
                } else {
                    RoomMode::FirstToBuzz
                },
            ),
            _ => RoomMessage::Ping,
        };
        let before = seen(&room);
        let reaction = room.handle(message);
        if seen(&room) != before {
            assert_eq!(reaction.broadcast, Broadcast::State);
        }
        assert_eq!(reaction.closes, room.participants.is_empty());
        match room.room_captain {
            Some(captain) => assert!(room.participants.contains_key(&captain)),
            None => assert!(room.participants.is_empty()),
        }
        let mut buzzers = room.activated_buzzers.clone();
        buzzers.sort();
        buzzers.dedup();
        assert_eq!(buzzers.len(), room.activated_buzzers.len());
    }
}

#[test]
fn single_operations_do_what_messages_do() {
    let mut room = RoomState::new(1);
    room.participant_joined(3);
    room.participant_joined(4);
    room.participant_set_name(4, "Four".to_string());
    assert!(room.participant_buzzed(4));
    assert!(!room.participant_buzzed(3));
    room.participant_quit(3);
    assert_eq!(
        seen(&room),
        (
            1,
            vec![(4, "Four".to_string())],
            Some(4),
            RoomMode::FirstToBuzz,
            true,
            vec![4]
        )
    );
    let participant = Participant {
        name: "Five".to_string(),
    };
    room.participants.insert(5, participant);
    assert_eq!(name_of(&room, 5), Some("Five"));
}

#[test]
fn at_most_one_has_buzzed_until_there_is_a_race() {
    let mut room = room_with(&[1000, 1001, 1002]);
    for message in [
        RoomMessage::ParticipantBuzzed(1001),
        RoomMessage::SetLockState(1000, false),
        RoomMessage::ParticipantBuzzed(1002),
        RoomMessage::SetRoomMode(1002, RoomMode::BuzzerRace),
        RoomMessage::ParticipantBuzzed(1002),
        RoomMessage::SetRoomMode(1000, RoomMode::FirstToBuzz),
        RoomMessage::ParticipantJoined(1003),
        RoomMessage::ParticipantBuzzed(1003),
    ] {
        room.handle(message);
        assert_eq!(room.activated_buzzers, vec![1001]);
    }
    room.handle(RoomMessage::ParticipantQuit(1001));
    assert!(room.activated_buzzers.is_empty());
    room.handle(RoomMessage::ParticipantBuzzed(1003));
    assert_eq!(room.activated_buzzers, vec![1003]);
    room.handle(RoomMessage::SetRoomMode(1000, RoomMode::BuzzerRace));
    room.handle(RoomMessage::SetLockState(1000, false));
    room.handle(RoomMessage::ParticipantBuzzed(1002));
    assert_eq!(room.activated_buzzers, vec![1003, 1002]);
}

#[test]
fn buzzes_stand_until_they_are_taken_back() {
    let mut room = room_with(&[1000, 1001, 1002, 1003]);
    room.handle(RoomMessage::SetRoomMode(1000, RoomMode::BuzzerRace));
    room.handle(RoomMessage::ParticipantBuzzed(1002));
    room.handle(RoomMessage::ParticipantBuzzed(1001));
    for message in [
        RoomMessage::ResetBuzzers(1001),
        RoomMessage::ParticipantQuit(1003),
        RoomMessage::ParticipantJoined(1001),
        RoomMessage::SetRoomMode(1000, RoomMode::FirstToBuzz),
        RoomMessage::SetLockState(1000, true),
        RoomMessage::Ping,
    ] {
        room.handle(message);
        assert_eq!(room.activated_buzzers, vec![1002, 1001]);
    }
    room.handle(RoomMessage::ParticipantQuit(1002));
    assert_eq!(room.activated_buzzers, vec![1001]);
    room.handle(RoomMessage::ResetBuzzers(1000));
    assert!(room.activated_buzzers.is_empty());
}
