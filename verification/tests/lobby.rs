use std::collections::HashMap;

use buzzer::lobby::{
    claim_room_code, create_room, create_room_from, gen_room_id, pick_room_id, read_hint,
    room_hint, weigh_room_id, Admission, CodeAttempt, Lobby, PlayerIds, Room, RoomRequest,
};
use buzzer::params::QueryParams;
use buzzer::visits::Visits;

fn query(pairs: &[(&str, &str)]) -> QueryParams {
    QueryParams::from_pairs(
        pairs
            .iter()
            .map(|(name, value)| (name.to_string(), value.to_string()))
            .collect(),
    )
}

#[test]
fn a_parameter_has_its_last_value() {
    let params = query(&[("room", "1"), ("x", "y"), ("room", "2")]);
    assert_eq!(params.get("room").map(|s| s.as_str()), Some("2"));
    assert_eq!(params.get("x").map(|s| s.as_str()), Some("y"));
    assert_eq!(params.get("rooms"), None);
    assert_eq!(query(&[]).get("room"), None);
}

#[test]
fn parameters_are_described() {
    assert_eq!(query(&[]).describe(), "");
    assert_eq!(query(&[("room", "new")]).describe(), "room -> new");
    assert_eq!(
        query(&[("room", "1"), ("x", ""), ("room", "2")]).describe(),
        "room -> 2 -- x -> "
    );
}

#[test]
fn a_hint_is_the_room_parameter() {
    assert_eq!(room_hint(&query(&[("room", "new")])), "new");
    assert_eq!(room_hint(&query(&[("a", "b"), ("room", "1234")])), "1234");
    assert_eq!(room_hint(&query(&[])), "none");
    assert_eq!(room_hint(&query(&[("room", "")])), "");
}

#[test]
fn hints_ask_for_rooms() {
    assert_eq!(read_hint("new"), RoomRequest::New);
    assert_eq!(read_hint("1234"), RoomRequest::Join(1234));
    assert_eq!(read_hint("+1234"), RoomRequest::Join(1234));
    assert_eq!(read_hint("none"), RoomRequest::Join(0));
    assert_eq!(read_hint("New"), RoomRequest::Join(0));
    assert_eq!(read_hint(""), RoomRequest::Join(0));
    assert_eq!(read_hint("99999999999"), RoomRequest::Join(0));
}

#[test]
fn room_ids_are_drawn_from_their_range() {
    let rooms: HashMap<u32, u8> = HashMap::new();
    let mut drawn: Vec<u32> = Vec::new();
    for _ in 0..500 {
        let id = gen_room_id(&rooms).unwrap();
        assert!((1000..9999).contains(&id));
        drawn.push(id);
    }
    drawn.sort();
    drawn.dedup();
    assert!(drawn.len() > 100);
}

#[test]
fn a_drawn_room_id_is_taken_up_if_no_room_has_it() {
    let mut rooms: HashMap<u32, u8> = HashMap::new();
    assert_eq!(weigh_room_id(&rooms, 1234), Some(1234));
    rooms.insert(1234, 1);
    assert_eq!(weigh_room_id(&rooms, 1234), None);
    assert_eq!(weigh_room_id(&rooms, 1235), Some(1235));
}

#[test]
fn the_first_free_id_is_picked() {
    let mut rooms: HashMap<u32, u8> = HashMap::new();
    assert_eq!(pick_room_id(&rooms, &vec![]), None);
    assert_eq!(pick_room_id(&rooms, &vec![1001, 1002]), Some(1001));
    rooms.insert(1001, 1);
    assert_eq!(pick_room_id(&rooms, &vec![1001, 1002]), Some(1002));
    assert_eq!(pick_room_id(&rooms, &vec![1001, 1001, 1003, 1002]), Some(1003));
    assert_eq!(pick_room_id(&rooms, &vec![1001, 1001]), None);
    rooms.insert(1002, 1);
    assert_eq!(pick_room_id(&rooms, &vec![1001, 1002]), None);
}

#[test]
fn twenty_ids_are_tried() {
    let mut rooms: HashMap<u32, u8> = HashMap::new();
    rooms.insert(1001, 1);
    let mut draws: Vec<u32> = vec![1001; 19];
    draws.push(1002);
    draws.push(1003);
    assert_eq!(pick_room_id(&rooms, &draws), Some(1002));
    let mut draws: Vec<u32> = vec![1001; 20];
    draws.push(1002);
    assert_eq!(pick_room_id(&rooms, &draws), None);
    assert_eq!(pick_room_id(&rooms, &vec![1001; 20]), None);
}

#[test]
fn a_new_room_gets_no_id_that_a_room_has() {
    let mut rooms: HashMap<u32, u8> = HashMap::new();
    for id in (1000..9999).step_by(2) {
        rooms.insert(id, 1);
    }
    for _ in 0..500 {
        if let Some(id) = gen_room_id(&rooms) {
            assert!((1000..9999).contains(&id));
            assert_eq!(id % 2, 1);
        }
    }
    for id in (1001..9999).step_by(2) {
        rooms.insert(id, 1);
    }
    assert_eq!(gen_room_id(&rooms), None);
}

#[test]
fn a_full_lobby_has_no_new_room() {
    let mut lobby: Lobby<u8> = Lobby::new();
    for id in 1000..9999 {
        lobby.open_room(id, 1);
    }
    assert!(matches!(lobby.lead("new"), Admission::NoFreeId));
    assert!(matches!(lobby.lead("1000"), Admission::Enter(1)));
}

#[test]
fn a_new_room_leaves_the_others_as_they_were() {
    let mut lobby: Lobby<u32> = Lobby::new();
    let mut opened: Vec<u32> = Vec::new();
    for n in 0..200 {
        if let Admission::Open(id) = lobby.lead("new") {
            assert_eq!(lobby.find_room(id), None);
            lobby.open_room(id, n);
            opened.push(id);
        } else {
            panic!("no new room");
        }
        for (n, id) in opened.iter().enumerate() {
            assert_eq!(lobby.find_room(*id), Some(&(n as u32)));
        }
    }
}

#[test]
fn a_lobby_knows_its_rooms() {
    let mut lobby: Lobby<&str> = Lobby::new();
    assert_eq!(lobby.find_room(1234), None);
    lobby.open_room(1234, "door");
    lobby.open_room(5678, "gate");
    assert_eq!(lobby.find_room(1234), Some(&"door"));
    assert_eq!(lobby.find_room(5678), Some(&"gate"));
    lobby.open_room(1234, "window");
    assert_eq!(lobby.find_room(1234), Some(&"window"));
    assert_eq!(lobby.close_room(1234), Some("window"));
    assert_eq!(lobby.close_room(1234), None);
    assert_eq!(lobby.find_room(1234), None);
    assert_eq!(lobby.find_room(5678), Some(&"gate"));
}

#[test]
fn hints_lead_into_rooms() {
    let mut lobby: Lobby<u8> = Lobby::new();
    lobby.open_room(1234, 5);
    assert!(matches!(lobby.lead("1234"), Admission::Enter(5)));
    assert!(matches!(lobby.lead("4321"), Admission::Nowhere));
    assert!(matches!(lobby.lead("none"), Admission::Nowhere));
    match lobby.lead("new") {
        Admission::Open(id) => {
            assert!((1000..9999).contains(&id));
            assert!(id != 1234);
        }
        _ => panic!("no new room"),
    }
    lobby.open_room(0, 6);
    assert!(matches!(lobby.lead("nonsense"), Admission::Enter(6)));
}

#[test]
fn open_rooms_exist() {
    let mut lobby: Lobby<()> = Lobby::new();
    lobby.open_room(1234, ());
    assert!(lobby.room_exists(&query(&[("room_id", "1234")])));
    assert!(lobby.room_exists(&query(&[("room_id", "01234")])));
    assert!(!lobby.room_exists(&query(&[("room_id", "1235")])));
    assert!(!lobby.room_exists(&query(&[("room_id", "x")])));
    assert!(!lobby.room_exists(&query(&[("room", "1234")])));
    assert!(!lobby.room_exists(&query(&[])));
    lobby.close_room(1234);
    assert!(!lobby.room_exists(&query(&[("room_id", "1234")])));
}

#[test]
fn a_number_that_cannot_be_read_does_not_exist() {
    let mut lobby: Lobby<()> = Lobby::new();
    lobby.open_room(0, ());
    assert!(lobby.room_exists(&query(&[("room_id", "0")])));
    assert!(!lobby.room_exists(&query(&[("room_id", "none")])));
}

#[test]
fn free_codes_are_claimed() {
    let mut rooms: HashMap<u32, Room> = HashMap::new();
    assert_eq!(claim_room_code(&mut rooms, 0, 1234), CodeAttempt::Claimed);
    assert_eq!(rooms.get(&1234), Some(&Room { code: 1234 }));
    assert_eq!(claim_room_code(&mut rooms, 0, 1234), CodeAttempt::Taken(1));
    assert_eq!(
        claim_room_code(&mut rooms, 99, 1234),
        CodeAttempt::Taken(100)
    );
    assert_eq!(claim_room_code(&mut rooms, 100, 1234), CodeAttempt::GaveUp);
    assert_eq!(claim_room_code(&mut rooms, 100, 1235), CodeAttempt::Claimed);
    assert_eq!(rooms.len(), 2);
}

#[test]
fn rooms_are_created_under_free_codes() {
    let mut rooms: HashMap<u32, Room> = HashMap::new();
    for n in 0..300 {
        let room = create_room(&mut rooms).unwrap();
        assert!((1000..9999).contains(&room.code));
        assert_eq!(rooms.len(), n + 1);
        assert_eq!(rooms.get(&room.code), Some(&room));
    }
}

#[test]
fn no_room_is_created_where_all_codes_are_taken() {
    let mut rooms: HashMap<u32, Room> = HashMap::new();
    for code in 1000..9999 {
        rooms.insert(code, Room { code });
    }
    assert_eq!(create_room(&mut rooms), None);
    assert_eq!(rooms.len(), 8999);
}

#[test]
fn a_room_is_created_under_the_first_free_code() {
    let mut rooms: HashMap<u32, Room> = HashMap::new();
    assert_eq!(create_room_from(&mut rooms, &vec![]), None);
    assert!(rooms.is_empty());
    assert_eq!(
        create_room_from(&mut rooms, &vec![2000, 2001]),
        Some(Room { code: 2000 })
    );
    assert_eq!(
        create_room_from(&mut rooms, &vec![2000, 2000, 2002, 2001]),
        Some(Room { code: 2002 })
    );
    assert_eq!(rooms.len(), 2);
    assert_eq!(create_room_from(&mut rooms, &vec![2002, 2000]), None);
    assert_eq!(rooms.len(), 2);
}

#[test]
fn a_hundred_taken_codes_are_passed_over() {
    let mut rooms: HashMap<u32, Room> = HashMap::new();
    rooms.insert(2000, Room { code: 2000 });
    let mut draws: Vec<u32> = vec![2000; 100];
    draws.push(2001);
    assert_eq!(
        create_room_from(&mut rooms, &draws),
        Some(Room { code: 2001 })
    );
    let mut draws: Vec<u32> = vec![2000; 101];
    draws.push(2002);
    assert_eq!(create_room_from(&mut rooms, &draws), None);
    assert_eq!(rooms.len(), 2);
}

#[test]
fn player_ids_count_up() {
    let mut ids = PlayerIds::new();
    assert_eq!(ids.issue(), 1000);
    assert_eq!(ids.issue(), 1001);
    assert_eq!(ids.issue(), 1002);
    ids.next = u32::MAX;
    assert_eq!(ids.issue(), u32::MAX);
    assert_eq!(ids.issue(), 0);
}

#[test]
fn visits_are_counted() {
    let mut visits = Visits::new();
    assert_eq!(visits.visit(), "This site has been visited 1 times");
    assert_eq!(visits.visit(), "This site has been visited 2 times");
    visits.count = 4_294_967_294;
    assert_eq!(
        visits.visit(),
        "This site has been visited 4294967295 times"
    );
}
