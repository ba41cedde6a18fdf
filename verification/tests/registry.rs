use termdrawserver::pixel::{Pixel, PixelColour};
use termdrawserver::registry::Registry;
use termdrawserver::room::{Room, RoomSnapshot};

fn sorted(mut ids: Vec<u128>) -> Vec<u128> {
    ids.sort();
    ids
}

#[test]
fn new_registry_has_no_rooms() {
    let registry: Registry<&str> = Registry::new();
    assert_eq!(registry.len(), 0);
    assert!(!registry.contains_room(1));
    assert!(registry.room(1).is_none());
    assert!(registry.members(1).is_empty());
}

#[test]
fn create_room_holds_its_first_member_and_an_empty_canvas() {
    let mut registry: Registry<&str> = Registry::new();
    registry.create_room(10, 1, "first");
    assert_eq!(registry.len(), 1);
    assert!(registry.contains_room(10));
    let room = registry.room(10).unwrap();
    assert_eq!(room.id, 10);
    assert_eq!(room.pixels.len(), 0);
    assert_eq!(room.users.len(), 1);
    assert_eq!(room.users.get(&1), Some(&"first"));
    assert_eq!(registry.members(10), vec![1]);
}

#[test]
fn create_room_replaces_a_room_of_the_same_identifier() {
    let mut registry: Registry<&str> = Registry::new();
    registry.create_room(10, 1, "first");
    registry.draw(10, Pixel { x: 1, y: 1, colour: PixelColour::Red });
    registry.create_room(10, 2, "second");
    assert_eq!(registry.len(), 1);
    let room = registry.room(10).unwrap();
    assert_eq!(room.pixels.len(), 0);
    assert_eq!(registry.members(10), vec![2]);
}

#[test]
fn join_room_adds_the_member_and_shows_the_canvas() {
    let mut registry: Registry<&str> = Registry::new();
    registry.create_room(10, 1, "first");
    registry.draw(10, Pixel { x: 4, y: 5, colour: PixelColour::Blue });
    let snapshot = match registry.join_room(10, 2, "second") {
        Ok(snapshot) => snapshot,
        Err(_) => panic!("the room exists"),
    };
    assert_eq!(
        snapshot,
        RoomSnapshot { id: 10, pixels: vec![Pixel { x: 4, y: 5, colour: PixelColour::Blue }] }
    );
    assert_eq!(sorted(registry.members(10)), vec![1, 2]);
    assert_eq!(registry.room(10).unwrap().users.get(&2), Some(&"second"));
    assert_eq!(registry.room(10).unwrap().pixels.len(), 1);
}

#[test]
fn snapshot_is_not_touched_by_later_draws() {
    let mut registry: Registry<&str> = Registry::new();
    registry.create_room(10, 1, "first");
    registry.draw(10, Pixel { x: 1, y: 1, colour: PixelColour::Red });
    let snapshot = match registry.join_room(10, 2, "second") {
        Ok(snapshot) => snapshot,
        Err(_) => panic!("the room exists"),
    };
    registry.draw(10, Pixel { x: 2, y: 2, colour: PixelColour::Green });
    registry.draw(10, Pixel { x: 1, y: 1, colour: PixelColour::Clear });
    assert_eq!(snapshot.pixels, vec![Pixel { x: 1, y: 1, colour: PixelColour::Red }]);
}

#[test]
fn join_room_on_an_unknown_room_is_refused_and_changes_nothing() {
    let mut registry: Registry<&str> = Registry::new();
    registry.create_room(10, 1, "first");
    match registry.join_room(11, 2, "second") {
        Ok(_) => panic!("there is no room 11"),
        Err(e) => assert_eq!(e.sink, "second"),
    }
    assert_eq!(registry.len(), 1);
    assert!(!registry.contains_room(11));
    assert_eq!(registry.members(10), vec![1]);
}

#[test]
fn join_room_with_a_member_identifier_in_use_replaces_the_sink() {
    let mut registry: Registry<&str> = Registry::new();
    registry.create_room(10, 1, "first");
    assert!(registry.join_room(10, 1, "again").is_ok());
    assert_eq!(registry.members(10), vec![1]);
    assert_eq!(registry.room(10).unwrap().users.get(&1), Some(&"again"));
}

#[test]
fn remove_user_hands_out_the_sink_and_keeps_a_room_with_members() {
    let mut registry: Registry<&str> = Registry::new();
    registry.create_room(10, 1, "first");
    assert!(registry.join_room(10, 2, "second").is_ok());
    assert_eq!(registry.remove_user(10, 1), Some("first"));
    assert!(registry.contains_room(10));
    assert_eq!(registry.members(10), vec![2]);
}

#[test]
fn remove_user_of_the_last_member_removes_the_room() {
    let mut registry: Registry<&str> = Registry::new();
    registry.create_room(10, 1, "first");
    registry.create_room(20, 3, "other");
    assert_eq!(registry.remove_user(10, 1), Some("first"));
    assert!(!registry.contains_room(10));
    assert!(registry.contains_room(20));
    assert_eq!(registry.len(), 1);
    assert!(registry.join_room(10, 2, "late").is_err());
    assert_eq!(registry.len(), 1);
}

#[test]
fn remove_user_of_a_stranger_changes_nothing() {
    let mut registry: Registry<&str> = Registry::new();
    registry.create_room(10, 1, "first");
    assert_eq!(registry.remove_user(10, 9), None);
    assert_eq!(registry.remove_user(11, 1), None);
    assert_eq!(registry.len(), 1);
    assert_eq!(registry.members(10), vec![1]);
}

#[test]
fn draw_and_reset_touch_one_room_only() {
    let mut registry: Registry<&str> = Registry::new();
    registry.create_room(10, 1, "first");
    registry.create_room(20, 2, "second");
    registry.draw(10, Pixel { x: 1, y: 2, colour: PixelColour::Red });
    registry.draw(20, Pixel { x: 1, y: 2, colour: PixelColour::Blue });
    assert_eq!(registry.room(10).unwrap().pixels.get(1, 2), Some(PixelColour::Red));
    assert_eq!(registry.room(20).unwrap().pixels.get(1, 2), Some(PixelColour::Blue));
    registry.reset(10);
    assert_eq!(registry.room(10).unwrap().pixels.len(), 0);
    assert_eq!(registry.room(20).unwrap().pixels.get(1, 2), Some(PixelColour::Blue));
    assert_eq!(registry.members(10), vec![1]);
}

#[test]
fn draw_and_reset_on_an_unknown_room_change_nothing() {
    let mut registry: Registry<&str> = Registry::new();
    registry.create_room(10, 1, "first");
    registry.draw(11, Pixel { x: 1, y: 2, colour: PixelColour::Red });
    registry.reset(11);
    assert_eq!(registry.len(), 1);
    assert_eq!(registry.room(10).unwrap().pixels.len(), 0);
}

#[test]
fn members_lists_each_member_once() {
    let mut registry: Registry<u8> = Registry::new();
    registry.create_room(10, 100, 0);
    for user in 101..140u128 {
        assert!(registry.join_room(10, user, 0).is_ok());
    }
    let expected: Vec<u128> = (100..140u128).collect();
    assert_eq!(sorted(registry.members(10)), expected);
}

#[test]
fn a_room_of_its_own_lists_members_and_shows_its_canvas() {
    let mut room: Room<&str> = Room::new(7, 1, "first");
    room.users.insert(2, "second");
    room.pixels.draw(Pixel { x: 0, y: 0, colour: PixelColour::Yellow });
    assert_eq!(sorted(room.members()), vec![1, 2]);
    assert_eq!(
        room.snapshot(),
        RoomSnapshot { id: 7, pixels: vec![Pixel { x: 0, y: 0, colour: PixelColour::Yellow }] }
    );
}
