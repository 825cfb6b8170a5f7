use chathub::auth::authenticate;
use chathub::bus::Broadcaster;
use chathub::errors::HubError;
use chathub::identity::IdentityDirectory;
use chathub::numerals::{parse_usize, render_usize};
use chathub::rooms::RoomStore;

#[test]
fn registration_ids_are_distinct_and_increasing() {
    let mut dir = IdentityDirectory::new();
    let a = dir.register("alice".to_string());
    let b = dir.register("bob".to_string());
    let c = dir.register("carol".to_string());
    assert_eq!(a, 0);
    assert_eq!(b, 1);
    assert_eq!(c, 2);
    assert!(a < b && b < c);
    assert_eq!(dir.user_count(), 3);
}

#[test]
fn lookup_finds_registered_users_only() {
    let mut dir = IdentityDirectory::new();
    let a = dir.register("alice".to_string());
    let found = dir.lookup(a).expect("registered id must resolve");
    assert_eq!(found.id, a);
    assert_eq!(found.name, "alice");
    assert!(dir.lookup(7).is_none());
    assert!(dir.contains_user(a));
    assert!(!dir.contains_user(7));
}

#[test]
fn create_room_is_exclusive() {
    let mut rooms = RoomStore::new();
    assert!(rooms.create("general".to_string(), 0).is_ok());
    let again = rooms.create("general".to_string(), 1);
    assert_eq!(again, Err(HubError::Conflict));
    // The existing room is untouched by the rejected attempt.
    let all = rooms.list_all();
    assert_eq!(all.len(), 1);
    assert_eq!(all[0].name, "general");
    assert_eq!(all[0].user_set, vec![0]);
    assert!(all[0].messages.is_empty());
}

#[test]
fn join_is_idempotent() {
    let mut rooms = RoomStore::new();
    rooms.create("general".to_string(), 0).unwrap();
    let once = rooms.join("general", 5).unwrap();
    let twice = rooms.join("general", 5).unwrap();
    assert_eq!(once.user_set, vec![0, 5]);
    assert_eq!(twice.user_set, vec![0, 5]);
    assert_eq!(once.user_set.len(), twice.user_set.len());
}

#[test]
fn join_unknown_room_is_not_found() {
    let mut rooms = RoomStore::new();
    assert_eq!(rooms.join("nowhere", 0).map(|r| r.name), Err(HubError::NotFound));
}

#[test]
fn append_message_grows_log_by_one() {
    let mut rooms = RoomStore::new();
    rooms.create("general".to_string(), 0).unwrap();
    rooms.append_message("general", 0, "hi".to_string()).unwrap();
    rooms.append_message("general", 1, "there".to_string()).unwrap();
    let all = rooms.list_all();
    assert_eq!(all[0].messages.len(), 2);
    assert_eq!(all[0].messages[0].user_id, 0);
    assert_eq!(all[0].messages[0].message, "hi");
    assert_eq!(all[0].messages[1].user_id, 1);
    assert_eq!(all[0].messages[1].message, "there");
}

#[test]
fn append_message_to_unknown_room_is_not_found() {
    let mut rooms = RoomStore::new();
    rooms.create("general".to_string(), 0).unwrap();
    let r = rooms.append_message("ghost-room", 0, "hello".to_string());
    assert_eq!(r, Err(HubError::NotFound));
    // Nothing was appended anywhere.
    assert!(rooms.list_all()[0].messages.is_empty());
}

#[test]
fn fanout_reaches_every_subscriber_once_in_order() {
    let mut bus = Broadcaster::new(100);
    let r1 = bus.subscribe();
    let r2 = bus.subscribe();
    let r3 = bus.subscribe();
    bus.publish(&"first".to_string());
    bus.publish(&"second".to_string());
    for r in [r1, r2, r3] {
        assert_eq!(bus.receive(r), Some("first".to_string()));
        assert_eq!(bus.receive(r), Some("second".to_string()));
        assert_eq!(bus.receive(r), None);
    }
}

#[test]
fn lagging_subscriber_loses_only_oldest_frames() {
    let mut bus = Broadcaster::new(2);
    let r = bus.subscribe();
    bus.publish(&"one".to_string());
    bus.publish(&"two".to_string());
    bus.publish(&"three".to_string());
    assert_eq!(bus.receive(r), Some("two".to_string()));
    assert_eq!(bus.receive(r), Some("three".to_string()));
    assert_eq!(bus.receive(r), None);
}

#[test]
fn unsubscribed_receiver_gets_nothing_and_blocks_nobody() {
    let mut bus = Broadcaster::new(100);
    let gone = bus.subscribe();
    let kept = bus.subscribe();
    bus.unsubscribe(gone);
    bus.publish(&"frame".to_string());
    assert_eq!(bus.receive(kept), Some("frame".to_string()));
}

#[test]
fn authenticate_accepts_registered_id_only() {
    let mut dir = IdentityDirectory::new();
    dir.register("alice".to_string());
    dir.register("bob".to_string());
    assert_eq!(authenticate(&dir, "0"), Ok(0));
    assert_eq!(authenticate(&dir, "1"), Ok(1));
    assert_eq!(authenticate(&dir, "2"), Err(HubError::Unauthorized));
    assert_eq!(authenticate(&dir, "abc"), Err(HubError::Unauthorized));
    assert_eq!(authenticate(&dir, ""), Err(HubError::Unauthorized));
    assert_eq!(authenticate(&dir, "00"), Ok(0));
}

#[test]
fn numerals_render_and_parse() {
    assert_eq!(render_usize(0), "0");
    assert_eq!(render_usize(7), "7");
    assert_eq!(render_usize(1234), "1234");
    assert_eq!(parse_usize("1234"), Some(1234));
    assert_eq!(parse_usize("0"), Some(0));
    assert_eq!(parse_usize(""), None);
    assert_eq!(parse_usize("12a"), None);
    assert_eq!(parse_usize("999999999999999999999999999999"), None);
}

#[test]
fn error_status_codes_match_http_surface() {
    assert_eq!(HubError::Unauthorized.status_code(), 401);
    assert_eq!(HubError::Conflict.status_code(), 409);
    assert_eq!(HubError::NotFound.status_code(), 404);
}
