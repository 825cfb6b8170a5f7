use chathub::bus::Broadcaster;
use chathub::errors::HubError;
use chathub::frames::{encode_outbound, split_frame};
use chathub::identity::IdentityDirectory;
use chathub::rooms::RoomStore;
use chathub::session::{ConnectionSession, InboundOutcome, SessionPhase};

#[test]
fn register_create_join_send_receive() {
    let mut dir = IdentityDirectory::new();
    let mut rooms = RoomStore::new();
    let mut bus = Broadcaster::new(100);

    let alice = dir.register("alice".to_string());
    assert_eq!(alice, 0);
    let bob = dir.register("bob".to_string());
    assert_eq!(bob, 1);

    assert!(rooms.create("general".to_string(), alice).is_ok());
    let snapshot = rooms.join("general", bob).expect("joining an existing room succeeds");
    assert_eq!(snapshot.user_set, vec![0, 1]);

    let alice_session =
        ConnectionSession::open(&dir, &mut bus, alice).expect("alice's id is known");
    let bob_session = ConnectionSession::open(&dir, &mut bus, bob).expect("bob's id is known");
    assert_eq!(alice_session.phase, SessionPhase::Active);

    let outcome = alice_session.handle_inbound(&mut rooms, &mut bus, "general\nhi");
    assert_eq!(outcome, InboundOutcome::Published);
    assert_eq!(bob_session.next_outbound(&mut bus), Some("0\ngeneral\nhi".to_string()));
    assert_eq!(bob_session.next_outbound(&mut bus), None);

    let logged = &rooms.list_all()[0].messages;
    assert_eq!(logged.len(), 1);
    assert_eq!(logged[0].user_id, 0);
    assert_eq!(logged[0].message, "hi");
}

#[test]
fn duplicate_room_is_rejected_and_membership_kept() {
    let mut dir = IdentityDirectory::new();
    let mut rooms = RoomStore::new();
    let alice = dir.register("alice".to_string());
    let bob = dir.register("bob".to_string());
    rooms.create("general".to_string(), alice).unwrap();
    rooms.join("general", bob).unwrap();

    assert_eq!(rooms.create("general".to_string(), bob), Err(HubError::Conflict));
    assert_eq!(rooms.list_all().len(), 1);
    assert_eq!(rooms.list_all()[0].user_set, vec![0, 1]);
}

#[test]
fn frame_for_unknown_room_is_recorded_not_fatal() {
    let mut dir = IdentityDirectory::new();
    let mut rooms = RoomStore::new();
    let mut bus = Broadcaster::new(100);
    let alice = dir.register("alice".to_string());
    rooms.create("general".to_string(), alice).unwrap();
    let session = ConnectionSession::open(&dir, &mut bus, alice).unwrap();
    let observer = bus.subscribe();

    let outcome = session.handle_inbound(&mut rooms, &mut bus, "ghost-room\nhello");
    assert_eq!(outcome, InboundOutcome::RoomNotFound);
    // No frame was broadcast to anyone.
    assert_eq!(bus.receive(observer), None);
    assert_eq!(session.next_outbound(&mut bus), None);
    // The session stays usable: a later well-formed frame still goes through.
    let outcome = session.handle_inbound(&mut rooms, &mut bus, "general\nstill here");
    assert_eq!(outcome, InboundOutcome::Published);
    assert_eq!(session.next_outbound(&mut bus), Some("0\ngeneral\nstill here".to_string()));
}

#[test]
fn malformed_frame_is_discarded_silently() {
    let mut dir = IdentityDirectory::new();
    let mut rooms = RoomStore::new();
    let mut bus = Broadcaster::new(100);
    let alice = dir.register("alice".to_string());
    rooms.create("general".to_string(), alice).unwrap();
    let session = ConnectionSession::open(&dir, &mut bus, alice).unwrap();

    let outcome = session.handle_inbound(&mut rooms, &mut bus, "no separator here");
    assert_eq!(outcome, InboundOutcome::Malformed);
    assert!(rooms.list_all()[0].messages.is_empty());
    assert_eq!(session.next_outbound(&mut bus), None);
}

#[test]
fn open_rejects_unknown_identity() {
    let dir = IdentityDirectory::new();
    let mut bus = Broadcaster::new(100);
    let r = ConnectionSession::open(&dir, &mut bus, 3);
    assert!(matches!(r, Err(HubError::NotFound)));
}

#[test]
fn session_lifecycle_releases_subscription() {
    let mut dir = IdentityDirectory::new();
    let mut rooms = RoomStore::new();
    let mut bus = Broadcaster::new(100);
    let alice = dir.register("alice".to_string());
    let bob = dir.register("bob".to_string());
    rooms.create("general".to_string(), alice).unwrap();
    let mut closing = ConnectionSession::open(&dir, &mut bus, alice).unwrap();
    let staying = ConnectionSession::open(&dir, &mut bus, bob).unwrap();

    closing.begin_close(&mut bus);
    assert_eq!(closing.phase, SessionPhase::Closing);
    closing.finish_close();
    assert_eq!(closing.phase, SessionPhase::Closed);

    // The closed peer's departure never reaches the other session.
    let outcome = staying.handle_inbound(&mut rooms, &mut bus, "general\nstill on");
    assert_eq!(outcome, InboundOutcome::Published);
    assert_eq!(staying.next_outbound(&mut bus), Some("1\ngeneral\nstill on".to_string()));
}

#[test]
fn frames_split_at_first_separator() {
    assert_eq!(
        split_frame("general\nhi"),
        Some(("general".to_string(), "hi".to_string()))
    );
    assert_eq!(
        split_frame("a\nb\nc"),
        Some(("a".to_string(), "b\nc".to_string()))
    );
    assert_eq!(split_frame("\ntext"), Some(("".to_string(), "text".to_string())));
    assert_eq!(split_frame("nosep"), None);
    assert_eq!(split_frame(""), None);
}

#[test]
fn outbound_frames_carry_author_and_original_frame() {
    assert_eq!(encode_outbound(0, "general\nhi"), "0\ngeneral\nhi");
    assert_eq!(encode_outbound(42, "room\ntext"), "42\nroom\ntext");
}
