use chat_server::room::{PushBuffer, Room, RoomStart, RoomStop};

#[test]
fn new_room_is_idle() {
    let room = Room::new("Main".to_string());
    assert!(!room.is_running());
    assert!(!room.has_address());
    assert_eq!(room.pending_frames(), 0);
    assert_eq!(room.name(), "Main");
}

#[test]
fn startup_needs_address() {
    let mut room = Room::new("Main".to_string());
    assert!(!room.startup());
    assert!(!room.is_running());
    room.started();
    assert!(room.on_start(RoomStart));
    assert!(room.is_running());
}

#[test]
fn startup_is_idempotent() {
    let mut room = Room::new("Main".to_string());
    room.started();
    assert!(room.startup());
    assert!(!room.startup());
    assert!(room.is_running());
}

#[test]
fn tick_flushes_frames_in_order() {
    let mut room = Room::new("Main".to_string());
    room.started();
    room.startup();
    room.on_push(PushBuffer(vec![1, 2]));
    room.on_push(PushBuffer(vec![3]));
    assert_eq!(room.pending_frames(), 2);
    let (msg, reply) = room.on_tick();
    assert_eq!(msg.id, 0);
    assert_eq!(msg.room, "Main");
    assert_eq!(msg.msg, "{\"SendKeyboard\":[[1,2],[3]]}");
    assert_eq!(reply, 1);
    assert_eq!(room.pending_frames(), 0);
    let (msg, _) = room.on_tick();
    assert_eq!(msg.msg, "{\"SendKeyboard\":[]}");
}

#[test]
fn stop_ends_the_loop() {
    let mut room = Room::new("Lobby".to_string());
    room.started();
    room.startup();
    room.on_stop(RoomStop);
    assert!(!room.is_running());
    let (msg, reply) = room.on_tick();
    assert_eq!(msg.room, "Lobby");
    assert_eq!(reply, -1);
    assert!(!Room::tick_continues(Some(reply)));
    // a stopped room can be started again
    assert!(room.startup());
}

#[test]
fn loop_continues_only_on_non_negative_reply() {
    assert!(Room::tick_continues(Some(1)));
    assert!(Room::tick_continues(Some(0)));
    assert!(!Room::tick_continues(Some(-1)));
    assert!(!Room::tick_continues(None));
}
