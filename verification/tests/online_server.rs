use chat_server::online_server::{
    AddKeyBuffer, ClientMessage, Disconnect, GameStart, GameStop, OnLineServer, RoomMessage,
    SingleMessage,
};

fn main_room() -> String {
    "Main".to_string()
}

fn sorted(mut v: Vec<usize>) -> Vec<usize> {
    v.sort();
    v
}

#[test]
fn default_server_is_empty() {
    let s = OnLineServer::default();
    assert_eq!(s.session_count(), 0);
    assert!(!s.has_game_room(&main_room()));
    assert!(!s.is_room_member(&main_room(), 0));
}

#[test]
fn connect_joins_main_room() {
    let mut s = OnLineServer::default();
    assert!(s.connect_with_id(5));
    assert!(s.is_session(5));
    assert!(s.is_room_member(&main_room(), 5));
    assert!(s.has_game_room(&main_room()));
    // the main game room is created once
    assert!(!s.connect_with_id(7));
    assert_eq!(s.session_count(), 2);
}

#[test]
fn connect_draws_a_fresh_id() {
    let mut s = OnLineServer::default();
    let c = s.connect();
    assert!(c.start_main_room);
    assert!(s.is_session(c.id));
    assert!(s.is_room_member(&main_room(), c.id));
    let d = s.connect();
    assert!(!d.start_main_room);
    assert!(d.id != c.id);
    assert_eq!(s.session_count(), 2);
}

#[test]
fn choose_id_takes_a_free_draw() {
    let mut s = OnLineServer::default();
    assert_eq!(s.choose_id(Some(77)), 77);
    s.connect_with_id(77);
    s.connect_with_id(1);
    s.connect_with_id(3);
    // a free 0 is taken as drawn
    assert_eq!(s.choose_id(Some(0)), 0);
    // a taken or failed draw falls back to the least free id from 1
    assert_eq!(s.choose_id(Some(77)), 2);
    assert_eq!(s.choose_id(None), 2);
    assert_eq!(s.choose_id(Some(5)), 5);
    s.connect_with_id(2);
    assert_eq!(s.choose_id(None), 4);
}

#[test]
fn client_message_skips_sender() {
    let mut s = OnLineServer::default();
    s.connect_with_id(1);
    s.connect_with_id(2);
    s.connect_with_id(3);
    let msg = ClientMessage { id: 2, msg: "hi".to_string(), room: main_room() };
    assert_eq!(sorted(s.client_message(&msg)), vec![1, 3]);
    let all = ClientMessage { id: 0, msg: "hi".to_string(), room: main_room() };
    assert_eq!(sorted(s.client_message(&all)), vec![1, 2, 3]);
    let elsewhere = ClientMessage { id: 0, msg: "hi".to_string(), room: "Other".to_string() };
    assert!(s.client_message(&elsewhere).is_empty());
}

#[test]
fn room_message_counts_players() {
    let mut s = OnLineServer::default();
    s.connect_with_id(1);
    s.connect_with_id(2);
    let reply = s.room_message(&RoomMessage { id: 1, room: main_room() });
    assert_eq!(reply, Some("{\"GameReady\":2}".to_string()));
    assert_eq!(s.room_message(&RoomMessage { id: 9, room: main_room() }), None);
    assert_eq!(s.room_message(&RoomMessage { id: 1, room: "Other".to_string() }), None);
}

#[test]
fn room_message_count_wraps_at_256() {
    let mut s = OnLineServer::default();
    for id in 0..257 {
        s.connect_with_id(id);
    }
    let reply = s.room_message(&RoomMessage { id: 0, room: main_room() });
    assert_eq!(reply, Some("{\"GameReady\":1}".to_string()));
}

#[test]
fn single_message_needs_session() {
    let mut s = OnLineServer::default();
    s.connect_with_id(4);
    assert!(s.single_message(&SingleMessage { id: 4, msg: "x".to_string() }));
    assert!(!s.single_message(&SingleMessage { id: 5, msg: "x".to_string() }));
}

#[test]
fn game_room_requests_need_the_room() {
    let mut s = OnLineServer::default();
    let buffer = AddKeyBuffer { room: main_room(), buffer: vec![1] };
    assert!(!s.add_key_buffer(&buffer));
    assert!(!s.game_start(&GameStart(main_room())));
    s.connect_with_id(1);
    assert!(s.add_key_buffer(&buffer));
    assert!(s.game_start(&GameStart(main_room())));
    assert!(s.game_stop(&GameStop(main_room())));
    assert!(!s.game_stop(&GameStop("Other".to_string())));
}

#[test]
fn disconnect_notifies_the_rest() {
    let mut s = OnLineServer::default();
    s.connect_with_id(1);
    s.connect_with_id(2);
    s.connect_with_id(3);
    let out = s.disconnect(&Disconnect { id: 2 });
    assert_eq!(out.notice, "Someone disconnect");
    assert_eq!(sorted(out.notify), vec![1, 3]);
    assert!(out.stop_rooms.is_empty());
    assert!(!s.is_session(2));
    assert!(!s.is_room_member(&main_room(), 2));
    assert_eq!(s.session_count(), 2);
}

#[test]
fn disconnect_skips_session_zero() {
    let mut s = OnLineServer::default();
    s.connect_with_id(0);
    s.connect_with_id(1);
    let out = s.disconnect(&Disconnect { id: 1 });
    assert!(out.notify.is_empty());
    assert!(s.is_session(0));
}

#[test]
fn last_disconnect_stops_game_rooms() {
    let mut s = OnLineServer::default();
    s.connect_with_id(8);
    let out = s.disconnect(&Disconnect { id: 8 });
    assert!(out.notify.is_empty());
    assert_eq!(out.stop_rooms, vec![main_room()]);
    assert_eq!(s.session_count(), 0);
    // the game room stays registered
    assert!(s.has_game_room(&main_room()));
}

#[test]
fn unknown_disconnect_changes_nothing() {
    let mut s = OnLineServer::default();
    s.connect_with_id(1);
    let out = s.disconnect(&Disconnect { id: 9 });
    assert!(out.notify.is_empty());
    assert!(out.stop_rooms.is_empty());
    assert!(s.is_session(1));
    assert_eq!(s.session_count(), 1);
}

#[test]
fn connect_then_disconnect_restores_sessions() {
    let mut s = OnLineServer::default();
    s.connect_with_id(1);
    s.connect_with_id(2);
    s.disconnect(&Disconnect { id: 2 });
    assert_eq!(s.session_count(), 1);
    assert!(s.is_session(1));
    assert!(!s.is_room_member(&main_room(), 2));
    assert!(s.is_room_member(&main_room(), 1));
}
