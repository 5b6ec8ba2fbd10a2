use chat_server::my_websocket::{
    MyWebSocket, ServerRequest, WsAction, WsEvent, CLIENT_TIMEOUT_NANOS,
};

fn session(id: usize) -> MyWebSocket {
    let mut ws = MyWebSocket::new();
    assert!(ws.on_connect_reply(Some(id)));
    ws
}

#[test]
fn new_session_is_in_main() {
    let ws = MyWebSocket::new();
    assert_eq!(ws.id(), 0);
    assert_eq!(ws.room(), "Main");
}

#[test]
fn connect_reply_sets_id() {
    let mut ws = MyWebSocket::new();
    assert!(ws.on_connect_reply(Some(42)));
    assert_eq!(ws.id(), 42);
    assert_eq!(ws.disconnect_message().id, 42);
    assert!(!ws.on_connect_reply(None));
    assert_eq!(ws.id(), 42);
}

#[test]
fn heartbeat_times_out_after_ten_seconds() {
    let ws = session(3);
    assert_eq!(CLIENT_TIMEOUT_NANOS, 10_000_000_000);
    assert!(ws.heartbeat(0).is_none());
    assert!(ws.heartbeat(10_000_000_000).is_none());
    let d = ws.heartbeat(10_000_000_001).unwrap();
    assert_eq!(d.id, 3);
}

#[test]
fn frames_other_than_text() {
    let ws = session(1);
    assert!(matches!(ws.handle_event(WsEvent::Failed), WsAction::Stop));
    assert!(matches!(ws.handle_event(WsEvent::Ping), WsAction::Pong));
    assert!(matches!(ws.handle_event(WsEvent::Pong), WsAction::Touch));
    assert!(matches!(ws.handle_event(WsEvent::Binary), WsAction::Ignore));
    assert!(matches!(ws.handle_event(WsEvent::Close), WsAction::CloseAndStop));
    assert!(matches!(ws.handle_event(WsEvent::Continuation), WsAction::Stop));
    assert!(matches!(ws.handle_event(WsEvent::Nop), WsAction::Ignore));
}

#[test]
fn mid_1_asks_for_room() {
    let ws = session(7);
    match ws.handle_text("{\"mid\":1}") {
        WsAction::Forward(ServerRequest::Room(m)) => {
            assert_eq!(m.id, 7);
            assert_eq!(m.room, "Main");
        }
        _ => panic!("expected a room request"),
    }
}

#[test]
fn mid_4_announces_start_to_all() {
    let ws = session(7);
    match ws.handle_event(WsEvent::Text("{\"mid\":4}".to_string())) {
        WsAction::Forward(ServerRequest::Client(m)) => {
            assert_eq!(m.id, 0);
            assert_eq!(m.room, "Main");
            assert_eq!(m.msg, "{\"GameStart\":7}");
        }
        _ => panic!("expected a client message"),
    }
}

#[test]
fn mid_5_sends_status_to_one() {
    let ws = session(7);
    match ws.handle_text("{\"mid\":5,\"id\":12,\"json_data\":{\"level\":3}}") {
        WsAction::Forward(ServerRequest::Single(m)) => {
            assert_eq!(m.id, 12);
            assert_eq!(m.msg, "{\"SendGameStatus\":\"{\\\"level\\\":3}\"}");
        }
        _ => panic!("expected a single message"),
    }
    match ws.handle_text("{\"mid\":5,\"id\":12}") {
        WsAction::Forward(ServerRequest::Single(m)) => {
            assert_eq!(m.msg, "{\"SendGameStatus\":\"null\"}");
        }
        _ => panic!("expected a single message"),
    }
}

#[test]
fn mid_6_announces_start_to_others() {
    let ws = session(9);
    match ws.handle_text("{\"mid\":6}") {
        WsAction::Forward(ServerRequest::Client(m)) => {
            assert_eq!(m.id, 9);
            assert_eq!(m.msg, "{\"GameStart\":9}");
        }
        _ => panic!("expected a client message"),
    }
}

#[test]
fn mid_10_sends_keys() {
    let ws = session(9);
    match ws.handle_text("{\"mid\":10,\"keys\":[1,2,255]}") {
        WsAction::Forward(ServerRequest::Client(m)) => {
            assert_eq!(m.id, 9);
            assert_eq!(m.room, "Main");
            assert_eq!(m.msg, "{\"SendKeyboard\":[[1,2,255]]}");
        }
        _ => panic!("expected a client message"),
    }
}

#[test]
fn unknown_mid_is_unrecognized() {
    let ws = session(1);
    assert!(matches!(ws.handle_text("{\"mid\":2}"), WsAction::Unrecognized));
    assert!(matches!(ws.handle_text("{\"other\":1}"), WsAction::Unrecognized));
    assert!(matches!(ws.handle_text("[1,2]"), WsAction::Unrecognized));
    assert!(matches!(ws.handle_text("{\"mid\":-1}"), WsAction::Unrecognized));
}

#[test]
fn malformed_texts() {
    let ws = session(1);
    assert!(matches!(ws.handle_text("not json"), WsAction::Malformed));
    assert!(matches!(ws.handle_text("{\"mid\":5}"), WsAction::Malformed));
    assert!(matches!(ws.handle_text("{\"mid\":5,\"id\":\"x\"}"), WsAction::Malformed));
    assert!(matches!(ws.handle_text("{\"mid\":10}"), WsAction::Malformed));
    assert!(matches!(ws.handle_text("{\"mid\":10,\"keys\":[256]}"), WsAction::Malformed));
}
