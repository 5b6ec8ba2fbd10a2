use chat_server::proto::{ControllerIns, SendParcel};

#[test]
fn game_ready_json() {
    assert_eq!(SendParcel::GameReady(3).to_json(), "{\"GameReady\":3}");
    assert_eq!(SendParcel::GameReady(255).to_json(), "{\"GameReady\":255}");
}

#[test]
fn send_keyboard_json() {
    let p = SendParcel::SendKeyboard(vec![vec![1, 2], vec![3]]);
    assert_eq!(p.to_json(), "{\"SendKeyboard\":[[1,2],[3]]}");
}

#[test]
fn send_keyboard_empty_json() {
    assert_eq!(SendParcel::SendKeyboard(vec![]).to_json(), "{\"SendKeyboard\":[]}");
    assert_eq!(SendParcel::SendKeyboard(vec![vec![]]).to_json(), "{\"SendKeyboard\":[[]]}");
}

#[test]
fn game_status_json() {
    assert_eq!(SendParcel::GetGameStatus(42).to_json(), "{\"GetGameStatus\":42}");
    let p = SendParcel::SendGameStatus("a\"b\\c\n".to_string());
    assert_eq!(p.to_json(), "{\"SendGameStatus\":\"a\\\"b\\\\c\\n\"}");
}

#[test]
fn game_status_escapes_control_characters() {
    let p = SendParcel::SendGameStatus("\u{1}\t\u{1f}\u{8}\u{c}\ré".to_string());
    assert_eq!(p.to_json(), "{\"SendGameStatus\":\"\\u0001\\t\\u001f\\b\\f\\ré\"}");
}

#[test]
fn game_start_json() {
    assert_eq!(SendParcel::GameStart(0).to_json(), "{\"GameStart\":0}");
    assert_eq!(SendParcel::GameStart(4294967295).to_json(), "{\"GameStart\":4294967295}");
}

#[test]
fn controller_input_keeps_keys() {
    let c = ControllerIns::new(10, vec![1, 2, 3]);
    assert_eq!(c.message_id(), 10);
    assert_eq!(c.keys, vec![1, 2, 3]);
    assert_eq!(c.into_keys(), vec![1, 2, 3]);
}

#[test]
fn parcel_clones_and_prints() {
    let p = SendParcel::SendKeyboard(vec![vec![1]]);
    let q = p.clone();
    assert_eq!(q.to_json(), p.to_json());
    assert_eq!(format!("{:?}", SendParcel::GameReady(2)), "GameReady(2)");
}
