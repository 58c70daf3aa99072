use room_server::model::room::Room;
use room_server::model::room_manager::RoomManager;
use room_server::mvc::payload::UserData;

fn room(name: &str, password: Option<&str>, users: Option<Vec<UserData>>) -> Room {
    Room { name: Some(name.to_string()), password: password.map(|p| p.to_string()), users }
}

fn user(room: &str, id: &str, x: Option<u32>, y: Option<u32>) -> UserData {
    UserData { room_name: Some(room.to_string()), user_id: Some(id.to_string()), x, y }
}

#[test]
fn create_room_answers_all_rooms_as_json() {
    let mut m = RoomManager::new();
    assert_eq!(m.create_room(Some(room("a", Some("pw"), None))), Ok(r#"[{"name":"a","password":"pw","users":[]}]"#.to_string()));
    let second = room("b", None, Some(vec![user("b", "u1", Some(3), None)]));
    assert_eq!(
        m.create_room(Some(second)),
        Ok(r#"[{"name":"a","password":"pw","users":[]},{"name":"b","password":null,"users":[{"room_name":"b","user_id":"u1","x":3,"y":null}]}]"#.to_string())
    );
}

#[test]
fn create_room_escapes_strings_as_serde_json_does() {
    let mut m = RoomManager::new();
    let name = "q\"b\\n\nt\tc\u{1}é";
    let json = m.create_room(Some(room(name, None, None))).unwrap();
    let expected = format!("[{{\"name\":{},\"password\":null,\"users\":[]}}]", serde_json::to_string(name).unwrap());
    assert_eq!(json, expected);
    assert_eq!(json, "[{\"name\":\"q\\\"b\\\\n\\nt\\tc\\u0001é\",\"password\":null,\"users\":[]}]");
}

#[test]
fn create_room_writes_numbers_in_decimal() {
    let mut m = RoomManager::new();
    let json = m.create_room(Some(room("r", None, Some(vec![user("r", "u", Some(0), Some(4294967295))])))).unwrap();
    assert!(json.contains(r#""x":0,"y":4294967295"#));
}

#[test]
fn create_room_without_payload_is_refused() {
    let mut m = RoomManager::new();
    assert_eq!(m.create_room(None), Err("json serialize failed".to_string()));
}

#[test]
fn create_room_twice_under_one_name_is_refused() {
    let mut m = RoomManager::new();
    assert!(m.create_room(Some(room("a", None, None))).is_ok());
    assert_eq!(m.create_room(Some(room("a", Some("other"), None))), Err("duplicate room name".to_string()));
    assert_eq!(m.create_room(Some(room("b", None, None))).unwrap().matches("\"name\"").count(), 2);
}

#[test]
fn rooms_without_a_name_clash_with_each_other() {
    let mut m = RoomManager::new();
    let nameless = || Room { name: None, password: None, users: None };
    assert_eq!(m.create_room(Some(nameless())), Ok(r#"[{"name":null,"password":null,"users":[]}]"#.to_string()));
    assert_eq!(m.create_room(Some(nameless())), Err("duplicate room name".to_string()));
}

#[test]
fn manager_add_update_remove_user() {
    let mut m = RoomManager::new();
    m.create_room(Some(room("a", None, None))).unwrap();
    assert_eq!(m.add_user(Some(user("a", "u1", Some(1), Some(1)))), Ok(()));
    assert_eq!(m.add_user(Some(user("a", "u2", Some(2), Some(2)))), Ok(()));
    assert_eq!(m.update_user(Some(&user("a", "u2", Some(5), Some(6)))), Ok(()));
    let json = m.create_room(Some(room("z", None, None))).unwrap();
    assert!(json.contains(r#"{"room_name":"a","user_id":"u2","x":5,"y":6}"#));
    assert_eq!(m.remove_user(Some(&user("a", "u1", Some(0), Some(0)))), Ok(()));
    let json = m.create_room(Some(room("y", None, None))).unwrap();
    assert!(json.contains(r#""users":[{"room_name":"a","user_id":"u2","x":5,"y":6}]"#));
}

#[test]
fn manager_user_errors() {
    let mut m = RoomManager::new();
    m.create_room(Some(room("a", None, None))).unwrap();
    assert_eq!(m.add_user(None), Err("json serialize failed".to_string()));
    assert_eq!(m.update_user(None), Err("json serialize failed".to_string()));
    assert_eq!(m.remove_user(None), Err("json serialize failed".to_string()));
    assert_eq!(m.add_user(Some(user("nowhere", "u", None, None))), Err("room not found : {:?}".to_string()));
    assert_eq!(m.update_user(Some(&user("a", "u", None, Some(1)))), Err("user_data.x is None".to_string()));
    assert_eq!(m.update_user(Some(&user("a", "u", Some(1), Some(1)))), Err("user not found".to_string()));
    assert_eq!(m.remove_user(Some(&user("a", "u", Some(1), None))), Err("user_data.y is None".to_string()));
    assert_eq!(m.remove_user(Some(&user("a", "u", Some(1), Some(1)))), Err("user not found".to_string()));
}
