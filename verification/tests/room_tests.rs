use room_server::model::room::Room;
use room_server::mvc::payload::UserData;

fn user(room: &str, id: &str, x: Option<u32>, y: Option<u32>) -> UserData {
    UserData { room_name: Some(room.to_string()), user_id: Some(id.to_string()), x, y }
}

fn room_with(users: Option<Vec<UserData>>) -> Room {
    Room { name: Some("lobby".to_string()), password: None, users }
}

fn ids(room: &Room) -> Vec<String> {
    room.users.as_ref().unwrap().iter().map(|u| u.user_id.clone().unwrap()).collect()
}

#[test]
fn find_user_without_list_is_refused() {
    let mut room = room_with(None);
    assert_eq!(room.find_user(&user("lobby", "a", None, None)).err(), Some("users is None"));
}

#[test]
fn find_user_unknown_id_is_refused() {
    let mut room = room_with(Some(vec![user("lobby", "a", Some(1), Some(2))]));
    assert_eq!(room.find_user(&user("lobby", "b", None, None)).err(), Some("user not found"));
}

#[test]
fn find_user_gives_the_first_with_the_id() {
    let mut room = room_with(Some(vec![
        user("lobby", "a", Some(1), Some(1)),
        user("lobby", "b", Some(2), Some(2)),
        user("lobby", "b", Some(3), Some(3)),
    ]));
    let found = room.find_user(&user("other", "b", None, None)).unwrap();
    assert_eq!(found.x, Some(2));
    found.x = Some(9);
    assert_eq!(room.users.as_ref().unwrap()[1].x, Some(9));
    assert_eq!(room.users.as_ref().unwrap()[2].x, Some(3));
}

#[test]
fn add_user_appends() {
    let mut room = room_with(Some(vec![user("lobby", "a", None, None)]));
    assert_eq!(room.add_user(user("lobby", "b", Some(1), Some(2))), Ok(()));
    assert_eq!(ids(&room), vec!["a".to_string(), "b".to_string()]);
}

#[test]
fn add_user_without_list_is_refused() {
    let mut room = room_with(None);
    assert_eq!(room.add_user(user("lobby", "b", None, None)), Err("users is None"));
    assert!(room.users.is_none());
}

#[test]
fn update_user_needs_a_position() {
    let mut room = room_with(Some(vec![user("lobby", "a", Some(1), Some(1))]));
    assert_eq!(room.update_user(&user("lobby", "a", None, Some(5))), Err("user_data.x is None"));
    assert_eq!(room.update_user(&user("lobby", "a", Some(5), None)), Err("user_data.y is None"));
    assert_eq!(room.users.as_ref().unwrap()[0].x, Some(1));
}

#[test]
fn update_user_errors_of_lookup() {
    let mut room = room_with(None);
    assert_eq!(room.update_user(&user("lobby", "a", Some(1), Some(1))), Err("users is None"));
    let mut room = room_with(Some(vec![user("lobby", "a", Some(1), Some(1))]));
    assert_eq!(room.update_user(&user("lobby", "z", Some(1), Some(1))), Err("user not found"));
}

#[test]
fn update_user_moves_only_that_user() {
    let mut room = room_with(Some(vec![
        user("lobby", "a", Some(1), Some(1)),
        user("lobby", "b", Some(2), Some(2)),
    ]));
    assert_eq!(room.update_user(&user("elsewhere", "b", Some(7), Some(8))), Ok(()));
    let users = room.users.as_ref().unwrap();
    assert_eq!(users.len(), 2);
    assert_eq!((users[0].x, users[0].y), (Some(1), Some(1)));
    assert_eq!((users[1].x, users[1].y), (Some(7), Some(8)));
    assert_eq!(users[1].room_name.as_deref(), Some("lobby"));
}

#[test]
fn remove_user_needs_a_position() {
    let mut room = room_with(Some(vec![user("lobby", "a", Some(1), Some(1))]));
    assert_eq!(room.remove_user(&user("lobby", "a", None, Some(1))), Err("user_data.x is None"));
    assert_eq!(room.remove_user(&user("lobby", "a", Some(1), None)), Err("user_data.y is None"));
    assert_eq!(ids(&room), vec!["a".to_string()]);
}

#[test]
fn remove_user_without_list_is_refused() {
    let mut room = room_with(None);
    assert_eq!(room.remove_user(&user("lobby", "a", Some(1), Some(1))), Err("user not found :{:?}"));
}

#[test]
fn remove_user_not_found() {
    let mut room = room_with(Some(vec![user("lobby", "a", Some(1), Some(1))]));
    assert_eq!(room.remove_user(&user("hall", "z", Some(1), Some(1))), Err("user not found"));
    assert_eq!(ids(&room), vec!["a".to_string()]);
}

#[test]
fn remove_user_by_id() {
    let mut room = room_with(Some(vec![
        user("lobby", "a", Some(1), Some(1)),
        user("lobby", "b", Some(1), Some(1)),
    ]));
    assert_eq!(room.remove_user(&user("hall", "b", Some(0), Some(0))), Ok(()));
    assert_eq!(ids(&room), vec!["a".to_string()]);
}

#[test]
fn remove_user_by_room_name_takes_the_first_in_that_room() {
    let mut room = room_with(Some(vec![
        user("lobby", "a", Some(1), Some(1)),
        user("lobby", "b", Some(1), Some(1)),
    ]));
    assert_eq!(room.remove_user(&user("lobby", "b", Some(0), Some(0))), Ok(()));
    assert_eq!(ids(&room), vec!["b".to_string()]);
}

#[test]
fn remove_after_add_restores_the_room() {
    let mut room = room_with(Some(vec![user("lobby", "a", Some(1), Some(1))]));
    let newcomer = user("hall", "b", Some(3), Some(4));
    assert_eq!(room.add_user(newcomer.clone()), Ok(()));
    assert_eq!(room.remove_user(&newcomer), Ok(()));
    assert_eq!(ids(&room), vec!["a".to_string()]);
}

#[test]
fn duplicate_copies_every_field() {
    let room = Room {
        name: Some("n".to_string()),
        password: Some("p".to_string()),
        users: Some(vec![user("n", "a", Some(1), None)]),
    };
    let copy = room.duplicate();
    assert_eq!(copy.name, room.name);
    assert_eq!(copy.password, room.password);
    assert_eq!(ids(&copy), vec!["a".to_string()]);
    assert_eq!(copy.users.as_ref().unwrap()[0].x, Some(1));
    assert_eq!(copy.users.as_ref().unwrap()[0].y, None);
}
