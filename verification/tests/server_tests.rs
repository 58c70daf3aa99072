use room_server::controller::room_controller::RoomController;
use room_server::model::room::Room;
use room_server::mvc::controller::Controller;
use room_server::mvc::payload::UserData;
use room_server::mvc::request::Request;
use room_server::mvc::response::Response;
use room_server::mvc::{Factory, Instance, Mvc};
use room_server::server::{classify_trimmed, classify_body, handle_request, init_mvc, BodyKind};

fn status_of(r: &Response) -> Option<String> {
    r.header.get("status_code").cloned()
}

fn routed(path: &str) -> Request {
    let mut r = Request::empty();
    r.header.insert("path".to_string(), path.to_string());
    r
}

fn lobby() -> Room {
    Room { name: Some("lobby".to_string()), password: None, users: None }
}

fn user(id: &str, x: Option<u32>, y: Option<u32>) -> UserData {
    UserData { room_name: Some("lobby".to_string()), user_id: Some(id.to_string()), x, y }
}

#[test]
fn init_mvc_registers_the_server_parts() {
    let mvc = init_mvc();
    assert_eq!(mvc.get("RoomController"), Some(Factory::RoomController));
    assert!(matches!(mvc.get_singleton("RoomManager"), Some(Instance::RoomManager(_))));
    assert!(matches!(mvc.get_singleton("PathFilter"), Some(Instance::Middleware(_))));
}

#[test]
fn a_wrong_kind_under_the_room_manager_name_is_no_room_manager() {
    let mut mvc = Mvc::new();
    mvc.add_singleton("RoomManager", Instance::Controller(RoomController::new()));
    let mut c = RoomController::new();
    let mut r = routed("/room/create");
    r.payload_room = Some(lobby());
    assert_eq!(c.invoke(&mut r, &mut mvc).err(), Some("failed get RoomManager".to_string()));
    let mut other = routed("/nowhere");
    let resp = c.invoke(&mut other, &mut mvc).unwrap();
    assert_eq!(status_of(&resp), Some("NotFound".to_string()));
}

#[test]
fn classify_body_cases() {
    assert_eq!(classify_body(":q", ":q"), BodyKind::Quit);
    assert_eq!(classify_body(":q \n", ":q"), BodyKind::Quit);
    assert_eq!(classify_body("", ":q"), BodyKind::Empty);
    assert_eq!(classify_body(" \t\r\n", ":q"), BodyKind::Empty);
    assert_eq!(classify_body("  :q", ":q"), BodyKind::Message);
    assert_eq!(classify_body("{}", ":q"), BodyKind::Message);
}

#[test]
fn controller_routes_create_by_lower_case_path() {
    let mut mvc = init_mvc();
    let mut c = RoomController::new();
    let mut r = routed("/ROOM/Create");
    r.payload_room = Some(lobby());
    let resp = c.action(&mut r, &mut mvc).unwrap();
    assert_eq!(status_of(&resp), Some("ok".to_string()));
    assert_eq!(resp.payload, r#"[{"name":"lobby","password":null,"users":[]}]"#);
}

#[test]
fn controller_unknown_path_is_not_found() {
    let mut mvc = init_mvc();
    let mut c = RoomController::new();
    let mut r = routed("/room/delete");
    let resp = c.action(&mut r, &mut mvc).unwrap();
    assert_eq!(status_of(&resp), Some("NotFound".to_string()));
    assert_eq!(resp.payload, "");
}

#[test]
fn controller_without_path_is_refused() {
    let mut mvc = init_mvc();
    let mut c = RoomController::new();
    let mut r = Request::empty();
    assert_eq!(c.action(&mut r, &mut mvc).err(), Some("path is None".to_string()));
    assert_eq!(c.invoke(&mut r, &mut mvc).err(), Some("path is None".to_string()));
}

#[test]
fn controller_user_routes() {
    let mut mvc = init_mvc();
    let mut c = RoomController::new();
    let mut r = routed("/room/create");
    r.payload_room = Some(lobby());
    c.invoke(&mut r, &mut mvc).unwrap();
    let mut add = routed("/room/user/add");
    add.payload_user = Some(user("u1", Some(1), Some(2)));
    let resp = c.invoke(&mut add, &mut mvc).unwrap();
    assert_eq!(status_of(&resp), Some("ok".to_string()));
    assert_eq!(resp.payload, "");
    let mut upd = routed("/room/user/update");
    upd.payload_user = Some(user("u1", Some(5), Some(6)));
    assert!(c.invoke(&mut upd, &mut mvc).is_ok());
    let mut rem = routed("/room/user/remove");
    rem.payload_user = Some(user("u1", Some(0), Some(0)));
    assert!(c.invoke(&mut rem, &mut mvc).is_ok());
    assert_eq!(c.invoke(&mut rem, &mut mvc).err(), Some("user not found".to_string()));
    let mut bad = routed("/room/user/add");
    assert_eq!(c.invoke(&mut bad, &mut mvc).err(), Some("json serialize failed".to_string()));
}

#[test]
fn controller_methods_need_a_room_manager() {
    let mut mvc = Mvc::new();
    let mut c = RoomController::new();
    let r = routed("/room/create");
    assert_eq!(c.create(&r, &mut mvc).err(), Some("failed get RoomManager".to_string()));
    assert_eq!(c.add_user(&r, &mut mvc).err(), Some("failed get RoomManager".to_string()));
    assert_eq!(c.update_user(&r, &mut mvc).err(), Some("failed get RoomManager".to_string()));
    assert_eq!(c.remove_user(&r, &mut mvc).err(), Some("failed get RoomManager".to_string()));
}

#[test]
fn controller_dispatch_takes_the_route_as_given() {
    let mut mvc = init_mvc();
    let mut c = RoomController::new();
    let mut r = Request::empty();
    r.payload_room = Some(lobby());
    let resp = c.dispatch("/ROOM/CREATE", &r, &mut mvc).unwrap();
    assert_eq!(status_of(&resp), Some("NotFound".to_string()));
    assert!(c.dispatch("/room/create", &r, &mut mvc).is_ok());
}

#[test]
fn handle_request_full_flow() {
    let mut mvc = init_mvc();
    let mut r = Request::empty();
    r.header.insert("req_path".to_string(), "/Room/create".to_string());
    r.payload_room = Some(lobby());
    let handled = handle_request(&mut mvc, &mut r);
    assert!(handled.middleware_error.is_none());
    let resp = handled.answer.unwrap().unwrap();
    assert_eq!(status_of(&resp), Some("ok".to_string()));
    assert_eq!(resp.payload, r#"[{"name":"lobby","password":null,"users":[]}]"#);
    let mut again = Request::empty();
    again.header.insert("req_path".to_string(), "http://host/Room/CREATE".to_string());
    again.payload_room = Some(lobby());
    let handled = handle_request(&mut mvc, &mut again);
    assert_eq!(handled.answer.unwrap().err(), Some("duplicate room name".to_string()));
    let mut suffixed = Request::empty();
    suffixed.header.insert("req_path".to_string(), "/RoomController/create".to_string());
    suffixed.payload_room = Some(lobby());
    let handled = handle_request(&mut mvc, &mut suffixed);
    let resp = handled.answer.unwrap().unwrap();
    assert_eq!(status_of(&resp), Some("NotFound".to_string()));
}

#[test]
fn handle_request_controller_lookup_is_case_sensitive() {
    let mut mvc = init_mvc();
    let mut r = Request::empty();
    r.header.insert("req_path".to_string(), "/room/create".to_string());
    r.payload_room = Some(lobby());
    let handled = handle_request(&mut mvc, &mut r);
    assert!(handled.middleware_error.is_none());
    assert!(handled.answer.is_none());
}

#[test]
fn handle_request_unknown_controller_has_no_answer() {
    let mut mvc = init_mvc();
    let mut r = Request::empty();
    r.header.insert("req_path".to_string(), "/Lobby/create".to_string());
    let handled = handle_request(&mut mvc, &mut r);
    assert!(handled.middleware_error.is_none());
    assert!(handled.answer.is_none());
}

#[test]
fn handle_request_middleware_error_still_reaches_no_controller() {
    let mut mvc = init_mvc();
    let mut r = Request::empty();
    let handled = handle_request(&mut mvc, &mut r);
    assert_eq!(handled.middleware_error, Some("req_path_is_empty".to_string()));
    assert!(handled.answer.is_none());
}

#[test]
fn classify_trimmed_takes_the_text_as_given() {
    assert_eq!(classify_trimmed(":q", ":q"), BodyKind::Quit);
    assert_eq!(classify_trimmed(":q ", ":q"), BodyKind::Message);
    assert_eq!(classify_trimmed("", ":q"), BodyKind::Empty);
}
