use room_server::mvc::header::Header;
use room_server::mvc::middleware::Middleware;
use room_server::mvc::path_filter::{PathFilter, second_segment_of};
use room_server::mvc::request::Request;
use room_server::mvc::response::Response;
use room_server::mvc::{Factory, Instance, Mvc};
use room_server::model::room_manager::RoomManager;

fn request_for(req_path: Option<&str>) -> Request {
    let mut r = Request::empty();
    if let Some(p) = req_path {
        r.header.insert("req_path".to_string(), p.to_string());
    }
    r
}

fn header_value(h: &Header, key: &str) -> Option<String> {
    h.get(key).cloned()
}

#[test]
fn header_insert_replaces_and_returns_old_value() {
    let mut h = Header::new();
    assert_eq!(h.insert("k".to_string(), "1".to_string()), None);
    assert_eq!(h.insert("j".to_string(), "2".to_string()), None);
    assert_eq!(h.insert("k".to_string(), "3".to_string()), Some("1".to_string()));
    assert_eq!(header_value(&h, "k"), Some("3".to_string()));
    assert_eq!(header_value(&h, "j"), Some("2".to_string()));
    assert_eq!(header_value(&h, "x"), None);
}

#[test]
fn request_empty_has_two_blank_types() {
    let r = Request::empty();
    assert_eq!(header_value(&r.header, "req_type1"), Some(String::new()));
    assert_eq!(header_value(&r.header, "req_type2"), Some(String::new()));
    assert_eq!(header_value(&r.header, "path"), None);
    assert_eq!(r.payload, "");
    assert!(r.payload_room.is_none());
    assert!(r.payload_user.is_none());
}

#[test]
fn response_empty_is_blank() {
    let r = Response::empty();
    assert_eq!(header_value(&r.header, "status_code"), None);
    assert_eq!(r.payload, "");
}

#[test]
fn second_segment_cases() {
    assert_eq!(second_segment_of("/room/create"), Some("room".to_string()));
    assert_eq!(second_segment_of("/room"), Some("room".to_string()));
    assert_eq!(second_segment_of("/"), Some(String::new()));
    assert_eq!(second_segment_of("a/b/c"), Some("b".to_string()));
    assert_eq!(second_segment_of("/é/x"), Some("é".to_string()));
    assert_eq!(second_segment_of(""), None);
    assert_eq!(second_segment_of("*"), None);
}

#[test]
fn path_filter_records_path_and_controller() {
    let mut r = request_for(Some("/Room/create"));
    assert_eq!(PathFilter::new().execute(&mut r), Ok(()));
    assert_eq!(header_value(&r.header, "path"), Some("/Room/create".to_string()));
    assert_eq!(header_value(&r.header, "controller_name"), Some("Room".to_string()));
    assert_eq!(header_value(&r.header, "controller_name_without_prefix"), Some("Room".to_string()));
}

#[test]
fn path_filter_strips_controller_suffix() {
    let mut r = request_for(Some("http://example.com:8080/RoomController/user/add?x=1"));
    assert_eq!(PathFilter::new().execute(&mut r), Ok(()));
    assert_eq!(header_value(&r.header, "path"), Some("/RoomController/user/add".to_string()));
    assert_eq!(header_value(&r.header, "controller_name"), Some("RoomController".to_string()));
    assert_eq!(header_value(&r.header, "controller_name_without_prefix"), Some("Room".to_string()));
}

#[test]
fn path_filter_keeps_inner_controller_word() {
    let mut r = request_for(Some("/ControllerRoom/x"));
    assert_eq!(PathFilter::new().execute(&mut r), Ok(()));
    assert_eq!(header_value(&r.header, "controller_name_without_prefix"), Some("ControllerRoom".to_string()));
}

#[test]
fn path_filter_errors() {
    let mut r = request_for(None);
    assert_eq!(PathFilter::new().execute(&mut r), Err("req_path_is_empty".to_string()));
    let mut r = request_for(Some("http://exa mple.com/Room"));
    assert_eq!(PathFilter::new().execute(&mut r), Err("req_path_not_uri".to_string()));
    assert_eq!(header_value(&r.header, "path"), None);
    let mut r = request_for(Some("localhost:8080"));
    assert_eq!(PathFilter::new().execute(&mut r), Err("req_path_has_no_segment".to_string()));
    assert_eq!(header_value(&r.header, "path"), None);
}

#[test]
fn path_filter_twice_is_once() {
    let mut once = request_for(Some("/RoomController/create"));
    PathFilter::new().execute(&mut once).unwrap();
    let mut twice = request_for(Some("/RoomController/create"));
    PathFilter::new().execute(&mut twice).unwrap();
    PathFilter::new().execute(&mut twice).unwrap();
    for key in ["path", "controller_name", "controller_name_without_prefix", "req_path", "req_type1"] {
        assert_eq!(header_value(&once.header, key), header_value(&twice.header, key));
    }
}

#[test]
fn mvc_get_reads_back_the_last_registration() {
    let mut mvc = Mvc::new();
    assert_eq!(mvc.get("RoomController"), None);
    mvc.add_transient("RoomController", Factory::RoomController);
    assert_eq!(mvc.get("RoomController"), Some(Factory::RoomController));
    assert_eq!(mvc.get("Other"), None);
}

#[test]
fn mvc_singleton_registration_replaces() {
    let mut mvc = Mvc::new();
    mvc.add_singleton("RoomManager", Instance::Middleware(PathFilter::new()))
        .add_singleton("RoomManager", Instance::RoomManager(RoomManager::new()));
    assert!(matches!(mvc.get_singleton("RoomManager"), Some(Instance::RoomManager(_))));
    assert!(mvc.get_singleton("PathFilter").is_none());
    match mvc.get_singleton_mut("RoomManager") {
        Some(Instance::RoomManager(m)) => {
            assert!(m.create_room(Some(room_server::model::room::Room::default())).is_ok());
        },
        _ => panic!("no room manager"),
    }
    assert!(mvc.get_singleton_mut("Missing").is_none());
}

#[test]
fn mvc_runs_registered_middlewares() {
    let mut mvc = Mvc::new();
    mvc.add_singleton("PathFilter", Instance::Middleware(PathFilter::new()));
    let mut r = request_for(Some("/Room/create"));
    assert_eq!(mvc.invoke_middlewares(&mut r), Ok(()));
    assert_eq!(header_value(&r.header, "controller_name"), Some("Room".to_string()));
    let mut bad = request_for(None);
    assert_eq!(mvc.invoke_middlewares(&mut bad), Err("req_path_is_empty".to_string()));
}

#[test]
fn mvc_without_middlewares_accepts_anything() {
    let mut mvc = Mvc::new();
    mvc.add_singleton("RoomManager", Instance::RoomManager(RoomManager::new()));
    let mut r = request_for(None);
    assert_eq!(mvc.invoke_middlewares(&mut r), Ok(()));
    assert_eq!(header_value(&r.header, "path"), None);
}

#[test]
fn header_pairs_hold_each_name_once() {
    let mut h = Header::new();
    h.insert("a".to_string(), "1".to_string());
    h.insert("b".to_string(), "2".to_string());
    h.insert("a".to_string(), "3".to_string());
    let mut pairs = h.pairs().clone();
    pairs.sort();
    assert_eq!(pairs, vec![("a".to_string(), "3".to_string()), ("b".to_string(), "2".to_string())]);
}

#[test]
fn mvc_get_gives_the_last_factory_after_later_registrations() {
    let mut mvc = Mvc::new();
    mvc.add_transient("RoomController", Factory::RoomController)
        .add_singleton("RoomController", Instance::Middleware(PathFilter::new()))
        .add_transient("Other", Factory::RoomController)
        .add_singleton("RoomManager", Instance::RoomManager(RoomManager::new()));
    assert_eq!(mvc.get("RoomController"), Some(Factory::RoomController));
    assert_eq!(mvc.get("Other"), Some(Factory::RoomController));
    assert_eq!(mvc.get("RoomManager"), None);
    assert_eq!(mvc.get("Missing"), None);
}
