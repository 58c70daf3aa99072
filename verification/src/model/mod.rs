pub mod room;
pub mod room_json;
pub mod room_manager;
pub mod request;
