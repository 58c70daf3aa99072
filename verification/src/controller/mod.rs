pub mod room_controller;
