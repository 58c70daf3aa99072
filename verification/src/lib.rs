pub mod text;
pub mod external;
pub mod mvc;
pub mod model;
pub mod controller;
pub mod server;
