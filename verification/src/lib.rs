pub mod text;
pub mod piet;
pub mod http;
pub mod game;
pub mod track;
pub mod render;
pub mod server;
pub mod routes;
pub mod announcer;
pub mod properties;
pub mod config;
