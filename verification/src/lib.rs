pub mod access_laws;
pub mod alma;
pub mod alma_laws;
pub mod alma_ws;
pub mod auth;
pub mod bridge;
pub mod clock;
pub mod clock_laws;
pub mod config;
pub mod face_map;
pub mod group_list_laws;
pub mod group_log;
pub mod group_log_laws;
pub mod handlers;
pub mod id_table;
pub mod json;
pub mod log_laws;
pub mod onebot;
pub mod people;
pub mod pipeline;
pub mod server;
pub mod state;
pub mod text;
pub mod windows;
