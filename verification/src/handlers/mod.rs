//! How the requests and connections that reach the bridge are handled.
pub mod command_laws;
pub mod frame_laws;
pub mod http;
pub mod ws;
