//! OneBot v11: its events, its message segments and its API.
pub mod api;
pub mod api_laws;
pub mod event;
pub mod event_laws;
