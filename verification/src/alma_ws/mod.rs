//! The side of the bridge that talks to Alma over its WebSocket.
pub mod client;
pub mod client_laws;
pub mod event_laws;
pub mod link;
pub mod message;
pub mod message_laws;
pub mod reply_laws;
pub mod visible_laws;
pub mod visible_text;
pub mod wait_laws;
