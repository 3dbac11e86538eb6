//! What the bridge remembers while it runs.
pub mod connection;
pub mod directory;
pub mod directory_laws;
pub mod history;
pub mod replies;
pub mod reply_laws;
pub mod sessions;
