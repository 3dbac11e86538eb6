//! How a message passes from QQ to Alma, and a reply back.
pub mod context;
pub mod context_laws;
pub mod forward;
pub mod forward_laws;
pub mod media;
pub mod media_laws;
pub mod message;
pub mod message_laws;
pub mod record;
pub mod run;
pub mod run_laws;
pub mod split;
pub mod split_laws;
pub mod step_laws;
