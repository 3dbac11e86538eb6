//! The tray app for Windows.
pub mod app_state;
pub mod config_model;
pub mod i18n;
pub mod laws;
pub mod resource;
pub mod shell;
pub mod ui;
