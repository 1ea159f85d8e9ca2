//! Configuration layering and user-notification payloads.

pub mod config;
pub mod document;
pub mod hooks;
pub mod json;
pub mod loader;
pub mod notification;
