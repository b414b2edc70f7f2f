//! Core backend contract shared between the runtime and frontend consumers:
//! the command/event protocol, the lifecycle model, retry and timeline helpers.
pub mod types;
pub mod channel;
pub mod error;
pub mod normalization;
pub mod error_laws;
pub mod retry;
pub mod state_machine;
pub mod timeline;
pub mod timeline_laws;
