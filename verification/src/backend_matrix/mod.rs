//! Matrix runtime logic: room events, identifiers, errors, login, sync and the
//! frontend adapter.
pub mod events;
pub mod event_laws;
pub mod sync;
pub mod sync_laws;
pub mod ids;
pub mod local_files;
pub mod errors;
pub mod tuning;
pub mod login;
pub mod persistence;
pub mod storage_laws;
pub mod runtime;
pub mod runtime_laws;
pub mod rooms;
pub mod sync_loop;
pub mod failure_laws;
pub mod adapter;
pub mod adapter_laws;
