//! Logic of the desktop client: its state, configuration, backend bridge and media.
pub mod security_dialog;
pub mod timeline_rows;
pub mod pagination;
pub mod state;
pub mod state_laws;
pub mod view_laws;
pub mod action_laws;
pub mod config;
pub mod config_laws;
pub mod bridge;
pub mod bridge_laws;
pub mod auth_profile;
pub mod login_form;
pub mod gif_decode;
pub mod gif_cache;
pub mod gif_player;
pub mod gif_laws;
pub mod media_cache;
pub mod media_cache_laws;
