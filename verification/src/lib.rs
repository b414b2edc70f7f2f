//! PikaChat: the logic of a Matrix chat client.
pub mod backend_core;
pub mod backend_matrix;
pub mod backend_platform;
pub mod desktop;
pub mod paths;
pub mod smoke;
pub mod text;
pub mod text_laws;
pub mod text_map;
