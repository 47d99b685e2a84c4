//! Supervised servers: their descriptions, handles and commands.

pub mod command;
pub mod lifecycle;
pub mod processes;
pub mod server_handle;
pub mod server_info;
