//! What the control interface asks for and shows.

pub mod commands;
pub mod server;
pub mod types;
