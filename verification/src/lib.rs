//! Verified core of a desktop manager for local Minecraft servers.

pub mod config;
pub mod console;
pub mod external;
pub mod manager;
pub mod monitor;
pub mod order;
pub mod paths;
pub mod players;
pub mod plugins;
pub mod properties;
pub mod server;
pub mod state;
pub mod text;
