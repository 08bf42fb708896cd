//! Verified core of the Turbo Desktop shell: routing rules, the bridge's trust
//! boundary, connection hysteresis, process bookkeeping and the command lines
//! the shell builds.

pub mod text;
pub mod clock;
pub mod paths;
pub mod window;
pub mod security;
pub mod connection;
pub mod address;
pub mod deep_link;
pub mod config;
pub mod process_manager;
pub mod shell_bridge;
pub mod sudo_bridge;
pub mod server;
pub mod navigation;
pub mod bridge;
pub mod fs_bridge;
pub mod updater_bridge;
pub mod menu;
