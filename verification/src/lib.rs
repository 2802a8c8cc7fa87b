//! Tunnel configuration, validation, traffic statistics and status logic
//! for a menu-bar manager of SSH port-forwarding tunnels.
//!
//! The application around this library (process spawning, sockets, the
//! tray and the persisted configuration file) hands it plain values and
//! acts on what it returns.

pub mod text;
pub mod config;
pub mod format;
pub mod stats;
pub mod error_log;
pub mod ssh;
pub mod tunnel;
pub mod reconnect;
pub mod notify;
pub mod proxy;
pub mod tray;
