//! Verified core of WSL Relay: configuration, request rules, image
//! conversion and the power-inhibit state machine behind the localhost API.

pub mod autostart;
pub mod clipboard;
pub mod config;
pub mod decimal;
pub mod error;
pub mod notify;
pub mod power;
pub mod server;
pub mod tray;
pub mod wide;
