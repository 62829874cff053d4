//! Relay and correlation engine for a chat bridge between linked chat
//! channels and a publish/subscribe bus.

pub mod bans;
pub mod cache;
pub mod commands;
pub mod config;
pub mod dispatch;
pub mod gate;
pub mod model;
pub mod propagate;
pub mod text;
