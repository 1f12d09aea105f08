//! Core of a real-time market-data terminal backend: a normalized message
//! model, a broadcast hub with bounded-lag readers, a provider connection
//! state machine, a streaming threshold monitor, and a SQLite-backed store
//! for configuration, conditions and alerts.

pub mod broadcast;
pub mod gateway;
pub mod hash;
pub mod manager;
pub mod monitor;
pub mod router;
pub mod server;
pub mod store;
pub mod text;
pub mod types;
