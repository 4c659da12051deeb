//! Token Guard core: the verified decision logic of a local LLM gateway.

pub mod text;
pub mod limits;
pub mod config;
pub mod schedule;
pub mod state;
pub mod proxy;
pub mod backend;
pub mod cli;
pub mod health;
pub mod webhook;
pub mod prices;
pub mod commands;
pub mod secrets;
pub mod other;
pub mod win_cred;
pub mod runtime_config;
pub mod license;
pub mod updater;
pub mod tokens;
pub mod version;
pub mod json;

pub use limits::LimitCounters;
pub mod share;
pub mod cost;
pub mod laws;
