//! Core logic of an orchestrator that bridges Telegram forum topics and
//! OpenCode instances: message formatting, command parsing, port pooling,
//! instance lifecycle decisions and stream batching.

pub mod text;

pub mod error;
pub mod markdown;
pub mod commands;
pub mod paths;
pub mod worktree;
pub mod discovery;
pub mod port_pool;
pub mod container;
pub mod types;
pub mod manager;
pub mod stream;
pub mod config;
pub mod client;
pub mod handlers;
pub mod integration;
pub mod api;
pub mod instance;
