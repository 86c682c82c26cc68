//! What the bot's command and callback handlers decide and write: texts,
//! callback data, validation of names and paths, and the steps of each
//! command. Sending and receiving Telegram messages is left to the caller.

pub mod help;
pub mod projects;
pub mod sessions;
pub mod status;
pub mod topic;
pub mod session;
pub mod callbacks;
pub mod setup;
pub mod clear;
pub mod connect;
