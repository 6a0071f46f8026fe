//! Verified core of an interactive command-line chat assistant.

pub mod args;
pub mod commit;
pub mod completion;
pub mod config;
pub mod extract;
pub mod plain_chat;
pub mod prompt;
pub mod provider;
pub mod report;
pub mod session;
pub mod slash;
pub mod stream;
pub mod text;
pub mod trace;
pub mod utils;
