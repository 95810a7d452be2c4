//! Telegram bots for DocsGPT agents: the decisions, text handling and state
//! behind them, verified.

pub mod app;
pub mod config;
pub mod config_laws;
pub mod docsgpt;
pub mod entry_laws;
pub mod env_laws;
pub mod handlers;
pub mod json;
pub mod pattern;
pub mod setting_laws;
pub mod storage;
pub mod telegram;
pub mod text;
pub mod text_laws;
pub mod util;
pub mod wire_laws;
