//! The Telegram side: rendering, requests and updates.

pub mod api;
pub mod laws;
pub mod markdown;
pub mod ratelimit;
pub mod raw;
pub mod render;
pub mod render_laws;
pub mod runtime;
pub mod types;
pub mod v2;
pub mod v2_laws;
pub mod webhook;
