//! The DocsGPT side: requests, streamed events and replies.

pub mod client;
pub mod client_laws;
pub mod event_laws;
pub mod sse;
pub mod types;
