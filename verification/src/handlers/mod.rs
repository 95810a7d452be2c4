//! What the bot does about each update.

pub mod albums;
pub mod ask_laws;
pub mod attachments;
pub mod business;
pub mod callbacks;
pub mod chat;
pub mod commands;
pub mod delivery;
pub mod delivery_laws;
pub mod draft;
pub mod files;
pub mod groups;
pub mod guest;
pub mod inline;
pub mod intake;
pub mod laws;
pub mod media_laws;
pub mod mentions;
pub mod message;
pub mod message_laws;
pub mod process;
pub mod reply;
pub mod turn;
pub mod turn_laws;
