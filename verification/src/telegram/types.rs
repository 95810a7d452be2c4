//! What the bot reads of Telegram's objects.

use vstd::prelude::*;

verus! {

/// The kind of a chat.
#[derive(Debug, Clone, Copy, PartialEq, Eq, Structural)]
pub enum ChatKind {
    Private,
    Group,
    Supergroup,
    Channel,
}

/// A chat.
#[derive(Debug, Clone, Copy, PartialEq, Eq, Structural)]
pub struct Chat {
    pub id: i64,
    pub kind: ChatKind,
}

/// A user or bot.
#[derive(Debug)]
pub struct User {
    pub id: u64,
    pub is_bot: bool,
    pub first_name: String,
    pub last_name: Option<String>,
    pub username: Option<String>,
    pub language_code: Option<String>,
}

/// The kinds of marked-up text that are told apart.
#[derive(Debug, Clone, Copy, PartialEq, Eq, Structural)]
pub enum EntityKind {
    Mention,
    TextMention,
    BotCommand,
    Other,
}

/// A stretch of marked-up text, in UTF-16 units.
#[derive(Debug, Clone, Copy, PartialEq, Eq, Structural)]
pub struct Entity {
    pub kind: EntityKind,
    pub offset: u16,
    pub length: u16,
    /// Whom a text mention means.
    pub user_id: Option<u64>,
}

/// One size of a photo.
#[derive(Debug)]
pub struct PhotoSize {
    pub file_id: String,
    pub file_unique_id: String,
    pub width: u32,
    pub file_size: Option<u64>,
}

/// A document.
#[derive(Debug)]
pub struct Document {
    pub file_id: String,
    pub file_unique_id: String,
    pub file_name: Option<String>,
    pub mime_type: Option<String>,
}

/// An audio file.
#[derive(Debug)]
pub struct Audio {
    pub file_id: String,
    pub file_name: Option<String>,
    pub mime_type: Option<String>,
}

/// A message.
#[derive(Debug)]
pub struct Message {
    pub message_id: i32,
    pub chat: Chat,
    pub from: Option<User>,
    pub message_thread_id: Option<i32>,
    pub is_topic_message: bool,
    pub business_connection_id: Option<String>,
    pub guest_query_id: Option<String>,
    /// The author of the message that this one replies to.
    pub reply_author: Option<u64>,
    pub text: Option<String>,
    pub entities: Vec<Entity>,
    pub caption: Option<String>,
    pub caption_entities: Vec<Entity>,
    pub media_group_id: Option<String>,
    pub photo: Option<Vec<PhotoSize>>,
    pub document: Option<Document>,
    /// The file of a voice note.
    pub voice: Option<String>,
    pub audio: Option<Audio>,
    pub video: bool,
    pub video_note: bool,
    pub animation: bool,
}

/// A business connection.
#[derive(Debug)]
pub struct BusinessConnection {
    pub id: String,
    pub user_id: u64,
    pub user_chat_id: u64,
    pub is_enabled: bool,
    pub can_reply: Option<bool>,
}

}
