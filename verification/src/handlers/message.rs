//! Regular messages: commands, group gating, media, questions.

use crate::config::{BotConfig, GroupMode};
use crate::handlers::{attachments, commands, groups};
use crate::storage;
use crate::storage::{ChatScope, UserInfo};
use crate::telegram::api;
use crate::telegram::api::Target;
use crate::telegram::types::{ChatKind, Message};
use crate::text;
use vstd::prelude::*;

verus! {

/// The author of a message.
pub open spec fn author_of(msg: Message) -> Option<storage::UserView> {
    match msg.from {
        Some(u) => Some(
            storage::UserView {
                id: u.id,
                first_name: u.first_name@,
                last_name: text::opt_view(u.last_name),
                username: text::opt_view(u.username),
                language_code: text::opt_view(u.language_code),
            },
        ),
        None => None,
    }
}

/// The author of a message.
pub fn user_info(msg: &Message) -> (r: Option<UserInfo>)
    ensures
        storage::opt_user(r) == author_of(*msg),
{
    match &msg.from {
        Some(u) => Some(
            UserInfo {
                id: u.id,
                first_name: u.first_name.as_str().to_string(),
                last_name: text::copy_opt(&u.last_name),
                username: text::copy_opt(&u.username),
                language_code: text::copy_opt(&u.language_code),
            },
        ),
        None => None,
    }
}

/// Whether a bot serves a chat: it is listed, or no chat is.
pub open spec fn serves(allowed_chats: Seq<i64>, chat_id: i64) -> bool {
    allowed_chats.len() == 0 || allowed_chats.contains(chat_id)
}

/// Whether a bot serves a chat.
pub fn allowed(allowed_chats: &Vec<i64>, chat_id: i64) -> (r: bool)
    ensures
        r == serves(allowed_chats@, chat_id),
{
    if allowed_chats.len() == 0 {
        return true;
    }
    let mut i: usize = 0;
    while i < allowed_chats.len()
        invariant
            i <= allowed_chats@.len(),
            forall|j: int| 0 <= j < i ==> allowed_chats@[j] != chat_id,
        decreases allowed_chats@.len() - i,
    {
        if allowed_chats[i] == chat_id {
            return true;
        }
        i = i + 1;
    }
    false
}

/// Where the reply to a message goes: into its topic, and in groups as a reply
/// to it.
pub open spec fn reply_target(msg: Message) -> api::TargetView {
    api::TargetView {
        chat_id: msg.chat.id,
        thread_id: groups::topic_of(msg),
        business_connection_id: text::opt_view(msg.business_connection_id),
        reply_to: if groups::in_group(msg.chat) {
            Some(msg.message_id)
        } else {
            None
        },
        only_for: None,
    }
}

/// Build the reply target for a message: threads in topics, replies in groups.
pub fn target_for(msg: &Message) -> (r: Target)
    ensures
        r@ == reply_target(*msg),
        r.ephemeral is None,
{
    Target {
        chat_id: msg.chat.id,
        thread_id: groups::thread_id(msg),
        business_connection_id: text::copy_opt(&msg.business_connection_id),
        reply_to: if groups::is_group(&msg.chat) {
            Some(msg.message_id)
        } else {
            None
        },
        ephemeral: None,
    }
}

/// The conversation that a message belongs to.
pub open spec fn message_scope(bot: Seq<char>, msg: Message) -> storage::ScopeView {
    match msg.business_connection_id {
        Some(bc) => storage::ScopeView::business(bot, msg.chat.id, bc@),
        None => storage::ScopeView::plain(bot, msg.chat.id, groups::topic_of(msg)),
    }
}

/// The conversation that a message belongs to.
pub fn scope_for(bot: &str, msg: &Message) -> (r: ChatScope)
    ensures
        r@ == message_scope(bot@, *msg),
{
    match &msg.business_connection_id {
        Some(bc) => ChatScope::business(bot, msg.chat.id, bc.as_str()),
        None => ChatScope::new(bot, msg.chat.id, groups::thread_id(msg)),
    }
}

/// What is done about a message.
#[derive(Debug)]
pub enum Route {
    /// Nothing.
    Ignore,
    /// The sender is told that the bot does not serve this chat.
    Restricted,
    /// A command, with its arguments.
    Command(String, String),
    /// A file with these words.
    Media(String),
    /// A question.
    Ask(String),
}

/// A route as mathematical values.
pub ghost enum RouteView {
    Ignore,
    Restricted,
    Command(Seq<char>, Seq<char>),
    Media(Seq<char>),
    Ask(Seq<char>),
}

impl View for Route {
    type V = RouteView;

    open spec fn view(&self) -> RouteView {
        match self {
            Route::Ignore => RouteView::Ignore,
            Route::Restricted => RouteView::Restricted,
            Route::Command(c, a) => RouteView::Command(c@, a@),
            Route::Media(t) => RouteView::Media(t@),
            Route::Ask(t) => RouteView::Ask(t@),
        }
    }
}

/// Words with or without a file: a file goes its own way, words are a question,
/// and nothing is nothing.
pub open spec fn media_or_ask(msg: Message, words: Seq<char>) -> RouteView {
    if attachments::carries_media(msg) {
        RouteView::Media(words)
    } else if words.len() == 0 {
        RouteView::Ignore
    } else {
        RouteView::Ask(words)
    }
}

/// Whether the text of a message starts with a slash.
pub open spec fn starts_with_slash(msg: Message) -> bool {
    msg.text is Some && "/"@.is_prefix_of(msg.text->0@)
}

/// What is done about a message; `me` and `username` are the bot's own.
pub open spec fn route_of(
    msg: Message,
    allowed_chats: Seq<i64>,
    mode: GroupMode,
    me: u64,
    username: Seq<char>,
) -> RouteView {
    let group = groups::in_group(msg.chat);
    if (msg.from is Some && msg.from->0.is_bot) || msg.chat.kind == ChatKind::Channel {
        RouteView::Ignore
    } else if !serves(allowed_chats, msg.chat.id) {
        if group {
            RouteView::Ignore
        } else {
            RouteView::Restricted
        }
    } else if group && mode == GroupMode::Off {
        RouteView::Ignore
    } else if commands::command_in(msg, username) is Some {
        let (name, args) = commands::command_in(msg, username)->0;
        RouteView::Command(name, args)
    } else if starts_with_slash(msg) {
        RouteView::Ignore
    } else if group {
        match groups::gated(msg, mode, me, username) {
            Some(words) => media_or_ask(msg, words),
            None => RouteView::Ignore,
        }
    } else {
        media_or_ask(msg, text::trim(groups::words_or_empty(msg)))
    }
}

fn media_or_question(msg: &Message, words: String) -> (r: Route)
    ensures
        r@ == media_or_ask(*msg, words@),
{
    if attachments::has_media(msg) {
        Route::Media(words)
    } else if text::char_count(words.as_str()) == 0 {
        Route::Ignore
    } else {
        Route::Ask(words)
    }
}

/// Decides what is done about a message.
pub fn handle(msg: &Message, cfg: &BotConfig, me: u64, username: &str) -> (r: Route)
    ensures
        r@ == route_of(*msg, cfg.allowed_chats@, cfg.groups, me, username@),
{
    let from_bot: bool = match &msg.from {
        Some(u) => u.is_bot,
        None => false,
    };
    if from_bot || msg.chat.kind == ChatKind::Channel {
        return Route::Ignore;
    }
    let group = groups::is_group(&msg.chat);
    if !allowed(&cfg.allowed_chats, msg.chat.id) {
        return if group {
            Route::Ignore
        } else {
            Route::Restricted
        };
    }
    if group && cfg.groups == GroupMode::Off {
        return Route::Ignore;
    }
    match commands::parse(msg, username) {
        Some((c, a)) => {
            return Route::Command(c, a);
        },
        None => {},
    }
    let slash: bool = match &msg.text {
        Some(t) => text::starts_with(t.as_str(), "/"),
        None => false,
    };
    if slash {
        return Route::Ignore;
    }
    if group {
        match groups::gate(msg, cfg.groups, me, username) {
            Some(words) => media_or_question(msg, words),
            None => Route::Ignore,
        }
    } else {
        let words = groups::text_or_empty(msg);
        media_or_question(msg, text::trimmed(words.as_str()))
    }
}

/// What a chat that the bot does not serve is told.
pub fn restricted_text() -> (r: String)
    ensures
        r@ == "This bot is restricted to specific chats."@,
{
    "This bot is restricted to specific chats.".to_string()
}

/// A chat that is not listed gets nothing done, whatever it sends; in private it
/// is told so.
pub proof fn unlisted_chats_are_refused(
    msg: Message,
    allowed_chats: Seq<i64>,
    mode: GroupMode,
    me: u64,
    username: Seq<char>,
)
    requires
        !serves(allowed_chats, msg.chat.id),
    ensures
        route_of(msg, allowed_chats, mode, me, username) == RouteView::Ignore || route_of(
            msg,
            allowed_chats,
            mode,
            me,
            username,
        ) == RouteView::Restricted,
        msg.chat.kind == ChatKind::Private && !(msg.from is Some && msg.from->0.is_bot) ==> route_of(
            msg,
            allowed_chats,
            mode,
            me,
            username,
        ) == RouteView::Restricted,
{
}

/// Messages of bots and in channels get nothing done.
pub proof fn bots_are_ignored(
    msg: Message,
    allowed_chats: Seq<i64>,
    mode: GroupMode,
    me: u64,
    username: Seq<char>,
)
    requires
        (msg.from is Some && msg.from->0.is_bot) || msg.chat.kind == ChatKind::Channel,
    ensures
        route_of(msg, allowed_chats, mode, me, username) == RouteView::Ignore,
{
}

}
