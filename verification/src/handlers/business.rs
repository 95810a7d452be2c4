//! Telegram Business: answer customers on behalf of a connected account.

use crate::config::BotConfig;
use crate::handlers::{attachments, groups, message};
use crate::storage;
use crate::storage::BusinessLink;
use crate::telegram::types::{BusinessConnection, Message};
use crate::text;
use vstd::prelude::*;

verus! {

/// The link that a connection makes.
pub open spec fn link_of(c: BusinessConnection) -> storage::LinkView {
    storage::LinkView {
        id: c.id@,
        user_id: c.user_id,
        user_chat_id: c.user_chat_id as i64,
        is_enabled: c.is_enabled,
        can_reply: c.can_reply == Some(true),
    }
}

/// The link that a connection makes.
pub fn link_from(c: &BusinessConnection) -> (r: BusinessLink)
    ensures
        r@ == link_of(*c),
{
    BusinessLink {
        id: c.id.as_str().to_string(),
        user_id: c.user_id,
        user_chat_id: c.user_chat_id as i64,
        is_enabled: c.is_enabled,
        can_reply: match c.can_reply {
            Some(b) => b,
            None => false,
        },
    }
}

/// The connection whose link a message needs before it can be judged.
pub open spec fn connection_of(enabled: bool, msg: Message) -> Option<Seq<char>> {
    if enabled {
        text::opt_view(msg.business_connection_id)
    } else {
        None
    }
}

/// The connection whose link a message needs before it can be judged; none
/// where it is ignored anyway.
pub fn needed_connection(cfg: &BotConfig, msg: &Message) -> (r: Option<String>)
    ensures
        text::opt_view(r) == connection_of(cfg.business, *msg),
{
    if !cfg.business {
        return None;
    }
    text::copy_opt(&msg.business_connection_id)
}

/// What is done about a business message, given the link of its connection.
pub open spec fn business_route(
    msg: Message,
    enabled: bool,
    allowed_chats: Seq<i64>,
    link: Option<storage::LinkView>,
) -> message::RouteView {
    let words = text::trim(groups::words_or_empty(msg));
    if connection_of(enabled, msg) is None || link is None {
        message::RouteView::Ignore
    } else if !link->0.is_enabled || !link->0.can_reply {
        message::RouteView::Ignore
    } else if msg.from is None || msg.from->0.id == link->0.user_id || msg.from->0.is_bot {
        message::RouteView::Ignore
    } else if !message::serves(allowed_chats, msg.chat.id) {
        message::RouteView::Ignore
    } else if attachments::carries_media(msg) {
        message::RouteView::Media(words)
    } else if words.len() == 0 || "/"@.is_prefix_of(words) {
        message::RouteView::Ignore
    } else {
        message::RouteView::Ask(words)
    }
}

/// Decides what is done about a business message.
pub fn message(msg: &Message, cfg: &BotConfig, link: Option<BusinessLink>) -> (r: message::Route)
    ensures
        r@ == business_route(
            *msg,
            cfg.business,
            cfg.allowed_chats@,
            match link {
                Some(l) => Some(l@),
                None => None,
            },
        ),
{
    if !cfg.business || msg.business_connection_id.is_none() {
        return message::Route::Ignore;
    }
    let link = match link {
        Some(l) => l,
        None => {
            return message::Route::Ignore;
        },
    };
    if !link.is_enabled || !link.can_reply {
        return message::Route::Ignore;
    }
    let own: bool = match &msg.from {
        Some(u) => u.id == link.user_id || u.is_bot,
        None => true,
    };
    if own || !message::allowed(&cfg.allowed_chats, msg.chat.id) {
        return message::Route::Ignore;
    }
    let words = groups::text_or_empty(msg);
    let words = text::trimmed(words.as_str());
    if attachments::has_media(msg) {
        return message::Route::Media(words);
    }
    if text::char_count(words.as_str()) == 0 || text::starts_with(words.as_str(), "/") {
        return message::Route::Ignore;
    }
    message::Route::Ask(words)
}

/// What the owner of the account writes is never answered.
pub proof fn owners_are_not_answered(
    msg: Message,
    enabled: bool,
    allowed_chats: Seq<i64>,
    link: storage::LinkView,
)
    requires
        msg.from is Some,
        msg.from->0.id == link.user_id,
    ensures
        business_route(msg, enabled, allowed_chats, Some(link)) == message::RouteView::Ignore,
{
}

/// A connection that is switched off, or may not reply, answers nobody.
pub proof fn closed_connections_are_silent(
    msg: Message,
    enabled: bool,
    allowed_chats: Seq<i64>,
    link: storage::LinkView,
)
    requires
        !link.is_enabled || !link.can_reply,
    ensures
        business_route(msg, enabled, allowed_chats, Some(link)) == message::RouteView::Ignore,
{
}

}
