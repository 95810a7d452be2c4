//! Guest mode: one reply when mentioned in a chat the bot is not a member of.

use crate::config;
use crate::config::BotConfig;
use crate::handlers::{chat, groups, message};
use crate::handlers::chat::{Ask, AskStep, Delivery};
use crate::storage;
use crate::storage::{ChatScope, ChatState};
use crate::telegram::api;
use crate::telegram::api::Target;
use crate::telegram::types::Message;
use crate::text;
use vstd::prelude::*;

verus! {

/// What is done about a guest's message.
#[derive(Debug)]
pub enum GuestRoute {
    /// Nothing.
    Ignore,
    /// The guest is told how to ask; the text is the query's id.
    Hint(String),
    /// A question, with the query's id, the guest's id and the words.
    Question(String, u64, String),
}

/// A guest's route as mathematical values.
pub ghost enum GuestRouteView {
    Ignore,
    Hint(Seq<char>),
    Question(Seq<char>, u64, Seq<char>),
}

impl View for GuestRoute {
    type V = GuestRouteView;

    open spec fn view(&self) -> GuestRouteView {
        match self {
            GuestRoute::Ignore => GuestRouteView::Ignore,
            GuestRoute::Hint(id) => GuestRouteView::Hint(id@),
            GuestRoute::Question(id, user, words) => GuestRouteView::Question(id@, *user, words@),
        }
    }
}

/// What is done about a guest's message.
pub open spec fn guest_route(msg: Message, enabled: bool, username: Seq<char>) -> GuestRouteView {
    let words = groups::unmentioned(groups::words_or_empty(msg), username);
    if !enabled || msg.guest_query_id is None || msg.from is None {
        GuestRouteView::Ignore
    } else if words.len() == 0 {
        GuestRouteView::Hint(msg.guest_query_id->0@)
    } else {
        GuestRouteView::Question(msg.guest_query_id->0@, msg.from->0.id, words)
    }
}

/// Decides what is done about a guest's message.
pub fn handle(msg: &Message, cfg: &BotConfig, username: &str) -> (r: GuestRoute)
    ensures
        r@ == guest_route(*msg, cfg.guest, username@),
{
    if !cfg.guest {
        return GuestRoute::Ignore;
    }
    match (&msg.guest_query_id, &msg.from) {
        (Some(id), Some(user)) => {
            let words = groups::text_or_empty(msg);
            let words = groups::strip_mention(words.as_str(), username);
            if text::char_count(words.as_str()) == 0 {
                GuestRoute::Hint(id.as_str().to_string())
            } else {
                GuestRoute::Question(id.as_str().to_string(), user.id, words)
            }
        },
        _ => GuestRoute::Ignore,
    }
}

/// How a guest is told to ask.
pub fn hint_text() -> (r: String)
    ensures
        r@ == "Mention me with a question and I'll answer it."@,
{
    "Mention me with a question and I'll answer it.".to_string()
}

/// What comes of a guest's words: one reply, kept apart from the chat's own
/// conversation.
pub open spec fn step_for_guest(
    bot: config::BotView,
    msg: Message,
    id: Seq<char>,
    user: u64,
    chosen: Option<Seq<char>>,
    words: Seq<char>,
) -> chat::AskStepView {
    match chat::resolution(bot.agents, chosen, words) {
        Err(reply) => chat::AskStepView::Reply(reply),
        Ok((i, question)) => if question.len() == 0 {
            chat::AskStepView::Nothing
        } else {
            chat::AskStepView::Ask(
                chat::AskView {
                    scope: storage::ScopeView::guest(bot.name, msg.chat.id, user),
                    target: api::TargetView {
                        chat_id: msg.chat.id,
                        thread_id: None,
                        business_connection_id: None,
                        reply_to: None,
                        only_for: None,
                    },
                    user: message::author_of(msg),
                    question,
                    attachments: Seq::empty(),
                    agent: bot.agents[i],
                    delivery: chat::DeliveryView::Guest(id),
                    source_message_id: None,
                    voice_reply: false,
                },
            )
        },
    }
}

/// Decides what comes of a guest's words; `id` is the query's id, `user` the
/// guest's, and `state` what is remembered of the guest.
pub fn question(
    cfg: &BotConfig,
    msg: &Message,
    id: &str,
    user: u64,
    state: &ChatState,
    words: &str,
) -> (r: AskStep)
    requires
        cfg@.agents.len() > 0,
    ensures
        r@ == step_for_guest(cfg@, *msg, id@, user, state@.active_agent, words@),
{
    match chat::resolve_agent(cfg, state, words) {
        Err(reply) => AskStep::Reply(reply),
        Ok((i, question)) => {
            if text::char_count(question.as_str()) == 0 {
                return AskStep::Nothing;
            }
            let a = Ask {
                scope: ChatScope::guest(cfg.name.as_str(), msg.chat.id, user),
                target: Target::chat(msg.chat.id),
                user: message::user_info(msg),
                question,
                attachments: Vec::new(),
                agent: cfg.agents[i].clone(),
                delivery: Delivery::Guest { guest_query_id: id.to_string() },
                source_message_id: None,
                voice_reply: false,
            };
            assert(a@.attachments =~= Seq::<Seq<char>>::empty());
            AskStep::Ask(a)
        },
    }
}

}
