//! The question → DocsGPT → Telegram flow: which agent answers, what a turn
//! collects, and what becomes of it.

use crate::config;
use crate::config::{AgentConfig, BotConfig};
use crate::docsgpt::client::StreamRequest;
use crate::handlers::turn::Turn;
use crate::handlers::{commands, groups, message, turn};
use crate::storage;
use crate::storage::{ChatScope, ChatState, ChatStatePatch, UserInfo};
use crate::telegram::api;
use crate::telegram::api::Target;
use crate::telegram::render;
use crate::telegram::types::{ChatKind, Message};
use crate::text;
use crate::util;
use vstd::prelude::*;

verus! {

/// How an answer reaches its reader.
#[derive(Debug)]
pub enum Delivery {
    /// Private chat: live draft, then the final message.
    Draft,
    /// Typing indicator, then the final message.
    Final,
    /// One reply through `answerGuestQuery`.
    Guest { guest_query_id: String },
}

/// How an answer reaches its reader, as mathematical values.
pub ghost enum DeliveryView {
    Draft,
    Final,
    Guest(Seq<char>),
}

impl View for Delivery {
    type V = DeliveryView;

    open spec fn view(&self) -> DeliveryView {
        match self {
            Delivery::Draft => DeliveryView::Draft,
            Delivery::Final => DeliveryView::Final,
            Delivery::Guest { guest_query_id } => DeliveryView::Guest(guest_query_id@),
        }
    }
}

/// A live draft in private chats where streaming is on; elsewhere one message.
pub open spec fn usual_delivery(msg: Message, streaming: bool) -> DeliveryView {
    if msg.chat.kind == ChatKind::Private && msg.business_connection_id is None && streaming {
        DeliveryView::Draft
    } else {
        DeliveryView::Final
    }
}

/// How the answer to a message reaches its reader.
pub fn delivery_for(msg: &Message, streaming: bool) -> (r: Delivery)
    ensures
        r@ == usual_delivery(*msg, streaming),
{
    if groups::is_private(&msg.chat) && msg.business_connection_id.is_none() && streaming {
        Delivery::Draft
    } else {
        Delivery::Final
    }
}

/// The tag behind a leading `#`, and what follows it.
pub open spec fn tag_of(s: Seq<char>) -> Option<(Seq<char>, Seq<char>)> {
    let t = text::trim(s);
    if "#"@.is_prefix_of(t) {
        let rest = t.skip(1);
        Some((rest.take(text::space_at(rest)), text::trim(rest.skip(text::space_at(rest)))))
    } else {
        None
    }
}

/// The tag of a text that has one.
pub open spec fn tag_in(s: Seq<char>) -> Seq<char> {
    let (tag, rest) = tag_of(s)->0;
    tag
}

/// What follows the tag of a text that has one.
pub open spec fn words_behind(s: Seq<char>) -> Seq<char> {
    let (tag, rest) = tag_of(s)->0;
    rest
}

/// The reply to a tag that names no agent.
pub open spec fn unknown_tag(agents: Seq<config::AgentView>, tag: Seq<char>) -> Seq<char> {
    "Unknown agent #"@ + tag + ". Available: "@ + text::join(
        agents.map_values(|a: config::AgentView| "#"@ + a.name),
        ", "@,
    )
}

/// What a tag decides: the agent and the question behind it, or a refusal where
/// there are several agents and none of that name; nothing where there is no tag.
pub open spec fn tagged(agents: Seq<config::AgentView>, s: Seq<char>) -> Option<
    Result<(int, Seq<char>), Seq<char>>,
> {
    match tag_of(s) {
        Some((tag, rest)) => match config::agent_from(agents, text::lower(tag), 0) {
            Some(i) => Some(Ok((i, rest))),
            None => if agents.len() > 1 && tag.len() > 0 {
                Some(Err(unknown_tag(agents, tag)))
            } else {
                None
            },
        },
        None => None,
    }
}

/// The agent that answers in a chat where no tag decides.
pub open spec fn standing_agent(agents: Seq<config::AgentView>, chosen: Option<Seq<char>>) -> int {
    match chosen {
        Some(n) => match config::agent_from(agents, text::lower(n), 0) {
            Some(i) => i,
            None => config::default_index(agents),
        },
        None => config::default_index(agents),
    }
}

/// Which agent answers which question, or the reply to an unknown tag.
pub open spec fn resolution(
    agents: Seq<config::AgentView>,
    chosen: Option<Seq<char>>,
    s: Seq<char>,
) -> Result<(int, Seq<char>), Seq<char>> {
    match tagged(agents, s) {
        Some(r) => r,
        None => Ok((standing_agent(agents, chosen), text::trim(s))),
    }
}

/// A resolution as mathematical values.
pub open spec fn resolved_view(r: Result<(usize, String), String>) -> Result<
    (int, Seq<char>),
    Seq<char>,
> {
    match r {
        Ok(p) => Ok((p.0 as int, p.1@)),
        Err(e) => Err(e@),
    }
}

/// Where the agent of that name stands.
pub fn agent_index(cfg: &BotConfig, name: &str) -> (r: Option<usize>)
    ensures
        (match r {
            Some(i) => Some(i as int),
            None => None,
        }) == config::agent_from(cfg@.agents, text::lower(name@), 0),
        r matches Some(i) ==> i < cfg.agents@.len(),
{
    let wanted = text::lowered(name);
    let mut i: usize = 0;
    while i < cfg.agents.len()
        invariant
            i <= cfg.agents@.len(),
            cfg@.agents.len() == cfg.agents@.len(),
            wanted@ == text::lower(name@),
            config::agent_from(cfg@.agents, wanted@, 0) == config::agent_from(
                cfg@.agents,
                wanted@,
                i as int,
            ),
        decreases cfg.agents@.len() - i,
    {
        assert(cfg@.agents[i as int] == cfg.agents@[i as int]@);
        if text::same(cfg.agents[i].name.as_str(), wanted.as_str()) {
            return Some(i);
        }
        i = i + 1;
    }
    None
}

pub(crate) fn default_agent_index(cfg: &BotConfig) -> (r: usize)
    requires
        cfg@.agents.len() > 0,
    ensures
        r == config::default_index(cfg@.agents),
        r < cfg.agents@.len(),
{
    let mut i: usize = 0;
    while i < cfg.agents.len()
        invariant
            i <= cfg.agents@.len(),
            cfg@.agents.len() == cfg.agents@.len(),
            config::default_from(cfg@.agents, 0) == config::default_from(cfg@.agents, i as int),
        decreases cfg.agents@.len() - i,
    {
        assert(cfg@.agents[i as int] == cfg.agents@[i as int]@);
        if cfg.agents[i].default {
            return i;
        }
        i = i + 1;
    }
    0
}

fn refuse_tag(cfg: &BotConfig, tag: &str) -> (r: String)
    ensures
        r@ == unknown_tag(cfg@.agents, tag@),
{
    let ghost want = cfg@.agents.map_values(|a: config::AgentView| "#"@ + a.name);
    let mut names: Vec<String> = Vec::new();
    let mut i: usize = 0;
    while i < cfg.agents.len()
        invariant
            i <= cfg.agents@.len(),
            cfg@.agents.len() == cfg.agents@.len(),
            want == cfg@.agents.map_values(|a: config::AgentView| "#"@ + a.name),
            text::views(names@) == want.take(i as int),
        decreases cfg.agents@.len() - i,
    {
        assert(cfg@.agents[i as int] == cfg.agents@[i as int]@);
        let mut n: String = "#".to_string();
        n.append(cfg.agents[i].name.as_str());
        proof {
            text::lemma_views_push(names@, n);
            assert(want.take(i + 1) =~= want.take(i as int).push(n@));
        }
        names.push(n);
        i = i + 1;
    }
    assert(want.take(i as int) =~= want);
    let mut r: String = "Unknown agent #".to_string();
    r.append(tag);
    r.append(". Available: ");
    r.append(text::join_list(&names, ", ").as_str());
    r
}

/// What a leading `#name` decides.
pub fn resolve_tag(cfg: &BotConfig, text: &str) -> (r: Option<Result<(usize, String), String>>)
    ensures
        (match r {
            Some(x) => Some(resolved_view(x)),
            None => None,
        }) == tagged(cfg@.agents, text@),
        r matches Some(Ok((i, _))) ==> i < cfg.agents@.len(),
{
    let trimmed = text::trimmed(text);
    if !text::starts_with(trimmed.as_str(), "#") {
        return None;
    }
    proof {
        reveal_strlit("#");
    }
    let rest = text::skip_chars(trimmed.as_str(), 1);
    let (tag, tail) = commands::split_at_space(rest.as_str());
    let remainder = text::trimmed(tail.as_str());
    match agent_index(cfg, tag.as_str()) {
        Some(i) => Some(Ok((i, remainder))),
        None => {
            if cfg.agents.len() > 1 && text::char_count(tag.as_str()) > 0 {
                Some(Err(refuse_tag(cfg, tag.as_str())))
            } else {
                None
            }
        },
    }
}

/// Pick the agent: `#name` prefix, then the chat's active agent, then the default.
pub fn resolve_agent(cfg: &BotConfig, state: &ChatState, text: &str) -> (r: Result<
    (usize, String),
    String,
>)
    requires
        cfg@.agents.len() > 0,
    ensures
        resolved_view(r) == resolution(cfg@.agents, state@.active_agent, text@),
        r matches Ok((i, _)) ==> i < cfg.agents@.len(),
{
    match resolve_tag(cfg, text) {
        Some(x) => x,
        None => {
            let chosen: Option<usize> = match &state.active_agent {
                Some(n) => agent_index(cfg, n.as_str()),
                None => None,
            };
            let i: usize = match chosen {
                Some(k) => k,
                None => default_agent_index(cfg),
            };
            Ok((i, text::trimmed(text)))
        },
    }
}

/// A question on its way to an agent.
#[derive(Debug)]
pub struct Ask {
    pub scope: ChatScope,
    pub target: Target,
    pub user: Option<UserInfo>,
    pub question: String,
    pub attachments: Vec<String>,
    pub agent: AgentConfig,
    pub delivery: Delivery,
    pub source_message_id: Option<i32>,
    pub voice_reply: bool,
}

/// A question on its way, as mathematical values.
pub ghost struct AskView {
    pub scope: storage::ScopeView,
    pub target: api::TargetView,
    pub user: Option<storage::UserView>,
    pub question: Seq<char>,
    pub attachments: Seq<Seq<char>>,
    pub agent: config::AgentView,
    pub delivery: DeliveryView,
    pub source_message_id: Option<i32>,
    pub voice_reply: bool,
}

impl View for Ask {
    type V = AskView;

    open spec fn view(&self) -> AskView {
        AskView {
            scope: self.scope@,
            target: self.target@,
            user: storage::opt_user(self.user),
            question: self.question@,
            attachments: text::views(self.attachments@),
            agent: self.agent@,
            delivery: self.delivery@,
            source_message_id: self.source_message_id,
            voice_reply: self.voice_reply,
        }
    }
}

/// What comes of words that may be a question.
#[derive(Debug)]
pub enum AskStep {
    /// Nothing.
    Nothing,
    /// These words are sent back.
    Reply(String),
    /// The question is asked.
    Ask(Ask),
}

/// What comes of words that may be a question, as mathematical values.
pub ghost enum AskStepView {
    Nothing,
    Reply(Seq<char>),
    Ask(AskView),
}

impl View for AskStep {
    type V = AskStepView;

    open spec fn view(&self) -> AskStepView {
        match self {
            AskStep::Nothing => AskStepView::Nothing,
            AskStep::Reply(s) => AskStepView::Reply(s@),
            AskStep::Ask(a) => AskStepView::Ask(a@),
        }
    }
}

/// A question that answers a message: where its answer goes and how.
pub open spec fn message_ask(
    bot: config::BotView,
    msg: Message,
    agent: config::AgentView,
    question: Seq<char>,
    attachments: Seq<Seq<char>>,
    user: Option<storage::UserView>,
    voice_reply: bool,
) -> AskView {
    AskView {
        scope: message::message_scope(bot.name, msg),
        target: message::reply_target(msg),
        user,
        question,
        attachments,
        agent,
        delivery: usual_delivery(msg, bot.streaming),
        source_message_id: Some(msg.message_id),
        voice_reply,
    }
}

/// A question that answers a message.
pub fn ask_about(
    cfg: &BotConfig,
    msg: &Message,
    agent: usize,
    question: String,
    attachments: Vec<String>,
    user: Option<UserInfo>,
    voice_reply: bool,
) -> (r: Ask)
    requires
        agent < cfg.agents@.len(),
    ensures
        r@ == message_ask(
            cfg@,
            *msg,
            cfg@.agents[agent as int],
            question@,
            text::views(attachments@),
            storage::opt_user(user),
            voice_reply,
        ),
{
    Ask {
        scope: message::scope_for(cfg.name.as_str(), msg),
        target: message::target_for(msg),
        user,
        question,
        attachments,
        agent: cfg.agents[agent].clone(),
        delivery: delivery_for(msg, cfg.streaming),
        source_message_id: Some(msg.message_id),
        voice_reply,
    }
}

/// What comes of words that arrived as a message: the question goes to the agent
/// that they choose, and without words or attachments there is none.
pub open spec fn step_for_message(
    bot: config::BotView,
    msg: Message,
    chosen: Option<Seq<char>>,
    s: Seq<char>,
    attachments: Seq<Seq<char>>,
    user: Option<storage::UserView>,
) -> AskStepView {
    match resolution(bot.agents, chosen, s) {
        Err(reply) => AskStepView::Reply(reply),
        Ok((i, question)) => if question.len() == 0 && attachments.len() == 0 {
            AskStepView::Nothing
        } else {
            AskStepView::Ask(
                message_ask(
                    bot,
                    msg,
                    bot.agents[i],
                    question,
                    attachments,
                    if user is Some {
                        user
                    } else {
                        message::author_of(msg)
                    },
                    false,
                ),
            )
        },
    }
}

/// Entry point for a question that arrived as a message.
pub fn ask_from_message(
    cfg: &BotConfig,
    msg: &Message,
    state: &ChatState,
    text: &str,
    attachments: Vec<String>,
    user: Option<UserInfo>,
) -> (r: AskStep)
    requires
        cfg@.agents.len() > 0,
    ensures
        r@ == step_for_message(
            cfg@,
            *msg,
            state@.active_agent,
            text@,
            text::views(attachments@),
            storage::opt_user(user),
        ),
{
    match resolve_agent(cfg, state, text) {
        Err(reply) => AskStep::Reply(reply),
        Ok((i, question)) => {
            assert(text::views(attachments@).len() == attachments@.len());
            if text::char_count(question.as_str()) == 0 && attachments.len() == 0 {
                AskStep::Nothing
            } else {
                let user = match user {
                    Some(u) => Some(u),
                    None => message::user_info(msg),
                };
                AskStep::Ask(ask_about(cfg, msg, i, question, attachments, user, false))
            }
        },
    }
}

impl AskView {
    /// What is remembered of the chat once the question is asked.
    pub open spec fn memory(self) -> storage::PatchView {
        storage::PatchView {
            active_agent: None,
            last_question: Some(self.question),
            user: self.user,
        }
    }

    /// The message that shows that work is going on; guest replies and business
    /// chats have no reactions.
    pub open spec fn reacts_to(self, reactions: bool) -> Option<i32> {
        if reactions && !(self.delivery is Guest) && self.target.business_connection_id is None {
            self.source_message_id
        } else {
            None
        }
    }
}

impl Ask {
    /// What is remembered of the chat once a question is asked.
    pub fn remembered(&self) -> (r: ChatStatePatch)
        ensures
            r@ == self@.memory(),
    {
        ChatStatePatch {
            active_agent: None,
            last_question: Some(self.question.as_str().to_string()),
            user: match &self.user {
                Some(u) => Some(u.clone()),
                None => None,
            },
        }
    }

    /// The message that shows that work is going on.
    pub fn reaction_target(&self, reactions: bool) -> (r: Option<i32>)
        ensures
            r == self@.reacts_to(reactions),
    {
        let guest: bool = match &self.delivery {
            Delivery::Guest { .. } => true,
            _ => false,
        };
        if reactions && !guest && self.target.business_connection_id.is_none() {
            self.source_message_id
        } else {
            None
        }
    }

    /// The request that carries the question, in the conversation that goes on.
    pub fn request(&self, conversation: &Option<String>) -> (r: StreamRequest)
        ensures
            r.question@ == self@.question,
            r.api_key@ == self@.agent.api_key,
            text::opt_view(r.conversation_id) == text::opt_view(*conversation),
            text::views(r.attachments@) == self@.attachments,
    {
        StreamRequest {
            question: self.question.as_str().to_string(),
            api_key: self.agent.api_key.as_str().to_string(),
            conversation_id: text::copy_opt(conversation),
            attachments: text::copy_list(&self.attachments),
        }
    }

    /// The words that are spoken, where a voice note is answered with one.
    pub fn spoken(&self, answer: &str) -> (r: Option<String>)
        ensures
            text::opt_view(r) == (if self@.voice_reply && !(self@.delivery is Guest) {
                Some(util::truncated(render::plain_of(answer@), turn::SPOKEN_LIMIT as nat))
            } else {
                None
            }),
    {
        let guest: bool = match &self.delivery {
            Delivery::Guest { .. } => true,
            _ => false,
        };
        if !self.voice_reply || guest {
            return None;
        }
        let plain = render::markdown_to_plain(answer);
        Some(util::truncate_chars(plain.as_str(), turn::SPOKEN_LIMIT))
    }
}

/// A question that is tagged goes where its tag says, whatever was chosen in the
/// chat.
pub proof fn tags_override_the_choice(
    agents: Seq<config::AgentView>,
    a: Option<Seq<char>>,
    b: Option<Seq<char>>,
    s: Seq<char>,
)
    requires
        tagged(agents, s) is Some,
    ensures
        resolution(agents, a, s) == resolution(agents, b, s),
{
}

/// Begins one turn: the request that carries the question, and the turn that
/// gathers what comes back, both in the conversation that goes on.
pub fn ask(a: &Ask, conversation: Option<String>) -> (r: (StreamRequest, Turn))
    ensures
        r.0.question@ == a@.question,
        r.0.api_key@ == a@.agent.api_key,
        text::opt_view(r.0.conversation_id) == text::opt_view(conversation),
        text::views(r.0.attachments@) == a@.attachments,
        r.1@ == turn::TurnView::begun(text::opt_view(conversation)),
{
    let req = a.request(&conversation);
    (req, Turn::new(conversation))
}

/// A tag that names an agent chooses that agent, and the question goes without it.
pub proof fn tagged_questions_reach_their_agent(
    agents: Seq<config::AgentView>,
    chosen: Option<Seq<char>>,
    s: Seq<char>,
    i: int,
)
    requires
        tag_of(s) is Some,
        config::agent_from(agents, text::lower(tag_in(s)), 0) == Some(i),
    ensures
        resolution(agents, chosen, s) == Ok::<(int, Seq<char>), Seq<char>>((i, words_behind(s))),
{
}

/// A question without a tag goes, as it stands, to the agent of the chat.
pub proof fn untagged_questions_reach_the_standing_agent(
    agents: Seq<config::AgentView>,
    chosen: Option<Seq<char>>,
    s: Seq<char>,
)
    requires
        tag_of(s) is None,
    ensures
        resolution(agents, chosen, s) == Ok::<(int, Seq<char>), Seq<char>>(
            (standing_agent(agents, chosen), text::trim(s)),
        ),
{
}

/// A bot with one agent refuses no question.
pub proof fn one_agent_refuses_nothing(
    agents: Seq<config::AgentView>,
    chosen: Option<Seq<char>>,
    s: Seq<char>,
)
    requires
        agents.len() == 1,
    ensures
        resolution(agents, chosen, s) is Ok,
{
}

/// A tag is for one question: asking, with a tag or without, leaves the chosen
/// agent of the chat as it was.
pub proof fn asking_keeps_the_chosen_agent(a: AskView, state: storage::StateView)
    ensures
        a.memory().apply(state).active_agent == state.active_agent,
        a.memory().apply(state).last_question == Some(a.question),
{
}

}
