//! Persistent state. DocsGPT keeps the transcript server-side, so the bot only
//! stores which conversation a chat is in, the active agent, and business links.

pub mod adoption;
pub mod field_laws;
pub mod laws;
pub mod memory;
pub mod mongo;
pub mod shelf;

use crate::text;
use vstd::prelude::*;

verus! {

/// Where a conversation lives: one bot, one chat, one topic (0 = none),
/// optionally one business connection.
#[derive(Debug, PartialEq, Eq, Hash)]
pub struct ChatScope {
    pub bot: String,
    pub chat_id: i64,
    pub thread_id: i32,
    /// Extra partition: `biz:<connection>` for business chats, `guest:<user>` for guest queries.
    pub namespace: Option<String>,
}

/// A scope as mathematical values.
pub ghost struct ScopeView {
    pub bot: Seq<char>,
    pub chat_id: i64,
    pub thread_id: i32,
    pub namespace: Option<Seq<char>>,
}

impl View for ChatScope {
    type V = ScopeView;

    open spec fn view(&self) -> ScopeView {
        ScopeView {
            bot: self.bot@,
            chat_id: self.chat_id,
            thread_id: self.thread_id,
            namespace: text::opt_view(self.namespace),
        }
    }
}

impl Clone for ChatScope {
    fn clone(&self) -> (r: ChatScope)
        ensures
            r@ == self@,
    {
        ChatScope {
            bot: self.bot.as_str().to_string(),
            chat_id: self.chat_id,
            thread_id: self.thread_id,
            namespace: text::copy_opt(&self.namespace),
        }
    }
}

impl ScopeView {
    /// The key under which a scope's state is stored.
    pub open spec fn key(self) -> Seq<char> {
        self.bot + ":"@ + (match self.namespace {
            Some(ns) => ns + ":"@,
            None => Seq::empty(),
        }) + text::signed_decimal(self.chat_id as int) + ":"@ + text::signed_decimal(
            self.thread_id as int,
        )
    }

    /// Whether the scope is a plain chat on its default topic.
    pub open spec fn is_legacy_shape(self) -> bool {
        self.thread_id == 0 && self.namespace is None
    }

    /// The scope of a chat and topic.
    pub open spec fn plain(bot: Seq<char>, chat_id: i64, thread_id: Option<i32>) -> ScopeView {
        ScopeView {
            bot,
            chat_id,
            thread_id: match thread_id {
                Some(t) => t,
                None => 0,
            },
            namespace: None,
        }
    }

    /// The scope of a chat behind a business connection.
    pub open spec fn business(bot: Seq<char>, chat_id: i64, connection_id: Seq<char>) -> ScopeView {
        ScopeView { bot, chat_id, thread_id: 0, namespace: Some("biz:"@ + connection_id) }
    }

    /// The scope of a guest's questions in a chat.
    pub open spec fn guest(bot: Seq<char>, chat_id: i64, user_id: u64) -> ScopeView {
        ScopeView {
            bot,
            chat_id,
            thread_id: 0,
            namespace: Some("guest:"@ + text::decimal(user_id as nat)),
        }
    }
}

impl ChatScope {
    /// A chat and topic.
    pub fn new(bot: &str, chat_id: i64, thread_id: Option<i32>) -> (r: ChatScope)
        ensures
            r@ == ScopeView::plain(bot@, chat_id, thread_id),
    {
        ChatScope {
            bot: bot.to_string(),
            chat_id,
            thread_id: match thread_id {
                Some(t) => t,
                None => 0,
            },
            namespace: None,
        }
    }

    /// A chat behind a business connection.
    pub fn business(bot: &str, chat_id: i64, connection_id: &str) -> (r: ChatScope)
        ensures
            r@ == ScopeView::business(bot@, chat_id, connection_id@),
    {
        let mut ns: String = "biz:".to_string();
        ns.append(connection_id);
        ChatScope { bot: bot.to_string(), chat_id, thread_id: 0, namespace: Some(ns) }
    }

    /// A guest's questions in a chat.
    pub fn guest(bot: &str, chat_id: i64, user_id: u64) -> (r: ChatScope)
        ensures
            r@ == ScopeView::guest(bot@, chat_id, user_id),
    {
        let mut ns: String = "guest:".to_string();
        ns.append(text::decimal_of(user_id).as_str());
        ChatScope { bot: bot.to_string(), chat_id, thread_id: 0, namespace: Some(ns) }
    }

    /// Stable storage key.
    pub fn key(&self) -> (r: String)
        ensures
            r@ == self@.key(),
    {
        let mut r: String = self.bot.as_str().to_string();
        r.append(":");
        match &self.namespace {
            Some(ns) => {
                let ghost before = r@;
                r.append(ns.as_str());
                r.append(":");
                assert(r@ =~= before + (ns@ + ":"@));
            },
            None => {
                assert(r@ =~= r@ + Seq::<char>::empty());
            },
        }
        r.append(text::signed_decimal_of(self.chat_id).as_str());
        r.append(":");
        r.append(text::signed_decimal_of(self.thread_id as i64).as_str());
        r
    }

    /// True for a plain private/group chat on the default topic — the only
    /// shape that older deployments stored, and therefore the only one that is
    /// taken over from them.
    pub fn is_legacy_shape(&self) -> (r: bool)
        ensures
            r == self@.is_legacy_shape(),
    {
        self.thread_id == 0 && self.namespace.is_none()
    }
}

/// Who talks to the bot.
#[derive(Debug, PartialEq, Eq)]
pub struct UserInfo {
    pub id: u64,
    pub first_name: String,
    pub last_name: Option<String>,
    pub username: Option<String>,
    pub language_code: Option<String>,
}

/// A user as mathematical values.
pub ghost struct UserView {
    pub id: u64,
    pub first_name: Seq<char>,
    pub last_name: Option<Seq<char>>,
    pub username: Option<Seq<char>>,
    pub language_code: Option<Seq<char>>,
}

impl View for UserInfo {
    type V = UserView;

    open spec fn view(&self) -> UserView {
        UserView {
            id: self.id,
            first_name: self.first_name@,
            last_name: text::opt_view(self.last_name),
            username: text::opt_view(self.username),
            language_code: text::opt_view(self.language_code),
        }
    }
}

impl Clone for UserInfo {
    fn clone(&self) -> (r: UserInfo)
        ensures
            r@ == self@,
    {
        UserInfo {
            id: self.id,
            first_name: self.first_name.as_str().to_string(),
            last_name: text::copy_opt(&self.last_name),
            username: text::copy_opt(&self.username),
            language_code: text::copy_opt(&self.language_code),
        }
    }
}

/// The user that an optional one holds.
pub open spec fn opt_user(user: Option<UserInfo>) -> Option<UserView> {
    match user {
        Some(u) => Some(u@),
        None => None,
    }
}

/// What is remembered of a chat.
#[derive(Debug, PartialEq, Eq)]
pub struct ChatState {
    pub active_agent: Option<String>,
    pub last_question: Option<String>,
    pub user: Option<UserInfo>,
}

/// A chat's state as mathematical values.
pub ghost struct StateView {
    pub active_agent: Option<Seq<char>>,
    pub last_question: Option<Seq<char>>,
    pub user: Option<UserView>,
}

impl View for ChatState {
    type V = StateView;

    open spec fn view(&self) -> StateView {
        StateView {
            active_agent: text::opt_view(self.active_agent),
            last_question: text::opt_view(self.last_question),
            user: opt_user(self.user),
        }
    }
}

impl StateView {
    /// Nothing remembered yet.
    pub open spec fn fresh() -> StateView {
        StateView { active_agent: None, last_question: None, user: None }
    }
}

impl Default for ChatState {
    fn default() -> (r: ChatState)
        ensures
            r@ == StateView::fresh(),
    {
        ChatState { active_agent: None, last_question: None, user: None }
    }
}

impl Clone for ChatState {
    fn clone(&self) -> (r: ChatState)
        ensures
            r@ == self@,
    {
        ChatState {
            active_agent: text::copy_opt(&self.active_agent),
            last_question: text::copy_opt(&self.last_question),
            user: match &self.user {
                Some(u) => Some(u.clone()),
                None => None,
            },
        }
    }
}

/// A connected business account.
#[derive(Debug, PartialEq, Eq)]
pub struct BusinessLink {
    pub id: String,
    /// Telegram user id of the business account owner.
    pub user_id: u64,
    pub user_chat_id: i64,
    pub is_enabled: bool,
    pub can_reply: bool,
}

/// A business link as mathematical values.
pub ghost struct LinkView {
    pub id: Seq<char>,
    pub user_id: u64,
    pub user_chat_id: i64,
    pub is_enabled: bool,
    pub can_reply: bool,
}

impl View for BusinessLink {
    type V = LinkView;

    open spec fn view(&self) -> LinkView {
        LinkView {
            id: self.id@,
            user_id: self.user_id,
            user_chat_id: self.user_chat_id,
            is_enabled: self.is_enabled,
            can_reply: self.can_reply,
        }
    }
}

impl Clone for BusinessLink {
    fn clone(&self) -> (r: BusinessLink)
        ensures
            r@ == self@,
    {
        BusinessLink {
            id: self.id.as_str().to_string(),
            user_id: self.user_id,
            user_chat_id: self.user_chat_id,
            is_enabled: self.is_enabled,
            can_reply: self.can_reply,
        }
    }
}

/// Fields to change on a chat's state; `None` leaves a field untouched.
#[derive(Debug)]
pub struct ChatStatePatch {
    pub active_agent: Option<Option<String>>,
    pub last_question: Option<String>,
    pub user: Option<UserInfo>,
}

/// A patch as mathematical values.
pub ghost struct PatchView {
    pub active_agent: Option<Option<Seq<char>>>,
    pub last_question: Option<Seq<char>>,
    pub user: Option<UserView>,
}

impl View for ChatStatePatch {
    type V = PatchView;

    open spec fn view(&self) -> PatchView {
        PatchView {
            active_agent: match self.active_agent {
                Some(a) => Some(text::opt_view(a)),
                None => None,
            },
            last_question: text::opt_view(self.last_question),
            user: opt_user(self.user),
        }
    }
}

impl PatchView {
    /// The state with the patch's fields in place of its own.
    pub open spec fn apply(self, state: StateView) -> StateView {
        StateView {
            active_agent: match self.active_agent {
                Some(a) => a,
                None => state.active_agent,
            },
            last_question: match self.last_question {
                Some(q) => Some(q),
                None => state.last_question,
            },
            user: match self.user {
                Some(u) => Some(u),
                None => state.user,
            },
        }
    }
}

impl Default for ChatStatePatch {
    fn default() -> (r: ChatStatePatch)
        ensures
            r@ == (PatchView { active_agent: None, last_question: None, user: None }),
    {
        ChatStatePatch { active_agent: None, last_question: None, user: None }
    }
}

impl ChatStatePatch {
    /// Sets the active agent, or clears it.
    pub fn active_agent(agent: Option<&str>) -> (r: ChatStatePatch)
        ensures
            r@ == (PatchView {
                active_agent: Some(
                    match agent {
                        Some(a) => Some(a@),
                        None => None,
                    },
                ),
                last_question: None,
                user: None,
            }),
    {
        ChatStatePatch {
            active_agent: Some(
                match agent {
                    Some(a) => Some(a.to_string()),
                    None => None,
                },
            ),
            last_question: None,
            user: None,
        }
    }

    /// Puts the patch's fields into a state.
    pub fn apply(&self, state: &mut ChatState)
        ensures
            final(state)@ == self@.apply(old(state)@),
    {
        match &self.active_agent {
            Some(a) => {
                state.active_agent = text::copy_opt(a);
            },
            None => {},
        }
        match &self.last_question {
            Some(q) => {
                state.last_question = Some(q.as_str().to_string());
            },
            None => {},
        }
        match &self.user {
            Some(u) => {
                state.user = Some(u.clone());
            },
            None => {},
        }
    }
}

/// What a store holds: conversations by scope and agent, states by scope, and
/// business links by bot and connection.
pub ghost struct StoreView {
    pub conversations: Map<(Seq<char>, Seq<char>), Seq<char>>,
    pub states: Map<(Seq<char>, Seq<char>), StateView>,
    pub business: Map<(Seq<char>, Seq<char>), LinkView>,
}

impl StoreView {
    /// Where a conversation is kept.
    pub open spec fn conversation_slot(scope: ScopeView, agent: Seq<char>) -> (
        Seq<char>,
        Seq<char>,
    ) {
        (scope.key(), agent)
    }

    /// Where a state is kept.
    pub open spec fn state_slot(scope: ScopeView) -> (Seq<char>, Seq<char>) {
        (scope.key(), Seq::empty())
    }

    /// The conversation of a scope with an agent.
    pub open spec fn conversation(self, scope: ScopeView, agent: Seq<char>) -> Option<Seq<char>> {
        let slot = StoreView::conversation_slot(scope, agent);
        if self.conversations.dom().contains(slot) {
            Some(self.conversations[slot])
        } else {
            None
        }
    }

    /// The state of a scope: fresh where none is kept.
    pub open spec fn state(self, scope: ScopeView) -> StateView {
        let slot = StoreView::state_slot(scope);
        if self.states.dom().contains(slot) {
            self.states[slot]
        } else {
            StateView::fresh()
        }
    }

    /// The link of a bot with that id.
    pub open spec fn link(self, bot: Seq<char>, id: Seq<char>) -> Option<LinkView> {
        if self.business.dom().contains((bot, id)) {
            Some(self.business[(bot, id)])
        } else {
            None
        }
    }

    /// With a conversation set.
    pub open spec fn with_conversation(
        self,
        scope: ScopeView,
        agent: Seq<char>,
        id: Seq<char>,
    ) -> StoreView {
        StoreView {
            conversations: self.conversations.insert(
                StoreView::conversation_slot(scope, agent),
                id,
            ),
            ..self
        }
    }

    /// With a conversation cleared.
    pub open spec fn without_conversation(self, scope: ScopeView, agent: Seq<char>) -> StoreView {
        StoreView {
            conversations: self.conversations.remove(StoreView::conversation_slot(scope, agent)),
            ..self
        }
    }

    /// With a state patched.
    pub open spec fn patched(self, scope: ScopeView, patch: PatchView) -> StoreView {
        StoreView {
            states: self.states.insert(
                StoreView::state_slot(scope),
                patch.apply(self.state(scope)),
            ),
            ..self
        }
    }

    /// With a business link set.
    pub open spec fn with_link(self, bot: Seq<char>, link: LinkView) -> StoreView {
        StoreView { business: self.business.insert((bot, link.id), link), ..self }
    }
}

/// A store of the bot's state.
pub trait Storage: Sized {
    /// What the store holds.
    spec fn contents(&self) -> StoreView;

    /// Whether the store is in order.
    spec fn inv(&self) -> bool;

    /// The conversation of a chat with an agent.
    fn get_conversation(&self, scope: &ChatScope, agent: &str) -> (r: Option<String>)
        requires
            self.inv(),
        ensures
            text::opt_view(r) == self.contents().conversation(scope@, agent@),
    ;

    /// Remembers the conversation of a chat with an agent.
    fn set_conversation(&mut self, scope: &ChatScope, agent: &str, conversation_id: &str)
        requires
            old(self).inv(),
        ensures
            final(self).inv(),
            final(self).contents() == old(self).contents().with_conversation(
                scope@,
                agent@,
                conversation_id@,
            ),
    ;

    /// Forgets the conversation of a chat with an agent.
    fn clear_conversation(&mut self, scope: &ChatScope, agent: &str)
        requires
            old(self).inv(),
        ensures
            final(self).inv(),
            final(self).contents() == old(self).contents().without_conversation(scope@, agent@),
    ;

    /// The state of a chat.
    fn get_chat_state(&self, scope: &ChatScope) -> (r: ChatState)
        requires
            self.inv(),
        ensures
            r@ == self.contents().state(scope@),
    ;

    /// Changes the state of a chat.
    fn update_chat_state(&mut self, scope: &ChatScope, patch: ChatStatePatch)
        requires
            old(self).inv(),
        ensures
            final(self).inv(),
            final(self).contents() == old(self).contents().patched(scope@, patch@),
    ;

    /// A business link of a bot.
    fn get_business_link(&self, bot: &str, id: &str) -> (r: Option<BusinessLink>)
        requires
            self.inv(),
        ensures
            (match r {
                Some(l) => Some(l@),
                None => None,
            }) == self.contents().link(bot@, id@),
    ;

    /// Remembers a business link of a bot.
    fn set_business_link(&mut self, bot: &str, link: &BusinessLink)
        requires
            old(self).inv(),
        ensures
            final(self).inv(),
            final(self).contents() == old(self).contents().with_link(bot@, link@),
    ;

    /// Human-readable backend name for logs.
    fn name(&self) -> &'static str;
}

}
