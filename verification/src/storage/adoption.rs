//! Looking a conversation up in MongoDB, step by step: its own document first, then
//! the one that an older deployment left, which is taken over.

use crate::storage;
use crate::storage::mongo;
use crate::storage::mongo::{LegacyChat, Lookup};
use crate::storage::{ChatScope, UserInfo};
use crate::text;
use vstd::prelude::*;

verus! {

/// What is done with the database next.
#[derive(Debug)]
pub enum DbStep {
    /// The `conversation_id` of the conversation document of this id is read.
    ReadConversation(String),
    /// The old document of this id is read.
    ReadOld(String),
    /// This conversation is written to the document of this id.
    WriteConversation(String, String),
    /// The user is remembered in the state of the chat.
    RememberUser(UserInfo),
    /// The old document of this id is stamped as taken over by the document of that id.
    MarkOld(String, String),
    /// The search is over, and this is what it found.
    Finished(Option<String>),
    /// The database cannot be read.
    Fail,
}

/// What is done next, as mathematical values.
pub ghost enum DbStepView {
    ReadConversation(Seq<char>),
    ReadOld(Seq<char>),
    WriteConversation(Seq<char>, Seq<char>),
    RememberUser(storage::UserView),
    MarkOld(Seq<char>, Seq<char>),
    Finished(Option<Seq<char>>),
    Fail,
}

impl View for DbStep {
    type V = DbStepView;

    open spec fn view(&self) -> DbStepView {
        match self {
            DbStep::ReadConversation(key) => DbStepView::ReadConversation(key@),
            DbStep::ReadOld(id) => DbStepView::ReadOld(id@),
            DbStep::WriteConversation(key, id) => DbStepView::WriteConversation(key@, id@),
            DbStep::RememberUser(user) => DbStepView::RememberUser(user@),
            DbStep::MarkOld(id, key) => DbStepView::MarkOld(id@, key@),
            DbStep::Finished(found) => DbStepView::Finished(text::opt_view(*found)),
            DbStep::Fail => DbStepView::Fail,
        }
    }
}

/// What the database replied.
#[derive(Debug)]
pub enum DbReply {
    /// The `conversation_id` of the document, where there is a document.
    Conversation(Option<Option<String>>),
    /// The old document, where there is one.
    Old(Option<LegacyChat>),
    /// It was done.
    Done,
    /// It failed.
    Failed,
}

/// What the database replied, as mathematical values.
pub ghost enum DbReplyView {
    Conversation(Option<Option<Seq<char>>>),
    Old(Option<mongo::LegacyChatView>),
    Done,
    Failed,
}

impl View for DbReply {
    type V = DbReplyView;

    open spec fn view(&self) -> DbReplyView {
        match self {
            DbReply::Conversation(found) => DbReplyView::Conversation(
                match found {
                    Some(id) => Some(text::opt_view(*id)),
                    None => None,
                },
            ),
            DbReply::Old(chat) => DbReplyView::Old(mongo::chat_view(*chat)),
            DbReply::Done => DbReplyView::Done,
            DbReply::Failed => DbReplyView::Failed,
        }
    }
}

/// How far a search has come.
#[derive(Debug, Clone, Copy, PartialEq, Eq, Structural)]
pub enum SearchStage {
    /// The conversation's own document is read.
    Find,
    /// The old document is read.
    FindOld,
    /// What it holds is written to the conversation's own document.
    Keep,
    /// Its user is remembered.
    Remember,
    /// It is stamped.
    Mark,
    Over,
    Broken,
}

/// A search for the conversation of a chat with an agent.
#[derive(Debug)]
pub struct Search {
    scope: ChatScope,
    agent: String,
    has_old: bool,
    stage: SearchStage,
    found: Option<String>,
    user: Option<UserInfo>,
}

/// A search as mathematical values.
pub ghost struct SearchView {
    pub scope: storage::ScopeView,
    pub agent: Seq<char>,
    /// Whether an older deployment left a collection.
    pub has_old: bool,
    pub stage: SearchStage,
    pub found: Option<Seq<char>>,
    pub user: Option<storage::UserView>,
}

impl View for Search {
    type V = SearchView;

    closed spec fn view(&self) -> SearchView {
        SearchView {
            scope: self.scope@,
            agent: self.agent@,
            has_old: self.has_old,
            stage: self.stage,
            found: text::opt_view(self.found),
            user: storage::opt_user(self.user),
        }
    }
}

/// The id of the old document of a chat.
pub open spec fn old_id(chat_id: i64) -> Seq<char> {
    text::signed_decimal(chat_id as int)
}

impl SearchView {
    /// A search at its beginning.
    pub open spec fn begun(
        scope: storage::ScopeView,
        agent: Seq<char>,
        has_old: bool,
    ) -> SearchView {
        SearchView { scope, agent, has_old, stage: SearchStage::Find, found: None, user: None }
    }

    /// The id of the conversation's own document.
    pub open spec fn key(self) -> Seq<char> {
        mongo::conversation_id_of(self.scope, self.agent)
    }

    /// Whether what is written is there: a conversation once one is to be kept, and a
    /// user where one is to be remembered.
    pub open spec fn wf(self) -> bool {
        &&& (self.stage == SearchStage::Keep || self.stage == SearchStage::Remember || self.stage
            == SearchStage::Mark) ==> self.found is Some
        &&& self.stage == SearchStage::Remember ==> self.user is Some
    }

    /// What is done next.
    pub open spec fn step(self) -> DbStepView {
        match self.stage {
            SearchStage::Find => DbStepView::ReadConversation(self.key()),
            SearchStage::FindOld => DbStepView::ReadOld(old_id(self.scope.chat_id)),
            SearchStage::Keep => DbStepView::WriteConversation(self.key(), self.found->0),
            SearchStage::Remember => DbStepView::RememberUser(self.user->0),
            SearchStage::Mark => DbStepView::MarkOld(old_id(self.scope.chat_id), self.key()),
            SearchStage::Over => DbStepView::Finished(self.found),
            SearchStage::Broken => DbStepView::Fail,
        }
    }

    /// The search is over with nothing found.
    pub open spec fn empty_handed(self) -> SearchView {
        SearchView { stage: SearchStage::Over, found: None, ..self }
    }

    /// The search after a reply. Once the conversation is written it is found, whatever
    /// becomes of the rest.
    pub open spec fn after(self, reply: DbReplyView) -> SearchView {
        match self.stage {
            SearchStage::Find => match reply {
                DbReplyView::Conversation(Some(id)) => SearchView {
                    stage: SearchStage::Over,
                    found: mongo::filled(id),
                    ..self
                },
                DbReplyView::Conversation(None) => if self.scope.is_legacy_shape()
                    && self.has_old {
                    SearchView { stage: SearchStage::FindOld, ..self }
                } else {
                    self.empty_handed()
                },
                _ => SearchView { stage: SearchStage::Broken, ..self },
            },
            SearchStage::FindOld => match reply {
                DbReplyView::Old(chat) => match mongo::adoption_of(chat) {
                    Some((id, user)) => SearchView {
                        stage: SearchStage::Keep,
                        found: Some(id),
                        user,
                        ..self
                    },
                    None => self.empty_handed(),
                },
                _ => self.empty_handed(),
            },
            SearchStage::Keep => match reply {
                DbReplyView::Done => SearchView {
                    stage: if self.user is Some {
                        SearchStage::Remember
                    } else {
                        SearchStage::Mark
                    },
                    ..self
                },
                _ => self.empty_handed(),
            },
            SearchStage::Remember => SearchView { stage: SearchStage::Mark, ..self },
            SearchStage::Mark => SearchView { stage: SearchStage::Over, ..self },
            _ => self,
        }
    }

    /// A bound on the steps that are left.
    pub open spec fn steps_left(self) -> nat {
        match self.stage {
            SearchStage::Find => 5,
            SearchStage::FindOld => 4,
            SearchStage::Keep => 3,
            SearchStage::Remember => 2,
            SearchStage::Mark => 1,
            _ => 0,
        }
    }
}

impl Search {
    /// A search for the conversation of a chat with an agent; `has_old` tells whether an
    /// older deployment left a collection.
    pub fn new(scope: &ChatScope, agent: &str, has_old: bool) -> (r: Search)
        ensures
            r@ == SearchView::begun(scope@, agent@, has_old),
            r@.wf(),
    {
        Search {
            scope: scope.clone(),
            agent: agent.to_string(),
            has_old,
            stage: SearchStage::Find,
            found: None,
            user: None,
        }
    }

    /// What is done next.
    pub fn step(&self) -> (r: DbStep)
        requires
            self@.wf(),
        ensures
            r@ == self@.step(),
    {
        match self.stage {
            SearchStage::Find => DbStep::ReadConversation(
                mongo::conv_key(&self.scope, self.agent.as_str()),
            ),
            SearchStage::FindOld => DbStep::ReadOld(text::signed_decimal_of(self.scope.chat_id)),
            SearchStage::Keep => match &self.found {
                Some(id) => DbStep::WriteConversation(
                    mongo::conv_key(&self.scope, self.agent.as_str()),
                    id.as_str().to_string(),
                ),
                None => DbStep::Fail,
            },
            SearchStage::Remember => match &self.user {
                Some(user) => DbStep::RememberUser(user.clone()),
                None => DbStep::Fail,
            },
            SearchStage::Mark => DbStep::MarkOld(
                text::signed_decimal_of(self.scope.chat_id),
                mongo::conv_key(&self.scope, self.agent.as_str()),
            ),
            SearchStage::Over => DbStep::Finished(text::copy_opt(&self.found)),
            SearchStage::Broken => DbStep::Fail,
        }
    }

    fn end(&mut self, found: Option<String>)
        ensures
            final(self)@ == (SearchView {
                stage: SearchStage::Over,
                found: text::opt_view(found),
                ..old(self)@
            }),
    {
        self.found = found;
        self.stage = SearchStage::Over;
    }

    fn on_found(&mut self, found: &Option<Option<String>>)
        requires
            old(self)@.stage == SearchStage::Find,
        ensures
            final(self)@ == old(self)@.after(
                DbReplyView::Conversation(
                    match *found {
                        Some(id) => Some(text::opt_view(id)),
                        None => None,
                    },
                ),
            ),
    {
        match mongo::lookup(found, &self.scope) {
            Lookup::Stored(id) => self.end(id),
            Lookup::TryLegacy => if self.has_old {
                self.stage = SearchStage::FindOld;
            } else {
                self.end(None);
            },
            Lookup::Nothing => self.end(None),
        }
    }

    fn on_old(&mut self, chat: &Option<LegacyChat>)
        requires
            old(self)@.stage == SearchStage::FindOld,
        ensures
            final(self)@ == old(self)@.after(DbReplyView::Old(mongo::chat_view(*chat))),
    {
        match mongo::adopt_legacy(chat) {
            Some(adopted) => {
                self.found = Some(adopted.conversation_id);
                self.user = adopted.user;
                self.stage = SearchStage::Keep;
            },
            None => self.end(None),
        }
    }

    /// Takes in what the database replied.
    pub fn on_reply(&mut self, reply: &DbReply)
        requires
            old(self)@.wf(),
        ensures
            final(self)@ == old(self)@.after(reply@),
            final(self)@.wf(),
    {
        match self.stage {
            SearchStage::Find => match reply {
                DbReply::Conversation(found) => self.on_found(found),
                _ => {
                    self.stage = SearchStage::Broken;
                },
            },
            SearchStage::FindOld => match reply {
                DbReply::Old(chat) => self.on_old(chat),
                _ => self.end(None),
            },
            SearchStage::Keep => match reply {
                DbReply::Done => {
                    self.stage = if self.user.is_some() {
                        SearchStage::Remember
                    } else {
                        SearchStage::Mark
                    };
                },
                _ => self.end(None),
            },
            SearchStage::Remember => {
                self.stage = SearchStage::Mark;
            },
            SearchStage::Mark => {
                self.stage = SearchStage::Over;
            },
            _ => {},
        }
    }
}

/// A document of an older deployment.
pub ghost struct OldDocument {
    /// The id of the document that took it over.
    pub migrated_to: Option<Seq<char>>,
    pub conversation_id: Option<Seq<char>>,
    pub user: Option<mongo::LegacyUserView>,
}

impl OldDocument {
    /// What is read of the document.
    pub open spec fn read(self) -> mongo::LegacyChatView {
        mongo::LegacyChatView {
            migrated: self.migrated_to is Some,
            conversation_id: self.conversation_id,
            user: self.user,
        }
    }
}

/// What the collections hold: the `conversation_id` of each conversation document and
/// the state in each chat document, and the documents of an older deployment, where it
/// left a collection.
pub ghost struct Collections {
    pub conversations: Map<Seq<char>, Option<Seq<char>>>,
    pub states: Map<Seq<char>, storage::StateView>,
    pub old_chats: Option<Map<Seq<char>, OldDocument>>,
}

impl Collections {
    /// The old document of an id.
    pub open spec fn old_chat(self, id: Seq<char>) -> Option<OldDocument> {
        match self.old_chats {
            Some(docs) => if docs.contains_key(id) {
                Some(docs[id])
            } else {
                None
            },
            None => None,
        }
    }

    /// The state in the chat document of a scope.
    pub open spec fn state(self, scope: storage::ScopeView) -> storage::StateView {
        let key = "chat:"@ + scope.key();
        if self.states.contains_key(key) {
            self.states[key]
        } else {
            storage::StateView { active_agent: None, last_question: None, user: None }
        }
    }

    /// With a user in the state of a scope.
    pub open spec fn remembering(
        self,
        scope: storage::ScopeView,
        user: storage::UserView,
    ) -> Collections {
        let patch = storage::PatchView {
            active_agent: None,
            last_question: None,
            user: Some(user),
        };
        Collections {
            states: self.states.insert("chat:"@ + scope.key(), patch.apply(self.state(scope))),
            ..self
        }
    }

    /// With an old document stamped as taken over.
    pub open spec fn marked(self, id: Seq<char>, key: Seq<char>) -> Collections {
        match self.old_chat(id) {
            Some(doc) => Collections {
                old_chats: Some(
                    self.old_chats->0.insert(id, OldDocument { migrated_to: Some(key), ..doc }),
                ),
                ..self
            },
            None => self,
        }
    }

    /// What a step does to the collections, where the database does not fail.
    pub open spec fn performed(self, scope: storage::ScopeView, step: DbStepView) -> Collections {
        match step {
            DbStepView::WriteConversation(key, id) => Collections {
                conversations: self.conversations.insert(key, Some(id)),
                ..self
            },
            DbStepView::RememberUser(user) => self.remembering(scope, user),
            DbStepView::MarkOld(id, key) => self.marked(id, key),
            _ => self,
        }
    }

    /// What the database replies to a step, where it does not fail.
    pub open spec fn reply(self, step: DbStepView) -> DbReplyView {
        match step {
            DbStepView::ReadConversation(key) => DbReplyView::Conversation(
                if self.conversations.contains_key(key) {
                    Some(self.conversations[key])
                } else {
                    None
                },
            ),
            DbStepView::ReadOld(id) => DbReplyView::Old(
                match self.old_chat(id) {
                    Some(doc) => Some(doc.read()),
                    None => None,
                },
            ),
            _ => DbReplyView::Done,
        }
    }

    /// The collections after a search, and what it found.
    pub open spec fn searched(self, search: SearchView) -> (Collections, Option<Seq<char>>)
        decreases search.steps_left(),
    {
        if search.steps_left() == 0 {
            (
                self,
                if search.stage == SearchStage::Over {
                    search.found
                } else {
                    None
                },
            )
        } else {
            self.performed(search.scope, search.step()).searched(
                search.after(self.reply(search.step())),
            )
        }
    }

    /// The collections after the conversation of a chat with an agent is read, and what
    /// was read.
    pub open spec fn read(self, scope: storage::ScopeView, agent: Seq<char>) -> (
        Collections,
        Option<Seq<char>>,
    ) {
        self.searched(SearchView::begun(scope, agent, self.old_chats is Some))
    }

    /// Without the conversation of a chat with an agent.
    pub open spec fn cleared(self, scope: storage::ScopeView, agent: Seq<char>) -> Collections {
        Collections {
            conversations: self.conversations.remove(mongo::conversation_id_of(scope, agent)),
            ..self
        }
    }

    /// With what an old document holds taken over for a chat and an agent.
    pub open spec fn adopted(
        self,
        scope: storage::ScopeView,
        agent: Seq<char>,
        id: Seq<char>,
        user: Option<storage::UserView>,
    ) -> Collections {
        let key = mongo::conversation_id_of(scope, agent);
        let kept = Collections { conversations: self.conversations.insert(key, Some(id)), ..self };
        let known = match user {
            Some(u) => kept.remembering(scope, u),
            None => kept,
        };
        known.marked(old_id(scope.chat_id), key)
    }
}

/// Every search comes to its end, whatever is replied.
pub proof fn searches_end(search: SearchView, reply: DbReplyView)
    requires
        search.wf(),
        search.steps_left() > 0,
    ensures
        search.after(reply).wf(),
        search.after(reply).steps_left() < search.steps_left(),
{
}

/// What was written is found, though the rest of taking an old document over fails.
pub proof fn written_conversations_are_found(
    search: SearchView,
    first: DbReplyView,
    second: DbReplyView,
)
    requires
        search.stage == SearchStage::Keep,
        search.wf(),
    ensures
        ({
            let kept = search.after(DbReplyView::Done);
            let end = if search.user is Some {
                kept.after(first).after(second)
            } else {
                kept.after(first)
            };
            end.step() == DbStepView::Finished(search.found)
        }),
{
}

/// Reading the conversation of a plain chat that has no document of its own takes the
/// old document over: its conversation is what is read, its user is remembered, and it
/// stays where it is, stamped.
pub proof fn old_conversations_are_adopted(
    db: Collections,
    scope: storage::ScopeView,
    agent: Seq<char>,
)
    requires
        scope.is_legacy_shape(),
        !db.conversations.contains_key(mongo::conversation_id_of(scope, agent)),
        db.old_chat(old_id(scope.chat_id)) matches Some(doc) && mongo::adoption_of(
            Some(doc.read()),
        ) is Some,
    ensures
        ({
            let doc = db.old_chat(old_id(scope.chat_id))->0;
            let taken = mongo::adoption_of(Some(doc.read()))->0;
            let after = db.adopted(scope, agent, taken.0, taken.1);
            &&& db.read(scope, agent) == (after, Some(taken.0))
            &&& after.old_chat(old_id(scope.chat_id)) == Some(
                OldDocument {
                    migrated_to: Some(mongo::conversation_id_of(scope, agent)),
                    ..doc
                },
            )
            &&& taken.1 is Some ==> after.state(scope).user == taken.1
        }),
{
    let doc = db.old_chat(old_id(scope.chat_id))->0;
    let taken = mongo::adoption_of(Some(doc.read()))->0;
    let key = mongo::conversation_id_of(scope, agent);
    let s0 = SearchView::begun(scope, agent, true);
    let s1 = s0.after(db.reply(s0.step()));
    assert(s1.stage == SearchStage::FindOld);
    let s2 = s1.after(db.reply(s1.step()));
    assert(s2.stage == SearchStage::Keep);
    assert(s2.found == Some(taken.0));
    let db2 = Collections { conversations: db.conversations.insert(key, Some(taken.0)), ..db };
    assert(db2 == db.performed(scope, s2.step()));
    let s3 = s2.after(DbReplyView::Done);
    let db3 = db2.performed(scope, s3.step());
    let s4 = s3.after(DbReplyView::Done);
    let db4 = db3.performed(scope, s4.step());
    let s5 = s4.after(DbReplyView::Done);
    reveal_with_fuel(Collections::searched, 6);
    assert(db.searched(s0) == db.searched(s1));
    assert(db.searched(s1) == db.searched(s2));
    assert(db.searched(s2) == db2.searched(s3));
    assert(db2.searched(s3) == db3.searched(s4));
    if taken.1 is Some {
        assert(db3.searched(s4) == db4.searched(s5));
    }
}

proof fn lemma_filled_again(s: Option<Seq<char>>)
    ensures
        mongo::filled(mongo::filled(s)) == mongo::filled(s),
{
    if s is Some && !text::blank(s->0) {
        let t = text::trim(s->0);
        text::lemma_trim_again(s->0);
        text::lemma_blank(s->0);
        text::lemma_blank(t);
    }
}

/// A conversation that was taken over is read from its own document from then on, and
/// reading it changes nothing more.
pub proof fn adopted_conversations_stay(
    db: Collections,
    scope: storage::ScopeView,
    agent: Seq<char>,
)
    requires
        scope.is_legacy_shape(),
        !db.conversations.contains_key(mongo::conversation_id_of(scope, agent)),
        db.old_chat(old_id(scope.chat_id)) matches Some(doc) && mongo::adoption_of(
            Some(doc.read()),
        ) is Some,
    ensures
        ({
            let first = db.read(scope, agent);
            first.0.read(scope, agent) == first
        }),
{
    old_conversations_are_adopted(db, scope, agent);
    let doc = db.old_chat(old_id(scope.chat_id))->0;
    lemma_filled_again(doc.conversation_id);
    let after = db.read(scope, agent).0;
    let key = mongo::conversation_id_of(scope, agent);
    assert(after.conversations.contains_key(key));
    reveal_with_fuel(Collections::searched, 2);
    let s0 = SearchView::begun(scope, agent, true);
    let s1 = s0.after(after.reply(s0.step()));
    assert(after.searched(s0) == after.searched(s1));
}

/// Where nothing is stored for a chat and an agent, nothing is read and nothing
/// changes: with a topic or a connection, and where the old document is missing, names
/// no conversation or was taken over before.
pub proof fn nothing_stored_is_nothing_read(
    db: Collections,
    scope: storage::ScopeView,
    agent: Seq<char>,
)
    requires
        !db.conversations.contains_key(mongo::conversation_id_of(scope, agent)),
        scope.is_legacy_shape() ==> (db.old_chat(old_id(scope.chat_id)) matches Some(doc)
            ==> mongo::adoption_of(Some(doc.read())) is None),
    ensures
        db.read(scope, agent) == (db, None::<Seq<char>>),
{
    reveal_with_fuel(Collections::searched, 3);
    let s0 = SearchView::begun(scope, agent, db.old_chats is Some);
    let s1 = s0.after(db.reply(s0.step()));
    assert(db.searched(s0) == db.searched(s1));
    if s1.stage == SearchStage::FindOld {
        let s2 = s1.after(db.reply(s1.step()));
        assert(db.searched(s1) == db.searched(s2));
    }
}

/// An old document is taken over once: once it was for one agent, the other agents of
/// that chat, and its topics, find nothing in it.
pub proof fn adopted_once(
    db: Collections,
    scope: storage::ScopeView,
    agent: Seq<char>,
    other: storage::ScopeView,
    other_agent: Seq<char>,
)
    requires
        scope.is_legacy_shape(),
        !db.conversations.contains_key(mongo::conversation_id_of(scope, agent)),
        db.old_chat(old_id(scope.chat_id)) matches Some(doc) && mongo::adoption_of(
            Some(doc.read()),
        ) is Some,
        other.chat_id == scope.chat_id,
        mongo::conversation_id_of(other, other_agent) != mongo::conversation_id_of(scope, agent),
        !db.conversations.contains_key(mongo::conversation_id_of(other, other_agent)),
    ensures
        ({
            let after = db.read(scope, agent).0;
            after.read(other, other_agent) == (after, None::<Seq<char>>)
        }),
{
    old_conversations_are_adopted(db, scope, agent);
    let after = db.read(scope, agent).0;
    nothing_stored_is_nothing_read(after, other, other_agent);
}

/// A conversation that was taken over and then cleared is gone: it is not taken over a
/// second time.
pub proof fn cleared_conversations_stay_gone(
    db: Collections,
    scope: storage::ScopeView,
    agent: Seq<char>,
)
    requires
        scope.is_legacy_shape(),
        !db.conversations.contains_key(mongo::conversation_id_of(scope, agent)),
        db.old_chat(old_id(scope.chat_id)) matches Some(doc) && mongo::adoption_of(
            Some(doc.read()),
        ) is Some,
    ensures
        ({
            let cleared = db.read(scope, agent).0.cleared(scope, agent);
            cleared.read(scope, agent) == (cleared, None::<Seq<char>>)
        }),
{
    old_conversations_are_adopted(db, scope, agent);
    let cleared = db.read(scope, agent).0.cleared(scope, agent);
    nothing_stored_is_nothing_read(cleared, scope, agent);
}

}
