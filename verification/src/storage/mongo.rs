//! MongoDB backend: the ids of its documents, and what is taken over from the
//! documents of older deployments.
//!
//! Everything lives in one collection (`storage.collection`) of small documents
//! keyed by a string `_id`:
//!
//! | `_id`                          | body                                     |
//! |--------------------------------|------------------------------------------|
//! | `conv:<scope.key()>:<agent>`   | `{ conversation_id, updated_at }`        |
//! | `chat:<scope.key()>`           | `{ state: ChatState, updated_at }`       |
//! | `biz:<bot>:<id>`               | `{ link: BusinessLink, updated_at }`     |
//!
//! Older deployments kept one document per chat in `storage.legacy_collection`
//! (`_id` = chat id as a string, with `conversation_id` and `user_info`). The
//! first `get_conversation` for a plain chat that has no document of its own
//! adopts that conversation for the requesting agent, copies `user_info` into
//! the chat state, and stamps the old document with `migrated_to` so it is
//! never adopted twice. Old documents are left in place.

use crate::storage;
use crate::storage::{ChatScope, UserInfo};
use crate::text;
use vstd::prelude::*;

verus! {

/// The id of a conversation's document.
pub fn conv_key(scope: &ChatScope, agent: &str) -> (r: String)
    ensures
        r@ == conversation_id_of(scope@, agent@),
{
    let mut r: String = "conv:".to_string();
    r.append(scope.key().as_str());
    r.append(":");
    r.append(agent);
    r
}

/// The id of a conversation's document.
pub open spec fn conversation_id_of(scope: storage::ScopeView, agent: Seq<char>) -> Seq<char> {
    "conv:"@ + scope.key() + ":"@ + agent
}

/// The id of a chat state's document.
pub fn chat_key(scope: &ChatScope) -> (r: String)
    ensures
        r@ == "chat:"@ + scope@.key(),
{
    let mut r: String = "chat:".to_string();
    r.append(scope.key().as_str());
    r
}

/// The id of a business link's document.
pub fn biz_key(bot: &str, id: &str) -> (r: String)
    ensures
        r@ == "biz:"@ + bot@ + ":"@ + id@,
{
    let mut r: String = "biz:".to_string();
    r.append(bot);
    r.append(":");
    r.append(id);
    r
}

/// A text field without its outer white space; none where nothing is left.
pub open spec fn filled(s: Option<Seq<char>>) -> Option<Seq<char>> {
    match s {
        Some(t) => if text::blank(t) {
            None
        } else {
            Some(text::trim(t))
        },
        None => None,
    }
}

/// Non-empty trimmed string field, or `None`.
pub fn str_field(s: &Option<String>) -> (r: Option<String>)
    ensures
        text::opt_view(r) == filled(text::opt_view(*s)),
{
    match s {
        Some(t) => if text::is_blank(t.as_str()) {
            None
        } else {
            Some(text::trimmed(t.as_str()))
        },
        None => None,
    }
}

/// How an old document writes a user's id.
#[derive(Debug, Clone, Copy, PartialEq, Eq, Structural)]
pub enum LegacyId {
    /// As an integer.
    Int(i64),
    /// As a number with a fraction of zero.
    Whole(u64),
    /// Not at all, or as something else.
    Other,
}

/// The user part of an old document.
#[derive(Debug)]
pub struct LegacyUser {
    pub id: LegacyId,
    pub first_name: Option<String>,
    pub last_name: Option<String>,
    pub username: Option<String>,
    pub language_code: Option<String>,
}

/// The user part of an old document as mathematical values.
pub ghost struct LegacyUserView {
    pub id: LegacyId,
    pub first_name: Option<Seq<char>>,
    pub last_name: Option<Seq<char>>,
    pub username: Option<Seq<char>>,
    pub language_code: Option<Seq<char>>,
}

impl View for LegacyUser {
    type V = LegacyUserView;

    open spec fn view(&self) -> LegacyUserView {
        LegacyUserView {
            id: self.id,
            first_name: text::opt_view(self.first_name),
            last_name: text::opt_view(self.last_name),
            username: text::opt_view(self.username),
            language_code: text::opt_view(self.language_code),
        }
    }
}

/// What is read of an old document.
#[derive(Debug)]
pub struct LegacyChat {
    /// Whether `migrated_to` is set.
    pub migrated: bool,
    pub conversation_id: Option<String>,
    pub user: Option<LegacyUser>,
}

/// What is read of an old document, as mathematical values.
pub ghost struct LegacyChatView {
    pub migrated: bool,
    pub conversation_id: Option<Seq<char>>,
    pub user: Option<LegacyUserView>,
}

impl View for LegacyChat {
    type V = LegacyChatView;

    open spec fn view(&self) -> LegacyChatView {
        LegacyChatView {
            migrated: self.migrated,
            conversation_id: text::opt_view(self.conversation_id),
            user: match self.user {
                Some(u) => Some(u@),
                None => None,
            },
        }
    }
}

/// The value of what is read of an old document, where there is one.
pub open spec fn chat_view(chat: Option<LegacyChat>) -> Option<LegacyChatView> {
    match chat {
        Some(c) => Some(c@),
        None => None,
    }
}

/// The id of a user in an old document.
pub open spec fn legacy_id(id: LegacyId) -> Option<u64> {
    match id {
        LegacyId::Int(v) => if v >= 0 {
            Some(v as u64)
        } else {
            None
        },
        LegacyId::Whole(v) => Some(v),
        LegacyId::Other => None,
    }
}

/// The user of an old document, where it has an id.
pub open spec fn user_of(info: LegacyUserView) -> Option<storage::UserView> {
    match legacy_id(info.id) {
        Some(id) => Some(
            storage::UserView {
                id,
                first_name: match filled(info.first_name) {
                    Some(n) => n,
                    None => Seq::empty(),
                },
                last_name: filled(info.last_name),
                username: filled(info.username),
                language_code: filled(info.language_code),
            },
        ),
        None => None,
    }
}

/// Decode the `user_info` of an old document.
pub fn legacy_user(info: &LegacyUser) -> (r: Option<UserInfo>)
    ensures
        storage::opt_user(r) == user_of(info@),
{
    let id: u64 = match info.id {
        LegacyId::Int(v) => {
            if v < 0 {
                return None;
            }
            v as u64
        },
        LegacyId::Whole(v) => v,
        LegacyId::Other => {
            return None;
        },
    };
    Some(
        UserInfo {
            id,
            first_name: match str_field(&info.first_name) {
                Some(n) => n,
                None => String::new(),
            },
            last_name: str_field(&info.last_name),
            username: str_field(&info.username),
            language_code: str_field(&info.language_code),
        },
    )
}

/// What is taken over from an old document.
#[derive(Debug)]
pub struct Adoption {
    pub conversation_id: String,
    pub user: Option<UserInfo>,
}

/// What is taken over from an old document: nothing where there is none, where
/// it was taken over before, or where it names no conversation.
pub open spec fn adoption_of(old_chat: Option<LegacyChatView>) -> Option<
    (Seq<char>, Option<storage::UserView>),
> {
    match old_chat {
        Some(chat) => if chat.migrated {
            None
        } else {
            match filled(chat.conversation_id) {
                Some(id) => Some(
                    (
                        id,
                        match chat.user {
                            Some(u) => user_of(u),
                            None => None,
                        },
                    ),
                ),
                None => None,
            }
        },
        None => None,
    }
}

/// Decides what to take over from an old document.
pub fn adopt_legacy(old_chat: &Option<LegacyChat>) -> (r: Option<Adoption>)
    ensures
        (match r {
            Some(a) => Some((a.conversation_id@, storage::opt_user(a.user))),
            None => None,
        }) == adoption_of(chat_view(*old_chat)),
{
    match old_chat {
        Some(chat) => {
            if chat.migrated {
                return None;
            }
            match str_field(&chat.conversation_id) {
                Some(conversation_id) => {
                    let user = match &chat.user {
                        Some(u) => legacy_user(u),
                        None => None,
                    };
                    Some(Adoption { conversation_id, user })
                },
                None => None,
            }
        },
        None => None,
    }
}

/// How a conversation is looked up.
#[derive(Debug)]
pub enum Lookup {
    /// This is what is stored.
    Stored(Option<String>),
    /// Nothing is stored, but an old document may have it.
    TryLegacy,
    /// Nothing is stored.
    Nothing,
}

/// Decides on a look-up: `found` is the `conversation_id` field of the
/// conversation's document, where there is one.
pub fn lookup(found: &Option<Option<String>>, scope: &ChatScope) -> (r: Lookup)
    ensures
        match *found {
            Some(id) => r matches Lookup::Stored(s) && text::opt_view(s) == filled(
                text::opt_view(id),
            ),
            None => if scope@.is_legacy_shape() {
                r is TryLegacy
            } else {
                r is Nothing
            },
        },
{
    match found {
        Some(id) => Lookup::Stored(str_field(id)),
        None => if scope.is_legacy_shape() {
            Lookup::TryLegacy
        } else {
            Lookup::Nothing
        },
    }
}

/// The connection string that is used: the one given, without outer white space.
pub fn connection_uri(uri: &Option<String>) -> (r: Option<String>)
    ensures
        text::opt_view(r) == filled(text::opt_view(*uri)),
{
    str_field(uri)
}

/// The collection of an older deployment, where one is named that is not the
/// bot's own.
pub open spec fn legacy_collection(legacy: Seq<char>, own: Seq<char>) -> Option<Seq<char>> {
    let name = text::trim(legacy);
    if name.len() > 0 && name != own {
        Some(name)
    } else {
        None
    }
}

/// Decides which collection of an older deployment is consulted.
pub fn legacy_name(legacy: &str, own: &str) -> (r: Option<String>)
    ensures
        text::opt_view(r) == legacy_collection(legacy@, own@),
{
    let name = text::trimmed(legacy);
    if text::char_count(name.as_str()) > 0 && !text::same(name.as_str(), own) {
        Some(name)
    } else {
        None
    }
}

}
