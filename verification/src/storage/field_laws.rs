//! What is kept of chats and what is taken over from older documents, as laws over the
//! single fields.

use crate::storage;
use crate::storage::{adoption, mongo};
use crate::text;
use crate::text_laws;
use vstd::prelude::*;

verus! {

/// A patch sets what it names and leaves the rest: the question, the user and the chosen
/// agent, which it can also unset.
pub proof fn patches_set_what_they_name(
    patch: storage::PatchView,
    state: storage::StateView,
    q: Seq<char>,
    u: storage::UserView,
    a: Option<Seq<char>>,
)
    ensures
        patch.last_question == Some(q) ==> patch.apply(state).last_question == Some(q),
        patch.last_question is None ==> patch.apply(state).last_question == state.last_question,
        patch.user == Some(u) ==> patch.apply(state).user == Some(u),
        patch.user is None ==> patch.apply(state).user == state.user,
        patch.active_agent == Some(a) ==> patch.apply(state).active_agent == a,
        patch.active_agent is None ==> patch.apply(state).active_agent == state.active_agent,
        storage::StateView::fresh().active_agent is None,
        storage::StateView::fresh().last_question is None,
        storage::StateView::fresh().user is None,
{
}

/// Each agent has its own conversation in a chat, and each chat its own with an agent.
pub proof fn agents_keep_their_conversations(
    s: storage::StoreView,
    scope: storage::ScopeView,
    other: storage::ScopeView,
    a: Seq<char>,
    b: Seq<char>,
    id: Seq<char>,
)
    requires
        !scope.bot.contains(':'),
        !other.bot.contains(':'),
        a != b || scope != other,
    ensures
        s.with_conversation(scope, a, id).conversation(other, b) == s.conversation(other, b),
        s.with_conversation(scope, a, id).conversation(scope, a) == Some(id),
        s.without_conversation(scope, a).conversation(other, b) == s.conversation(other, b),
        s.without_conversation(scope, a).conversation(scope, a) is None,
{
    if scope.key() == other.key() {
        storage::laws::keys_tell_scopes_apart(scope, other);
    }
}

/// A chat's key is its bot, what sets it apart, its number and its topic, with colons
/// between them.
pub proof fn keys_are_written_out(bot: Seq<char>, ns: Seq<char>, chat: i64, topic: i32)
    ensures
        (storage::ScopeView { bot, chat_id: chat, thread_id: topic, namespace: None }).key() == bot
            + seq![':'] + text::signed_decimal(chat as int) + seq![':'] + text::signed_decimal(
            topic as int,
        ),
        (storage::ScopeView { bot, chat_id: chat, thread_id: topic, namespace: Some(ns) }).key()
            == bot + seq![':'] + ns + seq![':'] + text::signed_decimal(chat as int) + seq![':']
            + text::signed_decimal(topic as int),
        storage::ScopeView::guest(bot, chat, 7).namespace != storage::ScopeView::business(
            bot,
            chat,
            ns,
        ).namespace,
        storage::ScopeView::plain(bot, chat, Some(topic)).thread_id == topic,
        storage::ScopeView::plain(bot, chat, None).thread_id == 0,
{
    reveal_strlit(":");
    reveal_strlit("biz:");
    reveal_strlit("guest:");
    assert(":"@ =~= seq![':']);
    let none = Seq::<char>::empty();
    assert(bot + ":"@ + none =~= bot + ":"@);
    assert(bot + ":"@ + (ns + ":"@) =~= bot + ":"@ + ns + ":"@);
    assert(("biz:"@ + ns)[0] == 'b');
    assert(("guest:"@ + text::decimal(7))[0] == 'g');
}

/// The documents of a conversation, a chat and their like are told apart by how their
/// ids begin.
pub proof fn documents_have_ids(scope: storage::ScopeView, agent: Seq<char>)
    ensures
        mongo::conversation_id_of(scope, agent) == "conv:"@ + scope.key() + seq![':'] + agent,
{
    reveal_strlit(":");
    assert(":"@ =~= seq![':']);
}

/// A text counts as filled in where it is more than white space, and then without the
/// white space around it.
pub proof fn blank_fields_count_as_missing(s: Seq<char>)
    ensures
        text::blank(s) ==> mongo::filled(Some(s)) is None,
        !text::blank(s) ==> mongo::filled(Some(s)) == Some(text::trim(s)),
        mongo::filled(None) is None,
{
}

/// What an older document holds is taken over once: its conversation, and its user by
/// every name that is filled in.
pub proof fn older_chats_are_taken_over(
    chat: mongo::LegacyChatView,
    id: Seq<char>,
    user: mongo::LegacyUserView,
    n: u64,
)
    requires
        chat.conversation_id == Some(id),
        id.len() > 0,
        !text::is_space(id[0]),
        !text::is_space(id.last()),
    ensures
        chat.migrated ==> mongo::adoption_of(Some(chat)) is None,
        !chat.migrated && chat.user is None ==> mongo::adoption_of(Some(chat)) == Some(
            (id, None::<storage::UserView>),
        ),
        !chat.migrated && chat.user == Some(user) && user.id == mongo::LegacyId::Whole(n) ==> (
        mongo::adoption_of(Some(chat)) matches Some((c, Some(u))) && c == id && u.id == n
            && u.last_name == mongo::filled(user.last_name) && u.username == mongo::filled(
            user.username,
        ) && u.language_code == mongo::filled(user.language_code)),
        mongo::adoption_of(None) is None,
{
    let none = Seq::<char>::empty();
    text_laws::trimming_takes_outer_space(none, id, none);
    assert(none + id + none =~= id);
}

/// The ids of users in older documents are whole numbers that are not negative.
pub proof fn older_ids_are_read(v: i64, w: u64)
    ensures
        mongo::legacy_id(mongo::LegacyId::Whole(w)) == Some(w),
        v >= 0 ==> mongo::legacy_id(mongo::LegacyId::Int(v)) == Some(v as u64),
        v < 0 ==> mongo::legacy_id(mongo::LegacyId::Int(v)) is None,
        mongo::legacy_id(mongo::LegacyId::Other) is None,
{
}

/// An older collection is consulted where one is named that is not the bot's own.
pub proof fn older_collections_are_consulted(name: Seq<char>, own: Seq<char>)
    requires
        name.len() > 0,
        !text::is_space(name[0]),
        !text::is_space(name.last()),
    ensures
        name != own ==> mongo::legacy_collection(name, own) == Some(name),
        mongo::legacy_collection(name, name) is None,
        mongo::legacy_collection(Seq::empty(), own) is None,
{
    let none = Seq::<char>::empty();
    text_laws::trimming_takes_outer_space(none, name, none);
    assert(none + name + none =~= name);
    text::lemma_blank(none);
}

/// A search looks for the conversation's own document first, and for an older one only
/// for a plain chat, by its number; what it finds there it keeps under the conversation's
/// own id before it marks the older one.
pub proof fn searches_go_step_by_step(
    scope: storage::ScopeView,
    agent: Seq<char>,
    id: Seq<char>,
    chat: mongo::LegacyChatView,
)
    ensures
        ({
            let s0 = adoption::SearchView::begun(scope, agent, true);
            let own = mongo::conversation_id_of(scope, agent);
            let s1 = s0.after(adoption::DbReplyView::Conversation(None));
            let s2 = s1.after(adoption::DbReplyView::Old(Some(chat)));
            let s3 = s2.after(adoption::DbReplyView::Done);
            let plain = scope.thread_id == 0 && scope.namespace is None;
            &&& s0.step() == adoption::DbStepView::ReadConversation(own)
            &&& !text::blank(id) ==> s0.after(
                adoption::DbReplyView::Conversation(Some(Some(id))),
            ).step() == adoption::DbStepView::Finished(Some(text::trim(id)))
            &&& plain ==> s1.step() == adoption::DbStepView::ReadOld(
                text::signed_decimal(scope.chat_id as int),
            )
            &&& !plain ==> s1.step() == adoption::DbStepView::Finished(None)
            &&& plain && mongo::adoption_of(Some(chat)) == Some((id, None::<storage::UserView>))
                ==> s2.step() == adoption::DbStepView::WriteConversation(own, id) && s3.step()
                == adoption::DbStepView::MarkOld(
                text::signed_decimal(scope.chat_id as int),
                own,
            ) && s3.after(adoption::DbReplyView::Done).step() == adoption::DbStepView::Finished(
                Some(id),
            )
        }),
{
}

} // verus!
