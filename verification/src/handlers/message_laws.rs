//! Where messages belong and which of them are answered, as laws over the
//! messages' own fields.

use crate::config::GroupMode;
use crate::handlers::{attachments, commands, groups, message};
use crate::storage;
use crate::telegram::types::{ChatKind, EntityKind, Message};
use crate::text;
use vstd::prelude::*;

verus! {

/// A message of a topic belongs to its topic's conversation, in a group as in a
/// private chat, and is answered in its topic.
pub proof fn topics_have_their_own_conversations(bot: Seq<char>, msg: Message, topic: i32)
    requires
        msg.is_topic_message || msg.chat.kind == ChatKind::Private,
        msg.message_thread_id == Some(topic),
        msg.business_connection_id is None,
    ensures
        message::message_scope(bot, msg).thread_id == topic,
        message::message_scope(bot, msg).chat_id == msg.chat.id,
        message::message_scope(bot, msg).bot == bot,
        message::message_scope(bot, msg).namespace is None,
        message::reply_target(msg).thread_id == Some(topic),
        message::reply_target(msg).chat_id == msg.chat.id,
        message::reply_target(msg).business_connection_id is None,
{
}

/// Messages in different topics of a chat belong to different conversations, and so
/// do messages in different chats.
pub proof fn topics_are_kept_apart(bot: Seq<char>, a: Message, b: Message, x: i32, y: i32)
    requires
        !bot.contains(':'),
        a.is_topic_message,
        b.is_topic_message,
        a.message_thread_id == Some(x),
        b.message_thread_id == Some(y),
        a.business_connection_id is None,
        b.business_connection_id is None,
    ensures
        x != y || a.chat.id != b.chat.id ==> message::message_scope(bot, a).key()
            != message::message_scope(bot, b).key(),
        x == y && a.chat.id == b.chat.id ==> message::message_scope(bot, a)
            == message::message_scope(bot, b),
{
    let p = message::message_scope(bot, a);
    let q = message::message_scope(bot, b);
    if p.key() == q.key() {
        storage::laws::keys_tell_scopes_apart(p, q);
    }
}

/// Outside topics a group is one conversation, whatever thread a reply is part of.
pub proof fn groups_are_one_conversation(bot: Seq<char>, msg: Message)
    requires
        !msg.is_topic_message,
        msg.chat.kind == ChatKind::Group || msg.chat.kind == ChatKind::Supergroup,
        msg.business_connection_id is None,
    ensures
        message::message_scope(bot, msg).thread_id == 0,
        message::message_scope(bot, msg).chat_id == msg.chat.id,
        message::reply_target(msg).thread_id is None,
{
}

/// The messages of a business connection belong to conversations of their own, one
/// for each connection and customer, and are answered through it.
pub proof fn business_chats_are_kept_apart(
    bot: Seq<char>,
    a: Message,
    b: Message,
    x: Seq<char>,
    y: Seq<char>,
)
    requires
        !bot.contains(':'),
        text::opt_view(a.business_connection_id) == Some(x),
        text::opt_view(b.business_connection_id) == Some(y),
    ensures
        message::reply_target(a).business_connection_id == Some(x),
        message::message_scope(bot, a).chat_id == a.chat.id,
        message::message_scope(bot, a).namespace is Some,
        x != y || a.chat.id != b.chat.id ==> message::message_scope(bot, a).key()
            != message::message_scope(bot, b).key(),
        x == y && a.chat.id == b.chat.id ==> message::message_scope(bot, a)
            == message::message_scope(bot, b),
{
    let p = message::message_scope(bot, a);
    let q = message::message_scope(bot, b);
    if p.key() == q.key() {
        storage::laws::keys_tell_scopes_apart(p, q);
        reveal_strlit("biz:");
        assert(("biz:"@ + x).skip(4) =~= x);
        assert(("biz:"@ + y).skip(4) =~= y);
    }
}

/// In groups answers reply to the message they answer; elsewhere they just follow.
pub proof fn group_answers_are_replies(msg: Message)
    ensures
        msg.chat.kind == ChatKind::Group || msg.chat.kind == ChatKind::Supergroup
            ==> message::reply_target(msg).reply_to == Some(msg.message_id),
        msg.chat.kind == ChatKind::Private ==> message::reply_target(msg).reply_to is None,
        message::reply_target(msg).only_for is None,
        message::reply_target(msg).chat_id == msg.chat.id,
{
}

/// UTF-16 writes a character of the basic plane as one unit, its number, and any
/// other as a high and a low surrogate; a text is its characters one after the
/// other.
pub proof fn utf16_counts_units(a: Seq<char>, b: Seq<char>, c: char)
    ensures
        groups::utf16(a + b) == groups::utf16(a) + groups::utf16(b),
        (c as u32) < 0x1_0000 ==> groups::utf16(seq![c]).len() == 1 && groups::utf16(seq![c])[0]
            == c as u32,
        (c as u32) >= 0x1_0000 ==> groups::utf16(seq![c]).len() == 2 && groups::utf16(seq![c])[0]
            >= 0xd800 && groups::utf16(seq![c])[1] >= 0xdc00 && (groups::utf16(seq![c])[0]
            - 0xd800) * 0x400 + (groups::utf16(seq![c])[1] - 0xdc00) + 0x1_0000 == c as u32,
    decreases b.len(),
{
    reveal_with_fuel(groups::utf16, 2);
    assert(seq![c].drop_last() =~= Seq::empty());
    assert(groups::utf16(seq![c]) =~= groups::utf16_of(c));
    let n = c as u32;
    if n >= 0x1_0000 {
        assert(n <= 0x10_ffff);
        assert((n - 0x1_0000) / 0x400 < 0x400);
    }
    if b.len() == 0 {
        assert(a + b =~= a);
        assert(groups::utf16(a) + groups::utf16(b) =~= groups::utf16(a));
    } else {
        utf16_counts_units(a, b.drop_last(), c);
        assert((a + b).drop_last() =~= a + b.drop_last());
        assert(groups::utf16(a + b) =~= groups::utf16(a) + groups::utf16(b));
    }
}

proof fn lemma_stretch(front: Seq<char>, t: Seq<char>, rest: Seq<char>)
    ensures
        groups::utf16(front + t + rest).subrange(
            groups::utf16(front).len() as int,
            (groups::utf16(front).len() + groups::utf16(t).len()) as int,
        ) == groups::utf16(t),
        groups::utf16(front).len() + groups::utf16(t).len() <= groups::utf16(
            front + t + rest,
        ).len(),
        t.len() > 0 ==> groups::utf16(t).len() > 0,
{
    utf16_counts_units(front, t, 'a');
    utf16_counts_units(front + t, rest, 'a');
    let u = groups::utf16(front + t + rest);
    assert(u.subrange(
        groups::utf16(front).len() as int,
        (groups::utf16(front).len() + groups::utf16(t).len()) as int,
    ) =~= groups::utf16(t));
    if t.len() > 0 {
        assert(groups::utf16_of(t.last()).len() > 0);
    }
}

/// A file whose caption mentions the bot is meant for it, in whatever letter case:
/// in a group that answers mentions it is answered, with the caption's words.
pub proof fn mentions_in_captions_are_heard(
    msg: Message,
    i: int,
    front: Seq<char>,
    name: Seq<char>,
    rest: Seq<char>,
    me: u64,
    username: Seq<char>,
)
    requires
        msg.text is None,
        text::opt_view(msg.caption) == Some(front + name + rest),
        0 <= i < msg.caption_entities@.len(),
        msg.caption_entities@[i].kind == EntityKind::Mention,
        msg.caption_entities@[i].offset == groups::utf16(front).len(),
        msg.caption_entities@[i].length == groups::utf16(name).len(),
        username.len() > 0,
        text::lower(name) == seq!['@'] + text::lower(username),
    ensures
        groups::addressed(msg, me, username),
        groups::gated(msg, GroupMode::Mention, me, username) == Some(
            groups::unmentioned(front + name + rest, username),
        ),
{
    reveal_strlit("@");
    assert("@"@ =~= seq!['@']);
    lemma_stretch(front, name, rest);
    assert(name.len() == text::lower(name).len());
    groups::names_are_heard(msg, i, name, me, username);
}

/// A text that mentions the bot is meant for it, in whatever letter case.
pub proof fn mentions_in_texts_are_heard(
    msg: Message,
    i: int,
    front: Seq<char>,
    name: Seq<char>,
    rest: Seq<char>,
    me: u64,
    username: Seq<char>,
)
    requires
        text::opt_view(msg.text) == Some(front + name + rest),
        0 <= i < msg.entities@.len(),
        msg.entities@[i].kind == EntityKind::Mention,
        msg.entities@[i].offset == groups::utf16(front).len(),
        msg.entities@[i].length == groups::utf16(name).len(),
        username.len() > 0,
        text::lower(name) == seq!['@'] + text::lower(username),
    ensures
        groups::addressed(msg, me, username),
        groups::gated(msg, GroupMode::Mention, me, username) == Some(
            groups::unmentioned(front + name + rest, username),
        ),
{
    reveal_strlit("@");
    assert("@"@ =~= seq!['@']);
    lemma_stretch(front, name, rest);
    assert(name.len() == text::lower(name).len());
    groups::names_are_heard(msg, i, name, me, username);
}

/// A name that Telegram itself ties to the bot's account means the bot, in a text
/// as in a caption.
pub proof fn linked_names_are_heard(
    msg: Message,
    i: int,
    words: Seq<char>,
    me: u64,
    username: Seq<char>,
)
    ensures
        text::opt_view(msg.text) == Some(words) && 0 <= i < msg.entities@.len()
            && msg.entities@[i].kind == EntityKind::TextMention && msg.entities@[i].user_id
            == Some(me) && msg.entities@[i].length > 0 && msg.entities@[i].offset
            < groups::utf16(words).len() ==> groups::addressed(msg, me, username),
        msg.text is None && text::opt_view(msg.caption) == Some(words) && 0 <= i
            < msg.caption_entities@.len() && msg.caption_entities@[i].kind
            == EntityKind::TextMention && msg.caption_entities@[i].user_id == Some(me)
            && msg.caption_entities@[i].length > 0 && msg.caption_entities@[i].offset
            < groups::utf16(words).len() ==> groups::addressed(msg, me, username),
{
    let units = groups::utf16(words);
    if msg.text is Some && 0 <= i < msg.entities@.len() {
        let e = groups::marks_of(msg)[i];
        assert(text::opt_view(msg.text) == Some(words) && e.length > 0 && e.offset < units.len()
            ==> groups::covered(units, e).len() > 0);
    }
    if msg.text is None && 0 <= i < msg.caption_entities@.len() {
        let e = groups::marks_of(msg)[i];
        assert(text::opt_view(msg.caption) == Some(words) && e.length > 0 && e.offset
            < units.len() ==> groups::covered(units, e).len() > 0);
    }
}

/// A reply to the bot is meant for it; a message that neither replies to it nor
/// marks a mention is not.
pub proof fn others_talk_is_not_answered(msg: Message, me: u64, username: Seq<char>)
    ensures
        msg.reply_author == Some(me) ==> groups::addressed(msg, me, username),
        msg.reply_author != Some(me) && (forall|i: int|
            0 <= i < msg.entities@.len() ==> (#[trigger] msg.entities@[i]).kind
                != EntityKind::Mention && msg.entities@[i].kind != EntityKind::TextMention) && (
        forall|i: int|
            0 <= i < msg.caption_entities@.len() ==> (#[trigger] msg.caption_entities@[i]).kind
                != EntityKind::Mention && msg.caption_entities@[i].kind != EntityKind::TextMention)
            ==> !groups::addressed(msg, me, username) && groups::gated(
            msg,
            GroupMode::Mention,
            me,
            username,
        ) is None,
{
}

/// In a private chat that the bot serves, words that are no command are a question
/// as they stand, without outer white space; with a file they go with the file.
pub proof fn private_words_are_questions(
    msg: Message,
    words: Seq<char>,
    allowed: Seq<i64>,
    mode: GroupMode,
    me: u64,
    username: Seq<char>,
)
    requires
        msg.chat.kind == ChatKind::Private,
        msg.from matches Some(u) ==> !u.is_bot,
        allowed.len() == 0 || allowed.contains(msg.chat.id),
        (text::opt_view(msg.text) == Some(words) && (words.len() == 0 || words[0] != '/')) || (
        msg.text is None && text::opt_view(msg.caption) == Some(words)),
        !text::blank(words),
    ensures
        !attachments::carries_media(msg) ==> message::route_of(msg, allowed, mode, me, username)
            == message::RouteView::Ask(text::trim(words)),
        attachments::carries_media(msg) ==> message::route_of(msg, allowed, mode, me, username)
            == message::RouteView::Media(text::trim(words)),
{
    reveal_strlit("/");
    text::lemma_blank(words);
    if "/"@.is_prefix_of(words) {
        assert("/"@[0] == words.subrange(0, 1)[0]);
    }
    assert(commands::command_in(msg, username) is None);
}

/// A group that is served and answers everything has its words answered without the
/// bot's name; one that is switched off is never answered.
pub proof fn group_modes_decide(
    msg: Message,
    allowed: Seq<i64>,
    me: u64,
    username: Seq<char>,
    mode: GroupMode,
)
    requires
        msg.chat.kind == ChatKind::Group || msg.chat.kind == ChatKind::Supergroup,
    ensures
        message::route_of(msg, allowed, GroupMode::Off, me, username)
            == message::RouteView::Ignore,
        groups::gated(msg, GroupMode::Off, me, username) is None,
        groups::gated(msg, GroupMode::All, me, username) == Some(
            groups::unmentioned(groups::words_or_empty(msg), username),
        ),
        allowed.len() > 0 && !allowed.contains(msg.chat.id) ==> message::route_of(
            msg,
            allowed,
            mode,
            me,
            username,
        ) == message::RouteView::Ignore,
        (msg.from matches Some(u) && u.is_bot) ==> message::route_of(
            msg,
            allowed,
            mode,
            me,
            username,
        ) == message::RouteView::Ignore,
{
}

/// The author that is remembered is the sender, by every name that is known.
pub proof fn authors_are_remembered(msg: Message)
    ensures
        msg.from is None ==> message::author_of(msg) is None,
        msg.from matches Some(u) ==> message::author_of(msg) matches Some(a) && a.id == u.id
            && a.first_name == u.first_name@ && a.last_name == text::opt_view(u.last_name)
            && a.username == text::opt_view(u.username) && a.language_code == text::opt_view(
            u.language_code,
        ),
{
}

proof fn lemma_no_sign(a: Seq<char>, t: Seq<char>, n: Seq<char>)
    requires
        n.len() > 0,
        n[0] == '@',
        !a.contains('@'),
    ensures
        groups::without(a + t, n) == a + groups::without(t, n),
    decreases a.len(),
{
    let s = a + t;
    if a.len() == 0 {
        assert(s =~= t);
        assert(a + groups::without(t, n) =~= groups::without(t, n));
    } else {
        let c = a[0];
        let b = a.skip(1);
        assert(a.contains(c));
        assert(s[0] == c);
        assert(text::lower(s)[0] == text::lower_char(c));
        assert(text::lower_char(c) != '@');
        assert(!n.is_prefix_of(text::lower(s))) by {
            if n.is_prefix_of(text::lower(s)) {
                assert(n[0] == text::lower(s).subrange(0, n.len() as int)[0]);
            }
        }
        assert(!b.contains('@')) by {
            if b.contains('@') {
                assert(a[b.index_of('@') + 1] == '@');
            }
        }
        lemma_no_sign(b, t, n);
        assert(s.skip(1) =~= b + t);
        assert(seq![c] + (b + groups::without(t, n)) =~= a + groups::without(t, n));
    }
}

/// Taking the bot's name out of a text leaves all its other words, in order; a text
/// without the name keeps all of them.
pub proof fn other_words_are_kept(
    a: Seq<char>,
    name: Seq<char>,
    b: Seq<char>,
    username: Seq<char>,
)
    requires
        !a.contains('@'),
        !b.contains('@'),
        !groups::word_goes_on(b),
        username.len() > 0,
        text::lower(name) == seq!['@'] + text::lower(username),
    ensures
        groups::unmentioned(a + name + b, username) == text::join(text::words(a + b), seq![' ']),
        groups::unmentioned(a, username) == text::join(text::words(a), seq![' ']),
        groups::unmentioned(a, Seq::empty()) == text::trim(a),
{
    reveal_strlit("@");
    reveal_strlit(" ");
    assert("@"@ =~= seq!['@']);
    assert(" "@ =~= seq![' ']);
    let n = groups::mention_of(username);
    let none = Seq::<char>::empty();
    let s = name + b;
    assert(a + name + b =~= a + s);
    lemma_no_sign(a, s, n);
    assert(name.len() == text::lower(name).len());
    let l = text::lower(s);
    assert(l.subrange(0, n.len() as int) =~= n) by {
        assert forall|i: int| 0 <= i < n.len() implies l[i] == n[i] by {
            assert(s[i] == name[i]);
            assert(text::lower(name)[i] == n[i]);
        }
    }
    assert(s.skip(n.len() as int) =~= b);
    assert(groups::without(s, n) == groups::without(b, n));
    lemma_no_sign(b, none, n);
    assert(b + none =~= b);
    assert(groups::without(none, n) =~= none);
    lemma_no_sign(a, none, n);
    assert(a + none =~= a);
}

} // verus!
