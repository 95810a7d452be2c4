//! Group behaviour: mention gating and topic resolution.

use crate::config::GroupMode;
use crate::telegram::types::{Chat, ChatKind, Entity, EntityKind, Message};
use crate::text;
use crate::util;
use vstd::prelude::*;

verus! {

/// Whether a chat is a group.
pub fn is_group(chat: &Chat) -> (r: bool)
    ensures
        r == in_group(*chat),
{
    chat.kind == ChatKind::Group || chat.kind == ChatKind::Supergroup
}

/// Whether a chat is a group.
pub open spec fn in_group(chat: Chat) -> bool {
    chat.kind == ChatKind::Group || chat.kind == ChatKind::Supergroup
}

/// Whether a chat is private.
pub fn is_private(chat: &Chat) -> (r: bool)
    ensures
        r == (chat.kind == ChatKind::Private),
{
    chat.kind == ChatKind::Private
}

/// The topic a message belongs to, when topics are in play.
pub open spec fn topic_of(msg: Message) -> Option<i32> {
    if msg.is_topic_message || msg.chat.kind == ChatKind::Private {
        msg.message_thread_id
    } else {
        None
    }
}

/// The topic a message belongs to, when topics are in play.
pub fn thread_id(msg: &Message) -> (r: Option<i32>)
    ensures
        r == topic_of(*msg),
{
    if msg.is_topic_message || is_private(&msg.chat) {
        msg.message_thread_id
    } else {
        None
    }
}

/// The words of a message: its text, or failing that its caption.
pub open spec fn words_of(msg: Message) -> Option<Seq<char>> {
    match msg.text {
        Some(t) => Some(t@),
        None => text::opt_view(msg.caption),
    }
}

/// The words of a message, or nothing.
pub open spec fn words_or_empty(msg: Message) -> Seq<char> {
    match words_of(msg) {
        Some(t) => t,
        None => Seq::empty(),
    }
}

/// The words of a message: its text, or failing that its caption.
pub fn text_of(msg: &Message) -> (r: Option<&str>)
    ensures
        (match r {
            Some(s) => Some(s@),
            None => None,
        }) == words_of(*msg),
{
    match &msg.text {
        Some(t) => Some(t.as_str()),
        None => match &msg.caption {
            Some(c) => Some(c.as_str()),
            None => None,
        },
    }
}

/// The words of a message, or nothing.
pub fn text_or_empty(msg: &Message) -> (r: String)
    ensures
        r@ == words_or_empty(*msg),
{
    match text_of(msg) {
        Some(t) => t.to_string(),
        None => String::new(),
    }
}

/// The marked-up stretches of the words of a message.
pub open spec fn marks_of(msg: Message) -> Seq<Entity> {
    if msg.text is Some {
        msg.entities@
    } else {
        msg.caption_entities@
    }
}

fn entities_of(msg: &Message) -> (r: &Vec<Entity>)
    ensures
        r@ == marks_of(*msg),
{
    if msg.text.is_some() {
        &msg.entities
    } else {
        &msg.caption_entities
    }
}

/// Whether a character is a letter, digit or underscore; white space is none of
/// them.
pub open spec fn in_word(c: char) -> bool {
    if (c as u32) < 128 {
        text::is_ascii_word(c) || c == '_'
    } else {
        !text::is_space(c) && (util::alphabetic(c) || util::numeric(c))
    }
}

fn is_in_word(c: char) -> (r: bool)
    ensures
        r == in_word(c),
{
    !text::space(c) && (c.is_alphanumeric() || c == '_')
}

/// Whether a text goes on with a letter, digit or underscore.
pub open spec fn word_goes_on(s: Seq<char>) -> bool {
    s.len() > 0 && in_word(s[0])
}

/// A text without the stretches that are `needle`, up to capitals, and end a word.
pub open spec fn without(s: Seq<char>, needle: Seq<char>) -> Seq<char>
    decreases s.len(),
{
    if s.len() == 0 {
        Seq::empty()
    } else if 0 < needle.len() <= s.len() && needle.is_prefix_of(text::lower(s)) && !word_goes_on(
        s.skip(needle.len() as int),
    ) {
        without(s.skip(needle.len() as int), needle)
    } else {
        seq![s[0]] + without(s.skip(1), needle)
    }
}

/// How a bot is mentioned.
pub open spec fn mention_of(username: Seq<char>) -> Seq<char> {
    "@"@ + text::lower(username)
}

/// A text without mentions of a bot, its words one space apart.
pub open spec fn unmentioned(s: Seq<char>, username: Seq<char>) -> Seq<char> {
    if username.len() == 0 {
        text::trim(s)
    } else {
        text::join(text::words(without(s, mention_of(username))), " "@)
    }
}

/// Remove `@username` mentions of this bot from the text.
pub fn strip_mention(text: &str, username: &str) -> (r: String)
    ensures
        r@ == unmentioned(text@, username@),
{
    if text::char_count(username) == 0 {
        return text::trimmed(text);
    }
    let mut mention: String = "@".to_string();
    mention.append(text::lowered(username).as_str());
    proof {
        reveal_strlit("@");
    }
    let needle = text::chars_of(mention.as_str());
    let v = text::chars_of(text);
    let low_text = text::lowered(text);
    let low = text::chars_of(low_text.as_str());
    let mut out: String = String::new();
    let mut i: usize = 0;
    assert(v@.skip(0) =~= v@);
    while i < v.len()
        invariant
            i <= v@.len(),
            v@ == text@,
            low@ == text::lower(text@),
            low@.len() == v@.len(),
            needle@.len() > 0,
            out@ + without(v@.skip(i as int), needle@) == without(text@, needle@),
        decreases v@.len() - i,
    {
        let ghost rest = v@.skip(i as int);
        assert(low@.skip(i as int) =~= text::lower(rest));
        let here = text::stands_at(&low, i, &needle);
        let left: usize = v.len() - i;
        let ends: bool = if here && needle.len() <= left {
            let end: usize = i + needle.len();
            assert(rest.skip(needle@.len() as int) =~= v@.skip(end as int));
            end >= v.len() || !is_in_word(v[end])
        } else {
            false
        };
        if ends {
            i = i + needle.len();
        } else {
            assert(rest.skip(1) =~= v@.skip(i + 1));
            assert(out@ + (seq![v@[i as int]] + without(rest.skip(1), needle@)) =~= out@.push(
                v@[i as int],
            ) + without(rest.skip(1), needle@));
            out.push(v[i]);
            i = i + 1;
        }
    }
    assert(out@ + Seq::<char>::empty() =~= out@);
    let words = text::word_list(out.as_str());
    text::join_list(&words, " ")
}

/// A character in UTF-16.
pub open spec fn utf16_of(c: char) -> Seq<u16> {
    let n = c as u32;
    if n < 0x1_0000 {
        seq![n as u16]
    } else {
        seq![
            (0xd800 + (n - 0x1_0000) / 0x400) as u16,
            (0xdc00 + (n - 0x1_0000) % 0x400) as u16,
        ]
    }
}

/// A text in UTF-16.
pub open spec fn utf16(s: Seq<char>) -> Seq<u16>
    decreases s.len(),
{
    if s.len() == 0 {
        Seq::empty()
    } else {
        utf16(s.drop_last()) + utf16_of(s.last())
    }
}

/// The text that `String::from_utf16_lossy` reads from UTF-16 units, with a mark for
/// what is not UTF-16.
pub uninterp spec fn utf16_lossy(units: Seq<u16>) -> Seq<char>;

/// The text that UTF-16 units hold: the one that is written so where there is one, and
/// else that with a mark for what is not UTF-16.
pub open spec fn units_text(units: Seq<u16>) -> Seq<char> {
    if exists|t: Seq<char>| utf16(t) == units {
        choose|t: Seq<char>| utf16(t) == units
    } else {
        utf16_lossy(units)
    }
}

/// The units of a character tell how many they are, and the character.
proof fn lemma_units_of(c: char)
    ensures
        ({
            let n = c as u32;
            let u = utf16_of(c);
            &&& n < 0x1_0000 ==> u.len() == 1 && u[0] == n && !(0xdc00 <= u[0] <= 0xdfff)
            &&& n >= 0x1_0000 ==> u.len() == 2 && 0xdc00 <= u[1] <= 0xdfff && n == 0x1_0000 + (u[0]
                - 0xd800) * 0x400 + (u[1] - 0xdc00)
        }),
{
    let n = c as u32;
    assert(n <= 0xd7ff || 0xe000 <= n <= 0x10_ffff);
    if n >= 0x1_0000 {
        let m = n - 0x1_0000;
        assert(0 <= m < 0x10_0000);
        assert(0 <= m / 0x400 < 0x400);
        assert(0 <= m % 0x400 < 0x400);
        assert(m == (m / 0x400) * 0x400 + m % 0x400);
    }
}

proof fn lemma_same_units(c: char, d: char)
    requires
        utf16_of(c) == utf16_of(d),
    ensures
        c == d,
{
    lemma_units_of(c);
    lemma_units_of(d);
    assert(c as u32 == d as u32);
}

/// Different texts are written differently in UTF-16.
pub proof fn utf16_tells_texts_apart(a: Seq<char>, b: Seq<char>)
    requires
        utf16(a) == utf16(b),
    ensures
        a == b,
    decreases a.len(),
{
    let u = utf16(a);
    if a.len() > 0 && b.len() > 0 {
        let x = utf16_of(a.last());
        let y = utf16_of(b.last());
        let p = utf16(a.drop_last());
        let q = utf16(b.drop_last());
        assert(u == p + x);
        assert(u == q + y);
        assert(u.last() == x.last());
        assert(u.last() == y.last());
        lemma_units_of(a.last());
        lemma_units_of(b.last());
        assert(x.len() == y.len());
        assert(p =~= u.take(u.len() - x.len()));
        assert(q =~= u.take(u.len() - y.len()));
        assert(x =~= u.skip(u.len() - x.len()));
        assert(y =~= u.skip(u.len() - y.len()));
        lemma_same_units(a.last(), b.last());
        utf16_tells_texts_apart(a.drop_last(), b.drop_last());
        assert(a =~= a.drop_last().push(a.last()));
        assert(b =~= b.drop_last().push(b.last()));
    } else {
        if a.len() > 0 {
            lemma_units_of(a.last());
            assert(utf16(b).len() == 0);
        }
        if b.len() > 0 {
            lemma_units_of(b.last());
            assert(utf16(a).len() == 0);
        }
        assert(a =~= b);
    }
}

proof fn lemma_units_text(t: Seq<char>)
    ensures
        units_text(utf16(t)) == t,
{
    let s = choose|s: Seq<char>| utf16(s) == utf16(t);
    assert(utf16(s) == utf16(t));
    utf16_tells_texts_apart(s, t);
}

/// `String::from_utf16_lossy`. The units of a text give that text.
#[verifier::external_body]
fn utf16_text(units: &[u16]) -> (s: String)
    ensures
        s@ == utf16_lossy(units@),
        forall|t: Seq<char>| #[trigger] utf16(t) == units@ ==> s@ == t,
{
    String::from_utf16_lossy(units)
}

/// A text in UTF-16.
pub fn utf16_units(s: &str) -> (r: Vec<u16>)
    ensures
        r@ == utf16(s@),
{
    let v = text::chars_of(s);
    let mut r: Vec<u16> = Vec::new();
    let mut i: usize = 0;
    while i < v.len()
        invariant
            v@ == s@,
            i <= v@.len(),
            r@ == utf16(v@.take(i as int)),
        decreases v@.len() - i,
    {
        assert(v@.take(i + 1).drop_last() =~= v@.take(i as int));
        let ghost before = r@;
        let n: u32 = v[i] as u32;
        if n < 0x1_0000 {
            r.push(n as u16);
        } else {
            let m: u32 = n - 0x1_0000;
            r.push((0xd800 + m / 0x400) as u16);
            r.push((0xdc00 + m % 0x400) as u16);
        }
        assert(r@ =~= before + utf16_of(v@[i as int]));
        i = i + 1;
    }
    assert(v@.take(i as int) =~= s@);
    r
}

/// The units that a stretch covers, as far as the text goes.
pub open spec fn covered(units: Seq<u16>, e: Entity) -> Seq<u16> {
    let end = if e.offset + e.length < units.len() {
        e.offset + e.length
    } else {
        units.len() as int
    };
    if e.offset < end {
        units.subrange(e.offset as int, end)
    } else {
        Seq::empty()
    }
}

/// Whether a stretch mentions the bot.
pub open spec fn mark_means(units: Seq<u16>, e: Entity, me: u64, username: Seq<char>) -> bool {
    covered(units, e).len() > 0 && match e.kind {
        EntityKind::Mention => username.len() > 0 && text::lower(units_text(covered(units, e)))
            == mention_of(username),
        EntityKind::TextMention => e.user_id == Some(me),
        _ => false,
    }
}

/// Whether a message mentions the bot or replies to it.
pub open spec fn addressed(msg: Message, me: u64, username: Seq<char>) -> bool {
    ||| msg.reply_author == Some(me)
    ||| exists|i: int|
        0 <= i < marks_of(msg).len() && mark_means(
            utf16(words_or_empty(msg)),
            #[trigger] marks_of(msg)[i],
            me,
            username,
        )
}

/// Whether a message marks a text as a mention that is the bot's name behind an at
/// sign, up to capitals.
pub open spec fn named_in(msg: Message, i: int, t: Seq<char>, username: Seq<char>) -> bool {
    &&& 0 <= i < marks_of(msg).len()
    &&& marks_of(msg)[i].kind == EntityKind::Mention
    &&& utf16(t) == covered(utf16(words_or_empty(msg)), marks_of(msg)[i])
    &&& t.len() > 0
    &&& username.len() > 0
    &&& text::lower(t) == mention_of(username)
}

/// A message that mentions the bot by its name is addressed to it.
pub proof fn names_are_heard(msg: Message, i: int, t: Seq<char>, me: u64, username: Seq<char>)
    requires
        named_in(msg, i, t, username),
    ensures
        addressed(msg, me, username),
{
    lemma_units_text(t);
    assert(utf16_of(t.last()).len() > 0);
    assert(utf16(t).len() > 0);
    assert(mark_means(utf16(words_or_empty(msg)), marks_of(msg)[i], me, username));
}

/// A copy of the units from `from` up to `to`.
fn units_between(units: &Vec<u16>, from: usize, to: usize) -> (r: Vec<u16>)
    requires
        from <= to <= units@.len(),
    ensures
        r@ == units@.subrange(from as int, to as int),
{
    let mut r: Vec<u16> = Vec::new();
    let mut i: usize = from;
    while i < to
        invariant
            from <= i <= to <= units@.len(),
            r@ == units@.subrange(from as int, i as int),
        decreases to - i,
    {
        r.push(units[i]);
        i = i + 1;
    }
    r
}

fn mark_matches(units: &Vec<u16>, e: Entity, me: u64, username: &str) -> (r: bool)
    ensures
        r == mark_means(units@, e, me, username@),
{
    let start: usize = e.offset as usize;
    let sum: usize = (e.offset as usize) + (e.length as usize);
    let end: usize = if sum < units.len() {
        sum
    } else {
        units.len()
    };
    if start >= end {
        return false;
    }
    match e.kind {
        EntityKind::Mention => {
            if text::char_count(username) == 0 {
                return false;
            }
            let part = units_between(units, start, end);
            assert(part@ == covered(units@, e));
            let words = utf16_text(part.as_slice());
            let mut mention: String = "@".to_string();
            mention.append(text::lowered(username).as_str());
            text::same(text::lowered(words.as_str()).as_str(), mention.as_str())
        },
        EntityKind::TextMention => match e.user_id {
            Some(id) => id == me,
            None => false,
        },
        _ => false,
    }
}

/// Does this message mention the bot or reply to it?
pub fn addressed_to_bot(msg: &Message, me: u64, username: &str) -> (r: bool)
    ensures
        r == addressed(*msg, me, username@),
        forall|i: int, t: Seq<char>| #[trigger] named_in(*msg, i, t, username@) ==> r,
{
    proof {
        assert forall|i: int, t: Seq<char>| #[trigger]
            named_in(*msg, i, t, username@) implies addressed(*msg, me, username@) by {
            names_are_heard(*msg, i, t, me, username@);
        }
    }
    match msg.reply_author {
        Some(id) => {
            if id == me {
                return true;
            }
        },
        None => {},
    }
    let words = text_or_empty(msg);
    let units = utf16_units(words.as_str());
    let marks = entities_of(msg);
    let mut i: usize = 0;
    while i < marks.len()
        invariant
            i <= marks@.len(),
            marks@ == marks_of(*msg),
            units@ == utf16(words_or_empty(*msg)),
            forall|j: int|
                0 <= j < i ==> !mark_means(units@, #[trigger] marks@[j], me, username@),
        decreases marks@.len() - i,
    {
        if mark_matches(&units, marks[i], me, username) {
            return true;
        }
        i = i + 1;
    }
    false
}

/// What a group message asks of the bot, where it is meant to answer.
pub open spec fn gated(msg: Message, mode: GroupMode, me: u64, username: Seq<char>) -> Option<
    Seq<char>,
> {
    match mode {
        GroupMode::Off => None,
        GroupMode::All => Some(unmentioned(words_or_empty(msg), username)),
        GroupMode::Mention => if addressed(msg, me, username) {
            Some(unmentioned(words_or_empty(msg), username))
        } else {
            None
        },
    }
}

/// In a group, decide whether to answer and return the cleaned text.
pub fn gate(msg: &Message, mode: GroupMode, me: u64, username: &str) -> (r: Option<String>)
    ensures
        text::opt_view(r) == gated(*msg, mode, me, username@),
        forall|i: int, t: Seq<char>|
            mode == GroupMode::Mention && #[trigger] named_in(*msg, i, t, username@)
                ==> text::opt_view(r) == Some(unmentioned(words_or_empty(*msg), username@)),
{
    proof {
        assert forall|i: int, t: Seq<char>| #[trigger]
            named_in(*msg, i, t, username@) implies addressed(*msg, me, username@) by {
            names_are_heard(*msg, i, t, me, username@);
        }
    }
    let raw = text_or_empty(msg);
    match mode {
        GroupMode::Off => None,
        GroupMode::All => Some(strip_mention(raw.as_str(), username)),
        GroupMode::Mention => {
            if addressed_to_bot(msg, me, username) {
                Some(strip_mention(raw.as_str(), username))
            } else {
                None
            }
        },
    }
}

/// In a group where the bot answers only when asked, a message that neither
/// mentions it nor replies to it gets no answer; a reply to it gets one.
pub proof fn only_asked_is_answered(msg: Message, me: u64, username: Seq<char>)
    ensures
        !addressed(msg, me, username) ==> gated(msg, GroupMode::Mention, me, username) is None,
        msg.reply_author == Some(me) ==> gated(msg, GroupMode::Mention, me, username) is Some,
        gated(msg, GroupMode::Off, me, username) is None,
        gated(msg, GroupMode::All, me, username) is Some,
{
}

}
