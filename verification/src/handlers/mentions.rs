//! What holds of a text once the mentions of a bot are stripped from it.

use crate::handlers::groups;
use crate::text;
use vstd::prelude::*;

verus! {

/// Whether a name is one that a bot can have: letters, digits and underscores.
pub open spec fn is_username(name: Seq<char>) -> bool {
    &&& name.len() > 0
    &&& forall|i: int|
        0 <= i < name.len() ==> text::is_ascii_word(#[trigger] name[i]) || name[i] == '_'
}

/// Whether a bot is mentioned at a place of a text: its name stands there behind an
/// at sign, up to capitals, and the word ends with it.
pub open spec fn mentioned_at(s: Seq<char>, i: int, needle: Seq<char>) -> bool {
    &&& 0 <= i
    &&& i + needle.len() <= s.len()
    &&& forall|k: int|
        0 <= k < needle.len() ==> text::lower_char(s[i + k]) == #[trigger] needle[k]
    &&& !groups::word_goes_on(s.skip(i + needle.len()))
}

/// Whether a bot is mentioned nowhere in a text.
pub open spec fn unnamed(s: Seq<char>, needle: Seq<char>) -> bool {
    forall|i: int| !#[trigger] mentioned_at(s, i, needle)
}

/// Whether white space stands between words only, as single spaces.
pub open spec fn evenly_spaced(s: Seq<char>) -> bool {
    &&& s.len() > 0 ==> !text::is_space(s[0])
    &&& forall|i: int|
        0 <= i < s.len() && text::is_space(#[trigger] s[i]) ==> s[i] == ' ' && i + 1 < s.len()
            && !text::is_space(s[i + 1])
}

/// Whether a text can be a mention: an at sign, then small letters, digits and
/// underscores.
spec fn is_needle(n: Seq<char>) -> bool {
    &&& n.len() > 0
    &&& n[0] == '@'
    &&& forall|k: int|
        1 <= k < n.len() ==> (text::is_ascii_word(#[trigger] n[k]) && !text::is_upper(n[k])) || n[k]
            == '_'
}

proof fn lemma_needle(name: Seq<char>)
    requires
        is_username(name),
    ensures
        is_needle(groups::mention_of(name)),
{
    reveal_strlit("@");
    let n = groups::mention_of(name);
    assert forall|k: int| 1 <= k < n.len() implies (text::is_ascii_word(#[trigger] n[k])
        && !text::is_upper(n[k])) || n[k] == '_' by {
        assert(n[k] == text::lower_char(name[k - 1]));
        assert(text::is_ascii_word(name[k - 1]) || name[k - 1] == '_');
    }
}

proof fn lemma_lower(c: char, d: char)
    requires
        text::lower_char(c) == d,
    ensures
        (text::is_ascii_word(d) && !text::is_upper(d)) || d == '_' ==> groups::in_word(c)
            && !text::is_space(c) && c != '@',
        d == '@' ==> c == '@',
{
}

/// The test that stripping makes is that for a mention at the front.
proof fn lemma_front(s: Seq<char>, n: Seq<char>)
    requires
        n.len() > 0,
    ensures
        mentioned_at(s, 0, n) == (n.len() <= s.len() && n.is_prefix_of(text::lower(s))
            && !groups::word_goes_on(s.skip(n.len() as int))),
{
    let low = text::lower(s);
    if n.len() <= s.len() {
        if n.is_prefix_of(low) {
            assert forall|k: int| 0 <= k < n.len() implies text::lower_char(s[0 + k])
                == #[trigger] n[k] by {
                assert(low.subrange(0, n.len() as int)[k] == n[k]);
            }
        }
        if forall|k: int| 0 <= k < n.len() ==> text::lower_char(s[0 + k]) == #[trigger] n[k] {
            assert(low.subrange(0, n.len() as int) =~= n) by {
                assert forall|k: int| 0 <= k < n.len() implies low[k] == n[k] by {
                    assert(text::lower_char(s[0 + k]) == n[k]);
                }
            }
        }
    }
}

/// A mention further on is one of the rest.
proof fn lemma_shift(s: Seq<char>, j: int, i: int, n: Seq<char>)
    requires
        0 <= j <= s.len(),
        0 <= i,
    ensures
        mentioned_at(s.skip(j), i, n) == mentioned_at(s, i + j, n),
{
    let t = s.skip(j);
    if i + n.len() <= t.len() {
        assert(t.skip(i + n.len()) =~= s.skip(i + j + n.len()));
        if mentioned_at(t, i, n) {
            assert forall|k: int| 0 <= k < n.len() implies text::lower_char(s[i + j + k])
                == #[trigger] n[k] by {
                assert(t[i + k] == s[i + j + k]);
            }
        }
        if mentioned_at(s, i + j, n) {
            assert forall|k: int| 0 <= k < n.len() implies text::lower_char(t[i + k])
                == #[trigger] n[k] by {
                assert(t[i + k] == s[i + j + k]);
            }
        }
    }
}

proof fn lemma_suffix_unnamed(s: Seq<char>, j: int, n: Seq<char>)
    requires
        0 <= j <= s.len(),
        unnamed(s, n),
    ensures
        unnamed(s.skip(j), n),
{
    assert forall|i: int| !#[trigger] mentioned_at(s.skip(j), i, n) by {
        if i >= 0 {
            lemma_shift(s, j, i, n);
            assert(!mentioned_at(s, i + j, n));
        }
    }
}

/// Where no word goes on, none does once the mentions are gone.
proof fn lemma_gap_stays(s: Seq<char>, n: Seq<char>)
    requires
        n.len() > 0,
        !groups::word_goes_on(s),
    ensures
        !groups::word_goes_on(groups::without(s, n)),
    decreases s.len(),
{
    if s.len() > 0 {
        lemma_front(s, n);
        if mentioned_at(s, 0, n) {
            lemma_gap_stays(s.skip(n.len() as int), n);
        }
    }
}

/// A stretch of a word that is left stood where it stands.
proof fn lemma_word_stays(s: Seq<char>, n: Seq<char>, m: int)
    requires
        is_needle(n),
        0 <= m <= groups::without(s, n).len(),
        forall|j: int| 0 <= j < m ==> groups::in_word(#[trigger] groups::without(s, n)[j]),
    ensures
        m <= s.len(),
        forall|j: int| 0 <= j < m ==> s[j] == #[trigger] groups::without(s, n)[j],
        groups::without(s, n).skip(m) == groups::without(s.skip(m), n),
    decreases m,
{
    let w = groups::without(s, n);
    if m == 0 {
        assert(w.skip(0) =~= w);
        assert(s.skip(0) =~= s);
    } else {
        assert(groups::in_word(w[0]));
        assert(s.len() > 0);
        lemma_front(s, n);
        if mentioned_at(s, 0, n) {
            lemma_gap_stays(s.skip(n.len() as int), n);
            assert(false);
        }
        let t = s.skip(1);
        let wt = groups::without(t, n);
        assert(w =~= seq![s[0]] + wt);
        assert forall|j: int| 0 <= j < m - 1 implies groups::in_word(#[trigger] wt[j]) by {
            assert(wt[j] == w[j + 1]);
        }
        lemma_word_stays(t, n, m - 1);
        assert forall|j: int| 0 <= j < m implies s[j] == #[trigger] w[j] by {
            if j > 0 {
                assert(w[j] == wt[j - 1]);
                assert(t[j - 1] == s[j]);
            }
        }
        assert(w.skip(m) =~= wt.skip(m - 1));
        assert(t.skip(m - 1) =~= s.skip(m));
    }
}

/// Once the mentions are gone, none is left, and none has come together.
proof fn lemma_without_is_unnamed(s: Seq<char>, n: Seq<char>)
    requires
        is_needle(n),
    ensures
        unnamed(groups::without(s, n), n),
    decreases s.len(),
{
    let w = groups::without(s, n);
    if s.len() > 0 {
        lemma_front(s, n);
        if mentioned_at(s, 0, n) {
            lemma_without_is_unnamed(s.skip(n.len() as int), n);
        } else {
            let t = s.skip(1);
            let wt = groups::without(t, n);
            lemma_without_is_unnamed(t, n);
            assert(w =~= seq![s[0]] + wt);
            assert(w.skip(1) =~= wt);
            assert forall|i: int| !#[trigger] mentioned_at(w, i, n) by {
                if i > 0 {
                    lemma_shift(w, 1, i - 1, n);
                    assert(!mentioned_at(wt, i - 1, n));
                } else if i == 0 && mentioned_at(w, 0, n) {
                    let m = n.len() - 1;
                    assert forall|j: int| 0 <= j < m implies groups::in_word(#[trigger] wt[j]) by {
                        assert(text::lower_char(w[j + 1]) == n[j + 1]);
                        lemma_lower(w[j + 1], n[j + 1]);
                        assert(wt[j] == w[j + 1]);
                    }
                    lemma_word_stays(t, n, m);
                    assert forall|k: int| 0 <= k < n.len() implies text::lower_char(s[0 + k])
                        == #[trigger] n[k] by {
                        assert(text::lower_char(w[0 + k]) == n[k]);
                        if k > 0 {
                            assert(wt[k - 1] == w[k]);
                            assert(t[k - 1] == wt[k - 1]);
                            assert(t[k - 1] == s[k]);
                        }
                    }
                    let rest = s.skip(n.len() as int);
                    assert(groups::word_goes_on(rest));
                    assert(t.skip(m) =~= rest);
                    assert(w.skip(n.len() as int) =~= wt.skip(m));
                    lemma_front(rest, n);
                    if mentioned_at(rest, 0, n) {
                        assert(text::lower_char(rest[0]) == n[0]);
                        lemma_lower(rest[0], '@');
                        assert(false);
                    }
                    assert(groups::without(rest, n)[0] == rest[0]);
                    assert(groups::word_goes_on(groups::without(rest, n)));
                    assert(false);
                }
            }
        }
    }
}

/// Where nothing is mentioned, nothing is taken out.
proof fn lemma_unnamed_stays(s: Seq<char>, n: Seq<char>)
    requires
        n.len() > 0,
        unnamed(s, n),
    ensures
        groups::without(s, n) == s,
    decreases s.len(),
{
    if s.len() > 0 {
        lemma_front(s, n);
        assert(!mentioned_at(s, 0, n));
        lemma_suffix_unnamed(s, 1, n);
        lemma_unnamed_stays(s.skip(1), n);
        assert(seq![s[0]] + s.skip(1) =~= s);
    }
}

proof fn lemma_join_cons(a: Seq<char>, list: Seq<Seq<char>>, sep: Seq<char>)
    ensures
        text::join(seq![a] + list, sep) == (if list.len() == 0 {
            a
        } else {
            a + sep + text::join(list, sep)
        }),
    decreases list.len(),
{
    let all = seq![a] + list;
    if list.len() == 0 {
        assert(all[0] == a);
    } else if list.len() == 1 {
        assert(all.drop_last() =~= seq![a]);
        assert(text::join(seq![a], sep) == a);
        assert(all.last() == list[0]);
    } else {
        lemma_join_cons(a, list.drop_last(), sep);
        assert(all.drop_last() =~= seq![a] + list.drop_last());
        assert(a + sep + text::join(list.drop_last(), sep) + sep + list.last() =~= a + sep + (
        text::join(list.drop_last(), sep) + sep + list.last()));
    }
}

proof fn lemma_space_at_is(s: Seq<char>)
    ensures
        0 <= text::space_at(s) <= s.len(),
        forall|j: int| 0 <= j < text::space_at(s) ==> !text::is_space(#[trigger] s[j]),
        text::space_at(s) < s.len() ==> text::is_space(s[text::space_at(s)]),
    decreases s.len(),
{
    if s.len() > 0 && !text::is_space(s[0]) {
        let t = s.skip(1);
        lemma_space_at_is(t);
        assert forall|j: int| 0 <= j < text::space_at(s) implies !text::is_space(
            #[trigger] s[j],
        ) by {
            if j > 0 {
                assert(t[j - 1] == s[j]);
            }
        }
    }
}

proof fn lemma_trim_start_is_suffix(s: Seq<char>) -> (j: int)
    ensures
        0 <= j <= s.len(),
        text::trim_start(s) == s.skip(j),
    decreases s.len(),
{
    if s.len() > 0 && text::is_space(s[0]) {
        let j = lemma_trim_start_is_suffix(s.skip(1));
        assert(s.skip(1).skip(j) =~= s.skip(j + 1));
        j + 1
    } else {
        assert(s.skip(0) =~= s);
        0
    }
}

proof fn lemma_words_behind_space(s: Seq<char>)
    ensures
        text::words(seq![' '] + s) == text::words(s),
{
    assert((seq![' '] + s).skip(1) =~= s);
    assert(text::trim_start(seq![' '] + s) == text::trim_start(s));
}

/// The words of a text, one space apart: what that text is, seen from its front.
proof fn lemma_respaced(s: Seq<char>)
    ensures
        ({
            let t = text::trim_start(s);
            let k = text::space_at(t);
            let rest = text::join(text::words(t.skip(k)), " "@);
            text::join(text::words(s), " "@) == (if t.len() == 0 {
                Seq::empty()
            } else if text::words(t.skip(k)).len() == 0 {
                t.take(k)
            } else {
                t.take(k) + " "@ + rest
            })
        }),
{
    let t = text::trim_start(s);
    let k = text::space_at(t);
    if t.len() > 0 {
        lemma_join_cons(t.take(k), text::words(t.skip(k)), " "@);
    }
}

/// Spacing words evenly spaces them evenly, keeps them as they are, and brings no
/// mention about.
proof fn lemma_respacing(s: Seq<char>, n: Seq<char>)
    requires
        is_needle(n),
        unnamed(s, n),
    ensures
        ({
            let r = text::join(text::words(s), " "@);
            &&& evenly_spaced(r)
            &&& text::words(r) == text::words(s)
            &&& unnamed(r, n)
            &&& r.len() == 0 ==> text::words(s).len() == 0
        }),
    decreases s.len(),
{
    reveal_strlit(" ");
    text::lemma_trim_start_len(s);
    text::lemma_trim_start_head(s);
    let r = text::join(text::words(s), " "@);
    let t = text::trim_start(s);
    lemma_respaced(s);
    if t.len() == 0 {
        assert(text::trim_start(r) =~= Seq::<char>::empty());
        assert(text::words(r) =~= Seq::<Seq<char>>::empty());
        assert forall|i: int| !#[trigger] mentioned_at(r, i, n) by {}
    } else {
        let k = text::space_at(t);
        let a = t.take(k);
        let u = t.skip(k);
        lemma_space_at_is(t);
        text::lemma_space_at_bounds(t);
        let at = lemma_trim_start_is_suffix(s);
        lemma_suffix_unnamed(s, at, n);
        lemma_suffix_unnamed(t, k, n);
        lemma_respacing(u, n);
        let rest = text::join(text::words(u), " "@);
        let more = text::words(u).len() > 0;
        assert(r.len() >= k);
        assert forall|j: int| 0 <= j < k implies #[trigger] r[j] == t[j] && !text::is_space(
            r[j],
        ) by {
            assert(!text::is_space(t[j]));
        }
        assert(more ==> r[k] == ' ');
        assert(more ==> r.skip(k + 1) =~= rest);
        assert(!more ==> r =~= a);
        // Words.
        assert(text::trim_start(r) == r);
        text::lemma_space_at(r, k);
        assert(r.take(k) =~= a);
        if more {
            assert(r.skip(k) =~= seq![' '] + rest);
            lemma_words_behind_space(rest);
        } else {
            assert(r.skip(k) =~= Seq::<char>::empty());
            assert(text::trim_start(Seq::<char>::empty()) =~= Seq::<char>::empty());
            assert(text::words(r.skip(k)) =~= Seq::<Seq<char>>::empty());
            assert(text::words(u) =~= Seq::<Seq<char>>::empty());
        }
        assert(text::words(r) == seq![a] + text::words(u));
        // Spacing.
        assert forall|i: int| 0 <= i < r.len() && text::is_space(#[trigger] r[i]) implies r[i]
            == ' ' && i + 1 < r.len() && !text::is_space(r[i + 1]) by {
            if i == k {
                assert(rest.len() > 0);
                assert(r[k + 1] == r.skip(k + 1)[0]);
            } else if i > k {
                assert(r[i] == rest[i - k - 1]);
                assert(i + 1 < r.len() ==> r[i + 1] == rest[i - k]);
            }
        }
        // Mentions.
        assert forall|i: int| !#[trigger] mentioned_at(r, i, n) by {
            if mentioned_at(r, i, n) {
                if i < k {
                    lemma_within_word(r, i, k, n.len() - 1, n);
                    assert forall|q: int| 0 <= q < n.len() implies text::lower_char(t[i + q])
                        == #[trigger] n[q] by {
                        assert(text::lower_char(r[i + q]) == n[q]);
                        assert(r[i + q] == t[i + q]);
                    }
                    let end = i + n.len();
                    if end < k {
                        assert(r.skip(end)[0] == r[end]);
                        assert(t.skip(end)[0] == t[end]);
                    } else if end < t.len() {
                        assert(t.skip(end)[0] == t[end]);
                        assert(text::is_space(t[k]));
                        assert(!groups::in_word(t[k]));
                    }
                    assert(mentioned_at(t, i, n));
                } else if i == k {
                    assert(text::lower_char(r[i + 0]) == n[0]);
                    lemma_lower(r[k], '@');
                } else {
                    lemma_shift(r, k + 1, i - k - 1, n);
                    assert(!mentioned_at(rest, i - k - 1, n));
                }
                assert(false);
            }
        }
    }
}

/// A mention that begins in a word stays in it.
proof fn lemma_within_word(r: Seq<char>, i: int, k: int, q: int, n: Seq<char>)
    requires
        is_needle(n),
        mentioned_at(r, i, n),
        0 <= i < k <= r.len(),
        k < r.len() ==> r[k] == ' ',
        0 <= q < n.len(),
    ensures
        i + q < k,
    decreases q,
{
    if q > 0 {
        lemma_within_word(r, i, k, q - 1, n);
        assert(text::lower_char(r[i + q]) == n[q]);
        lemma_lower(r[i + q], n[q]);
    }
}

/// No mention of the bot is left in a stripped text, and its words are single
/// spaces apart. A bot's name is of letters, digits and underscores: with other
/// names, what stood around a mention could come together to one.
pub proof fn no_mention_is_left(s: Seq<char>, username: Seq<char>)
    requires
        is_username(username),
    ensures
        unnamed(groups::unmentioned(s, username), groups::mention_of(username)),
        evenly_spaced(groups::unmentioned(s, username)),
{
    let n = groups::mention_of(username);
    lemma_needle(username);
    lemma_without_is_unnamed(s, n);
    lemma_respacing(groups::without(s, n), n);
}

/// Stripping a text a second time changes nothing.
pub proof fn stripping_is_idempotent(s: Seq<char>, username: Seq<char>)
    requires
        is_username(username) || username.len() == 0,
    ensures
        groups::unmentioned(groups::unmentioned(s, username), username) == groups::unmentioned(
            s,
            username,
        ),
{
    if username.len() == 0 {
        text::lemma_trim_again(s);
    } else {
        let n = groups::mention_of(username);
        lemma_needle(username);
        lemma_without_is_unnamed(s, n);
        let bare = groups::without(s, n);
        lemma_respacing(bare, n);
        lemma_unnamed_stays(text::join(text::words(bare), " "@), n);
    }
}

}
