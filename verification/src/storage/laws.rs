//! What holds of stores and of the keys they use.

use crate::storage;
use crate::storage::mongo;
use crate::text;
use vstd::prelude::*;

verus! {

/// A conversation that was set is read back, and no other one changed.
pub proof fn read_after_set(
    s: storage::StoreView,
    scope: storage::ScopeView,
    agent: Seq<char>,
    id: Seq<char>,
    other: storage::ScopeView,
    other_agent: Seq<char>,
)
    ensures
        s.with_conversation(scope, agent, id).conversation(scope, agent) == Some(id),
        (other.key(), other_agent) != (scope.key(), agent) ==> s.with_conversation(
            scope,
            agent,
            id,
        ).conversation(other, other_agent) == s.conversation(other, other_agent),
        s.with_conversation(scope, agent, id).state(other) == s.state(other),
{
}

/// A conversation that was cleared is gone, and no other one changed.
pub proof fn read_after_clear(
    s: storage::StoreView,
    scope: storage::ScopeView,
    agent: Seq<char>,
    other: storage::ScopeView,
    other_agent: Seq<char>,
)
    ensures
        s.without_conversation(scope, agent).conversation(scope, agent) is None,
        (other.key(), other_agent) != (scope.key(), agent) ==> s.without_conversation(
            scope,
            agent,
        ).conversation(other, other_agent) == s.conversation(other, other_agent),
        s.without_conversation(scope, agent).state(other) == s.state(other),
{
}

/// A patched state is read back patched, and no other state and no conversation
/// changed.
pub proof fn read_after_patch(
    s: storage::StoreView,
    scope: storage::ScopeView,
    patch: storage::PatchView,
    other: storage::ScopeView,
    agent: Seq<char>,
)
    ensures
        s.patched(scope, patch).state(scope) == patch.apply(s.state(scope)),
        other.key() != scope.key() ==> s.patched(scope, patch).state(other) == s.state(other),
        s.patched(scope, patch).conversation(other, agent) == s.conversation(other, agent),
{
}

/// A link that was set is read back for its bot, and no other one changed.
pub proof fn read_after_link(
    s: storage::StoreView,
    bot: Seq<char>,
    link: storage::LinkView,
    other_bot: Seq<char>,
    id: Seq<char>,
)
    ensures
        s.with_link(bot, link).link(bot, link.id) == Some(link),
        (other_bot, id) != (bot, link.id) ==> s.with_link(bot, link).link(other_bot, id) == s.link(
            other_bot,
            id,
        ),
{
}

/// A patch applied twice does what it does once.
pub proof fn patch_is_idempotent(patch: storage::PatchView, state: storage::StateView)
    ensures
        patch.apply(patch.apply(state)) == patch.apply(state),
{
}

/// A decimal number is a run of digits with that value.
pub proof fn lemma_decimal(n: nat)
    ensures
        text::all_digits(text::decimal(n)),
        text::number_of(text::decimal(n)) == n,
    decreases n,
{
    let d = text::decimal(n);
    if n < 10 {
        assert(d.drop_last() =~= Seq::<char>::empty());
        assert(text::number_of(Seq::<char>::empty()) == 0);
    } else {
        lemma_decimal(n / 10);
        assert(d.drop_last() =~= text::decimal(n / 10));
        assert forall|i: int| 0 <= i < d.len() implies text::is_digit(#[trigger] d[i]) by {
            if i < d.len() - 1 {
                assert(text::is_digit(text::decimal(n / 10)[i]));
            }
        }
    }
}

/// Different integers are written differently, and none with a colon.
proof fn lemma_signed(a: int, b: int)
    ensures
        text::signed_decimal(a) == text::signed_decimal(b) ==> a == b,
        forall|i: int|
            0 <= i < text::signed_decimal(a).len() ==> #[trigger] text::signed_decimal(a)[i] != ':',
{
    let x = if a < 0 {
        (-a) as nat
    } else {
        a as nat
    };
    let y = if b < 0 {
        (-b) as nat
    } else {
        b as nat
    };
    lemma_decimal(x);
    lemma_decimal(y);
    let dx = text::decimal(x);
    let dy = text::decimal(y);
    let sa = text::signed_decimal(a);
    let sb = text::signed_decimal(b);
    assert forall|i: int| 0 <= i < sa.len() implies #[trigger] sa[i] != ':' by {
        if a < 0 {
            if i > 0 {
                assert(sa[i] == dx[i - 1]);
                assert(text::is_digit(dx[i - 1]));
            }
        } else {
            assert(text::is_digit(dx[i]));
        }
    }
    if sa == sb {
        assert(text::is_digit(dx[0]));
        assert(text::is_digit(dy[0]));
        if a < 0 {
            assert(sa[0] == '-');
            assert(sa.skip(1) =~= dx);
            if b < 0 {
                assert(sb.skip(1) =~= dy);
            }
        } else if b < 0 {
            assert(sb[0] == '-');
        }
    }
}

/// Two texts cut at their last colon, where what follows has none.
proof fn lemma_cut_last(a: Seq<char>, x: Seq<char>, b: Seq<char>, y: Seq<char>)
    requires
        a + ":"@ + x == b + ":"@ + y,
        !x.contains(':'),
        !y.contains(':'),
    ensures
        a == b,
        x == y,
{
    reveal_strlit(":");
    let s = a + ":"@ + x;
    assert forall|j: int| a.len() < j < s.len() implies #[trigger] s[j] != ':' by {
        assert(s[j] == x[j - a.len() - 1]);
        assert(x.contains(x[j - a.len() - 1]));
    }
    assert(s[a.len() as int] == ':');
    text::lemma_last_index_of(s, ':', a.len() as int);
    let t = b + ":"@ + y;
    assert forall|j: int| b.len() < j < t.len() implies #[trigger] t[j] != ':' by {
        assert(t[j] == y[j - b.len() - 1]);
        assert(y.contains(y[j - b.len() - 1]));
    }
    assert(t[b.len() as int] == ':');
    text::lemma_last_index_of(t, ':', b.len() as int);
    assert(a =~= s.take(a.len() as int));
    assert(b =~= t.take(b.len() as int));
    assert(x =~= s.skip(a.len() as int + 1));
    assert(y =~= t.skip(b.len() as int + 1));
}

/// Two texts cut at their first colon, where what precedes has none.
proof fn lemma_cut_first(a: Seq<char>, x: Seq<char>, b: Seq<char>, y: Seq<char>)
    requires
        a + ":"@ + x == b + ":"@ + y,
        !a.contains(':'),
        !b.contains(':'),
    ensures
        a == b,
        x == y,
{
    reveal_strlit(":");
    let s = a + ":"@ + x;
    assert forall|j: int| 0 <= j < a.len() implies #[trigger] s[j] != ':' by {
        assert(a.contains(a[j]));
    }
    assert(s[a.len() as int] == ':');
    text::lemma_index_of(s, ':', a.len() as int);
    let t = b + ":"@ + y;
    assert forall|j: int| 0 <= j < b.len() implies #[trigger] t[j] != ':' by {
        assert(b.contains(b[j]));
    }
    assert(t[b.len() as int] == ':');
    text::lemma_index_of(t, ':', b.len() as int);
    assert(a =~= s.take(a.len() as int));
    assert(b =~= t.take(b.len() as int));
    assert(x =~= s.skip(a.len() as int + 1));
    assert(y =~= t.skip(b.len() as int + 1));
}

/// Different scopes have different keys, where the names of the bots hold no
/// colon.
pub proof fn keys_tell_scopes_apart(a: storage::ScopeView, b: storage::ScopeView)
    requires
        !a.bot.contains(':'),
        !b.bot.contains(':'),
        a.key() == b.key(),
    ensures
        a == b,
{
    reveal_strlit(":");
    let na = match a.namespace {
        Some(ns) => ns + ":"@,
        None => Seq::empty(),
    };
    let nb = match b.namespace {
        Some(ns) => ns + ":"@,
        None => Seq::empty(),
    };
    let ca = text::signed_decimal(a.chat_id as int);
    let cb = text::signed_decimal(b.chat_id as int);
    let ta = text::signed_decimal(a.thread_id as int);
    let tb = text::signed_decimal(b.thread_id as int);
    lemma_signed(a.chat_id as int, b.chat_id as int);
    lemma_signed(b.chat_id as int, a.chat_id as int);
    lemma_signed(a.thread_id as int, b.thread_id as int);
    lemma_signed(b.thread_id as int, a.thread_id as int);
    assert(a.key() =~= a.bot + ":"@ + (na + ca + ":"@ + ta));
    assert(b.key() =~= b.bot + ":"@ + (nb + cb + ":"@ + tb));
    lemma_cut_first(a.bot, na + ca + ":"@ + ta, b.bot, nb + cb + ":"@ + tb);
    lemma_cut_last(na + ca, ta, nb + cb, tb);
    match (a.namespace, b.namespace) {
        (Some(x), Some(y)) => {
            lemma_cut_last(x, ca, y, cb);
        },
        (None, None) => {
            assert(na + ca =~= ca);
            assert(nb + cb =~= cb);
        },
        (Some(x), None) => {
            assert((na + ca)[x.len() as int] == ':');
            assert(nb + cb =~= cb);
            assert(cb[x.len() as int] == ':');
        },
        (None, Some(y)) => {
            assert((nb + cb)[y.len() as int] == ':');
            assert(na + ca =~= ca);
            assert(ca[y.len() as int] == ':');
        },
    }
}

/// Different conversations have documents with different ids, where the names
/// of bots and agents hold no colon.
pub proof fn documents_tell_conversations_apart(
    a: storage::ScopeView,
    x: Seq<char>,
    b: storage::ScopeView,
    y: Seq<char>,
)
    requires
        !a.bot.contains(':'),
        !b.bot.contains(':'),
        !x.contains(':'),
        !y.contains(':'),
        mongo::conversation_id_of(a, x) == mongo::conversation_id_of(b, y),
    ensures
        a == b,
        x == y,
{
    let p = "conv:"@;
    lemma_cut_last(p + a.key(), x, p + b.key(), y);
    assert((p + a.key()).skip(p.len() as int) =~= a.key());
    assert((p + b.key()).skip(p.len() as int) =~= b.key());
    keys_tell_scopes_apart(a, b);
}

}
