//! What the operations on texts do, as laws over texts put together from parts.

use crate::text;
use crate::util;
use vstd::prelude::*;

verus! {

/// White space is the space, the tab, the line ends and their like, and no character of
/// a word.
pub proof fn spaces_are_spaces(c: char)
    ensures
        text::is_space(' '),
        text::is_space('\t'),
        text::is_space('\n'),
        text::is_space('\r'),
        text::is_space('\u{a0}'),
        text::is_space('\u{3000}'),
        ('!' <= c && c <= '~') ==> !text::is_space(c),
        text::is_space(c) ==> !text::is_ascii_word(c),
{
}

/// Trimming takes the white space at both ends and nothing else.
pub proof fn trimming_takes_outer_space(a: Seq<char>, s: Seq<char>, b: Seq<char>)
    requires
        text::blank(a),
        text::blank(b),
        s.len() > 0,
        !text::is_space(s[0]),
        !text::is_space(s.last()),
    ensures
        text::trim(a + s + b) == s,
        text::trim_start(a + s + b) == s + b,
        text::trim_end(a + s + b) == a + s,
        text::trim(a + b).len() == 0,
        !text::blank(a + s + b),
{
    let w = a + s + b;
    assert(w[a.len() as int] == s[0]);
    assert forall|j: int| 0 <= j < a.len() implies text::is_space(#[trigger] w[j]) by {
        assert(w[j] == a[j]);
    }
    text::lemma_trim_start(w, a.len() as int);
    assert(w.skip(a.len() as int) =~= s + b);
    let t = s + b;
    assert(t[s.len() - 1] == s.last());
    assert forall|j: int| s.len() <= j < t.len() implies text::is_space(#[trigger] t[j]) by {
        assert(t[j] == b[j - s.len()]);
    }
    text::lemma_trim_end(t, s.len() as int);
    assert(t.take(s.len() as int) =~= s);
    let k = a.len() + s.len();
    assert(w[k - 1] == s.last());
    assert forall|j: int| k <= j < w.len() implies text::is_space(#[trigger] w[j]) by {
        assert(w[j] == b[j - k]);
    }
    text::lemma_trim_end(w, k as int);
    assert(w.take(k as int) =~= a + s);
    let n = a + b;
    assert forall|j: int| 0 <= j < n.len() implies text::is_space(#[trigger] n[j]) by {
        if j < a.len() {
            assert(n[j] == a[j]);
        } else {
            assert(n[j] == b[j - a.len()]);
        }
    }
    text::lemma_blank(n);
}

/// Small letters: a capital of ASCII becomes its small letter, anything else stays.
pub proof fn capitals_become_small(s: Seq<char>, i: int)
    requires
        0 <= i < s.len(),
    ensures
        text::lower(s).len() == s.len(),
        'A' <= s[i] && s[i] <= 'Z' ==> text::lower(s)[i] as u32 == s[i] as u32 + 32,
        !('A' <= s[i] && s[i] <= 'Z') ==> text::lower(s)[i] == s[i],
        text::lower(text::lower(s)) == text::lower(s),
{
    assert forall|j: int| 0 <= j < s.len() implies text::lower(text::lower(s))[j] == text::lower(
        s,
    )[j] by {
        let c = s[j];
        if text::is_upper(c) {
            assert(text::lower_char(c) as u32 == c as u32 + 32);
        }
    }
    assert(text::lower(text::lower(s)) =~= text::lower(s));
}

/// Texts are joined in order, with the separator between neighbours and nowhere else.
pub proof fn joining_separates(list: Seq<Seq<char>>, x: Seq<char>, y: Seq<char>, sep: Seq<char>)
    ensures
        text::join(Seq::empty(), sep).len() == 0,
        text::join(seq![x], sep) == x,
        text::join(seq![x, y], sep) == x + sep + y,
        list.len() > 0 ==> text::join(list.push(x), sep) == text::join(list, sep) + sep + x,
{
    text::lemma_join_push(list, x, sep);
    text::lemma_join_push(seq![x], y, sep);
    assert(seq![x].push(y) =~= seq![x, y]);
}

proof fn lemma_cut(a: Seq<char>, c: char, b: Seq<char>)
    requires
        !a.contains(c),
    ensures
        text::index_of(a + seq![c] + b, c) == a.len(),
{
    let w = a + seq![c] + b;
    assert(w[a.len() as int] == c);
    assert forall|j: int| 0 <= j < a.len() implies #[trigger] w[j] != c by {
        assert(w[j] == a[j]);
        assert(a.contains(a[j]));
    }
    text::lemma_index_of(w, c, a.len() as int);
}

/// A text is cut at the first mark, or at the last, into what stands before and behind
/// it; without the mark it is not cut.
pub proof fn cutting_parts(a: Seq<char>, c: char, b: Seq<char>)
    ensures
        !a.contains(c) ==> text::cut_at(a + seq![c] + b, c) == Some((a, b)),
        !b.contains(c) ==> text::cut_at_last(a + seq![c] + b, c) == Some((a, b)),
        !a.contains(c) ==> text::cut_at(a, c) is None && text::cut_at_last(a, c) is None,
{
    let w = a + seq![c] + b;
    if !a.contains(c) {
        lemma_cut(a, c, b);
        assert(w.take(a.len() as int) =~= a);
        assert(w.skip((a.len() + 1) as int) =~= b);
        assert forall|j: int| 0 <= j < a.len() implies #[trigger] a[j] != c by {
            assert(a.contains(a[j]));
        }
        text::lemma_index_of(a, c, a.len() as int);
        text::lemma_last_index_of(a, c, -1);
    }
    if !b.contains(c) {
        assert(w[a.len() as int] == c);
        assert forall|j: int| a.len() < j < w.len() implies #[trigger] w[j] != c by {
            assert(w[j] == b[j - a.len() - 1]);
            assert(b.contains(b[j - a.len() - 1]));
        }
        text::lemma_last_index_of(w, c, a.len() as int);
        assert(w.take(a.len() as int) =~= a);
        assert(w.skip((a.len() + 1) as int) =~= b);
    }
}

/// Splitting at a mark gives the piece before the first one and then the pieces of what
/// is behind it.
pub proof fn splitting_parts(a: Seq<char>, c: char, b: Seq<char>)
    requires
        !a.contains(c),
    ensures
        text::split_on(a + seq![c] + b, c) == seq![a] + text::split_on(b, c),
        text::split_on(a, c) == seq![a],
{
    let w = a + seq![c] + b;
    lemma_cut(a, c, b);
    assert(w.take(a.len() as int) =~= a);
    assert(w.skip((a.len() + 1) as int) =~= b);
    assert forall|j: int| 0 <= j < a.len() implies #[trigger] a[j] != c by {
        assert(a.contains(a[j]));
    }
    text::lemma_index_of(a, c, a.len() as int);
}

/// The lines of a text are what its line feeds separate, without a carriage return
/// before one; a line feed at the end starts no further line.
pub proof fn lines_are_separated(a: Seq<char>, b: Seq<char>)
    requires
        !a.contains('\n'),
        !a.contains('\r'),
    ensures
        text::lines(a + seq!['\n'] + b) == seq![a] + text::lines(b),
        text::lines(a + seq!['\r'] + seq!['\n'] + b) == seq![a] + text::lines(b),
        a.len() > 0 ==> text::lines(a) == seq![a],
        text::lines(Seq::empty()).len() == 0,
{
    let w = a + seq!['\n'] + b;
    lemma_cut(a, '\n', b);
    assert(w.take(a.len() as int) =~= a);
    assert(w.skip((a.len() + 1) as int) =~= b);
    if a.len() > 0 {
        assert(a.contains(a.last()));
    }
    let r = a + seq!['\r'];
    assert forall|j: int| 0 <= j < r.len() implies #[trigger] r[j] != '\n' by {
        if j < a.len() {
            assert(r[j] == a[j]);
            assert(a.contains(a[j]));
        }
    }
    lemma_cut(r, '\n', b);
    let u = r + seq!['\n'] + b;
    assert(u.take(r.len() as int) =~= r);
    assert(u.skip((r.len() + 1) as int) =~= b);
    assert(r.drop_last() =~= a);
    assert forall|j: int| 0 <= j < a.len() implies #[trigger] a[j] != '\n' by {
        assert(a.contains(a[j]));
    }
    text::lemma_index_of(a, '\n', a.len() as int);
}

/// The words of a text are what white space separates.
pub proof fn words_are_separated(a: Seq<char>, w: Seq<char>, b: Seq<char>)
    requires
        text::blank(a),
        w.len() > 0,
        forall|i: int| 0 <= i < w.len() ==> !text::is_space(#[trigger] w[i]),
        b.len() == 0 || text::is_space(b[0]),
    ensures
        text::words(a + w + b) == seq![w] + text::words(b),
        text::words(a).len() == 0,
{
    let s = a + w + b;
    assert(s[a.len() as int] == w[0]);
    assert forall|j: int| 0 <= j < a.len() implies text::is_space(#[trigger] s[j]) by {
        assert(s[j] == a[j]);
    }
    text::lemma_trim_start(s, a.len() as int);
    let t = w + b;
    assert(s.skip(a.len() as int) =~= t);
    assert forall|j: int| 0 <= j < w.len() implies !text::is_space(#[trigger] t[j]) by {
        assert(t[j] == w[j]);
    }
    if b.len() > 0 {
        assert(t[w.len() as int] == b[0]);
    }
    text::lemma_space_at(t, w.len() as int);
    assert(t.take(w.len() as int) =~= w);
    assert(t.skip(w.len() as int) =~= b);
    text::lemma_trim_start(a, a.len() as int);
    assert(a.skip(a.len() as int).len() == 0);
}

/// Replacing a character works piece by piece.
pub proof fn lemma_replaced_add(a: Seq<char>, b: Seq<char>, c: char, by: Seq<char>)
    ensures
        text::replace_char(a + b, c, by) == text::replace_char(a, c, by) + text::replace_char(
            b,
            c,
            by,
        ),
    decreases b.len(),
{
    if b.len() == 0 {
        assert(a + b =~= a);
        assert(text::replace_char(b, c, by) =~= Seq::empty());
        assert(text::replace_char(a, c, by) + text::replace_char(b, c, by) =~= text::replace_char(
            a,
            c,
            by,
        ));
    } else {
        lemma_replaced_add(a, b.drop_last(), c, by);
        assert((a + b).drop_last() =~= a + b.drop_last());
        assert(text::replace_char(a + b, c, by) =~= text::replace_char(a, c, by)
            + text::replace_char(b, c, by));
    }
}

/// Replacing a character puts the other text in its place and leaves all else alone.
pub proof fn characters_are_replaced(a: Seq<char>, b: Seq<char>, c: char, d: char, by: Seq<char>)
    ensures
        text::replace_char(a + seq![c] + b, c, by) == text::replace_char(a, c, by) + by
            + text::replace_char(b, c, by),
        c != d ==> text::replace_char(a + seq![d] + b, c, by) == text::replace_char(a, c, by)
            + seq![d] + text::replace_char(b, c, by),
        text::replace_char(Seq::empty(), c, by).len() == 0,
{
    lemma_replaced_add(a + seq![c], b, c, by);
    lemma_replaced_add(a, seq![c], c, by);
    lemma_replaced_add(a + seq![d], b, c, by);
    lemma_replaced_add(a, seq![d], c, by);
    reveal_with_fuel(text::replace_char, 2);
    assert(seq![c].drop_last() =~= Seq::empty());
    assert(seq![d].drop_last() =~= Seq::empty());
    assert(text::replace_char(seq![c], c, by) =~= by);
    if c != d {
        assert(text::replace_char(seq![d], c, by) =~= seq![d]);
    }
}

/// A number in decimal: its digits, the last of which counts the ones; a negative one
/// has a minus before it.
pub proof fn decimals_are_digits(n: nat, d: nat)
    requires
        d < 10,
    ensures
        text::decimal(d).len() == 1,
        text::decimal(d)[0] as u32 == '0' as u32 + d,
        n > 0 ==> text::decimal(n * 10 + d) == text::decimal(n) + text::decimal(d),
        text::signed_decimal(n as int) == text::decimal(n),
        n > 0 ==> text::signed_decimal(-(n as int)) == seq!['-'] + text::decimal(n),
{
    if n > 0 {
        assert((n * 10 + d) / 10 == n);
        assert((n * 10 + d) % 10 == d);
        assert(text::decimal(n * 10 + d) =~= text::decimal(n) + text::decimal(d));
    }
}

/// Numbers are read as they are written, up to a bound; what is no number is not read.
pub proof fn written_numbers_are_read(n: nat, max: nat)
    ensures
        text::all_digits(text::decimal(n)),
        text::number_of(text::decimal(n)) == n,
        n <= max ==> text::bounded_number(text::decimal(n), max) == Some(n),
        n > max ==> text::bounded_number(text::decimal(n), max) is None,
        n <= max ==> text::unsigned(text::decimal(n), max) == Some(n),
        n <= max ==> text::unsigned(seq!['+'] + text::decimal(n), max) == Some(n),
        text::bounded_number(Seq::empty(), max) is None,
    decreases n,
{
    let s = text::decimal(n);
    if n < 10 {
        assert(s.drop_last() =~= Seq::empty());
        assert(text::number_of(s.drop_last()) == 0);
    } else {
        written_numbers_are_read(n / 10, max);
        assert(s.drop_last() =~= text::decimal(n / 10));
        assert forall|i: int| 0 <= i < s.len() implies text::is_digit(#[trigger] s[i]) by {
            if i < s.len() - 1 {
                assert(s[i] == text::decimal(n / 10)[i]);
            }
        }
    }
    assert(text::is_digit(s[0]));
    assert((seq!['+'] + s).skip(1) =~= s);
}

proof fn lemma_find_first(s: Seq<char>, p: Seq<char>, i: int)
    requires
        0 <= i,
        i + p.len() <= s.len(),
        p.is_prefix_of(s.skip(i)),
        forall|j: int| 0 <= j < i ==> !p.is_prefix_of(#[trigger] s.skip(j)),
    ensures
        text::find(s, p) == Some(i),
    decreases s.len(),
{
    if i == 0 {
        assert(s.skip(0) =~= s);
    } else {
        assert(s.skip(0) =~= s);
        assert(!p.is_prefix_of(s.skip(0)));
        let t = s.skip(1);
        assert(t.skip(i - 1) =~= s.skip(i));
        assert forall|j: int| 0 <= j < i - 1 implies !p.is_prefix_of(#[trigger] t.skip(j)) by {
            assert(t.skip(j) =~= s.skip(j + 1));
        }
        lemma_find_first(t, p, i - 1);
    }
}

proof fn lemma_find_none(s: Seq<char>, p: Seq<char>)
    requires
        p.len() > 0,
        forall|j: int| 0 <= j <= s.len() ==> !p.is_prefix_of(#[trigger] s.skip(j)),
    ensures
        text::find(s, p) is None,
    decreases s.len(),
{
    assert(s.skip(0) =~= s);
    assert(!p.is_prefix_of(s.skip(0)));
    if s.len() > 0 {
        let t = s.skip(1);
        assert forall|j: int| 0 <= j <= t.len() implies !p.is_prefix_of(#[trigger] t.skip(j)) by {
            assert(t.skip(j) =~= s.skip(j + 1));
        }
        lemma_find_none(t, p);
    }
}

/// A search finds the first place where a text stands, and nothing where it does not.
pub proof fn first_places_are_found(s: Seq<char>, p: Seq<char>, i: int)
    ensures
        0 <= i && i + p.len() <= s.len() && s.subrange(i, i + p.len()) == p && (forall|j: int|
            0 <= j < i ==> !p.is_prefix_of(#[trigger] s.skip(j))) ==> text::find(s, p) == Some(i),
        p.len() > 0 && (forall|j: int|
            0 <= j <= s.len() ==> !p.is_prefix_of(#[trigger] s.skip(j))) ==> !text::has(s, p),
{
    if 0 <= i && i + p.len() <= s.len() && s.subrange(i, i + p.len()) == p && (forall|j: int|
        0 <= j < i ==> !p.is_prefix_of(#[trigger] s.skip(j))) {
        assert(s.skip(i).subrange(0, p.len() as int) =~= s.subrange(i, i + p.len()));
        lemma_find_first(s, p, i);
    }
    if p.len() > 0 && (forall|j: int|
        0 <= j <= s.len() ==> !p.is_prefix_of(#[trigger] s.skip(j))) {
        lemma_find_none(s, p);
    }
}

/// Replacing a text works off its first place and goes on behind it; without the text
/// nothing changes.
pub proof fn texts_are_replaced(a: Seq<char>, from: Seq<char>, b: Seq<char>, to: Seq<char>)
    requires
        from.len() > 0,
    ensures
        text::find(a + from + b, from) == Some(a.len() as int) ==> text::replace_text(
            a + from + b,
            from,
            to,
        ) == a + to + text::replace_text(b, from, to),
        text::find(a, from) is None ==> text::replace_text(a, from, to) == a,
{
    let s = a + from + b;
    if text::find(s, from) == Some(a.len() as int) {
        assert(s.take(a.len() as int) =~= a);
        assert(s.skip((a.len() + from.len()) as int) =~= b);
        let rest = text::split_by(b, from);
        assert(text::split_by(s, from) == seq![a] + rest);
        lemma_split_some(b, from);
        lemma_join_cons(a, rest, to);
    }
}

proof fn lemma_split_some(s: Seq<char>, p: Seq<char>)
    ensures
        text::split_by(s, p).len() > 0,
{
}

proof fn lemma_join_cons(a: Seq<char>, rest: Seq<Seq<char>>, sep: Seq<char>)
    requires
        rest.len() > 0,
    ensures
        text::join(seq![a] + rest, sep) == a + sep + text::join(rest, sep),
    decreases rest.len(),
{
    let w = seq![a] + rest;
    if rest.len() == 1 {
        assert(w.drop_last() =~= seq![a]);
        assert(text::join(seq![a], sep) == a);
        assert(w.last() == rest[0]);
    } else {
        lemma_join_cons(a, rest.drop_last(), sep);
        assert(w.drop_last() =~= seq![a] + rest.drop_last());
        assert(w.last() == rest.last());
        assert(a + sep + text::join(rest.drop_last(), sep) + sep + rest.last() =~= a + sep + (
        text::join(rest.drop_last(), sep) + sep + rest.last()));
    }
}

/// Taking a mark off the front or the end of a text takes every one there and no more.
pub proof fn outer_marks_are_taken(s: Seq<char>, c: char, n: nat)
    requires
        s.len() == 0 || (s[0] != c && s.last() != c),
    ensures
        text::drop_front(text::repeat(seq![c], n) + s, c) == s,
        text::drop_back(s + text::repeat(seq![c], n), c) == s,
    decreases n,
{
    let r = text::repeat(seq![c], n);
    if n == 0 {
        assert(r + s =~= s);
        assert(s + r =~= s);
    } else {
        outer_marks_are_taken(s, c, (n - 1) as nat);
        let q = text::repeat(seq![c], (n - 1) as nat);
        lemma_repeat_front(c, (n - 1) as nat);
        assert(r + s =~= seq![c] + (q + s));
        assert((seq![c] + (q + s)).skip(1) =~= q + s);
        assert(s + r =~= (s + q) + seq![c]);
        assert(((s + q) + seq![c]).drop_last() =~= s + q);
    }
}

proof fn lemma_repeat_front(c: char, n: nat)
    ensures
        text::repeat(seq![c], n) + seq![c] == seq![c] + text::repeat(seq![c], n),
        text::repeat(seq![c], n).len() == n,
    decreases n,
{
    let r = text::repeat(seq![c], n);
    if n == 0 {
        assert(r + seq![c] =~= seq![c] + r);
    } else {
        lemma_repeat_front(c, (n - 1) as nat);
        let q = text::repeat(seq![c], (n - 1) as nat);
        assert(r + seq![c] =~= seq![c] + r);
    }
}

/// A repetition holds its text so many times and nothing else.
pub proof fn repetitions_are_even(c: char, n: nat, i: int)
    ensures
        text::repeat(seq![c], n).len() == n,
        0 <= i < n ==> text::repeat(seq![c], n)[i] == c,
    decreases n,
{
    if n > 0 {
        repetitions_are_even(c, (n - 1) as nat, i);
    }
}

/// The first characters of a text, and a text cut short: both keep what fits, and the
/// latter marks the cut with an ellipsis.
pub proof fn short_texts_are_kept(s: Seq<char>, n: nat)
    ensures
        s.len() <= n ==> text::first_chars(s, n) == s && util::truncated(s, n) == s,
        s.len() > n ==> text::first_chars(s, n) == s.subrange(0, n as int),
        s.len() > n && n > 0 ==> util::truncated(s, n) == s.subrange(0, n - 1) + seq!['…'],
        util::truncated(s, n).len() <= n,
{
}

} // verus!
