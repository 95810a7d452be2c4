//! Text as a sequence of characters: trimming, searching, splitting, joining.

use vstd::prelude::*;

verus! {

/// `String::push` appends one character.
pub assume_specification[ String::push ](s: &mut String, c: char)
    ensures
        final(s)@ == old(s)@.push(c),
;

/// The texts that a list of strings holds.
pub open spec fn views(list: Seq<String>) -> Seq<Seq<char>> {
    list.map_values(|s: String| s@)
}

/// The text that an optional string holds.
pub open spec fn opt_view(s: Option<String>) -> Option<Seq<char>> {
    match s {
        Some(t) => Some(t@),
        None => None,
    }
}

/// White space as Unicode's `White_Space` property has it.
pub open spec fn is_space(c: char) -> bool {
    ||| '\u{9}' <= c && c <= '\u{d}'
    ||| c == ' '
    ||| c == '\u{85}'
    ||| c == '\u{a0}'
    ||| c == '\u{1680}'
    ||| '\u{2000}' <= c && c <= '\u{200a}'
    ||| c == '\u{2028}'
    ||| c == '\u{2029}'
    ||| c == '\u{202f}'
    ||| c == '\u{205f}'
    ||| c == '\u{3000}'
}

/// Whether `c` is white space.
pub fn space(c: char) -> (b: bool)
    ensures
        b == is_space(c),
{
    ('\u{9}' <= c && c <= '\u{d}') || c == ' ' || c == '\u{85}' || c == '\u{a0}' || c
        == '\u{1680}' || ('\u{2000}' <= c && c <= '\u{200a}') || c == '\u{2028}' || c == '\u{2029}'
        || c == '\u{202f}' || c == '\u{205f}' || c == '\u{3000}'
}

/// The text without its leading white space.
pub open spec fn trim_start(s: Seq<char>) -> Seq<char>
    decreases s.len(),
{
    if s.len() > 0 && is_space(s[0]) {
        trim_start(s.skip(1))
    } else {
        s
    }
}

/// The text without its trailing white space.
pub open spec fn trim_end(s: Seq<char>) -> Seq<char>
    decreases s.len(),
{
    if s.len() > 0 && is_space(s.last()) {
        trim_end(s.drop_last())
    } else {
        s
    }
}

/// The text without white space at either end.
pub open spec fn trim(s: Seq<char>) -> Seq<char> {
    trim_end(trim_start(s))
}

/// Whether a text holds nothing but white space.
pub open spec fn blank(s: Seq<char>) -> bool {
    forall|i: int| 0 <= i < s.len() ==> is_space(#[trigger] s[i])
}

/// The text without the `c` at its front.
pub open spec fn drop_front(s: Seq<char>, c: char) -> Seq<char>
    decreases s.len(),
{
    if s.len() > 0 && s[0] == c {
        drop_front(s.skip(1), c)
    } else {
        s
    }
}

/// The text without the `c` at its end.
pub open spec fn drop_back(s: Seq<char>, c: char) -> Seq<char>
    decreases s.len(),
{
    if s.len() > 0 && s.last() == c {
        drop_back(s.drop_last(), c)
    } else {
        s
    }
}

/// The text without the repetitions of `p` at its end.
pub open spec fn drop_suffixes(s: Seq<char>, p: Seq<char>) -> Seq<char>
    decreases s.len(),
{
    if p.len() > 0 && p.is_suffix_of(s) {
        drop_suffixes(s.take(s.len() - p.len()), p)
    } else {
        s
    }
}

/// The position of the first `c`, or the length where there is none.
pub open spec fn index_of(s: Seq<char>, c: char) -> int
    decreases s.len(),
{
    if s.len() == 0 || s[0] == c {
        0
    } else {
        1 + index_of(s.skip(1), c)
    }
}

/// The position of the last `c`, or -1 where there is none.
pub open spec fn last_index_of(s: Seq<char>, c: char) -> int
    decreases s.len(),
{
    if s.len() == 0 {
        -1
    } else if s.last() == c {
        s.len() - 1
    } else {
        last_index_of(s.drop_last(), c)
    }
}

/// The position of the first white space, or the length where there is none.
pub open spec fn space_at(s: Seq<char>) -> int
    decreases s.len(),
{
    if s.len() == 0 || is_space(s[0]) {
        0
    } else {
        1 + space_at(s.skip(1))
    }
}

/// Where `p` first stands in `s`.
pub open spec fn find(s: Seq<char>, p: Seq<char>) -> Option<int>
    decreases s.len(),
{
    if p.is_prefix_of(s) {
        Some(0)
    } else if s.len() == 0 {
        None
    } else {
        match find(s.skip(1), p) {
            Some(i) => Some(i + 1),
            None => None,
        }
    }
}

/// Whether `p` stands somewhere in `s`.
pub open spec fn has(s: Seq<char>, p: Seq<char>) -> bool {
    find(s, p) is Some
}

/// The pieces between the occurrences of `c`.
pub open spec fn split_on(s: Seq<char>, c: char) -> Seq<Seq<char>>
    decreases s.len(),
{
    let i = index_of(s, c);
    if 0 <= i < s.len() {
        seq![s.take(i)] + split_on(s.skip(i + 1), c)
    } else {
        seq![s]
    }
}

/// A line without the carriage return that its line feed followed.
pub open spec fn strip_cr(s: Seq<char>) -> Seq<char> {
    if s.len() > 0 && s.last() == '\r' {
        s.drop_last()
    } else {
        s
    }
}

/// The lines of a text; the last one needs no line ending.
pub open spec fn lines(s: Seq<char>) -> Seq<Seq<char>>
    decreases s.len(),
{
    let i = index_of(s, '\n');
    if s.len() == 0 {
        Seq::empty()
    } else if 0 <= i < s.len() {
        seq![strip_cr(s.take(i))] + lines(s.skip(i + 1))
    } else {
        seq![s]
    }
}

/// The words of a text: its longest pieces without white space.
pub open spec fn words(s: Seq<char>) -> Seq<Seq<char>>
    decreases s.len(),
{
    proof {
        lemma_trim_start_len(s);
        lemma_trim_start_head(s);
        lemma_space_at_bounds(trim_start(s));
    }
    let t = trim_start(s);
    if t.len() == 0 {
        Seq::empty()
    } else {
        seq![t.take(space_at(t))] + words(t.skip(space_at(t)))
    }
}

/// The texts in order, with `sep` between neighbours.
pub open spec fn join(list: Seq<Seq<char>>, sep: Seq<char>) -> Seq<char>
    decreases list.len(),
{
    if list.len() == 0 {
        Seq::empty()
    } else if list.len() == 1 {
        list[0]
    } else {
        join(list.drop_last(), sep) + sep + list.last()
    }
}

/// `s`, `n` times over.
pub open spec fn repeat(s: Seq<char>, n: nat) -> Seq<char>
    decreases n,
{
    if n == 0 {
        Seq::empty()
    } else {
        repeat(s, (n - 1) as nat) + s
    }
}

/// The text with every `c` replaced by `by`.
pub open spec fn replace_char(s: Seq<char>, c: char, by: Seq<char>) -> Seq<char>
    decreases s.len(),
{
    if s.len() == 0 {
        Seq::empty()
    } else {
        replace_char(s.drop_last(), c, by) + (if s.last() == c {
            by
        } else {
            seq![s.last()]
        })
    }
}

/// The first `n` characters.
pub open spec fn first_chars(s: Seq<char>, n: nat) -> Seq<char> {
    if s.len() <= n {
        s
    } else {
        s.take(n as int)
    }
}

/// A capital of ASCII.
pub open spec fn is_upper(c: char) -> bool {
    'A' <= c && c <= 'Z'
}

/// A digit of ASCII.
pub open spec fn is_digit(c: char) -> bool {
    '0' <= c && c <= '9'
}

/// A letter or digit of ASCII.
pub open spec fn is_ascii_word(c: char) -> bool {
    is_upper(c) || ('a' <= c && c <= 'z') || is_digit(c)
}

/// An ASCII capital as its small letter; any other character as it is.
pub open spec fn lower_char(c: char) -> char {
    if is_upper(c) {
        ((c as u8) + 32) as char
    } else {
        c
    }
}

/// The text with its ASCII capitals made small.
pub open spec fn lower(s: Seq<char>) -> Seq<char> {
    s.map_values(|c: char| lower_char(c))
}

/// The digit that stands for `n`.
pub open spec fn digit(n: nat) -> char {
    (48 + n) as char
}

/// A number in decimal.
pub open spec fn decimal(n: nat) -> Seq<char>
    decreases n,
{
    if n < 10 {
        seq![digit(n)]
    } else {
        decimal(n / 10).push(digit(n % 10))
    }
}

/// An integer in decimal, with its sign where it is negative.
pub open spec fn signed_decimal(n: int) -> Seq<char> {
    if n < 0 {
        seq!['-'] + decimal((-n) as nat)
    } else {
        decimal(n as nat)
    }
}

/// The number that a run of digits stands for.
pub open spec fn number_of(s: Seq<char>) -> nat
    decreases s.len(),
{
    if s.len() == 0 {
        0
    } else {
        number_of(s.drop_last()) * 10 + ((s.last() as int) - 48) as nat
    }
}

/// Whether a text is a run of digits, at least one.
pub open spec fn all_digits(s: Seq<char>) -> bool {
    s.len() > 0 && forall|i: int| 0 <= i < s.len() ==> is_digit(#[trigger] s[i])
}

pub proof fn lemma_trim_start_len(s: Seq<char>)
    ensures
        trim_start(s).len() <= s.len(),
    decreases s.len(),
{
    if s.len() > 0 && is_space(s[0]) {
        lemma_trim_start_len(s.skip(1));
    }
}

pub proof fn lemma_space_at_bounds(s: Seq<char>)
    ensures
        0 <= space_at(s) <= s.len(),
        s.len() > 0 && !is_space(s[0]) ==> space_at(s) > 0,
    decreases s.len(),
{
    if s.len() > 0 && !is_space(s[0]) {
        lemma_space_at_bounds(s.skip(1));
    }
}

/// `trim_start` drops exactly the first `i` characters where these are white
/// space and the next is not.
pub proof fn lemma_trim_start(s: Seq<char>, i: int)
    requires
        0 <= i <= s.len(),
        forall|j: int| 0 <= j < i ==> is_space(#[trigger] s[j]),
        i < s.len() ==> !is_space(s[i]),
    ensures
        trim_start(s) == s.skip(i),
    decreases s.len(),
{
    if i == 0 {
        assert(s.skip(0) =~= s);
    } else {
        assert(is_space(s[0]));
        let t = s.skip(1);
        assert forall|j: int| 0 <= j < i - 1 implies is_space(#[trigger] t[j]) by {
            assert(is_space(s[j + 1]));
        }
        lemma_trim_start(t, i - 1);
        assert(t.skip(i - 1) =~= s.skip(i));
    }
}

/// `trim_end` keeps exactly the first `i` characters where the rest is white
/// space and the last of these is not.
pub proof fn lemma_trim_end(s: Seq<char>, i: int)
    requires
        0 <= i <= s.len(),
        forall|j: int| i <= j < s.len() ==> is_space(#[trigger] s[j]),
        i > 0 ==> !is_space(s[i - 1]),
    ensures
        trim_end(s) == s.take(i),
    decreases s.len(),
{
    if i == s.len() {
        assert(s.take(i) =~= s);
    } else {
        assert(is_space(s[s.len() - 1]));
        lemma_trim_end(s.drop_last(), i);
        assert(s.drop_last().take(i) =~= s.take(i));
    }
}

pub proof fn lemma_index_of(s: Seq<char>, c: char, i: int)
    requires
        0 <= i <= s.len(),
        forall|j: int| 0 <= j < i ==> #[trigger] s[j] != c,
        i < s.len() ==> s[i] == c,
    ensures
        index_of(s, c) == i,
    decreases s.len(),
{
    if i > 0 {
        assert(s[0] != c);
        let t = s.skip(1);
        assert forall|j: int| 0 <= j < i - 1 implies #[trigger] t[j] != c by {
            assert(s[j + 1] != c);
        }
        lemma_index_of(t, c, i - 1);
    }
}

/// `index_of` gives the first `c`, or the length.
pub proof fn lemma_index_of_is(s: Seq<char>, c: char)
    ensures
        0 <= index_of(s, c) <= s.len(),
        forall|j: int| 0 <= j < index_of(s, c) ==> #[trigger] s[j] != c,
        index_of(s, c) < s.len() ==> s[index_of(s, c)] == c,
    decreases s.len(),
{
    if s.len() > 0 && s[0] != c {
        let t = s.skip(1);
        lemma_index_of_is(t, c);
        assert forall|j: int| 0 <= j < index_of(s, c) implies #[trigger] s[j] != c by {
            if j > 0 {
                assert(t[j - 1] != c);
            }
        }
    }
}

pub proof fn lemma_last_index_of(s: Seq<char>, c: char, i: int)
    requires
        -1 <= i < s.len(),
        forall|j: int| i < j < s.len() ==> #[trigger] s[j] != c,
        i >= 0 ==> s[i] == c,
    ensures
        last_index_of(s, c) == i,
    decreases s.len(),
{
    if s.len() > 0 && i < s.len() - 1 {
        assert(s[s.len() - 1] != c);
        lemma_last_index_of(s.drop_last(), c, i);
    }
}

pub proof fn lemma_space_at(s: Seq<char>, i: int)
    requires
        0 <= i <= s.len(),
        forall|j: int| 0 <= j < i ==> !is_space(#[trigger] s[j]),
        i < s.len() ==> is_space(s[i]),
    ensures
        space_at(s) == i,
    decreases s.len(),
{
    if i > 0 {
        assert(!is_space(s[0]));
        let t = s.skip(1);
        assert forall|j: int| 0 <= j < i - 1 implies !is_space(#[trigger] t[j]) by {
            assert(!is_space(s[j + 1]));
        }
        lemma_space_at(t, i - 1);
    }
}

/// One more text at the end of a joined list.
pub proof fn lemma_join_push(list: Seq<Seq<char>>, x: Seq<char>, sep: Seq<char>)
    ensures
        join(list.push(x), sep) == (if list.len() == 0 {
            x
        } else {
            join(list, sep) + sep + x
        }),
{
    assert(list.push(x).drop_last() =~= list);
}

/// The characters of `s`, in order.
pub fn chars_of(s: &str) -> (v: Vec<char>)
    ensures
        v@ == s@,
{
    let mut v: Vec<char> = Vec::new();
    for c in it: s.chars()
        invariant
            v@ == it.seq().take(it.index()),
            it.seq() == s@,
    {
        v.push(c);
    }
    v
}

/// The string made of the characters from `from` up to `to`.
pub fn string_between(v: &Vec<char>, from: usize, to: usize) -> (s: String)
    requires
        from <= to <= v@.len(),
    ensures
        s@ == v@.subrange(from as int, to as int),
{
    let mut s: String = String::new();
    let mut i: usize = from;
    while i < to
        invariant
            from <= i <= to <= v@.len(),
            s@ == v@.subrange(from as int, i as int),
        decreases to - i,
    {
        s.push(v[i]);
        i = i + 1;
    }
    s
}

/// The number of characters.
pub fn char_count(s: &str) -> (n: usize)
    ensures
        n == s@.len(),
{
    chars_of(s).len()
}

/// Whether two texts are the same.
pub fn same(a: &str, b: &str) -> (r: bool)
    ensures
        r == (a@ == b@),
{
    let x = chars_of(a);
    let y = chars_of(b);
    if x.len() != y.len() {
        return false;
    }
    let mut i: usize = 0;
    while i < x.len()
        invariant
            x@ == a@,
            y@ == b@,
            i <= x@.len(),
            x@.len() == y@.len(),
            forall|j: int| 0 <= j < i ==> x@[j] == y@[j],
        decreases x@.len() - i,
    {
        if x[i] != y[i] {
            return false;
        }
        i = i + 1;
    }
    assert(a@ =~= b@);
    true
}

/// Whether `s` begins with `p`.
pub fn starts_with(s: &str, p: &str) -> (r: bool)
    ensures
        r == p@.is_prefix_of(s@),
{
    let x = chars_of(s);
    let y = chars_of(p);
    if x.len() < y.len() {
        return false;
    }
    let mut i: usize = 0;
    while i < y.len()
        invariant
            x@ == s@,
            y@ == p@,
            i <= y@.len() <= x@.len(),
            forall|j: int| 0 <= j < i ==> x@[j] == y@[j],
        decreases y@.len() - i,
    {
        if x[i] != y[i] {
            assert(s@.subrange(0, p@.len() as int)[i as int] != p@[i as int]);
            return false;
        }
        i = i + 1;
    }
    assert(p@ =~= s@.subrange(0, p@.len() as int));
    true
}

/// Whether `s` ends with `p`.
pub fn ends_with(s: &str, p: &str) -> (r: bool)
    ensures
        r == p@.is_suffix_of(s@),
{
    let x = chars_of(s);
    let y = chars_of(p);
    if x.len() < y.len() {
        return false;
    }
    let base: usize = x.len() - y.len();
    let mut i: usize = 0;
    while i < y.len()
        invariant
            x@ == s@,
            y@ == p@,
            i <= y@.len(),
            base + y.len() == x.len(),
            forall|j: int| 0 <= j < i ==> x@[base + j] == y@[j],
        decreases y@.len() - i,
    {
        if x[base + i] != y[i] {
            assert(s@.subrange(s@.len() - p@.len(), s@.len() as int)[i as int] != p@[i as int]);
            return false;
        }
        i = i + 1;
    }
    assert(p@ =~= s@.subrange(s@.len() - p@.len(), s@.len() as int));
    true
}

/// The text from character `from` on.
pub fn skip_chars(s: &str, from: usize) -> (r: String)
    requires
        from <= s@.len(),
    ensures
        r@ == s@.skip(from as int),
{
    let v = chars_of(s);
    string_between(&v, from, v.len())
}

/// The first `n` characters, or all of them where there are fewer.
pub fn take_chars(s: &str, n: usize) -> (r: String)
    ensures
        r@ == first_chars(s@, n as nat),
{
    let v = chars_of(s);
    let to: usize = if v.len() <= n {
        v.len()
    } else {
        n
    };
    let r = string_between(&v, 0, to);
    assert(r@ =~= first_chars(s@, n as nat));
    r
}

fn front_of(v: &Vec<char>) -> (i: usize)
    ensures
        i <= v@.len(),
        trim_start(v@) == v@.skip(i as int),
{
    let mut i: usize = 0;
    while i < v.len() && space(v[i])
        invariant
            i <= v@.len(),
            forall|j: int| 0 <= j < i ==> is_space(#[trigger] v@[j]),
        decreases v@.len() - i,
    {
        i = i + 1;
    }
    proof {
        lemma_trim_start(v@, i as int);
    }
    i
}

/// Drops leading white space.
pub fn trimmed_start(s: &str) -> (r: String)
    ensures
        r@ == trim_start(s@),
{
    let v = chars_of(s);
    let i = front_of(&v);
    string_between(&v, i, v.len())
}

/// Drops trailing white space.
pub fn trimmed_end(s: &str) -> (r: String)
    ensures
        r@ == trim_end(s@),
{
    let v = chars_of(s);
    let mut i: usize = v.len();
    while i > 0 && space(v[i - 1])
        invariant
            i <= v@.len(),
            forall|j: int| i <= j < v@.len() ==> is_space(#[trigger] v@[j]),
        decreases i,
    {
        i = i - 1;
    }
    proof {
        lemma_trim_end(v@, i as int);
    }
    let r = string_between(&v, 0, i);
    assert(r@ =~= v@.take(i as int));
    r
}

/// Drops white space at both ends.
pub fn trimmed(s: &str) -> (r: String)
    ensures
        r@ == trim(s@),
{
    let t = trimmed_start(s);
    trimmed_end(t.as_str())
}

/// A text is blank just where nothing is left of it after trimming.
pub proof fn lemma_blank(s: Seq<char>)
    ensures
        blank(s) == (trim(s).len() == 0),
        blank(s) == (trim_start(s).len() == 0),
        blank(s) == (trim_end(s).len() == 0),
{
    lemma_blank_start(s);
    lemma_blank_end(s);
    lemma_blank_end(trim_start(s));
    if blank(s) {
        assert(trim_start(s) =~= Seq::<char>::empty());
    }
    if trim(s).len() == 0 {
        assert(blank(trim_start(s)));
        if trim_start(s).len() > 0 {
            lemma_trim_start_head(s);
            assert(is_space(trim_start(s)[0]));
        }
    }
}

/// A trimmed text has nothing left to trim.
pub proof fn lemma_trim_again(s: Seq<char>)
    ensures
        trim(trim(s)) == trim(s),
{
    let a = trim_start(s);
    let t = trim_end(a);
    lemma_trim_start_head(s);
    lemma_trim_end_tail(a);
    if t.len() > 0 {
        assert(t[0] == a[0]);
    }
    assert(trim_start(t) == t);
    assert(trim_end(t) == t);
}

pub proof fn lemma_trim_start_head(s: Seq<char>)
    ensures
        trim_start(s).len() > 0 ==> !is_space(trim_start(s)[0]),
    decreases s.len(),
{
    if s.len() > 0 && is_space(s[0]) {
        lemma_trim_start_head(s.skip(1));
    }
}

pub proof fn lemma_trim_end_tail(s: Seq<char>)
    ensures
        trim_end(s).len() > 0 ==> !is_space(trim_end(s).last()),
        trim_end(s).len() <= s.len(),
        trim_end(s) == s.take(trim_end(s).len() as int),
        forall|i: int| trim_end(s).len() <= i < s.len() ==> is_space(#[trigger] s[i]),
    decreases s.len(),
{
    if s.len() > 0 && is_space(s.last()) {
        let t = s.drop_last();
        lemma_trim_end_tail(t);
        assert(trim_end(s) =~= s.take(trim_end(s).len() as int));
        assert forall|i: int| trim_end(s).len() <= i < s.len() implies is_space(#[trigger] s[i]) by {
            if i < s.len() - 1 {
                assert(is_space(t[i]));
            }
        }
    } else {
        assert(s.take(s.len() as int) =~= s);
    }
}

proof fn lemma_blank_start(s: Seq<char>)
    ensures
        blank(s) == (trim_start(s).len() == 0),
    decreases s.len(),
{
    if s.len() > 0 && is_space(s[0]) {
        let t = s.skip(1);
        lemma_blank_start(t);
        if blank(s) {
            assert forall|i: int| 0 <= i < t.len() implies is_space(#[trigger] t[i]) by {
                assert(is_space(s[i + 1]));
            }
        }
        if blank(t) {
            assert forall|i: int| 0 <= i < s.len() implies is_space(#[trigger] s[i]) by {
                if i > 0 {
                    assert(is_space(t[i - 1]));
                }
            }
        }
    }
}

proof fn lemma_blank_end(s: Seq<char>)
    ensures
        blank(s) == (trim_end(s).len() == 0),
{
    lemma_trim_end_tail(s);
    if trim_end(s).len() > 0 {
        assert(trim_end(s).last() == s[trim_end(s).len() - 1]);
    }
}

/// Whether there is nothing but white space.
pub fn is_blank(s: &str) -> (r: bool)
    ensures
        r == blank(s@),
        r == (trim(s@).len() == 0),
{
    let t = trimmed(s);
    proof {
        lemma_blank(s@);
    }
    char_count(t.as_str()) == 0
}

/// Drops the `c` at the front.
pub fn dropped_front(s: &str, c: char) -> (r: String)
    ensures
        r@ == drop_front(s@, c),
{
    let v = chars_of(s);
    let mut i: usize = 0;
    assert(v@.skip(0) =~= v@);
    while i < v.len() && v[i] == c
        invariant
            i <= v@.len(),
            v@ == s@,
            drop_front(s@, c) == drop_front(v@.skip(i as int), c),
        decreases v@.len() - i,
    {
        assert(v@.skip(i as int).skip(1) =~= v@.skip(i + 1));
        i = i + 1;
    }
    string_between(&v, i, v.len())
}

/// Drops the `c` at the end.
pub fn dropped_back(s: &str, c: char) -> (r: String)
    ensures
        r@ == drop_back(s@, c),
{
    let v = chars_of(s);
    let mut i: usize = v.len();
    assert(v@.take(i as int) =~= v@);
    while i > 0 && v[i - 1] == c
        invariant
            i <= v@.len(),
            v@ == s@,
            drop_back(s@, c) == drop_back(v@.take(i as int), c),
        decreases i,
    {
        assert(v@.take(i as int).drop_last() =~= v@.take(i - 1));
        i = i - 1;
    }
    let r = string_between(&v, 0, i);
    assert(r@ =~= v@.take(i as int));
    r
}

/// Drops the repetitions of `p` at the end.
pub fn dropped_suffixes(s: &str, p: &str) -> (r: String)
    ensures
        r@ == drop_suffixes(s@, p@),
{
    let n = char_count(p);
    let mut r: String = s.to_owned();
    if n == 0 {
        return r;
    }
    while ends_with(r.as_str(), p)
        invariant
            n == p@.len(),
            n > 0,
            drop_suffixes(s@, p@) == drop_suffixes(r@, p@),
        decreases r@.len(),
    {
        let m = char_count(r.as_str());
        let t = take_chars(r.as_str(), m - n);
        assert(t@ =~= r@.take(r@.len() - p@.len()));
        r = t;
    }
    r
}

/// Where the first `c` stands; the length where there is none.
pub fn position(v: &Vec<char>, from: usize, c: char) -> (i: usize)
    requires
        from <= v@.len(),
    ensures
        from <= i <= v@.len(),
        i == from + index_of(v@.skip(from as int), c),
        i < v@.len() ==> v@[i as int] == c,
{
    let mut i: usize = from;
    while i < v.len() && v[i] != c
        invariant
            from <= i <= v@.len(),
            forall|j: int| from <= j < i ==> v@[j] != c,
        decreases v@.len() - i,
    {
        i = i + 1;
    }
    proof {
        lemma_index_of(v@.skip(from as int), c, i - from);
    }
    i
}

/// Whether `c` stands in `s`.
pub fn contains_char(s: &str, c: char) -> (r: bool)
    ensures
        r == s@.contains(c),
{
    let v = chars_of(s);
    let i = position(&v, 0, c);
    proof {
        assert(v@.skip(0) =~= v@);
        lemma_index_of_is(s@, c);
    }
    i < v.len()
}

/// The part before the first `c` and the part after it.
pub open spec fn cut_at(s: Seq<char>, c: char) -> Option<(Seq<char>, Seq<char>)> {
    let i = index_of(s, c);
    if i < s.len() {
        Some((s.take(i), s.skip(i + 1)))
    } else {
        None
    }
}

/// Cuts `s` at its first `c`.
pub fn split_once(s: &str, c: char) -> (r: Option<(String, String)>)
    ensures
        (match r {
            Some(p) => Some((p.0@, p.1@)),
            None => None,
        }) == cut_at(s@, c),
{
    let v = chars_of(s);
    let i = position(&v, 0, c);
    assert(v@.skip(0) =~= v@);
    if i < v.len() {
        let a = string_between(&v, 0, i);
        let b = string_between(&v, i + 1, v.len());
        assert(a@ =~= s@.take(i as int));
        assert(b@ =~= s@.skip(i + 1));
        Some((a, b))
    } else {
        None
    }
}

/// The part before the last `c` and the part after it.
pub open spec fn cut_at_last(s: Seq<char>, c: char) -> Option<(Seq<char>, Seq<char>)> {
    let i = last_index_of(s, c);
    if i >= 0 {
        Some((s.take(i), s.skip(i + 1)))
    } else {
        None
    }
}

/// Cuts `s` at its last `c`.
pub fn rsplit_once(s: &str, c: char) -> (r: Option<(String, String)>)
    ensures
        (match r {
            Some(p) => Some((p.0@, p.1@)),
            None => None,
        }) == cut_at_last(s@, c),
{
    let v = chars_of(s);
    let mut i: usize = v.len();
    while i > 0 && v[i - 1] != c
        invariant
            i <= v@.len(),
            forall|j: int| i <= j < v@.len() ==> v@[j] != c,
        decreases i,
    {
        i = i - 1;
    }
    proof {
        lemma_last_index_of(v@, c, i - 1);
    }
    if i > 0 {
        let a = string_between(&v, 0, i - 1);
        let b = string_between(&v, i, v.len());
        assert(a@ =~= s@.take(i - 1));
        assert(b@ =~= s@.skip(i as int));
        Some((a, b))
    } else {
        None
    }
}

/// Pushes onto a list of strings one whose text is `x`.
pub proof fn lemma_views_push(list: Seq<String>, s: String)
    ensures
        views(list.push(s)) == views(list).push(s@),
{
    assert(views(list.push(s)) =~= views(list).push(s@));
}

/// The pieces of `s` between the occurrences of `c`.
pub fn split(s: &str, c: char) -> (out: Vec<String>)
    ensures
        views(out@) == split_on(s@, c),
{
    let v = chars_of(s);
    let mut out: Vec<String> = Vec::new();
    let mut start: usize = 0;
    let mut i = position(&v, 0, c);
    assert(v@.skip(0) =~= v@);
    assert(views(out@) + split_on(v@, c) =~= split_on(v@, c));
    while i < v.len()
        invariant
            v@ == s@,
            start <= i <= v@.len(),
            i == start + index_of(v@.skip(start as int), c),
            views(out@) + split_on(v@.skip(start as int), c) == split_on(s@, c),
        decreases v@.len() - i,
    {
        let piece = string_between(&v, start, i);
        proof {
            let rest = v@.skip(start as int);
            assert(rest.take(i - start) =~= piece@);
            assert(rest.skip(i - start + 1) =~= v@.skip(i + 1));
            lemma_views_push(out@, piece);
            assert(views(out@) + (seq![piece@] + split_on(v@.skip(i + 1), c)) =~= views(out@).push(
                piece@,
            ) + split_on(v@.skip(i + 1), c));
        }
        out.push(piece);
        start = i + 1;
        i = position(&v, start, c);
    }
    let piece = string_between(&v, start, v.len());
    proof {
        assert(piece@ =~= v@.skip(start as int));
        lemma_views_push(out@, piece);
        assert(views(out@) + seq![piece@] =~= views(out@).push(piece@));
    }
    out.push(piece);
    out
}

/// The lines of `s`.
pub fn line_list(s: &str) -> (out: Vec<String>)
    ensures
        views(out@) == lines(s@),
{
    let v = chars_of(s);
    let mut out: Vec<String> = Vec::new();
    let mut start: usize = 0;
    assert(v@.skip(0) =~= v@);
    assert(views(out@) + lines(v@) =~= lines(v@));
    while start < v.len()
        invariant
            v@ == s@,
            start <= v@.len(),
            views(out@) + lines(v@.skip(start as int)) == lines(s@),
        decreases v@.len() - start,
    {
        let i = position(&v, start, '\n');
        let to: usize = if i < v.len() && i > start && v[i - 1] == '\r' {
            i - 1
        } else {
            i
        };
        let piece = string_between(&v, start, to);
        let next: usize = if i < v.len() {
            i + 1
        } else {
            i
        };
        proof {
            let rest = v@.skip(start as int);
            let k = i - start;
            assert(k == index_of(rest, '\n'));
            if i < v.len() {
                assert(rest.take(k) =~= v@.subrange(start as int, i as int));
                assert(piece@ =~= strip_cr(rest.take(k)));
                assert(rest.skip(k + 1) =~= v@.skip(next as int));
            } else {
                assert(piece@ =~= rest);
                assert(v@.skip(next as int) =~= Seq::<char>::empty());
                assert(lines(rest) =~= seq![piece@] + lines(v@.skip(next as int)));
            }
            lemma_views_push(out@, piece);
            assert(views(out@) + (seq![piece@] + lines(v@.skip(next as int))) =~= views(out@).push(
                piece@,
            ) + lines(v@.skip(next as int)));
        }
        out.push(piece);
        start = next;
    }
    assert(v@.skip(start as int) =~= Seq::<char>::empty());
    assert(views(out@) + Seq::<Seq<char>>::empty() =~= views(out@));
    out
}

/// The words of `s`.
pub fn word_list(s: &str) -> (out: Vec<String>)
    ensures
        views(out@) == words(s@),
{
    let v = chars_of(s);
    let mut out: Vec<String> = Vec::new();
    let mut start: usize = 0;
    assert(v@.skip(0) =~= v@);
    assert(views(out@) + words(v@) =~= words(v@));
    loop
        invariant
            v@ == s@,
            start <= v@.len(),
            views(out@) + words(v@.skip(start as int)) == words(s@),
        ensures
            views(out@) == words(s@),
        decreases v@.len() - start,
    {
        let ghost rest = v@.skip(start as int);
        let mut i: usize = start;
        while i < v.len() && space(v[i])
            invariant
                start <= i <= v@.len(),
                forall|j: int| start <= j < i ==> is_space(#[trigger] v@[j]),
            decreases v@.len() - i,
        {
            i = i + 1;
        }
        proof {
            assert forall|j: int| 0 <= j < i - start implies is_space(#[trigger] rest[j]) by {
                assert(is_space(v@[start + j]));
            }
            lemma_trim_start(rest, i - start);
            assert(rest.skip(i - start) =~= v@.skip(i as int));
        }
        if i == v.len() {
            assert(views(out@) + Seq::<Seq<char>>::empty() =~= views(out@));
            break;
        }
        let mut k: usize = i;
        while k < v.len() && !space(v[k])
            invariant
                i <= k <= v@.len(),
                forall|j: int| i <= j < k ==> !is_space(#[trigger] v@[j]),
            decreases v@.len() - k,
        {
            k = k + 1;
        }
        let piece = string_between(&v, i, k);
        proof {
            let t = v@.skip(i as int);
            assert forall|j: int| 0 <= j < k - i implies !is_space(#[trigger] t[j]) by {
                assert(!is_space(v@[i + j]));
            }
            lemma_space_at(t, k - i);
            assert(t.take(k - i) =~= piece@);
            assert(t.skip(k - i) =~= v@.skip(k as int));
            assert(words(rest) == seq![piece@] + words(v@.skip(k as int)));
            lemma_views_push(out@, piece);
            assert(views(out@) + (seq![piece@] + words(v@.skip(k as int))) =~= views(out@).push(
                piece@,
            ) + words(v@.skip(k as int)));
            assert(is_space(v@[i as int]) == false);
            assert(k > i);
        }
        out.push(piece);
        start = k;
    }
    out
}

/// The strings in order, with `sep` between neighbours.
pub fn join_list(list: &Vec<String>, sep: &str) -> (r: String)
    ensures
        r@ == join(views(list@), sep@),
{
    let mut r: String = String::new();
    let mut i: usize = 0;
    while i < list.len()
        invariant
            i <= list@.len(),
            r@ == join(views(list@.take(i as int)), sep@),
        decreases list@.len() - i,
    {
        proof {
            assert(list@.take(i + 1) =~= list@.take(i as int).push(list@[i as int]));
            lemma_views_push(list@.take(i as int), list@[i as int]);
            lemma_join_push(views(list@.take(i as int)), list@[i as int]@, sep@);
        }
        if i > 0 {
            r.append(sep);
        } else {
            assert(views(list@.take(0)) =~= Seq::<Seq<char>>::empty());
            assert(r@ + list@[0]@ =~= list@[0]@);
        }
        r.append(list[i].as_str());
        i = i + 1;
    }
    assert(list@.take(i as int) =~= list@);
    r
}

/// `s`, `n` times over.
pub fn repeated(s: &str, n: usize) -> (r: String)
    ensures
        r@ == repeat(s@, n as nat),
{
    let mut r: String = String::new();
    let mut i: usize = 0;
    while i < n
        invariant
            i <= n,
            r@ == repeat(s@, i as nat),
        decreases n - i,
    {
        r.append(s);
        i = i + 1;
    }
    r
}

/// The text with every `c` replaced by `by`.
pub fn replaced_char(s: &str, c: char, by: &str) -> (r: String)
    ensures
        r@ == replace_char(s@, c, by@),
{
    let v = chars_of(s);
    let mut r: String = String::new();
    let mut i: usize = 0;
    while i < v.len()
        invariant
            v@ == s@,
            i <= v@.len(),
            r@ == replace_char(v@.take(i as int), c, by@),
        decreases v@.len() - i,
    {
        assert(v@.take(i + 1).drop_last() =~= v@.take(i as int));
        if v[i] == c {
            r.append(by);
        } else {
            assert(r@ + seq![v@[i as int]] =~= r@.push(v@[i as int]));
            r.push(v[i]);
        }
        i = i + 1;
    }
    assert(v@.take(i as int) =~= s@);
    r
}

/// Makes an ASCII capital small.
pub fn lowered_char(c: char) -> (r: char)
    ensures
        r == lower_char(c),
{
    if 'A' <= c && c <= 'Z' {
        ((c as u8) + 32) as char
    } else {
        c
    }
}

/// Makes the ASCII capitals small.
pub fn lowered(s: &str) -> (r: String)
    ensures
        r@ == lower(s@),
{
    let v = chars_of(s);
    let mut r: String = String::new();
    let mut i: usize = 0;
    while i < v.len()
        invariant
            v@ == s@,
            i <= v@.len(),
            r@ == lower(v@.take(i as int)),
        decreases v@.len() - i,
    {
        r.push(lowered_char(v[i]));
        assert(r@ =~= lower(v@.take(i + 1)));
        i = i + 1;
    }
    assert(v@.take(i as int) =~= s@);
    r
}

/// A number in decimal.
pub fn decimal_of(n: u64) -> (r: String)
    ensures
        r@ == decimal(n as nat),
    decreases n,
{
    let d = ((n % 10) as u8 + 48) as char;
    let mut r: String = if n < 10 {
        String::new()
    } else {
        decimal_of(n / 10)
    };
    r.push(d);
    r
}

/// An integer in decimal.
pub fn signed_decimal_of(n: i64) -> (r: String)
    ensures
        r@ == signed_decimal(n as int),
{
    if n < 0 {
        let mut r: String = String::new();
        r.push('-');
        let m: u64 = (-(n as i128)) as u64;
        r.append(decimal_of(m).as_str());
        r
    } else {
        decimal_of(n as u64)
    }
}

/// The value of a run of digits, where it is one and at most `max`.
pub open spec fn bounded_number(s: Seq<char>, max: nat) -> Option<nat> {
    if all_digits(s) && number_of(s) <= max {
        Some(number_of(s))
    } else {
        None
    }
}

/// An unsigned number as `str::parse` reads it: digits, with or without a plus.
pub open spec fn unsigned(s: Seq<char>, max: nat) -> Option<nat> {
    if s.len() > 0 && s[0] == '+' {
        bounded_number(s.skip(1), max)
    } else {
        bounded_number(s, max)
    }
}

/// A run of digits has at least the value of each of its beginnings.
proof fn lemma_number_grows(s: Seq<char>, i: int)
    requires
        0 <= i <= s.len(),
        all_digits(s),
    ensures
        number_of(s.take(i)) <= number_of(s),
    decreases s.len() - i,
{
    if i < s.len() {
        let t = s.take(i + 1);
        assert(t.drop_last() =~= s.take(i));
        assert(is_digit(s[i]));
        lemma_number_grows(s, i + 1);
    } else {
        assert(s.take(i) =~= s);
    }
}

fn digits_value(v: &Vec<char>, from: usize, max: u64) -> (r: Option<u64>)
    requires
        from <= v@.len(),
    ensures
        (match r {
            Some(n) => Some(n as nat),
            None => None,
        }) == bounded_number(v@.skip(from as int), max as nat),
{
    let ghost s = v@.skip(from as int);
    if from == v.len() {
        return None;
    }
    let mut n: u64 = 0;
    let mut i: usize = from;
    while i < v.len()
        invariant
            s == v@.skip(from as int),
            from <= i <= v@.len(),
            forall|j: int| from <= j < i ==> is_digit(#[trigger] v@[j]),
            n == number_of(s.take(i - from)),
            n <= max,
        decreases v@.len() - i,
    {
        let c = v[i];
        if !('0' <= c && c <= '9') {
            assert(!is_digit(s[i - from]));
            return None;
        }
        let d: u64 = (c as u32 - 48) as u64;
        proof {
            assert(s.take(i - from + 1).drop_last() =~= s.take(i - from));
        }
        let wide: u128 = (n as u128) * 10 + (d as u128);
        if wide > max as u128 {
            proof {
                if all_digits(s) {
                    lemma_number_grows(s, i - from + 1);
                }
            }
            return None;
        }
        n = wide as u64;
        i = i + 1;
    }
    proof {
        assert(s.take(i - from) =~= s);
        assert forall|j: int| 0 <= j < s.len() implies is_digit(#[trigger] s[j]) by {
            assert(is_digit(v@[from + j]));
        }
    }
    Some(n)
}

/// Reads an unsigned number of at most `max`.
pub fn parse_unsigned(s: &str, max: u64) -> (r: Option<u64>)
    ensures
        (match r {
            Some(n) => Some(n as nat),
            None => None,
        }) == unsigned(s@, max as nat),
{
    let v = chars_of(s);
    if v.len() > 0 && v[0] == '+' {
        digits_value(&v, 1, max)
    } else {
        assert(v@.skip(0) =~= v@);
        digits_value(&v, 0, max)
    }
}

/// Whether `p` stands in `v` at `from`.
pub fn stands_at(v: &Vec<char>, from: usize, p: &Vec<char>) -> (r: bool)
    requires
        from <= v@.len(),
    ensures
        r == p@.is_prefix_of(v@.skip(from as int)),
{
    let ghost s = v@.skip(from as int);
    if p.len() > v.len() - from {
        return false;
    }
    let mut k: usize = 0;
    while k < p.len() && v[from + k] == p[k]
        invariant
            from <= v@.len(),
            p.len() <= v.len() - from,
            k <= p@.len(),
            forall|j: int| 0 <= j < k ==> v@[from + j] == p@[j],
        decreases p@.len() - k,
    {
        k = k + 1;
    }
    if k == p.len() {
        assert(p@ =~= s.subrange(0, p@.len() as int));
        true
    } else {
        assert(s.subrange(0, p@.len() as int)[k as int] != p@[k as int]);
        false
    }
}

/// Where `p` first stands in `v` from `from` on.
pub fn find_from(v: &Vec<char>, from: usize, p: &Vec<char>) -> (r: Option<usize>)
    requires
        from <= v@.len(),
    ensures
        (match r {
            Some(i) => Some(i - from),
            None => None,
        }) == find(v@.skip(from as int), p@),
        r matches Some(i) ==> from <= i && i + p@.len() <= v@.len(),
{
    let ghost whole = find(v@.skip(from as int), p@);
    let mut i: usize = from;
    while i < v.len()
        invariant
            from <= i <= v@.len(),
            whole == find(v@.skip(from as int), p@),
            whole == (match find(v@.skip(i as int), p@) {
                Some(k) => Some(k + (i - from)),
                None => None,
            }),
        decreases v@.len() - i,
    {
        if stands_at(v, i, p) {
            return Some(i);
        }
        assert(v@.skip(i as int).skip(1) =~= v@.skip(i + 1));
        i = i + 1;
    }
    if stands_at(v, i, p) {
        Some(i)
    } else {
        None
    }
}

/// Whether `p` stands in `s`.
pub fn contains_text(s: &str, p: &str) -> (r: bool)
    ensures
        r == has(s@, p@),
{
    let v = chars_of(s);
    let q = chars_of(p);
    assert(v@.skip(0) =~= v@);
    find_from(&v, 0, &q).is_some()
}

/// The pieces between the occurrences of `sep`.
pub open spec fn split_by(s: Seq<char>, sep: Seq<char>) -> Seq<Seq<char>>
    decreases s.len(),
{
    match find(s, sep) {
        Some(i) => if sep.len() > 0 && 0 <= i && i + sep.len() <= s.len() {
            seq![s.take(i)] + split_by(s.skip(i + sep.len()), sep)
        } else {
            seq![s]
        },
        None => seq![s],
    }
}

/// The pieces of `s` between the occurrences of `sep`.
pub fn split_text(s: &str, sep: &str) -> (out: Vec<String>)
    requires
        sep@.len() > 0,
    ensures
        views(out@) == split_by(s@, sep@),
{
    let v = chars_of(s);
    let p = chars_of(sep);
    let mut out: Vec<String> = Vec::new();
    let mut start: usize = 0;
    assert(v@.skip(0) =~= v@);
    assert(views(out@) + split_by(v@, p@) =~= split_by(v@, p@));
    loop
        invariant
            v@ == s@,
            p@ == sep@,
            p@.len() > 0,
            start <= v@.len(),
            views(out@) + split_by(v@.skip(start as int), p@) == split_by(s@, sep@),
        decreases v@.len() - start,
    {
        let ghost rest = v@.skip(start as int);
        match find_from(&v, start, &p) {
            Some(i) => {
                let piece = string_between(&v, start, i);
                assert(i + p.len() <= v.len());
                let next: usize = i + p.len();
                proof {
                    assert(rest.take(i - start) =~= piece@);
                    assert(rest.skip(i - start + p@.len()) =~= v@.skip(next as int));
                    lemma_views_push(out@, piece);
                    assert(views(out@) + (seq![piece@] + split_by(v@.skip(next as int), p@))
                        =~= views(out@).push(piece@) + split_by(v@.skip(next as int), p@));
                }
                out.push(piece);
                start = next;
            },
            None => {
                let piece = string_between(&v, start, v.len());
                proof {
                    assert(piece@ =~= rest);
                    lemma_views_push(out@, piece);
                    assert(views(out@) + seq![piece@] =~= views(out@).push(piece@));
                }
                out.push(piece);
                return out;
            },
        }
    }
}

/// Reads an integer of 64 bits: digits, with or without a minus.
pub fn parse_signed(s: &str) -> (r: Option<i64>)
    ensures
        r == (if s@.len() > 0 && s@[0] == '-' {
            match bounded_number(s@.skip(1), 0x8000_0000_0000_0000) {
                Some(n) => Some((-(n as int)) as i64),
                None => None,
            }
        } else {
            match bounded_number(s@, 0x7fff_ffff_ffff_ffff) {
                Some(n) => Some(n as i64),
                None => None,
            }
        }),
{
    let v = chars_of(s);
    if v.len() > 0 && v[0] == '-' {
        match digits_value(&v, 1, 0x8000_0000_0000_0000) {
            Some(n) => Some((-(n as i128)) as i64),
            None => None,
        }
    } else {
        assert(v@.skip(0) =~= v@);
        match digits_value(&v, 0, 0x7fff_ffff_ffff_ffff) {
            Some(n) => Some(n as i64),
            None => None,
        }
    }
}

/// The text with every `from` replaced by `to`.
pub open spec fn replace_text(s: Seq<char>, from: Seq<char>, to: Seq<char>) -> Seq<char> {
    join(split_by(s, from), to)
}

/// The text with every `from` replaced by `to`.
pub fn replaced_text(s: &str, from: &str, to: &str) -> (r: String)
    requires
        from@.len() > 0,
    ensures
        r@ == replace_text(s@, from@, to@),
{
    let parts = split_text(s, from);
    join_list(&parts, to)
}

/// A copy of an optional string.
pub fn copy_opt(s: &Option<String>) -> (r: Option<String>)
    ensures
        opt_view(r) == opt_view(*s),
{
    match s {
        Some(t) => Some(t.as_str().to_string()),
        None => None,
    }
}

/// The same texts.
pub fn copy_list(list: &Vec<String>) -> (r: Vec<String>)
    ensures
        views(r@) == views(list@),
{
    let ghost vs = views(list@);
    let mut r: Vec<String> = Vec::new();
    let mut i: usize = 0;
    assert(views(r@) =~= vs.take(0));
    while i < list.len()
        invariant
            i <= list@.len(),
            vs == views(list@),
            views(r@) == vs.take(i as int),
        decreases list@.len() - i,
    {
        let s = list[i].as_str().to_string();
        proof {
            lemma_views_push(r@, s);
            assert(vs.take(i + 1) =~= vs.take(i as int).push(s@));
        }
        r.push(s);
        i = i + 1;
    }
    assert(vs.take(i as int) =~= vs);
    r
}

}
