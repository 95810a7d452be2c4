//! Small shared helpers.

use crate::json;
use crate::json::Json;
use crate::text;
use vstd::prelude::*;

verus! {

/// Whether a character has Unicode's `Alphabetic` property.
pub uninterp spec fn alphabetic(c: char) -> bool;

/// Whether a character is numeric by its Unicode category.
pub uninterp spec fn numeric(c: char) -> bool;

/// `char::is_alphabetic`. Among the ASCII characters these are the letters.
pub assume_specification[ char::is_alphabetic ](c: char) -> (b: bool)
    ensures
        b == alphabetic(c),
        (c as u32) < 128 ==> b == (('a' <= c && c <= 'z') || ('A' <= c && c <= 'Z')),
;

/// `char::is_alphanumeric`: alphabetic or numeric. Among the ASCII characters
/// these are the letters and the digits.
pub assume_specification[ char::is_alphanumeric ](c: char) -> (b: bool)
    ensures
        b == (alphabetic(c) || numeric(c)),
        (c as u32) < 128 ==> b == text::is_ascii_word(c),
;

/// Whether a character is a letter.
pub open spec fn is_letter(c: char) -> bool {
    if (c as u32) < 128 {
        ('a' <= c && c <= 'z') || ('A' <= c && c <= 'Z')
    } else {
        alphabetic(c)
    }
}

/// Whether a character belongs to a word: a letter, digit or underscore.
pub open spec fn is_word_char(c: char) -> bool {
    if (c as u32) < 128 {
        text::is_ascii_word(c) || c == '_'
    } else {
        alphabetic(c) || numeric(c)
    }
}

fn letter(c: char) -> (r: bool)
    ensures
        r == is_letter(c),
{
    c.is_alphabetic()
}

fn word_char(c: char) -> (r: bool)
    ensures
        r == is_word_char(c),
{
    c.is_alphanumeric() || c == '_'
}

/// `rand::random` for a 32-bit word: any word may come.
#[verifier::external_body]
fn random_word() -> u32 {
    rand::random::<u32>()
}

/// The draft id that a random word gives: its low 31 bits, unless they are zero.
pub fn draft_id_of(word: u32) -> (id: Option<i64>)
    ensures
        id == (if word % 0x8000_0000 != 0 {
            Some((word % 0x8000_0000) as i64)
        } else {
            None
        }),
{
    let low: u32 = word & 0x7fff_ffff;
    assert(low == word % 0x8000_0000) by (bit_vector)
        requires
            low == word & 0x7fff_ffffu32,
    ;
    if low != 0 {
        Some(low as i64)
    } else {
        None
    }
}

/// Non-zero positive draft id for `sendMessageDraft` / `sendRichMessageDraft`.
/// A word that gives none is drawn again.
pub fn new_draft_id() -> (id: i64)
    ensures
        0 < id <= 0x7fff_ffff,
{
    let mut left: u64 = u64::MAX;
    while left > 0
        decreases left,
    {
        match draft_id_of(random_word()) {
            Some(id) => {
                return id;
            },
            None => {},
        }
        left = left - 1;
    }
    1
}

/// The characters of a token, as a text.
pub open spec fn token_alphabet() -> Seq<char> {
    "ABCDEFGHIJKLMNOPQRSTUVWXYZabcdefghijklmnopqrstuvwxyz0123456789_-"@
}

/// The token that random words give: a character for each.
pub open spec fn token(words: Seq<u32>) -> Seq<char> {
    words.map_values(|w: u32| token_alphabet()[(w % 64) as int])
}

/// Turns random words into a token.
pub fn token_of(words: &Vec<u32>) -> (r: String)
    ensures
        r@ == token(words@),
{
    let alphabet = text::chars_of(
        "ABCDEFGHIJKLMNOPQRSTUVWXYZabcdefghijklmnopqrstuvwxyz0123456789_-",
    );
    proof {
        reveal_strlit("ABCDEFGHIJKLMNOPQRSTUVWXYZabcdefghijklmnopqrstuvwxyz0123456789_-");
    }
    let mut r: String = String::new();
    let mut i: usize = 0;
    while i < words.len()
        invariant
            i <= words@.len(),
            alphabet@ == token_alphabet(),
            alphabet@.len() == 64,
            r@ == token(words@.take(i as int)),
        decreases words@.len() - i,
    {
        r.push(alphabet[(words[i] % 64) as usize]);
        assert(r@ =~= token(words@.take(i + 1)));
        i = i + 1;
    }
    assert(words@.take(i as int) =~= words@);
    r
}

/// A random token of `len` characters.
pub fn random_token(len: usize) -> (r: String)
    ensures
        r@.len() == len,
        forall|i: int| 0 <= i < len ==> token_alphabet().contains(#[trigger] r@[i]),
{
    let mut words: Vec<u32> = Vec::new();
    let mut i: usize = 0;
    while i < len
        invariant
            i <= len,
            words@.len() == i,
        decreases len - i,
    {
        words.push(random_word());
        i = i + 1;
    }
    let r = token_of(&words);
    proof {
        reveal_strlit("ABCDEFGHIJKLMNOPQRSTUVWXYZabcdefghijklmnopqrstuvwxyz0123456789_-");
        assert forall|i: int| 0 <= i < len implies token_alphabet().contains(#[trigger] r@[i]) by {
            assert(r@[i] == token_alphabet()[(words@[i] % 64) as int]);
        }
    }
    r
}

/// At most `max` characters of `s`, the last of them an ellipsis where some
/// are left out.
pub open spec fn truncated(s: Seq<char>, max: nat) -> Seq<char> {
    if s.len() <= max {
        s
    } else if max == 0 {
        Seq::empty()
    } else {
        s.take(max - 1).push('…')
    }
}

/// Truncate to at most `max` characters, appending an ellipsis when cut.
pub fn truncate_chars(s: &str, max: usize) -> (r: String)
    ensures
        r@ == truncated(s@, max as nat),
        r@.len() <= max,
{
    if text::char_count(s) <= max {
        return s.to_string();
    }
    if max == 0 {
        return String::new();
    }
    let mut r = text::take_chars(s, max - 1);
    r.push('…');
    r
}

/// The characters that no file name may hold.
pub open spec fn forbidden_in_name(c: char) -> bool {
    c == '/' || c == '\\' || c == '\0' || c == ':' || c == '*' || c == '?' || c == '"' || c == '<'
        || c == '>' || c == '|'
}

/// A name without forbidden characters, outer white space and leading dots.
pub open spec fn cleaned_name(name: Seq<char>) -> Seq<char> {
    text::drop_front(text::trim(name.filter(|c: char| !forbidden_in_name(c))), '.')
}

/// The file name that stands for `name`.
pub open spec fn safe_name(name: Seq<char>, fallback: Seq<char>) -> Seq<char> {
    if cleaned_name(name).len() == 0 {
        fallback
    } else {
        text::first_chars(cleaned_name(name), 120)
    }
}

/// Sanitize a filename coming from an external system.
pub fn safe_filename(name: &str, fallback: &str) -> (r: String)
    ensures
        r@ == safe_name(name@, fallback@),
{
    let v = text::chars_of(name);
    let ghost keep = |c: char| !forbidden_in_name(c);
    let mut kept: String = String::new();
    let mut i: usize = 0;
    while i < v.len()
        invariant
            i <= v@.len(),
            v@ == name@,
            keep == (|c: char| !forbidden_in_name(c)),
            kept@ == v@.take(i as int).filter(keep),
        decreases v@.len() - i,
    {
        let c = v[i];
        proof {
            assert(v@.take(i + 1) =~= v@.take(i as int).push(c));
            v@.take(i as int).lemma_filter_push(c, keep);
        }
        if !(c == '/' || c == '\\' || c == '\0' || c == ':' || c == '*' || c == '?' || c == '"' || c
            == '<' || c == '>' || c == '|') {
            kept.push(c);
        }
        i = i + 1;
    }
    assert(v@.take(i as int) =~= name@);
    let inner = text::trimmed(kept.as_str());
    let cleaned = text::dropped_front(inner.as_str(), '.');
    if text::char_count(cleaned.as_str()) == 0 {
        fallback.to_string()
    } else {
        text::take_chars(cleaned.as_str(), 120)
    }
}

/// How many characters at the front belong to a word.
pub open spec fn word_len(s: Seq<char>) -> nat
    decreases s.len(),
{
    if s.len() > 0 && is_word_char(s[0]) {
        1 + word_len(s.skip(1))
    } else {
        0
    }
}

/// A Python constant as JSON writes it; any other word as it is.
pub open spec fn json_word(word: Seq<char>) -> Seq<char> {
    if word == "True"@ {
        "true"@
    } else if word == "False"@ {
        "false"@
    } else if word == "None"@ {
        "null"@
    } else {
        word
    }
}

/// A Python `repr` rewritten as JSON; `quote` is the quote of the string that
/// the text starts in.
pub open spec fn repr_as_json(s: Seq<char>, quote: Option<char>) -> Seq<char>
    decreases s.len(),
{
    if s.len() == 0 {
        Seq::empty()
    } else {
        match quote {
            Some(q) => if s[0] == '\\' && s.len() > 1 {
                (if s[1] == q {
                    if q == '\'' {
                        "'"@
                    } else {
                        "\\\""@
                    }
                } else {
                    seq![s[0], s[1]]
                }) + repr_as_json(s.skip(2), quote)
            } else if s[0] == q {
                "\""@ + repr_as_json(s.skip(1), None)
            } else if s[0] == '"' && q == '\'' {
                "\\\""@ + repr_as_json(s.skip(1), quote)
            } else if s[0] == '\n' {
                "\\n"@ + repr_as_json(s.skip(1), quote)
            } else {
                seq![s[0]] + repr_as_json(s.skip(1), quote)
            },
            None => if s[0] == '\'' || s[0] == '"' {
                "\""@ + repr_as_json(s.skip(1), Some(s[0]))
            } else if is_letter(s[0]) && 0 < word_len(s) <= s.len() {
                json_word(s.take(word_len(s) as int)) + repr_as_json(
                    s.skip(word_len(s) as int),
                    None,
                )
            } else {
                seq![s[0]] + repr_as_json(s.skip(1), None)
            },
        }
    }
}

proof fn lemma_word_len(s: Seq<char>, n: int)
    requires
        0 <= n <= s.len(),
        forall|j: int| 0 <= j < n ==> is_word_char(#[trigger] s[j]),
        n < s.len() ==> !is_word_char(s[n]),
    ensures
        word_len(s) == n,
    decreases s.len(),
{
    if n > 0 {
        let t = s.skip(1);
        assert(is_word_char(s[0]));
        assert forall|j: int| 0 <= j < n - 1 implies is_word_char(#[trigger] t[j]) by {
            assert(is_word_char(s[j + 1]));
        }
        lemma_word_len(t, n - 1);
    }
}

/// Rewrites a Python `repr` as JSON.
pub fn repr_to_json_text(input: &str) -> (out: String)
    ensures
        out@ == repr_as_json(input@, None),
{
    let v = text::chars_of(input);
    let mut out: String = String::new();
    let mut quote: Option<char> = None;
    let mut i: usize = 0;
    assert(v@.skip(0) =~= v@);
    while i < v.len()
        invariant
            i <= v@.len(),
            v@ == input@,
            out@ + repr_as_json(v@.skip(i as int), quote) == repr_as_json(input@, None),
        decreases v@.len() - i,
    {
        let c = v[i];
        let ghost rest = v@.skip(i as int);
        let ghost before = out@;
        let ghost was = quote;
        let from: usize = i;
        match quote {
            Some(q) => {
                if c == '\\' && i + 1 < v.len() {
                    let n = v[i + 1];
                    if n == q {
                        if q == '\'' {
                            out.append("'");
                        } else {
                            out.append("\\\"");
                        }
                    } else {
                        out.push(c);
                        out.push(n);
                        assert(out@ =~= before + seq![c, n]);
                    }
                    i = i + 2;
                } else {
                    if c == q {
                        out.append("\"");
                        quote = None;
                    } else if c == '"' && q == '\'' {
                        out.append("\\\"");
                    } else if c == '\n' {
                        out.append("\\n");
                    } else {
                        out.push(c);
                        assert(out@ =~= before + seq![c]);
                    }
                    i = i + 1;
                }
            },
            None => {
                if c == '\'' || c == '"' {
                    quote = Some(c);
                    out.append("\"");
                    i = i + 1;
                } else if letter(c) {
                    let mut k: usize = i;
                    while k < v.len() && word_char(v[k])
                        invariant
                            i <= k <= v@.len(),
                            forall|j: int| i <= j < k ==> is_word_char(#[trigger] v@[j]),
                        decreases v@.len() - k,
                    {
                        k = k + 1;
                    }
                    let word = text::string_between(&v, i, k);
                    proof {
                        assert forall|j: int| 0 <= j < k - i implies is_word_char(
                            #[trigger] rest[j],
                        ) by {
                            assert(is_word_char(v@[i + j]));
                        }
                        lemma_word_len(rest, k - i);
                        assert(word@ =~= rest.take(k - i));
                        assert(k > i);
                    }
                    if text::same(word.as_str(), "True") {
                        out.append("true");
                    } else if text::same(word.as_str(), "False") {
                        out.append("false");
                    } else if text::same(word.as_str(), "None") {
                        out.append("null");
                    } else {
                        out.append(word.as_str());
                    }
                    i = k;
                } else {
                    out.push(c);
                    assert(out@ =~= before + seq![c]);
                    i = i + 1;
                }
            },
        }
        proof {
            let n = i - from;
            assert(rest.skip(n) =~= v@.skip(i as int));
            let piece = out@.skip(before.len() as int);
            assert(out@ =~= before + piece);
            assert(repr_as_json(rest, was) =~= piece + repr_as_json(v@.skip(i as int), quote));
            assert(out@ + repr_as_json(v@.skip(i as int), quote) =~= before + repr_as_json(
                rest,
                was,
            ));
        }
    }
    assert(out@ + Seq::<char>::empty() =~= out@);
    out
}

/// The value of a text that is JSON or a Python `repr`.
pub open spec fn repr_value(input: Seq<char>) -> Option<json::JsonView> {
    match json::json_text(input) {
        Some(v) => Some(v),
        None => json::json_text(repr_as_json(input, None)),
    }
}

/// Best-effort conversion of a Python `repr` dict/list string into JSON.
/// DocsGPT tool results are Python reprs; this handles the common shapes.
pub fn python_repr_to_json(input: &str) -> (r: Option<Json>)
    ensures
        json::opt_view(r) == repr_value(input@),
{
    match json::parse_json(input) {
        Some(v) => Some(v),
        None => {
            let rewritten = repr_to_json_text(input);
            json::parse_json(rewritten.as_str())
        },
    }
}

/// A file name that was made safe holds no forbidden character, does not start
/// with a dot and has at most 120 characters, unless it is the fallback.
pub proof fn safe_names_are_safe(name: Seq<char>, fallback: Seq<char>)
    requires
        safe_name(name, fallback) != fallback,
    ensures
        0 < safe_name(name, fallback).len() <= 120,
        safe_name(name, fallback)[0] != '.',
        forall|i: int|
            0 <= i < safe_name(name, fallback).len() ==> !forbidden_in_name(
                #[trigger] safe_name(name, fallback)[i],
            ),
{
    let keep = |c: char| !forbidden_in_name(c);
    let kept = name.filter(keep);
    let start = text::trim_start(kept);
    let inner = text::trim(kept);
    let cleaned = cleaned_name(name);
    lemma_trim_start_sub(kept);
    text::lemma_trim_end_tail(start);
    lemma_drop_front_sub(inner, '.');
    let safe = safe_name(name, fallback);
    assert forall|i: int| 0 <= i < safe.len() implies !forbidden_in_name(
        #[trigger] safe[i],
    ) by {
        assert(safe[i] == cleaned[i]);
        let a = inner.len() - cleaned.len();
        assert(cleaned[i] == inner[a + i]);
        assert(inner[a + i] == start[a + i]);
        let b = kept.len() - start.len();
        assert(start[a + i] == kept[b + a + i]);
        name.lemma_filter_pred(keep, b + a + i);
        assert(keep(kept[b + a + i]));
    }
}

proof fn lemma_trim_start_sub(s: Seq<char>)
    ensures
        text::trim_start(s).len() <= s.len(),
        forall|i: int|
            0 <= i < text::trim_start(s).len() ==> #[trigger] text::trim_start(s)[i] == s[s.len()
                - text::trim_start(s).len() + i],
    decreases s.len(),
{
    if s.len() > 0 && text::is_space(s[0]) {
        lemma_trim_start_sub(s.skip(1));
    }
}

proof fn lemma_drop_front_sub(s: Seq<char>, c: char)
    ensures
        text::drop_front(s, c).len() <= s.len(),
        text::drop_front(s, c).len() > 0 ==> text::drop_front(s, c)[0] != c,
        forall|i: int|
            0 <= i < text::drop_front(s, c).len() ==> #[trigger] text::drop_front(s, c)[i]
                == s[s.len() - text::drop_front(s, c).len() + i],
    decreases s.len(),
{
    if s.len() > 0 && s[0] == c {
        lemma_drop_front_sub(s.skip(1), c);
    }
}

}
