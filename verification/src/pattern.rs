//! Regular expressions: where one matches a text, as plain strings.

use crate::text;
use vstd::prelude::*;

verus! {

/// The optional texts that a list of optional strings holds.
pub open spec fn group_views(groups: Seq<Option<String>>) -> Seq<Option<Seq<char>>> {
    groups.map_values(|g: Option<String>| text::opt_view(g))
}

/// The groups of each match, as texts.
pub open spec fn match_views(groups: Seq<Vec<Option<String>>>) -> Seq<Seq<Option<Seq<char>>>> {
    groups.map_values(|g: Vec<Option<String>>| group_views(g@))
}

/// The texts between the matches of a pattern, one more than there are matches;
/// none where the pattern is not one.
pub uninterp spec fn regex_pieces(pattern: Seq<char>, text: Seq<char>) -> Option<Seq<Seq<char>>>;

/// The groups of each match of a pattern, the whole match first; none where
/// the pattern is not one.
pub uninterp spec fn regex_groups(pattern: Seq<char>, text: Seq<char>) -> Option<
    Seq<Seq<Option<Seq<char>>>>,
>;

/// `regex::Regex::split`: the texts between the matches.
#[verifier::external_body]
fn pieces_between(pattern: &str, text: &str) -> (r: Option<Vec<String>>)
    ensures
        (match r {
            Some(v) => Some(text::views(v@)),
            None => None,
        }) == regex_pieces(pattern@, text@),
{
    let re = regex::Regex::new(pattern).ok()?;
    Some(re.split(text).map(String::from).collect())
}

/// `regex::Regex::captures_iter`: the groups of each match. The matches are
/// those that `split` cuts at, so there is one less than there are pieces.
#[verifier::external_body]
fn groups_of(pattern: &str, text: &str) -> (r: Option<Vec<Vec<Option<String>>>>)
    ensures
        (match r {
            Some(v) => Some(match_views(v@)),
            None => None,
        }) == regex_groups(pattern@, text@),
        r is Some == regex_pieces(pattern@, text@) is Some,
        r matches Some(v) ==> regex_pieces(pattern@, text@)->0.len() == v@.len() + 1,
{
    let re = regex::Regex::new(pattern).ok()?;
    let texts = |c: regex::Captures| {
        c.iter().map(|g| g.map(|m| m.as_str().to_string())).collect::<Vec<_>>()
    };
    Some(re.captures_iter(text).map(texts).collect())
}

/// Where a pattern matches a text: the texts between the matches, and the
/// groups of each match.
pub struct Found {
    pub pieces: Vec<String>,
    pub groups: Vec<Vec<Option<String>>>,
}

/// A `Found` as mathematical values.
pub ghost struct FoundView {
    pub pieces: Seq<Seq<char>>,
    pub groups: Seq<Seq<Option<Seq<char>>>>,
}

impl View for Found {
    type V = FoundView;

    open spec fn view(&self) -> FoundView {
        FoundView { pieces: text::views(self.pieces@), groups: match_views(self.groups@) }
    }
}

impl FoundView {
    /// There is a text before the first match, after the last, and between
    /// neighbours.
    pub open spec fn wf(self) -> bool {
        self.pieces.len() == self.groups.len() + 1
    }

    /// Group `k` of match `i`; none where it took no part or there is none.
    pub open spec fn group(self, i: int, k: int) -> Option<Seq<char>> {
        if 0 <= k < self.groups[i].len() {
            self.groups[i][k]
        } else {
            None
        }
    }
}

/// Where `pattern` matches `text`: nowhere, where it is no pattern.
pub open spec fn found_in(pattern: Seq<char>, text: Seq<char>) -> FoundView {
    match regex_pieces(pattern, text) {
        Some(pieces) => FoundView { pieces, groups: regex_groups(pattern, text)->0 },
        None => FoundView { pieces: seq![text], groups: Seq::empty() },
    }
}

/// Finds all matches of `pattern` in `text`.
pub fn search(pattern: &str, text: &str) -> (r: Found)
    ensures
        r@ == found_in(pattern@, text@),
        r@.wf(),
{
    match (pieces_between(pattern, text), groups_of(pattern, text)) {
        (Some(pieces), Some(groups)) => Found { pieces, groups },
        _ => {
            let mut pieces: Vec<String> = Vec::new();
            pieces.push(text.to_string());
            let r = Found { pieces, groups: Vec::new() };
            assert(r@.pieces =~= seq![text@]);
            assert(r@.groups =~= Seq::<Seq<Option<Seq<char>>>>::empty());
            r
        },
    }
}

impl Found {
    /// Group `k` of match `i`.
    pub fn group_text(&self, i: usize, k: usize) -> (r: Option<String>)
        requires
            i < self.groups@.len(),
        ensures
            text::opt_view(r) == self@.group(i as int, k as int),
    {
        assert(self@.groups[i as int] == group_views(self.groups@[i as int]@));
        if k < self.groups[i].len() {
            match &self.groups[i][k] {
                Some(s) => Some(s.as_str().to_string()),
                None => None,
            }
        } else {
            None
        }
    }
}

/// The first `n + 1` pieces with the first `n` fills between them.
pub open spec fn woven(pieces: Seq<Seq<char>>, fills: Seq<Seq<char>>, n: nat) -> Seq<char>
    decreases n,
{
    if n == 0 {
        pieces[0]
    } else {
        woven(pieces, fills, (n - 1) as nat) + fills[n - 1] + pieces[n as int]
    }
}

/// The pieces with a fill in each gap.
pub fn weave(pieces: &Vec<String>, fills: &Vec<String>) -> (r: String)
    requires
        pieces@.len() == fills@.len() + 1,
    ensures
        r@ == woven(text::views(pieces@), text::views(fills@), fills@.len()),
{
    let mut r: String = pieces[0].as_str().to_string();
    let mut i: usize = 0;
    while i < fills.len()
        invariant
            pieces@.len() == fills@.len() + 1,
            i <= fills@.len(),
            r@ == woven(text::views(pieces@), text::views(fills@), i as nat),
        decreases fills@.len() - i,
    {
        r.append(fills[i].as_str());
        r.append(pieces[i + 1].as_str());
        i = i + 1;
    }
    r
}

}
