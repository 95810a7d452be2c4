//! Turning DocsGPT markdown into what Telegram accepts: Rich Markdown
//! (near-GFM) first, MarkdownV2 as a fallback, plain text as the last resort.

use crate::docsgpt::types;
use crate::docsgpt::types::Source;
use crate::telegram::laws;
use crate::telegram::markdown;
use crate::pattern;
use crate::pattern::Found;
use crate::telegram::v2;
use crate::text;
use crate::util;
use vstd::prelude::*;

pub use crate::telegram::v2::{escape_v2, render_events, render_table_monospace};

verus! {

/// The most characters of a text message.
pub const TG_TEXT_LIMIT: usize = 4096;

/// The most characters of a rich message that the bot sends.
pub const RICH_TEXT_LIMIT: usize = 30_000;

/// The blocks that a markdown text renders to.
pub open spec fn v2_blocks(md: Seq<char>) -> Seq<Seq<char>> {
    v2::rendered(markdown::markdown_events(md, true, true, true, true))
}

/// Convert markdown into MarkdownV2 blocks (paragraph-level units).
pub fn markdown_v2_blocks(md: &str) -> (blocks: Vec<String>)
    ensures
        text::views(blocks@) == v2_blocks(md@),
{
    let events = markdown::parse_markdown(md, true, true, true, true);
    render_events(&events)
}

/// Where a text longer than `limit` is cut: at the last line end of the first
/// `limit` characters, unless that leaves less than a quarter of them; then at
/// the last space, if there is one; and after `limit` characters where neither
/// leaves anything.
pub open spec fn cut_point(s: Seq<char>, limit: int) -> int {
    let window = s.take(limit);
    let line = text::last_index_of(window, '\n');
    let space = text::last_index_of(window, ' ');
    let chosen = if line < limit / 4 && space >= 0 {
        space
    } else {
        line
    };
    if chosen > 0 {
        chosen
    } else {
        limit
    }
}

/// Where the text goes on after the cut: a line end or space there is dropped.
pub open spec fn resume_point(s: Seq<char>, limit: int) -> int {
    let cut = cut_point(s, limit);
    if cut < s.len() && (s[cut] == '\n' || s[cut] == ' ') {
        cut + 1
    } else {
        cut
    }
}

/// The list of one text, or of none where it is blank.
pub open spec fn unless_blank(s: Seq<char>) -> Seq<Seq<char>> {
    if text::blank(s) {
        Seq::empty()
    } else {
        seq![s]
    }
}

/// A text cut into pieces of at most `limit` characters, without blank ones.
pub open spec fn plain_pieces(s: Seq<char>, limit: int) -> Seq<Seq<char>>
    decreases s.len(),
{
    if s.len() <= limit {
        unless_blank(s)
    } else if 0 < resume_point(s, limit) <= s.len() {
        unless_blank(text::trim_end(s.take(cut_point(s, limit)))) + plain_pieces(
            s.skip(resume_point(s, limit)),
            limit,
        )
    } else {
        Seq::empty()
    }
}

/// Whether cutting a text into pieces of `limit` characters comes to an end:
/// a limit of zero gets past line ends and spaces only.
pub open spec fn divisible(s: Seq<char>, limit: int) -> bool {
    limit > 0 || forall|i: int| 0 <= i < s.len() ==> (#[trigger] s[i] == '\n' || s[i] == ' ')
}

fn last_in_window(v: &Vec<char>, from: usize, limit: usize, c: char) -> (r: Option<usize>)
    requires
        from + limit <= v@.len(),
    ensures
        r is Some == (text::last_index_of(v@.skip(from as int).take(limit as int), c) >= 0),
        r matches Some(i) ==> i < limit && i == text::last_index_of(
            v@.skip(from as int).take(limit as int),
            c,
        ),
{
    let ghost window = v@.skip(from as int).take(limit as int);
    let mut i: usize = limit;
    while i > 0 && v[from + (i - 1)] != c
        invariant
            from + limit <= v@.len(),
            v.len() <= usize::MAX,
            i <= limit,
            window == v@.skip(from as int).take(limit as int),
            forall|j: int| i <= j < limit ==> #[trigger] window[j] != c,
        decreases i,
    {
        assert(window[i - 1] == v@[from + i - 1]);
        i = i - 1;
    }
    proof {
        if i > 0 {
            assert(window[i - 1] == v@[from + i - 1]);
        }
        text::lemma_last_index_of(window, c, i - 1);
    }
    if i > 0 {
        Some(i - 1)
    } else {
        None
    }
}

/// The end of the piece that starts at `from`.
fn find_cut(v: &Vec<char>, from: usize, limit: usize) -> (cut: usize)
    requires
        from + limit < v@.len(),
    ensures
        cut == cut_point(v@.skip(from as int), limit as int),
        cut <= limit,
        limit > 0 ==> cut > 0,
{
    let line = last_in_window(v, from, limit, '\n');
    let space = last_in_window(v, from, limit, ' ');
    let early: bool = match line {
        Some(i) => i < limit / 4,
        None => true,
    };
    let chosen: Option<usize> = if early && space.is_some() {
        space
    } else {
        line
    };
    match chosen {
        Some(i) => if i > 0 {
            i
        } else {
            limit
        },
        None => limit,
    }
}

/// Split plain text at newlines, then spaces, then hard — character-aware.
pub fn split_plain(text: &str, limit: usize) -> (out: Vec<String>)
    requires
        divisible(text@, limit as int),
    ensures
        text::views(out@) == plain_pieces(text@, limit as int),
{
    let v = text::chars_of(text);
    let mut out: Vec<String> = Vec::new();
    let mut from: usize = 0;
    assert(v@.skip(0) =~= v@);
    assert(text::views(out@) + plain_pieces(v@, limit as int) =~= plain_pieces(v@, limit as int));
    while v.len() - from > limit
        invariant
            v@ == text@,
            from <= v@.len(),
            divisible(text@, limit as int),
            text::views(out@) + plain_pieces(v@.skip(from as int), limit as int) == plain_pieces(
                text@,
                limit as int,
            ),
        decreases v@.len() - from,
    {
        let ghost rest = v@.skip(from as int);
        let cut = find_cut(&v, from, limit);
        let piece = text::string_between(&v, from, from + cut);
        let piece = text::trimmed_end(piece.as_str());
        let next: usize = if v[from + cut] == '\n' || v[from + cut] == ' ' {
            from + cut + 1
        } else {
            from + cut
        };
        proof {
            assert(rest.take(cut as int) =~= v@.subrange(from as int, from + cut));
            assert(rest[cut as int] == v@[from + cut]);
            assert(rest.skip(next - from) =~= v@.skip(next as int));
            if limit == 0 {
                assert(text@[from + cut] == '\n' || text@[from + cut] == ' ');
            }
            text::lemma_views_push(out@, piece);
            let tail = plain_pieces(v@.skip(next as int), limit as int);
            assert(text::views(out@) + (seq![piece@] + tail) =~= text::views(out@).push(piece@)
                + tail);
            assert(text::views(out@) + (Seq::<Seq<char>>::empty() + tail) =~= text::views(out@)
                + tail);
        }
        if !text::is_blank(piece.as_str()) {
            out.push(piece);
        }
        from = next;
    }
    let piece = text::string_between(&v, from, v.len());
    proof {
        assert(piece@ =~= v@.skip(from as int));
        text::lemma_views_push(out@, piece);
        assert(text::views(out@) + seq![piece@] =~= text::views(out@).push(piece@));
        assert(text::views(out@) + Seq::<Seq<char>>::empty() =~= text::views(out@));
    }
    if !text::is_blank(piece.as_str()) {
        out.push(piece);
    }
    out
}

/// The opening line of a fenced block.
pub open spec fn fence_of(block: Seq<char>) -> Seq<char> {
    block.take(text::index_of(block, '\n'))
}

/// What a fenced block holds, without its fences.
pub open spec fn fenced_body(block: Seq<char>) -> Seq<char> {
    text::drop_back(
        text::drop_suffixes(
            text::drop_front(block.skip(text::index_of(block, '\n')), '\n'),
            "```"@,
        ),
        '\n',
    )
}

/// The lesser of two numbers.
pub open spec fn least(a: int, b: int) -> int {
    if a < b {
        a
    } else {
        b
    }
}

/// The greater of two numbers.
pub open spec fn most(a: int, b: int) -> int {
    if a > b {
        a
    } else {
        b
    }
}

/// The line that opens every piece of a fenced block: the block's own where a
/// character fits behind it, or else the bare fence; none where not even that
/// leaves room for one.
pub open spec fn piece_fence(block: Seq<char>, limit: int) -> Option<Seq<char>> {
    if fence_of(block).len() + 6 <= limit {
        Some(fence_of(block))
    } else if "```"@.len() + 6 <= limit {
        Some("```"@)
    } else {
        None
    }
}

/// How much of a fenced block's body goes into one piece: some less than what the
/// fence lines leave of the limit, or 64 characters where that is more; never
/// more than what they leave, and one character at the least.
pub open spec fn body_limit(fence: Option<Seq<char>>, limit: int) -> int {
    match fence {
        Some(f) => least(most(limit - (f.len() + 8), 64), limit - (f.len() + 5)),
        None => most(limit, 1),
    }
}

/// A piece of a fenced block, between fences of its own where it has any.
pub open spec fn refenced(fence: Option<Seq<char>>, body: Seq<char>) -> Seq<char> {
    match fence {
        Some(f) => f + "\n"@ + body + "\n```"@,
        None => body,
    }
}

/// The pieces of a block that is too long for one message.
pub open spec fn split_pieces(block: Seq<char>, limit: int) -> Seq<Seq<char>> {
    if "```"@.is_prefix_of(block) {
        let fence = piece_fence(block, limit);
        plain_pieces(fenced_body(block), body_limit(fence, limit)).map_values(
            |c: Seq<char>| refenced(fence, c),
        )
    } else {
        plain_pieces(block, limit)
    }
}

/// The room that a fence of `n` characters leaves for the body of a piece.
fn room_behind(n: usize, limit: usize) -> (room: usize)
    requires
        n + 6 <= limit,
    ensures
        room == least(most(limit - (n + 8), 64), limit - (n + 5)),
        room > 0,
{
    let all: usize = limit - (n + 5);
    let some: usize = if all > 67 {
        all - 3
    } else {
        64
    };
    if some < all {
        some
    } else {
        all
    }
}

/// Splits a block that is too long for one message; a fenced one keeps its
/// fences on every piece, as far as they fit.
pub fn split_block(block: &str, limit: usize) -> (out: Vec<String>)
    requires
        "```"@.is_prefix_of(block@) || divisible(block@, limit as int),
    ensures
        text::views(out@) == split_pieces(block@, limit as int),
{
    if !text::starts_with(block, "```") {
        return split_plain(block, limit);
    }
    proof {
        reveal_strlit("```");
    }
    let v = text::chars_of(block);
    let i = text::position(&v, 0, '\n');
    assert(v@.skip(0) =~= v@);
    let own = text::string_between(&v, 0, i);
    let rest = text::string_between(&v, i, v.len());
    assert(own@ =~= fence_of(block@));
    assert(rest@ =~= block@.skip(i as int));
    let body = text::dropped_front(rest.as_str(), '\n');
    let body = text::dropped_suffixes(body.as_str(), "```");
    let body = text::dropped_back(body.as_str(), '\n');
    let ghost fence_view = piece_fence(block@, limit as int);
    let fence: Option<String> = if limit >= 6 && i <= limit - 6 {
        Some(own)
    } else if limit >= 9 {
        Some("```".to_string())
    } else {
        None
    };
    assert(text::opt_view(fence) == fence_view);
    let room: usize = match &fence {
        Some(f) => room_behind(text::char_count(f.as_str()), limit),
        None => if limit > 1 {
            limit
        } else {
            1
        },
    };
    assert(room == body_limit(fence_view, limit as int));
    let chunks = split_plain(body.as_str(), room);
    let ghost want = split_pieces(block@, limit as int);
    let mut out: Vec<String> = Vec::new();
    let mut k: usize = 0;
    while k < chunks.len()
        invariant
            k <= chunks@.len(),
            text::opt_view(fence) == fence_view,
            want == text::views(chunks@).map_values(|c: Seq<char>| refenced(fence_view, c)),
            text::views(out@) == want.take(k as int),
        decreases chunks@.len() - k,
    {
        let piece: String = match &fence {
            Some(f) => {
                let mut piece: String = f.as_str().to_string();
                piece.append("\n");
                piece.append(chunks[k].as_str());
                piece.append("\n```");
                piece
            },
            None => chunks[k].as_str().to_string(),
        };
        proof {
            text::lemma_views_push(out@, piece);
            assert(piece@ == want[k as int]);
            assert(want.take(k + 1) =~= want.take(k as int).push(piece@));
        }
        out.push(piece);
        k = k + 1;
    }
    assert(want.take(k as int) =~= want);
    out
}

/// What one block contributes to the messages: itself, or its pieces where it
/// is too long.
pub open spec fn block_pieces(block: Seq<char>, limit: int) -> Seq<Seq<char>> {
    if block.len() > limit {
        split_pieces(block, limit)
    } else {
        seq![block]
    }
}

/// The pieces of all blocks, in order.
pub open spec fn pieces_of(blocks: Seq<Seq<char>>, limit: int) -> Seq<Seq<char>>
    decreases blocks.len(),
{
    if blocks.len() == 0 {
        Seq::empty()
    } else {
        pieces_of(blocks.drop_last(), limit) + block_pieces(blocks.last(), limit)
    }
}

/// Messages being packed: the full ones, and the one being filled.
pub ghost struct Packing {
    pub done: Seq<Seq<char>>,
    pub cur: Seq<char>,
}

impl Packing {
    /// A piece goes into the message being filled where it fits, with an empty
    /// line before it; else it starts the next message.
    pub open spec fn with(self, piece: Seq<char>, limit: int) -> Packing {
        let joined = if self.cur.len() > 0 {
            self.cur + "\n\n"@ + piece
        } else {
            piece
        };
        if joined.len() <= limit {
            Packing { cur: joined, ..self }
        } else {
            Packing { done: self.all(), cur: piece }
        }
    }

    /// All messages so far.
    pub open spec fn all(self) -> Seq<Seq<char>> {
        if self.cur.len() > 0 {
            self.done.push(self.cur)
        } else {
            self.done
        }
    }
}

/// The packing of a list of pieces.
pub open spec fn packing(pieces: Seq<Seq<char>>, limit: int) -> Packing
    decreases pieces.len(),
{
    if pieces.len() == 0 {
        Packing { done: Seq::empty(), cur: Seq::empty() }
    } else {
        packing(pieces.drop_last(), limit).with(pieces.last(), limit)
    }
}

/// The messages that blocks are packed into.
pub open spec fn packed(blocks: Seq<Seq<char>>, limit: int) -> Seq<Seq<char>> {
    packing(pieces_of(blocks, limit), limit).all()
}

/// Packs one more piece.
fn pack_piece(done: &mut Vec<String>, cur: &mut String, piece: &str, limit: usize)
    ensures
        (Packing { done: text::views(final(done)@), cur: final(cur)@ }) == (Packing {
            done: text::views(old(done)@),
            cur: old(cur)@,
        }).with(piece@, limit as int),
{
    proof {
        reveal_strlit("\n\n");
    }
    let have = text::char_count(cur.as_str());
    let more = text::char_count(piece);
    let extra: u128 = if have == 0 {
        0
    } else {
        2
    };
    if (have as u128) + extra + (more as u128) > limit as u128 {
        if have > 0 {
            let full = cur.as_str().to_string();
            proof {
                text::lemma_views_push(done@, full);
            }
            done.push(full);
        }
        *cur = piece.to_string();
    } else {
        if have > 0 {
            cur.append("\n\n");
        } else {
            assert(cur@ + piece@ =~= piece@);
        }
        cur.append(piece);
    }
}

/// Pack MarkdownV2 blocks into messages of at most `limit` characters,
/// splitting oversized code blocks without breaking the fence.
pub fn pack_blocks(blocks: &Vec<String>, limit: usize) -> (out: Vec<String>)
    requires
        forall|i: int|
            0 <= i < blocks@.len() ==> "```"@.is_prefix_of(#[trigger] blocks@[i]@) || divisible(
                blocks@[i]@,
                limit as int,
            ),
    ensures
        text::views(out@) == packed(text::views(blocks@), limit as int),
        limit >= 1 ==> forall|i: int| 0 <= i < out@.len() ==> (#[trigger] out@[i])@.len() <= limit,
{
    let ghost vs = text::views(blocks@);
    let ghost lim = limit as int;
    let mut done: Vec<String> = Vec::new();
    let mut cur: String = String::new();
    let mut i: usize = 0;
    assert(text::views(done@) =~= Seq::<Seq<char>>::empty());
    while i < blocks.len()
        invariant
            i <= blocks@.len(),
            vs == text::views(blocks@),
            lim == limit,
            forall|i: int|
                0 <= i < blocks@.len() ==> "```"@.is_prefix_of(#[trigger] blocks@[i]@) || divisible(
                    blocks@[i]@,
                    limit as int,
                ),
            (Packing { done: text::views(done@), cur: cur@ }) == packing(
                pieces_of(vs.take(i as int), lim),
                lim,
            ),
        decreases blocks@.len() - i,
    {
        let block = blocks[i].as_str();
        let pieces: Vec<String> = if text::char_count(block) > limit {
            split_block(block, limit)
        } else {
            let mut one: Vec<String> = Vec::new();
            one.push(block.to_string());
            assert(text::views(one@) =~= seq![block@]);
            one
        };
        let ghost before = pieces_of(vs.take(i as int), lim);
        let ghost mine = text::views(pieces@);
        let mut k: usize = 0;
        assert(before + mine.take(0) =~= before);
        while k < pieces.len()
            invariant
                k <= pieces@.len(),
                lim == limit,
                mine == text::views(pieces@),
                (Packing { done: text::views(done@), cur: cur@ }) == packing(
                    before + mine.take(k as int),
                    lim,
                ),
            decreases pieces@.len() - k,
        {
            proof {
                assert((before + mine.take(k + 1)).drop_last() =~= before + mine.take(k as int));
                assert((before + mine.take(k + 1)).last() == pieces@[k as int]@);
            }
            pack_piece(&mut done, &mut cur, pieces[k].as_str(), limit);
            k = k + 1;
        }
        proof {
            assert(mine.take(k as int) =~= mine);
            assert(vs.take(i + 1).drop_last() =~= vs.take(i as int));
        }
        i = i + 1;
    }
    assert(vs.take(i as int) =~= vs);
    if text::char_count(cur.as_str()) > 0 {
        proof {
            text::lemma_views_push(done@, cur);
        }
        done.push(cur);
    }
    proof {
        if limit >= 1 {
            assert forall|i: int| 0 <= i < done@.len() implies (#[trigger] done@[i])@.len()
                <= limit by {
                laws::messages_fit(vs, lim, i);
                assert(text::views(done@)[i] == done@[i]@);
            }
        }
    }
    done
}

/// Whole markdown → MarkdownV2 messages.
pub fn markdown_v2_messages(md: &str, limit: usize) -> (out: Vec<String>)
    requires
        limit > 0,
    ensures
        text::views(out@) == packed(v2_blocks(md@), limit as int),
        forall|i: int| 0 <= i < out@.len() ==> (#[trigger] out@[i])@.len() <= limit,
{
    let blocks = markdown_v2_blocks(md);
    pack_blocks(&blocks, limit)
}

/// Plain-text messages (last resort).
pub fn plain_messages(text: &str, limit: usize) -> (out: Vec<String>)
    requires
        divisible(text@, limit as int),
    ensures
        text::views(out@) == plain_pieces(text@, limit as int),
{
    split_plain(text, limit)
}

/// The pattern of a markdown image; its first group is the destination.
pub const IMAGE: &'static str = r#"!\[[^\]]*\]\(\s*<?([^)\s>]+)>?(?:\s+"[^"]*")?\s*\)"#;

/// The web addresses among the images' destinations, each once, in order.
pub open spec fn image_urls(found: pattern::FoundView, n: nat) -> Seq<Seq<char>>
    decreases n,
{
    if n == 0 {
        Seq::empty()
    } else {
        let before = image_urls(found, (n - 1) as nat);
        match found.group(n - 1, 1) {
            Some(url) => if ("http://"@.is_prefix_of(url) || "https://"@.is_prefix_of(url))
                && !before.contains(url) {
                before.push(url)
            } else {
                before
            },
            None => before,
        }
    }
}

/// Lines, each with its line end, without a blank line that follows another.
pub open spec fn squeezed(lines: Seq<Seq<char>>) -> Seq<char>
    decreases lines.len(),
{
    if lines.len() == 0 {
        Seq::empty()
    } else if lines.len() > 1 && text::blank(lines.last()) && text::blank(
        lines[lines.len() - 2],
    ) {
        squeezed(lines.drop_last())
    } else {
        squeezed(lines.drop_last()) + lines.last() + "\n"@
    }
}

/// The pieces run together.
pub open spec fn run_together(pieces: Seq<Seq<char>>) -> Seq<char> {
    text::join(pieces, Seq::empty())
}

/// A text without its images: what is left, and where the images are.
pub open spec fn without_images(found: pattern::FoundView) -> (Seq<char>, Seq<Seq<char>>) {
    (
        text::trim(squeezed(text::lines(run_together(found.pieces)))),
        image_urls(found, found.groups.len()),
    )
}

fn in_list(list: &Vec<String>, s: &str) -> (r: bool)
    ensures
        r == text::views(list@).contains(s@),
{
    let mut i: usize = 0;
    while i < list.len()
        invariant
            i <= list@.len(),
            forall|j: int| 0 <= j < i ==> list@[j]@ != s@,
        decreases list@.len() - i,
    {
        if text::same(list[i].as_str(), s) {
            assert(text::views(list@)[i as int] == s@);
            return true;
        }
        i = i + 1;
    }
    proof {
        if text::views(list@).contains(s@) {
            let k = choose|k: int| 0 <= k < list@.len() && text::views(list@)[k] == s@;
            assert(list@[k]@ == s@);
        }
    }
    false
}

/// Drops the images that were found, and tells where they are.
pub fn drop_images(found: &Found) -> (r: (String, Vec<String>))
    requires
        found@.wf(),
    ensures
        (r.0@, text::views(r.1@)) == without_images(found@),
{
    let mut urls: Vec<String> = Vec::new();
    let mut i: usize = 0;
    assert(text::views(urls@) =~= Seq::<Seq<char>>::empty());
    while i < found.groups.len()
        invariant
            i <= found.groups@.len(),
            text::views(urls@) == image_urls(found@, i as nat),
        decreases found.groups@.len() - i,
    {
        match found.group_text(i, 1) {
            Some(url) => {
                if (text::starts_with(url.as_str(), "http://") || text::starts_with(
                    url.as_str(),
                    "https://",
                )) && !in_list(&urls, url.as_str()) {
                    proof {
                        text::lemma_views_push(urls@, url);
                    }
                    urls.push(url);
                }
            },
            None => {},
        }
        i = i + 1;
    }
    let whole = text::join_list(&found.pieces, "");
    proof {
        reveal_strlit("");
        assert(""@ =~= Seq::<char>::empty());
    }
    let lines = text::line_list(whole.as_str());
    let ghost vs = text::views(lines@);
    let mut out: String = String::new();
    let mut prev_blank: bool = false;
    let mut k: usize = 0;
    while k < lines.len()
        invariant
            k <= lines@.len(),
            vs == text::views(lines@),
            prev_blank == (k > 0 && text::blank(vs[k - 1])),
            out@ == squeezed(vs.take(k as int)),
        decreases lines@.len() - k,
    {
        assert(vs.take(k + 1).drop_last() =~= vs.take(k as int));
        let blank = text::is_blank(lines[k].as_str());
        if !(blank && prev_blank) {
            out.append(lines[k].as_str());
            out.append("\n");
        }
        prev_blank = blank;
        k = k + 1;
    }
    assert(vs.take(k as int) =~= vs);
    (text::trimmed(out.as_str()), urls)
}

/// Remove markdown images, returning the text without them and the image URLs.
pub fn strip_images(md: &str) -> (r: (String, Vec<String>))
    ensures
        (r.0@, text::views(r.1@)) == without_images(pattern::found_in(IMAGE@, md@)),
{
    let found = pattern::search(IMAGE, md);
    drop_images(&found)
}

/// Running text with brackets taken out and its white space made even.
pub open spec fn tidy_title(t: Seq<char>) -> Seq<char> {
    let open = text::trim(t).map_values(
        |c: char|
            if c == '[' || c == ']' {
                ' '
            } else {
                c
            },
    );
    text::join(text::words(open), " "@)
}

/// The title of a source as it is shown.
pub open spec fn shown_title(t: Seq<char>) -> Seq<char> {
    util::truncated(
        if tidy_title(t).len() == 0 {
            "Source"@
        } else {
            tidy_title(t)
        },
        80,
    )
}

fn clean_title(t: &str) -> (r: String)
    ensures
        r@ == shown_title(t@),
{
    let inner = text::trimmed(t);
    let v = text::chars_of(inner.as_str());
    let ghost map = |c: char|
        if c == '[' || c == ']' {
            ' '
        } else {
            c
        };
    let mut open: String = String::new();
    let mut i: usize = 0;
    while i < v.len()
        invariant
            i <= v@.len(),
            map == (|c: char|
                if c == '[' || c == ']' {
                    ' '
                } else {
                    c
                }),
            open@ == v@.take(i as int).map_values(map),
        decreases v@.len() - i,
    {
        let c = v[i];
        open.push(
            if c == '[' || c == ']' {
                ' '
            } else {
                c
            },
        );
        assert(open@ =~= v@.take(i + 1).map_values(map));
        i = i + 1;
    }
    assert(v@.take(i as int) =~= v@);
    let words = text::word_list(open.as_str());
    let tidy = text::join_list(&words, " ");
    if text::char_count(tidy.as_str()) == 0 {
        util::truncate_chars("Source", 80)
    } else {
        util::truncate_chars(tidy.as_str(), 80)
    }
}

/// The most sources that are listed.
pub const MAX_SOURCES: usize = 20;

/// How a source is listed.
#[derive(Clone, Copy, PartialEq, Eq, Structural)]
pub enum SourceStyle {
    Rich,
    V2,
    Plain,
}

/// The line of one source.
pub open spec fn source_line(style: SourceStyle, s: types::SourceView) -> Seq<char> {
    let title = shown_title(s.title);
    match style {
        SourceStyle::Rich => match s.url {
            Some(u) => "- ["@ + title + "]("@ + u + ")\n"@,
            None => "- "@ + title + "\n"@,
        },
        SourceStyle::V2 => if s.url is Some && "http"@.is_prefix_of(s.url->0) {
            "• ["@ + v2::escaped(title) + "]("@ + v2::escaped_url(s.url->0) + ")\n"@
        } else {
            "• "@ + v2::escaped(title) + "\n"@
        },
        SourceStyle::Plain => match s.url {
            Some(u) => "• "@ + title + " — "@ + u + "\n"@,
            None => "• "@ + title + "\n"@,
        },
    }
}

/// The lines of the first `n` sources.
pub open spec fn source_lines(style: SourceStyle, list: Seq<types::SourceView>, n: nat) -> Seq<char>
    decreases n,
{
    if n == 0 {
        Seq::empty()
    } else {
        source_lines(style, list, (n - 1) as nat) + source_line(style, list[n - 1])
    }
}

/// How many of the sources are listed.
pub open spec fn listed(n: nat) -> nat {
    if n < MAX_SOURCES {
        n
    } else {
        MAX_SOURCES as nat
    }
}

fn draw_source(style: SourceStyle, s: &Source) -> (r: String)
    ensures
        r@ == source_line(style, s@),
{
    let title = clean_title(s.title.as_str());
    let mut r: String = String::new();
    match style {
        SourceStyle::Rich => {
            match &s.url {
                Some(u) => {
                    r.append("- [");
                    r.append(title.as_str());
                    r.append("](");
                    r.append(u.as_str());
                    r.append(")\n");
                    assert(r@ =~= source_line(style, s@));
                },
                None => {
                    r.append("- ");
                    r.append(title.as_str());
                    r.append("\n");
                    assert(r@ =~= source_line(style, s@));
                },
            }
        },
        SourceStyle::V2 => {
            let title = escape_v2(title.as_str());
            match &s.url {
                Some(u) => {
                    if text::starts_with(u.as_str(), "http") {
                        r.append("• [");
                        r.append(title.as_str());
                        r.append("](");
                        r.append(v2::escape_v2_url(u.as_str()).as_str());
                        r.append(")\n");
                    } else {
                        r.append("• ");
                        r.append(title.as_str());
                        r.append("\n");
                    }
                    assert(r@ =~= source_line(style, s@));
                },
                None => {
                    r.append("• ");
                    r.append(title.as_str());
                    r.append("\n");
                    assert(r@ =~= source_line(style, s@));
                },
            }
        },
        SourceStyle::Plain => {
            r.append("• ");
            r.append(title.as_str());
            match &s.url {
                Some(u) => {
                    r.append(" — ");
                    r.append(u.as_str());
                },
                None => {},
            }
            r.append("\n");
            assert(r@ =~= source_line(style, s@));
        },
    }
    r
}

fn draw_sources(style: SourceStyle, sources: &Vec<Source>) -> (r: String)
    ensures
        r@ == source_lines(style, types::source_views(sources@), listed(sources@.len())),
{
    let mut r: String = String::new();
    let mut i: usize = 0;
    while i < sources.len() && i < MAX_SOURCES
        invariant
            i <= listed(sources@.len()),
            r@ == source_lines(style, types::source_views(sources@), i as nat),
        decreases sources@.len() - i,
    {
        r.append(draw_source(style, &sources[i]).as_str());
        i = i + 1;
    }
    r
}

/// The sources block in Rich Markdown.
pub open spec fn rich_block(list: Seq<types::SourceView>) -> Seq<char> {
    if list.len() == 0 {
        Seq::empty()
    } else {
        "\n\n<details><summary>Sources ("@ + text::decimal(list.len()) + ")</summary>\n\n"@
            + source_lines(SourceStyle::Rich, list, listed(list.len())) + "\n</details>"@
    }
}

/// Collapsible sources block in Rich Markdown.
pub fn rich_sources(sources: &Vec<Source>) -> (r: String)
    ensures
        r@ == rich_block(types::source_views(sources@)),
{
    if sources.len() == 0 {
        return String::new();
    }
    let mut r: String = "\n\n<details><summary>Sources (".to_string();
    r.append(text::decimal_of(sources.len() as u64).as_str());
    r.append(")</summary>\n\n");
    r.append(draw_sources(SourceStyle::Rich, sources).as_str());
    r.append("\n</details>");
    r
}

/// The sources under a heading, where there are any.
pub open spec fn source_block(
    style: SourceStyle,
    heading: Seq<char>,
    list: Seq<types::SourceView>,
) -> Option<Seq<char>> {
    if list.len() == 0 {
        None
    } else {
        Some(text::trim_end(heading + source_lines(style, list, listed(list.len()))))
    }
}

/// Sources as a MarkdownV2 block.
pub fn v2_sources(sources: &Vec<Source>) -> (r: Option<String>)
    ensures
        text::opt_view(r) == source_block(
            SourceStyle::V2,
            "*Sources*\n"@,
            types::source_views(sources@),
        ),
{
    if sources.len() == 0 {
        return None;
    }
    let mut r: String = "*Sources*\n".to_string();
    r.append(draw_sources(SourceStyle::V2, sources).as_str());
    Some(text::trimmed_end(r.as_str()))
}

/// Sources as plain text.
pub fn plain_sources(sources: &Vec<Source>) -> (r: Option<String>)
    ensures
        text::opt_view(r) == source_block(
            SourceStyle::Plain,
            "Sources:\n"@,
            types::source_views(sources@),
        ),
{
    if sources.len() == 0 {
        return None;
    }
    let mut r: String = "Sources:\n".to_string();
    r.append(draw_sources(SourceStyle::Plain, sources).as_str());
    Some(text::trimmed_end(r.as_str()))
}

/// Where in a MarkdownV2 text a character stands.
#[derive(Debug, Clone, Copy, PartialEq, Eq, Structural)]
pub enum Place {
    /// In running text, the text of links included.
    Text,
    /// In code inside a line.
    Code,
    /// In code on lines of its own.
    Fence,
    /// In the destination of a link.
    Target,
}

/// What the front of a MarkdownV2 text means: how many characters it takes, what
/// they show as plain text, and where the rest stands.
pub ghost struct Meaning {
    pub taken: int,
    pub shown: Seq<char>,
    pub place: Place,
}

/// Whether a text begins with three backticks.
pub open spec fn fence_ahead(s: Seq<char>) -> bool {
    s.len() > 2 && s[0] == '`' && s[1] == '`' && s[2] == '`'
}

/// The meaning of the front of a text that is not empty. An escaped character is
/// itself. Running text has the markers of emphasis, of code and of links; code
/// ends at its marker and a destination at its bracket, and everything else in
/// them is content.
pub open spec fn meaning_of(s: Seq<char>, place: Place) -> Meaning {
    let c = s[0];
    let plain = Meaning { taken: 1, shown: seq![c], place };
    let marker = Meaning { taken: 1, shown: Seq::empty(), place };
    if c == '\\' {
        if s.len() > 1 {
            Meaning { taken: 2, shown: seq![s[1]], place }
        } else {
            marker
        }
    } else {
        match place {
            Place::Text => if fence_ahead(s) {
                Meaning { taken: 3, shown: Seq::empty(), place: Place::Fence }
            } else if c == '`' {
                Meaning { place: Place::Code, ..marker }
            } else if c == '*' || c == '_' || c == '~' || c == '[' {
                marker
            } else if c == ']' && s.len() > 1 && s[1] == '(' {
                Meaning { taken: 2, shown: seq![' ', '('], place: Place::Target }
            } else {
                plain
            },
            Place::Code => if c == '`' {
                Meaning { place: Place::Text, ..marker }
            } else {
                plain
            },
            Place::Fence => if fence_ahead(s) {
                Meaning { taken: 3, shown: Seq::empty(), place: Place::Text }
            } else {
                plain
            },
            Place::Target => if c == ')' {
                Meaning { place: Place::Text, ..plain }
            } else {
                plain
            },
        }
    }
}

/// A MarkdownV2 text as plain text, from a place on.
pub open spec fn shown_from(s: Seq<char>, place: Place) -> Seq<char>
    decreases s.len(),
{
    if s.len() == 0 {
        Seq::empty()
    } else {
        let m = meaning_of(s, place);
        m.shown + shown_from(s.skip(m.taken), m.place)
    }
}

/// A MarkdownV2 text without its escapes and markers; a link is its text with the
/// destination behind it.
pub open spec fn unescaped(s: Seq<char>) -> Seq<char> {
    shown_from(s, Place::Text)
}

fn is_fence_ahead(v: &Vec<char>, i: usize) -> (r: bool)
    requires
        i <= v@.len(),
    ensures
        r == fence_ahead(v@.skip(i as int)),
{
    v.len() - i > 2 && v[i] == '`' && v[i + 1] == '`' && v[i + 2] == '`'
}

/// Writes down what the front of the text that starts at `i` shows; tells how many
/// characters it takes, and where the rest stands.
fn read_front(v: &Vec<char>, i: usize, place: Place, out: &mut String) -> (r: (usize, Place))
    requires
        i < v@.len(),
    ensures
        r.0 == meaning_of(v@.skip(i as int), place).taken,
        r.1 == meaning_of(v@.skip(i as int), place).place,
        final(out)@ == old(out)@ + meaning_of(v@.skip(i as int), place).shown,
        0 < r.0 <= v@.len() - i,
{
    let ghost before = out@;
    assert(before + Seq::<char>::empty() =~= before);
    let c = v[i];
    let more: bool = v.len() - i > 1;
    if c == '\\' {
        return if more {
            out.push(v[i + 1]);
            (2, place)
        } else {
            (1, place)
        };
    }
    let fence = is_fence_ahead(v, i);
    match place {
        Place::Text => {
            if fence {
                return (3, Place::Fence);
            }
            if c == '`' {
                return (1, Place::Code);
            }
            if c == '*' || c == '_' || c == '~' || c == '[' {
                return (1, place);
            }
            if c == ']' && more && v[i + 1] == '(' {
                out.push(' ');
                out.push('(');
                assert(out@ =~= before + seq![' ', '(']);
                return (2, Place::Target);
            }
        },
        Place::Code => {
            if c == '`' {
                return (1, Place::Text);
            }
        },
        Place::Fence => {
            if fence {
                return (3, Place::Text);
            }
        },
        Place::Target => {
            if c == ')' {
                out.push(c);
                return (1, Place::Text);
            }
        },
    }
    out.push(c);
    (1, place)
}

/// A MarkdownV2 text without its escapes and markers.
pub fn unescape_v2(s: &str) -> (r: String)
    ensures
        r@ == unescaped(s@),
{
    let v = text::chars_of(s);
    let mut r: String = String::new();
    let mut place: Place = Place::Text;
    let mut i: usize = 0;
    assert(v@.skip(0) =~= v@);
    assert(r@ + unescaped(s@) =~= unescaped(s@));
    while i < v.len()
        invariant
            i <= v@.len(),
            v@ == s@,
            r@ + shown_from(v@.skip(i as int), place) == unescaped(s@),
        decreases v@.len() - i,
    {
        let ghost rest = v@.skip(i as int);
        let ghost m = meaning_of(rest, place);
        let ghost before = r@;
        let (taken, next) = read_front(&v, i, place, &mut r);
        proof {
            assert(rest.skip(m.taken) =~= v@.skip(i + taken));
            assert(before + (m.shown + shown_from(rest.skip(m.taken), next)) =~= r@ + shown_from(
                rest.skip(m.taken),
                next,
            ));
        }
        place = next;
        i = i + taken;
    }
    assert(r@ + Seq::<char>::empty() =~= r@);
    r
}

/// Markdown as plain text.
pub open spec fn plain_of(md: Seq<char>) -> Seq<char> {
    unescaped(text::join(v2_blocks(md), "\n\n"@))
}

/// Strip markdown syntax for a plain-text rendering.
pub fn markdown_to_plain(md: &str) -> (r: String)
    ensures
        r@ == plain_of(md@),
{
    let blocks = markdown_v2_blocks(md);
    let joined = text::join_list(&blocks, "\n\n");
    unescape_v2(joined.as_str())
}

/// The paragraphs from the front that fit, behind those already taken.
pub open spec fn paragraphs_within(
    taken: Seq<char>,
    paragraphs: Seq<Seq<char>>,
    limit: int,
) -> Seq<char>
    decreases paragraphs.len(),
{
    if paragraphs.len() == 0 || taken.len() + paragraphs[0].len() + 2 > limit {
        taken
    } else {
        paragraphs_within(
            if taken.len() > 0 {
                taken + "\n\n"@ + paragraphs[0]
            } else {
                paragraphs[0]
            },
            paragraphs.skip(1),
            limit,
        )
    }
}

/// What is left of a limit after the mark of a cut.
pub open spec fn room_before_mark(limit: int) -> int {
    if limit > 4 {
        limit - 4
    } else {
        0
    }
}

/// The mark of a cut.
pub open spec fn cut_mark() -> Seq<char> {
    "\n\n…"@
}

/// A text cut at a paragraph boundary to stay within `limit`, with a mark behind
/// it where the mark fits.
pub open spec fn clamped(md: Seq<char>, limit: int) -> Seq<char> {
    if md.len() <= limit {
        md
    } else if limit < cut_mark().len() {
        md.take(limit)
    } else {
        let room = room_before_mark(limit);
        let kept = paragraphs_within(Seq::empty(), text::split_by(md, "\n\n"@), room);
        (if kept.len() == 0 {
            util::truncated(md, room as nat)
        } else {
            kept
        }) + cut_mark()
    }
}

/// Rich Markdown cannot exceed the limit; cut at a paragraph boundary.
pub fn clamp_rich(md: &str, limit: usize) -> (r: String)
    ensures
        r@ == clamped(md@, limit as int),
        r@.len() <= limit,
        md@.len() > limit && limit >= cut_mark().len() ==> cut_mark().is_suffix_of(r@),
{
    proof {
        reveal_strlit("\n\n…");
        laws::clamp_fits(md@, limit as int);
    }
    if text::char_count(md) <= limit {
        return md.to_string();
    }
    if limit < 3 {
        return text::take_chars(md, limit);
    }
    let room: usize = if limit > 4 {
        limit - 4
    } else {
        0
    };
    proof {
        reveal_strlit("\n\n");
    }
    let paragraphs = text::split_text(md, "\n\n");
    let ghost vs = text::views(paragraphs@);
    let ghost whole = paragraphs_within(Seq::empty(), vs, room as int);
    let mut out: String = String::new();
    let mut i: usize = 0;
    assert(vs.skip(0) =~= vs);
    while i < paragraphs.len() && (text::char_count(out.as_str()) as u128) + (text::char_count(
        paragraphs[i].as_str(),
    ) as u128) + 2 <= room as u128
        invariant
            i <= paragraphs@.len(),
            vs == text::views(paragraphs@),
            whole == paragraphs_within(out@, vs.skip(i as int), room as int),
        decreases paragraphs@.len() - i,
    {
        assert(vs.skip(i as int).skip(1) =~= vs.skip(i + 1));
        if text::char_count(out.as_str()) > 0 {
            out.append("\n\n");
        } else {
            assert(out@ + paragraphs@[i as int]@ =~= paragraphs@[i as int]@);
        }
        out.append(paragraphs[i].as_str());
        i = i + 1;
    }
    assert(out@ == whole);
    if text::char_count(out.as_str()) == 0 {
        out = util::truncate_chars(md, room);
    }
    out.append("\n\n…");
    assert(cut_mark() =~= out@.subrange(out@.len() - 3, out@.len() as int));
    out
}

/// Whether a line opens or closes a code fence.
pub open spec fn is_fence_line(line: Seq<char>) -> bool {
    "```"@.is_prefix_of(text::trim_start(line))
}

/// How many lines open or close a code fence.
pub open spec fn fence_count(lines: Seq<Seq<char>>) -> nat
    decreases lines.len(),
{
    if lines.len() == 0 {
        0
    } else {
        fence_count(lines.drop_last()) + (if is_fence_line(lines.last()) {
            1nat
        } else {
            0nat
        })
    }
}

/// A text with its last code fence closed.
pub open spec fn fence_closed(md: Seq<char>) -> Seq<char> {
    if fence_count(text::lines(md)) % 2 == 1 {
        md + "\n```"@
    } else {
        md
    }
}

/// Close an unterminated code fence so a partial draft still parses.
pub fn close_open_fence(md: &str) -> (r: String)
    ensures
        r@ == fence_closed(md@),
{
    let lines = text::line_list(md);
    let ghost vs = text::views(lines@);
    let mut odd: bool = false;
    let mut i: usize = 0;
    while i < lines.len()
        invariant
            i <= lines@.len(),
            vs == text::views(lines@),
            odd == (fence_count(vs.take(i as int)) % 2 == 1),
        decreases lines@.len() - i,
    {
        assert(vs.take(i + 1).drop_last() =~= vs.take(i as int));
        let start = text::trimmed_start(lines[i].as_str());
        if text::starts_with(start.as_str(), "```") {
            odd = !odd;
        }
        i = i + 1;
    }
    assert(vs.take(i as int) =~= vs);
    let mut r: String = md.to_string();
    if odd {
        r.append("\n```");
    }
    r
}

}
