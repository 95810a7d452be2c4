//! How answers are cut, packed and given their sources, as laws over the texts.

use crate::docsgpt::types;
use crate::pattern;
use crate::telegram::{laws, markdown, render, v2, v2_laws};
use crate::telegram::markdown::MdTag;
use crate::text;
use crate::text_laws;
use vstd::prelude::*;

verus! {

/// Markdown is read with its tables, its struck text, its task lists and its
/// footnotes.
pub proof fn markdown_is_read_whole(md: Seq<char>)
    ensures
        render::v2_blocks(md) == v2::rendered(markdown::markdown_events(md, true, true, true, true)),
{
}

/// Plain text shows what a message says: a document of one paragraph as its words, and
/// one of two with an empty line between them.
pub proof fn plain_text_keeps_the_words(md: Seq<char>, a: Seq<char>, b: Seq<char>)
    requires
        v2_laws::ends_solid(a),
        v2_laws::ends_solid(b),
    ensures
        render::v2_blocks(md) == seq![v2::escaped(a)] ==> render::plain_of(md) == a,
        render::v2_blocks(md) == seq![v2::escaped(a), v2::escaped(b)] ==> render::plain_of(md) == a
            + seq!['\n', '\n'] + b,
{
    reveal_strlit("\n\n");
    assert("\n\n"@ =~= seq!['\n', '\n']);
    let x = v2::escaped(a);
    let y = v2::escaped(b);
    text_laws::joining_separates(Seq::empty(), x, y, "\n\n"@);
    laws::unescape_undoes_escape(a);
    let c = a + seq!['\n', '\n'] + b;
    laws::unescape_undoes_escape(c);
    let none = Seq::<char>::empty();
    v2_laws::special_characters_are_escaped(a, '\n', seq!['\n'] + b);
    v2_laws::special_characters_are_escaped(none, '\n', b);
    reveal_strlit("_*[]()~`>#+-=|{}.!\\");
    assert(!"_*[]()~`>#+-=|{}.!\\"@.contains('\n'));
    assert(a + seq!['\n'] + (seq!['\n'] + b) =~= c);
    assert(none + seq!['\n'] + b =~= seq!['\n'] + b);
    assert(v2::escaped(c) =~= x + "\n\n"@ + y);
}

/// A document that is one paragraph of text is shown in plain text as that text.
pub proof fn paragraphs_are_shown_plain(md: Seq<char>, a: Seq<char>)
    requires
        v2_laws::ends_solid(a),
        markdown::markdown_events(md, true, true, true, true) == seq![
            markdown::MdEventView::Start(MdTag::Paragraph),
            markdown::MdEventView::Text(a),
            markdown::MdEventView::End(MdTag::Paragraph),
        ],
    ensures
        render::plain_of(md) == a,
        render::v2_blocks(md) == seq![v2::escaped(a)],
{
    let none = Seq::<markdown::MdEventView>::empty();
    let list = seq![markdown::MdEventView::Start(MdTag::Paragraph)] + seq![
        markdown::MdEventView::Text(a),
    ] + seq![markdown::MdEventView::End(MdTag::Paragraph)];
    let start = v2::V2View::start();
    assert(start.run(none) == start);
    v2_laws::paragraphs_become_blocks(none, a);
    assert(none + list =~= markdown::markdown_events(md, true, true, true, true));
    assert(text::trim_end(Seq::<char>::empty()) == Seq::<char>::empty());
    assert(text::blank(Seq::<char>::empty()));
    assert(v2::rendered(none) == Seq::<Seq<char>>::empty());
    assert(render::v2_blocks(md) =~= seq![v2::escaped(a)]);
    plain_text_keeps_the_words(md, a, a);
}

/// Blocks that fit into one message share it, an empty line between them; otherwise
/// each starts a message of its own.
pub proof fn blocks_share_messages(a: Seq<char>, b: Seq<char>, limit: int)
    requires
        0 < a.len() <= limit,
        0 < b.len() <= limit,
    ensures
        render::packed(seq![a], limit) == seq![a],
        a.len() + 2 + b.len() <= limit ==> render::packed(seq![a, b], limit) == seq![
            a + seq!['\n', '\n'] + b,
        ],
        a.len() + 2 + b.len() > limit ==> render::packed(seq![a, b], limit) == seq![a, b],
        render::packed(Seq::empty(), limit).len() == 0,
{
    reveal_strlit("\n\n");
    assert("\n\n"@ =~= seq!['\n', '\n']);
    reveal_with_fuel(render::pieces_of, 3);
    reveal_with_fuel(render::packing, 3);
    let none = Seq::<Seq<char>>::empty();
    assert(seq![a].drop_last() =~= none);
    assert(seq![a, b].drop_last() =~= seq![a]);
    assert(render::pieces_of(none, limit) =~= none);
    assert(render::pieces_of(seq![a], limit) =~= seq![a]);
    assert(render::pieces_of(seq![a, b], limit) =~= seq![a, b]);
    let p0 = render::packing(none, limit);
    let p1 = render::packing(seq![a], limit);
    assert(p1.cur == a);
    assert(p1.done =~= none);
    assert(p1.all() =~= seq![a]);
    let p2 = render::packing(seq![a, b], limit);
    if a.len() + 2 + b.len() <= limit {
        assert(p2.all() =~= seq![a + seq!['\n', '\n'] + b]);
    } else {
        assert(p2.all() =~= seq![a, b]);
    }
}

/// A text that fits is one piece, and a blank one none.
pub proof fn short_texts_are_one_piece(s: Seq<char>, limit: int)
    requires
        s.len() <= limit,
    ensures
        !text::blank(s) ==> render::plain_pieces(s, limit) == seq![s],
        text::blank(s) ==> render::plain_pieces(s, limit).len() == 0,
{
}

/// A text that is too long is cut at its last line end within the limit, unless that is
/// far to the front; then at its last space; and goes on behind it.
pub proof fn long_texts_are_cut_between_words(s: Seq<char>, limit: int, p: int)
    requires
        0 < limit < s.len(),
        0 < p < limit,
    ensures
        s[p] == '\n' && p >= limit / 4 && (forall|j: int| p < j < limit ==> #[trigger] s[j] != '\n')
            ==> render::cut_point(s, limit) == p && render::resume_point(s, limit) == p + 1,
        s[p] == ' ' && (forall|j: int| p < j < limit ==> #[trigger] s[j] != ' ') && (forall|j: int|
            0 <= j < limit ==> #[trigger] s[j] != '\n') ==> render::cut_point(s, limit) == p
            && render::resume_point(s, limit) == p + 1,
        (forall|j: int| 0 <= j < limit ==> #[trigger] s[j] != '\n' && s[j] != ' ')
            ==> render::cut_point(s, limit) == limit,
        render::plain_pieces(s, limit) == render::unless_blank(
            text::trim_end(s.take(render::cut_point(s, limit))),
        ) + render::plain_pieces(s.skip(render::resume_point(s, limit)), limit),
{
    let w = s.take(limit);
    if s[p] == '\n' && (forall|j: int| p < j < limit ==> #[trigger] s[j] != '\n') {
        assert forall|j: int| p < j < w.len() implies #[trigger] w[j] != '\n' by {
            assert(w[j] == s[j]);
        }
        text::lemma_last_index_of(w, '\n', p);
    }
    if s[p] == ' ' && (forall|j: int| p < j < limit ==> #[trigger] s[j] != ' ') {
        assert forall|j: int| p < j < w.len() implies #[trigger] w[j] != ' ' by {
            assert(w[j] == s[j]);
        }
        text::lemma_last_index_of(w, ' ', p);
    }
    if forall|j: int| 0 <= j < limit ==> #[trigger] s[j] != '\n' {
        assert forall|j: int| 0 <= j < w.len() implies #[trigger] w[j] != '\n' by {
            assert(w[j] == s[j]);
        }
        text::lemma_last_index_of(w, '\n', -1);
    }
    if forall|j: int| 0 <= j < limit ==> #[trigger] s[j] != '\n' && s[j] != ' ' {
        assert forall|j: int| 0 <= j < w.len() implies #[trigger] w[j] != ' ' by {
            assert(w[j] == s[j]);
        }
        text::lemma_last_index_of(w, ' ', -1);
    }
    lemma_last_below(w, '\n');
    lemma_last_below(w, ' ');
}

proof fn lemma_last_below(s: Seq<char>, c: char)
    ensures
        -1 <= text::last_index_of(s, c) < s.len(),
    decreases s.len(),
{
    if s.len() > 0 && s.last() != c {
        lemma_last_below(s.drop_last(), c);
    }
}

/// Every piece of a code block that is cut is a code block again, in the same language.
pub proof fn cut_code_stays_code(fence: Seq<char>, body: Seq<char>)
    ensures
        render::refenced(Some(fence), body) == fence + seq!['\n'] + body + seq!['\n', '`', '`', '`'],
        render::refenced(None, body) == body,
{
    reveal_strlit("\n");
    reveal_strlit("\n```");
    assert("\n"@ =~= seq!['\n']);
    assert("\n```"@ =~= seq!['\n', '`', '`', '`']);
}

/// The images of an answer are those whose address is on the web, each once, in the
/// order in which they stand there.
pub proof fn images_are_listed_once(found: pattern::FoundView, n: nat, url: Seq<char>)
    ensures
        n > 0 && found.group(n - 1, 1) == Some(url) && ("http://"@.is_prefix_of(url)
            || "https://"@.is_prefix_of(url)) && !render::image_urls(
            found,
            (n - 1) as nat,
        ).contains(url) ==> render::image_urls(found, n) == render::image_urls(
            found,
            (n - 1) as nat,
        ).push(url),
        n > 0 && found.group(n - 1, 1) == Some(url) && (render::image_urls(
            found,
            (n - 1) as nat,
        ).contains(url) || !("http://"@.is_prefix_of(url) || "https://"@.is_prefix_of(url)))
            ==> render::image_urls(found, n) == render::image_urls(found, (n - 1) as nat),
        render::image_urls(found, 0).len() == 0,
        render::image_urls(found, n).no_duplicates(),
    decreases n,
{
    if n > 0 {
        images_are_listed_once(found, (n - 1) as nat, url);
    }
}

/// Taking the images out leaves the words around them, and never two empty lines in a
/// row.
pub proof fn words_around_images_stay(lines: Seq<Seq<char>>, l: Seq<char>, found: pattern::FoundView)
    ensures
        lines.len() == 0 || !text::blank(l) || !text::blank(lines.last()) ==> render::squeezed(
            lines.push(l),
        ) == render::squeezed(lines) + l + seq!['\n'],
        lines.len() > 0 && text::blank(l) && text::blank(lines.last()) ==> render::squeezed(
            lines.push(l),
        ) == render::squeezed(lines),
        found.groups.len() == 0 && found.pieces == seq![l] ==> render::without_images(found).0
            == text::trim(render::squeezed(text::lines(l))) && render::without_images(
            found,
        ).1.len() == 0,
{
    reveal_strlit("\n");
    assert("\n"@ =~= seq!['\n']);
    assert(lines.push(l).drop_last() =~= lines);
    if lines.len() > 0 {
        assert(lines.push(l)[lines.len() - 1] == lines.last());
    }
}

/// A source's title is shown as it is where it is one word without brackets and not too
/// long, and a blank one as a source.
pub proof fn titles_are_tidied(t: Seq<char>)
    ensures
        0 < t.len() <= 80 && (forall|i: int|
            0 <= i < t.len() ==> !text::is_space(#[trigger] t[i]) && t[i] != '[' && t[i] != ']')
            ==> render::shown_title(t) == t,
        text::blank(t) ==> render::shown_title(t) == "Source"@,
        render::shown_title(t).len() <= 80,
{
    reveal_strlit("Source");
    let none = Seq::<char>::empty();
    let open = |c: char|
        if c == '[' || c == ']' {
            ' '
        } else {
            c
        };
    if 0 < t.len() <= 80 && (forall|i: int|
        0 <= i < t.len() ==> !text::is_space(#[trigger] t[i]) && t[i] != '[' && t[i] != ']') {
        text_laws::trimming_takes_outer_space(none, t, none);
        assert(none + t + none =~= t);
        assert(t.map_values(open) =~= t);
        text_laws::words_are_separated(none, t, none);
        text_laws::words_are_separated(none, seq!['a'], none);
        assert(text::words(none) =~= Seq::<Seq<char>>::empty());
        assert(text::words(t) =~= seq![t]);
        assert(text::join(seq![t], " "@) == t);
    }
    if text::blank(t) {
        text::lemma_blank(t);
        assert(text::trim(t) =~= none);
        assert(none.map_values(open) =~= none);
        text_laws::words_are_separated(none, seq!['a'], none);
        assert(text::words(none) =~= Seq::<Seq<char>>::empty());
    }
}

/// A source is a line: its title, with its address as each kind of message writes it.
pub proof fn sources_are_lines(s: types::SourceView, u: Seq<char>)
    ensures
        s.url == Some(u) ==> render::source_line(render::SourceStyle::Rich, s) == seq!['-', ' ', '[']
            + render::shown_title(s.title) + seq![']', '('] + u + seq![')', '\n'],
        s.url is None ==> render::source_line(render::SourceStyle::Rich, s) == seq!['-', ' ']
            + render::shown_title(s.title) + seq!['\n'],
        s.url == Some(u) && "http"@.is_prefix_of(u) ==> render::source_line(
            render::SourceStyle::V2,
            s,
        ) == seq!['•', ' ', '['] + v2::escaped(render::shown_title(s.title)) + seq![']', '(']
            + v2::escaped_url(u) + seq![')', '\n'],
        s.url is None ==> render::source_line(render::SourceStyle::V2, s) == seq!['•', ' ']
            + v2::escaped(render::shown_title(s.title)) + seq!['\n'],
        s.url == Some(u) ==> render::source_line(render::SourceStyle::Plain, s) == seq!['•', ' ']
            + render::shown_title(s.title) + seq![' ', '—', ' '] + u + seq!['\n'],
        s.url is None ==> render::source_line(render::SourceStyle::Plain, s) == seq!['•', ' ']
            + render::shown_title(s.title) + seq!['\n'],
{
    reveal_strlit("- [");
    reveal_strlit("](");
    reveal_strlit(")\n");
    reveal_strlit("- ");
    reveal_strlit("\n");
    reveal_strlit("• [");
    reveal_strlit("• ");
    reveal_strlit(" — ");
    assert("- ["@ =~= seq!['-', ' ', '[']);
    assert("]("@ =~= seq![']', '(']);
    assert(")\n"@ =~= seq![')', '\n']);
    assert("- "@ =~= seq!['-', ' ']);
    assert("\n"@ =~= seq!['\n']);
    assert("• ["@ =~= seq!['•', ' ', '[']);
    assert("• "@ =~= seq!['•', ' ']);
    assert(" — "@ =~= seq![' ', '—', ' ']);
}

/// The sources are listed in order, up to twenty of them, and the count names them all.
pub proof fn sources_are_listed(
    style: render::SourceStyle,
    list: Seq<types::SourceView>,
    s: types::SourceView,
    n: nat,
    heading: Seq<char>,
)
    ensures
        render::source_lines(style, list.push(s), list.len() + 1) == render::source_lines(
            style,
            list,
            list.len(),
        ) + render::source_line(style, s),
        n <= 20 ==> render::listed(n) == n,
        n > 20 ==> render::listed(n) == 20,
        list.len() == 0 ==> render::rich_block(list).len() == 0 && render::source_block(
            style,
            heading,
            list,
        ) is None,
        0 < list.len() <= 20 ==> render::rich_block(list) == "\n\n<details><summary>Sources ("@
            + text::decimal(list.len()) + ")</summary>\n\n"@ + render::source_lines(
            render::SourceStyle::Rich,
            list,
            list.len(),
        ) + "\n</details>"@,
        0 < list.len() <= 20 ==> render::source_block(style, heading, list) == Some(
            text::trim_end(heading + render::source_lines(style, list, list.len())),
        ),
{
    lemma_same_lines(style, list, list.push(s), list.len());
}

proof fn lemma_same_lines(
    style: render::SourceStyle,
    a: Seq<types::SourceView>,
    b: Seq<types::SourceView>,
    n: nat,
)
    requires
        n <= a.len(),
        n <= b.len(),
        forall|i: int| 0 <= i < n ==> #[trigger] a[i] == b[i],
    ensures
        render::source_lines(style, a, n) == render::source_lines(style, b, n),
    decreases n,
{
    if n > 0 {
        lemma_same_lines(style, a, b, (n - 1) as nat);
        assert(a[n - 1] == b[n - 1]);
    }
}

/// Plain text from MarkdownV2: marks go, escaped characters stay, a link shows its text
/// and its destination.
pub proof fn markup_is_taken_off(s: Seq<char>, c: char, rest: Seq<char>)
    ensures
        render::unescaped(seq!['*'] + rest) == render::unescaped(rest),
        render::unescaped(seq!['_'] + rest) == render::unescaped(rest),
        render::unescaped(seq!['~'] + rest) == render::unescaped(rest),
        render::unescaped(seq!['\\', c] + rest) == seq![c] + render::unescaped(rest),
        c != '\\' && c != '*' && c != '_' && c != '~' && c != '[' && c != ']' && c != '`'
            ==> render::unescaped(seq![c] + rest) == seq![c] + render::unescaped(rest),
        render::unescaped(Seq::empty()).len() == 0,
{
    let none = Seq::<char>::empty();
    assert((seq!['*'] + rest).skip(1) =~= rest);
    assert((seq!['_'] + rest).skip(1) =~= rest);
    assert((seq!['~'] + rest).skip(1) =~= rest);
    assert((seq!['\\', c] + rest).skip(2) =~= rest);
    assert((seq![c] + rest).skip(1) =~= rest);
    assert(none + render::unescaped(rest) =~= render::unescaped(rest));
}

/// A draft's open code block is closed, and what is closed stays as it is.
pub proof fn open_code_is_closed(md: Seq<char>)
    ensures
        render::fence_count(text::lines(md)) % 2 == 1 ==> render::fence_closed(md) == md + seq![
            '\n',
            '`',
            '`',
            '`',
        ],
        render::fence_count(text::lines(md)) % 2 == 0 ==> render::fence_closed(md) == md,
        render::fence_count(Seq::empty()) == 0,
        render::fence_count(text::lines(md).push(seq!['`', '`', '`'] + md)) == render::fence_count(
            text::lines(md),
        ) + 1,
{
    reveal_strlit("\n```");
    reveal_strlit("```");
    assert("\n```"@ =~= seq!['\n', '`', '`', '`']);
    let l = seq!['`', '`', '`'] + md;
    assert(text::trim_start(l) == l);
    assert("```"@ =~= l.subrange(0, 3));
    assert(text::lines(md).push(l).drop_last() =~= text::lines(md));
}

/// A text that has to be cut ends in a mark of the cut, with whole paragraphs before it
/// where one fits.
pub proof fn cuts_are_marked(a: Seq<char>, b: Seq<char>, limit: int)
    requires
        limit >= 7,
        a.len() > 0,
        a.len() + 6 <= limit,
        a.len() + 2 + b.len() > limit,
        text::find(a + seq!['\n', '\n'] + b, "\n\n"@) == Some(a.len() as int),
        text::find(b, "\n\n"@) is None,
    ensures
        render::clamped(a + seq!['\n', '\n'] + b, limit) == a + seq!['\n', '\n', '…'],
{
    reveal_strlit("\n\n");
    reveal_strlit("\n\n…");
    assert("\n\n"@ =~= seq!['\n', '\n']);
    assert("\n\n…"@ =~= seq!['\n', '\n', '…']);
    let md = a + seq!['\n', '\n'] + b;
    let room = limit - 4;
    assert(md.take(a.len() as int) =~= a);
    assert(md.skip((a.len() + 2) as int) =~= b);
    assert(text::split_by(b, "\n\n"@) =~= seq![b]);
    let parts = seq![a] + seq![b];
    assert(text::split_by(md, "\n\n"@) =~= parts);
    reveal_with_fuel(render::paragraphs_within, 3);
    assert(parts.skip(1) =~= seq![b]);
    assert(render::paragraphs_within(Seq::empty(), parts, room) == a);
}

} // verus!
