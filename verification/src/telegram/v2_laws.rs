//! What a document's elements look like in a message, as laws over the events
//! that they consist of.

use crate::telegram::markdown;
use crate::telegram::markdown::MdTag;
use crate::telegram::v2;
use crate::text;
use crate::text_laws;
use vstd::prelude::*;

verus! {

/// Whether running text is being written: no image, table, link or code is open.
pub open spec fn writing(v: v2::V2View) -> bool {
    !v.in_image && v.table is None && v.link is None && !v.in_code
}

/// Whether a reading stands between the blocks of a document.
pub open spec fn at_top(v: v2::V2View) -> bool {
    writing(v) && v.lists.len() == 0 && v.quote == 0
}

/// Whether a text ends in something other than white space.
pub open spec fn ends_solid(s: Seq<char>) -> bool {
    s.len() > 0 && !text::is_space(s.last())
}

/// Reading two lists of events one after the other is reading them as one.
pub proof fn reading_goes_on(
    v: v2::V2View,
    a: Seq<markdown::MdEventView>,
    b: Seq<markdown::MdEventView>,
)
    ensures
        v.run(a + b) == v.run(a).run(b),
    decreases b.len(),
{
    if b.len() == 0 {
        assert(a + b =~= a);
    } else {
        reading_goes_on(v, a, b.drop_last());
        assert((a + b).drop_last() =~= a + b.drop_last());
        assert((a + b).last() == b.last());
    }
}

proof fn lemma_then(
    v: v2::V2View,
    list: Seq<markdown::MdEventView>,
    w: v2::V2View,
    e: markdown::MdEventView,
    x: v2::V2View,
)
    requires
        v.run(list) == w,
        w.step(e) == x,
    ensures
        v.run(list.push(e)) == x,
{
    assert(list.push(e).drop_last() =~= list);
}

/// Whether an event leads from one state to another.
#[verifier::opaque]
spec fn reads(v: v2::V2View, e: markdown::MdEventView, w: v2::V2View) -> bool {
    v.step(e) == w
}

proof fn lemma_trace(
    v: v2::V2View,
    events: Seq<markdown::MdEventView>,
    states: Seq<v2::V2View>,
)
    requires
        states.len() == events.len() + 1,
        states[0] == v,
        forall|i: int|
            0 <= i < events.len() ==> #[trigger] reads(states[i], events[i], states[i + 1]),
    ensures
        v.run(events) == states.last(),
    decreases events.len(),
{
    if events.len() > 0 {
        let n = events.len() - 1;
        let fewer = events.drop_last();
        let short = states.drop_last();
        assert forall|i: int| 0 <= i < fewer.len() implies #[trigger] reads(
            short[i],
            fewer[i],
            short[i + 1],
        ) by {
            assert(reads(states[i], events[i], states[i + 1]));
        }
        lemma_trace(v, fewer, short);
        assert(reads(states[n], events[n], states[n + 1])) ;
        reveal(reads);
    }
}

proof fn lemma_nothing_read(v: v2::V2View)
    ensures
        v.run(Seq::empty()) == v,
{
}

/// What a soft or a hard break writes.
proof fn lemma_break(v: v2::V2View, gap: markdown::MdEventView)
    requires
        writing(v),
        gap == markdown::MdEventView::SoftBreak || gap == markdown::MdEventView::HardBreak,
    ensures
        v.step(gap) == (v2::V2View { cur: v.cur + seq!['\n'], ..v }),
{
    reveal_strlit("\n");
    assert("\n"@ =~= seq!['\n']);
}

proof fn lemma_text(v: v2::V2View, s: Seq<char>)
    requires
        writing(v),
    ensures
        v.step(markdown::MdEventView::Text(s)) == (v2::V2View { cur: v.cur + v2::escaped(s), ..v }),
{
}

/// Between two texts that a soft or a hard break separates, a line feed is
/// written in running text; nothing else changes.
pub proof fn breaks_keep_words_apart(
    v: v2::V2View,
    a: Seq<char>,
    gap: markdown::MdEventView,
    b: Seq<char>,
)
    requires
        writing(v),
        gap == markdown::MdEventView::SoftBreak || gap == markdown::MdEventView::HardBreak,
    ensures
        v.run(seq![markdown::MdEventView::Text(a), gap, markdown::MdEventView::Text(b)]) == (
        v2::V2View { cur: v.cur + v2::escaped(a) + seq!['\n'] + v2::escaped(b), ..v }),
{
    let ta = markdown::MdEventView::Text(a);
    let tb = markdown::MdEventView::Text(b);
    let one = v2::V2View { cur: v.cur + v2::escaped(a), ..v };
    let two = v2::V2View { cur: one.cur + seq!['\n'], ..one };
    let three = v2::V2View { cur: two.cur + v2::escaped(b), ..two };
    lemma_nothing_read(v);
    lemma_text(v, a);
    lemma_then(v, Seq::empty(), v, ta, one);
    assert(Seq::empty().push(ta) =~= seq![ta]);
    lemma_break(one, gap);
    lemma_then(v, seq![ta], one, gap, two);
    assert(seq![ta].push(gap) =~= seq![ta, gap]);
    lemma_text(two, b);
    lemma_then(v, seq![ta, gap], two, tb, three);
    assert(seq![ta, gap].push(tb) =~= seq![ta, gap, tb]);
}

/// Inside a link a break of either kind is a line feed in the link's text; in a
/// table's cell a soft break is a space.
#[verifier::rlimit(60)]
pub proof fn breaks_in_links_and_cells(v: v2::V2View, gap: markdown::MdEventView)
    requires
        !v.in_image,
        gap == markdown::MdEventView::SoftBreak || gap == markdown::MdEventView::HardBreak,
    ensures
        v.table is None && v.link is Some ==> v.step(gap) == (v2::V2View {
            link_text: v.link_text + seq!['\n'],
            ..v
        }),
        v.table is Some && gap == markdown::MdEventView::SoftBreak ==> v.step(gap) == (
        v2::V2View {
            table: Some(v2::TableView { cell: v.table->0.cell + seq![' '], ..v.table->0 }),
            ..v
        }),
{
    reveal_strlit("\n");
    reveal_strlit(" ");
    assert("\n"@ =~= seq!['\n']);
    assert(" "@ =~= seq![' ']);
}

proof fn lemma_escaped_solid(s: Seq<char>)
    requires
        ends_solid(s),
    ensures
        ends_solid(v2::escaped(s)),
        v2::escaped(s).last() == s.last(),
{
}

proof fn lemma_solid_stays(s: Seq<char>)
    requires
        ends_solid(s),
    ensures
        text::trim_end(s) == s,
        !text::blank(s),
{
    assert(!text::is_space(s[s.len() - 1]));
}

proof fn lemma_empty_flush(v: v2::V2View)
    requires
        v.cur.len() == 0,
    ensures
        v.flush() == v,
{
    assert(v.cur =~= Seq::empty());
    assert(text::trim_end(v.cur) == v.cur);
    assert(text::blank(v.cur));
}

proof fn lemma_solid_flush(v: v2::V2View)
    requires
        ends_solid(v.cur),
    ensures
        v.flush() == (v2::V2View {
            blocks: v.blocks.push(
                if v.quote > 0 {
                    v2::quoted(v.cur)
                } else {
                    v.cur
                },
            ),
            cur: Seq::empty(),
            ..v
        }),
{
    lemma_solid_stays(v.cur);
}

/// The reading of a paragraph of running text that is already written.
proof fn lemma_paragraph_around(
    v: v2::V2View,
    inner: Seq<markdown::MdEventView>,
    w: v2::V2View,
    written: Seq<char>,
)
    requires
        v.lists.len() == 0,
        v.table is None,
        w == (v2::V2View { cur: Seq::empty(), ..v.flush() }),
        w.run(inner) == (v2::V2View { cur: written, ..w }),
        ends_solid(written),
    ensures
        v.run(
            seq![markdown::MdEventView::Start(MdTag::Paragraph)] + inner
                + seq![markdown::MdEventView::End(MdTag::Paragraph)],
        ) == (v2::V2View { cur: written, ..w }).flush(),
{
    let open = markdown::MdEventView::Start(MdTag::Paragraph);
    let close = markdown::MdEventView::End(MdTag::Paragraph);
    let x = v2::V2View { cur: written, ..w };
    lemma_nothing_read(v);
    lemma_nothing_read(x);
    lemma_then(v, Seq::empty(), v, open, w);
    assert(Seq::empty().push(open) =~= seq![open]);
    reading_goes_on(v, seq![open], inner);
    reading_goes_on(v, seq![open] + inner, seq![close]);
    lemma_then(x, Seq::empty(), x, close, x.flush());
    assert(Seq::empty().push(close) =~= seq![close]);
}

/// Events that finish one block add it behind those before them.
proof fn lemma_block_added(
    before: Seq<markdown::MdEventView>,
    list: Seq<markdown::MdEventView>,
    x: v2::V2View,
    block: Seq<char>,
)
    requires
        v2::V2View::start().run(before).run(list) == x,
        x.flush().blocks == v2::V2View::start().run(before).flush().blocks.push(block),
    ensures
        v2::rendered(before + list) == v2::rendered(before).push(block),
{
    reading_goes_on(v2::V2View::start(), before, list);
}

proof fn lemma_paragraph(
    v: v2::V2View,
    inner: Seq<markdown::MdEventView>,
    written: Seq<char>,
)
    requires
        at_top(v),
        ends_solid(written),
        (v2::V2View { cur: Seq::empty(), ..v.flush() }).run(inner) == (v2::V2View {
            cur: written,
            ..v.flush()
        }),
    ensures
        v.run(
            seq![markdown::MdEventView::Start(MdTag::Paragraph)] + inner
                + seq![markdown::MdEventView::End(MdTag::Paragraph)],
        ) == (v2::V2View { cur: Seq::empty(), blocks: v.flush().blocks.push(written), ..v }),
{
    let w = v2::V2View { cur: Seq::empty(), ..v.flush() };
    lemma_paragraph_around(v, inner, w, written);
    lemma_solid_flush(v2::V2View { cur: written, ..w });
}

/// A paragraph of one text is one block, behind those before it: the text, escaped.
#[verifier::rlimit(60)]
#[verifier::spinoff_prover]
pub proof fn paragraphs_become_blocks(before: Seq<markdown::MdEventView>, a: Seq<char>)
    requires
        at_top(v2::V2View::start().run(before)),
        ends_solid(a),
    ensures
        v2::rendered(
            before + (seq![markdown::MdEventView::Start(MdTag::Paragraph)] + seq![
                markdown::MdEventView::Text(a),
            ] + seq![markdown::MdEventView::End(MdTag::Paragraph)]),
        ) == v2::rendered(before).push(v2::escaped(a)),
{
    let v = v2::V2View::start().run(before);
    let w = v2::V2View { cur: Seq::empty(), ..v.flush() };
    let ta = markdown::MdEventView::Text(a);
    let x = v2::V2View { cur: Seq::empty(), blocks: v.flush().blocks.push(v2::escaped(a)), ..v };
    lemma_escaped_solid(a);
    lemma_nothing_read(w);
    lemma_text(w, a);
    assert(Seq::<char>::empty() + v2::escaped(a) =~= v2::escaped(a));
    lemma_then(w, Seq::empty(), w, ta, v2::V2View { cur: v2::escaped(a), ..w });
    assert(Seq::empty().push(ta) =~= seq![ta]);
    lemma_paragraph(v, seq![ta], v2::escaped(a));
    lemma_empty_flush(x);
    lemma_block_added(
        before,
        seq![markdown::MdEventView::Start(MdTag::Paragraph)] + seq![ta]
            + seq![markdown::MdEventView::End(MdTag::Paragraph)],
        x,
        v2::escaped(a),
    );
}

/// A paragraph whose source breaks a line between two texts is one block that
/// holds both, a line feed between them.
#[verifier::rlimit(60)]
#[verifier::spinoff_prover]
pub proof fn broken_lines_stay_broken(
    before: Seq<markdown::MdEventView>,
    a: Seq<char>,
    gap: markdown::MdEventView,
    b: Seq<char>,
)
    requires
        at_top(v2::V2View::start().run(before)),
        gap == markdown::MdEventView::SoftBreak || gap == markdown::MdEventView::HardBreak,
        ends_solid(b),
    ensures
        v2::rendered(
            before + (seq![markdown::MdEventView::Start(MdTag::Paragraph)] + seq![
                markdown::MdEventView::Text(a),
                gap,
                markdown::MdEventView::Text(b),
            ] + seq![markdown::MdEventView::End(MdTag::Paragraph)]),
        ) == v2::rendered(before).push(v2::escaped(a) + seq!['\n'] + v2::escaped(b)),
{
    let v = v2::V2View::start().run(before);
    let w = v2::V2View { cur: Seq::empty(), ..v.flush() };
    let inner = seq![markdown::MdEventView::Text(a), gap, markdown::MdEventView::Text(b)];
    let written = v2::escaped(a) + seq!['\n'] + v2::escaped(b);
    let x = v2::V2View { cur: Seq::empty(), blocks: v.flush().blocks.push(written), ..v };
    lemma_escaped_solid(b);
    assert(written.last() == v2::escaped(b).last());
    breaks_keep_words_apart(w, a, gap, b);
    assert(Seq::<char>::empty() + v2::escaped(a) + seq!['\n'] + v2::escaped(b) =~= written);
    lemma_paragraph(v, inner, written);
    lemma_empty_flush(x);
    lemma_block_added(
        before,
        seq![markdown::MdEventView::Start(MdTag::Paragraph)] + inner
            + seq![markdown::MdEventView::End(MdTag::Paragraph)],
        x,
        written,
    );
}

/// Escaping puts a backslash before each character that MarkdownV2 gives a meaning, and
/// leaves every other as it is.
pub proof fn special_characters_are_escaped(a: Seq<char>, c: char, b: Seq<char>)
    ensures
        "_*[]()~`>#+-=|{}.!\\"@.contains(c) ==> v2::escaped(a + seq![c] + b) == v2::escaped(a)
            + seq!['\\', c] + v2::escaped(b),
        !"_*[]()~`>#+-=|{}.!\\"@.contains(c) ==> v2::escaped(a + seq![c] + b) == v2::escaped(a)
            + seq![c] + v2::escaped(b),
        v2::escaped(Seq::empty()).len() == 0,
{
    reveal_strlit("_*[]()~`>#+-=|{}.!\\");
    let all = "_*[]()~`>#+-=|{}.!\\"@;
    lemma_escaped_add(a + seq![c], b);
    assert((a + seq![c]).drop_last() =~= a);
    assert(all[0] == '_' && all[1] == '*' && all[2] == '[' && all[3] == ']' && all[4] == '('
        && all[5] == ')' && all[6] == '~' && all[7] == '`' && all[8] == '>' && all[9] == '#'
        && all[10] == '+' && all[11] == '-' && all[12] == '=' && all[13] == '|' && all[14] == '{'
        && all[15] == '}' && all[16] == '.' && all[17] == '!' && all[18] == '\\');
    assert(all.contains(c) <==> v2::is_special(c)) by {
        if v2::is_special(c) {
            assert(exists|i: int| 0 <= i < all.len() && all[i] == c);
        }
    }
}

proof fn lemma_escaped_add(a: Seq<char>, b: Seq<char>)
    ensures
        v2::escaped(a + b) == v2::escaped(a) + v2::escaped(b),
    decreases b.len(),
{
    if b.len() == 0 {
        assert(a + b =~= a);
        assert(v2::escaped(a) + v2::escaped(b) =~= v2::escaped(a));
    } else {
        lemma_escaped_add(a, b.drop_last());
        assert((a + b).drop_last() =~= a + b.drop_last());
        assert(v2::escaped(a + b) =~= v2::escaped(a) + v2::escaped(b));
    }
}

proof fn lemma_guards(a: Seq<char>, c: char, b: Seq<char>, d: char, by: Seq<char>)
    requires
        d != '\\',
        by == seq!['\\', d],
    ensures
        ({
            let all = text::replace_char(
                text::replace_char(a + seq![c] + b, '\\', "\\\\"@),
                d,
                by,
            );
            let front = text::replace_char(text::replace_char(a, '\\', "\\\\"@), d, by);
            let back = text::replace_char(text::replace_char(b, '\\', "\\\\"@), d, by);
            all == front + (if c == '\\' || c == d {
                seq!['\\', c]
            } else {
                seq![c]
            }) + back
        }),
{
    reveal_strlit("\\\\");
    assert("\\\\"@ =~= seq!['\\', '\\']);
    let e = seq!['\\', '\\'];
    let fa = text::replace_char(a, '\\', e);
    let fb = text::replace_char(b, '\\', e);
    text_laws::characters_are_replaced(a, b, '\\', c, e);
    let none = Seq::<char>::empty();
    if c == '\\' {
        text_laws::lemma_replaced_add(fa + e, fb, d, by);
        text_laws::lemma_replaced_add(fa, e, d, by);
        text_laws::characters_are_replaced(none, seq!['\\'], d, '\\', by);
        text_laws::characters_are_replaced(none, none, d, '\\', by);
        assert(none + seq!['\\'] + seq!['\\'] =~= e);
        assert(none + seq!['\\'] + none =~= seq!['\\']);
        assert(text::replace_char(e, d, by) =~= e);
    } else {
        text_laws::characters_are_replaced(fa, fb, d, c, by);
        assert(a + seq![c] + b == a + seq![c] + b);
    }
}

/// Code keeps its characters, but a backslash and a backtick get a backslash before
/// them; a link's destination likewise, with its closing bracket in place of the
/// backtick.
pub proof fn code_and_destinations_are_guarded(a: Seq<char>, c: char, b: Seq<char>)
    ensures
        v2::escaped_code(a + seq![c] + b) == v2::escaped_code(a) + (if c == '\\' || c == '`' {
            seq!['\\', c]
        } else {
            seq![c]
        }) + v2::escaped_code(b),
        v2::escaped_url(a + seq![c] + b) == v2::escaped_url(a) + (if c == '\\' || c == ')' {
            seq!['\\', c]
        } else {
            seq![c]
        }) + v2::escaped_url(b),
        v2::escaped_code(Seq::empty()).len() == 0,
        v2::escaped_url(Seq::empty()).len() == 0,
{
    reveal_strlit("\\`");
    reveal_strlit("\\)");
    assert("\\`"@ =~= seq!['\\', '`']);
    assert("\\)"@ =~= seq!['\\', ')']);
    lemma_guards(a, c, b, '`', "\\`"@);
    lemma_guards(a, c, b, ')', "\\)"@);
}

proof fn lemma_mark(v: v2::V2View, tag: MdTag, mark: char)
    requires
        writing(v),
        (tag == MdTag::Emphasis && mark == '_') || (tag == MdTag::Strong && mark == '*') || (tag
            == MdTag::Strikethrough && mark == '~'),
    ensures
        v.step(markdown::MdEventView::Start(tag)) == (v2::V2View { cur: v.cur + seq![mark], ..v }),
        v.step(markdown::MdEventView::End(tag)) == (v2::V2View { cur: v.cur + seq![mark], ..v }),
{
    reveal_strlit("_");
    reveal_strlit("*");
    reveal_strlit("~");
    assert("_"@ =~= seq!['_']);
    assert("*"@ =~= seq!['*']);
    assert("~"@ =~= seq!['~']);
}

/// Emphasised, strong and struck text stands between underscores, asterisks and tildes.
#[verifier::rlimit(60)]
pub proof fn emphasis_is_marked(v: v2::V2View, tag: MdTag, mark: char, s: Seq<char>)
    requires
        writing(v),
        (tag == MdTag::Emphasis && mark == '_') || (tag == MdTag::Strong && mark == '*') || (tag
            == MdTag::Strikethrough && mark == '~'),
    ensures
        v.run(
            seq![
                markdown::MdEventView::Start(tag),
                markdown::MdEventView::Text(s),
                markdown::MdEventView::End(tag),
            ],
        ) == (v2::V2View { cur: v.cur + seq![mark] + v2::escaped(s) + seq![mark], ..v }),
{
    let e0 = markdown::MdEventView::Start(tag);
    let e1 = markdown::MdEventView::Text(s);
    let e2 = markdown::MdEventView::End(tag);
    let s0 = v2::V2View { cur: v.cur + seq![mark], ..v };
    let s1 = v2::V2View { cur: s0.cur + v2::escaped(s), ..v };
    let s2 = v2::V2View { cur: s1.cur + seq![mark], ..v };
    lemma_mark(v, tag, mark);
    lemma_text(s0, s);
    lemma_mark(s1, tag, mark);
    let events = seq![e0, e1, e2];
    let states = seq![v, s0, s1, s2];
    assert(reads(v, e0, s0)) by {
        reveal(reads);
    }
    assert(reads(s0, e1, s1)) by {
        reveal(reads);
    }
    assert(reads(s1, e2, s2)) by {
        reveal(reads);
    }
    assert forall|i: int| 0 <= i < events.len() implies #[trigger] reads(
        states[i],
        events[i],
        states[i + 1],
    ) by {
        if i == 0 {
            assert(reads(states[0], events[0], states[1]));
        }
        if i == 1 {
            assert(reads(states[1], events[1], states[2]));
        }
    }
    lemma_trace(v, events, states);
}

/// Code and mathematics inside a line stand between backticks; a footnote's label
/// stands in brackets; a task's box shows whether it is done; raw HTML is text.
#[verifier::rlimit(60)]
pub proof fn inline_pieces_are_written(v: v2::V2View, s: Seq<char>)
    requires
        writing(v),
    ensures
        v.step(markdown::MdEventView::Code(s)) == (v2::V2View {
            cur: v.cur + seq!['`'] + v2::escaped_code(s) + seq!['`'],
            ..v
        }),
        v.step(markdown::MdEventView::InlineMath(s)) == (v2::V2View {
            cur: v.cur + seq!['`'] + v2::escaped_code(s) + seq!['`'],
            ..v
        }),
        v.step(markdown::MdEventView::FootnoteReference(s)) == (v2::V2View {
            cur: v.cur + seq!['\\', '['] + v2::escaped(s) + seq!['\\', ']'],
            ..v
        }),
        v.step(markdown::MdEventView::TaskListMarker(true)) == (v2::V2View {
            cur: v.cur + seq!['☑', ' '],
            ..v
        }),
        v.step(markdown::MdEventView::TaskListMarker(false)) == (v2::V2View {
            cur: v.cur + seq!['☐', ' '],
            ..v
        }),
        v.step(markdown::MdEventView::Html(s)) == (v2::V2View {
            cur: v.cur + v2::escaped(s),
            ..v
        }),
        v.step(markdown::MdEventView::InlineHtml(s)) == (v2::V2View {
            cur: v.cur + v2::escaped(s),
            ..v
        }),
{
    reveal_strlit("`");
    reveal_strlit("\\[");
    reveal_strlit("\\]");
    reveal_strlit("☑ ");
    reveal_strlit("☐ ");
    assert("☑ "@ =~= seq!['☑', ' ']);
    assert("☐ "@ =~= seq!['☐', ' ']);
    assert(v.cur + v2::inline_code(s) =~= v.cur + seq!['`'] + v2::escaped_code(s) + seq!['`']);
    assert(v.cur + v2::footnote_mark(s) =~= v.cur + seq!['\\', '['] + v2::escaped(s)
        + seq!['\\', ']']);
}

/// Nothing inside an image is shown: not its text, code, breaks or marks, and behind it
/// the reading is where it was before.
#[verifier::rlimit(60)]
pub proof fn images_leave_no_text(v: v2::V2View, s: Seq<char>, e: markdown::MdEventView)
    requires
        !v.in_image,
    ensures
        v.run(
            seq![
                markdown::MdEventView::Start(MdTag::Image),
                markdown::MdEventView::Text(s),
                markdown::MdEventView::End(MdTag::Image),
            ],
        ) == v,
        ({
            let w = v2::V2View { in_image: true, ..v };
            w.table is None && (e is Text || e is Code || e is Html || e is InlineHtml
                || e is SoftBreak || e is HardBreak || e is InlineMath || e is FootnoteReference
                || e == markdown::MdEventView::Start(MdTag::Emphasis) || e
                == markdown::MdEventView::End(MdTag::Emphasis) || e
                == markdown::MdEventView::Start(MdTag::Strong) || e == markdown::MdEventView::End(
                MdTag::Strong,
            )) ==> w.step(e) == w
        }),
{
    let e0 = markdown::MdEventView::Start(MdTag::Image);
    let e1 = markdown::MdEventView::Text(s);
    let e2 = markdown::MdEventView::End(MdTag::Image);
    let w = v2::V2View { in_image: true, ..v };
    let events = seq![e0, e1, e2];
    let states = seq![v, w, w, v];
    assert(reads(v, e0, w)) by {
        reveal(reads);
    }
    assert(reads(w, e1, w)) by {
        reveal(reads);
    }
    assert(reads(w, e2, v)) by {
        reveal(reads);
    }
    assert forall|i: int| 0 <= i < events.len() implies #[trigger] reads(
        states[i],
        events[i],
        states[i + 1],
    ) by {
        if i == 0 {
            assert(reads(states[0], events[0], states[1]));
        }
        if i == 1 {
            assert(reads(states[1], events[1], states[2]));
        }
    }
    lemma_trace(v, events, states);
}

/// A link to a web page or into Telegram is its text in square brackets and its
/// destination in round ones; a link to anything else is its text alone; and a link
/// without text shows its destination.
#[verifier::rlimit(60)]
#[verifier::spinoff_prover]
pub proof fn links_are_written(v: v2::V2View, url: Seq<char>, s: Seq<char>)
    requires
        writing(v),
    ensures
        ({
            let after = v.run(
                seq![
                    markdown::MdEventView::StartLink(url),
                    markdown::MdEventView::Text(s),
                    markdown::MdEventView::End(MdTag::Link),
                ],
            );
            let shown = if text::blank(s) {
                v2::escaped(url)
            } else {
                v2::escaped(s)
            };
            let web = "http://"@.is_prefix_of(url) || "https://"@.is_prefix_of(url)
                || "tg://"@.is_prefix_of(url);
            &&& after.link is None
            &&& after.blocks == v.blocks
            &&& web ==> after.cur == v.cur + seq!['['] + shown + seq![']', '('] + v2::escaped_url(
                url,
            ) + seq![')']
            &&& !web ==> after.cur == v.cur + shown
        }),
{
    reveal_strlit("[");
    reveal_strlit("](");
    reveal_strlit(")");
    let e0 = markdown::MdEventView::StartLink(url);
    let e1 = markdown::MdEventView::Text(s);
    let e2 = markdown::MdEventView::End(MdTag::Link);
    let s0 = v2::V2View { link: Some(url), link_text: Seq::empty(), ..v };
    let s1 = v2::V2View { link_text: v2::escaped(s), ..s0 };
    let s2 = v2::V2View {
        link: None,
        link_text: Seq::empty(),
        cur: v.cur + v2::link_piece(url, v2::escaped(s)),
        ..v
    };
    assert(Seq::<char>::empty() + v2::escaped(s) =~= v2::escaped(s));
    let events = seq![e0, e1, e2];
    let states = seq![v, s0, s1, s2];
    assert(reads(v, e0, s0)) by {
        reveal(reads);
    }
    assert(reads(s0, e1, s1)) by {
        reveal(reads);
    }
    assert(reads(s1, e2, s2)) by {
        reveal(reads);
    }
    assert forall|i: int| 0 <= i < events.len() implies #[trigger] reads(
        states[i],
        events[i],
        states[i + 1],
    ) by {
        if i == 0 {
            assert(reads(states[0], events[0], states[1]));
        }
        if i == 1 {
            assert(reads(states[1], events[1], states[2]));
        }
    }
    lemma_trace(v, events, states);
    lemma_escaped_blank(s);
    let shown = if text::blank(s) {
        v2::escaped(url)
    } else {
        v2::escaped(s)
    };
    let linked = "["@ + shown + "]("@ + v2::escaped_url(url) + ")"@;
    assert(v.cur + linked =~= v.cur + seq!['['] + shown + seq![']', '('] + v2::escaped_url(url)
        + seq![')']);
}

proof fn lemma_escaped_blank(s: Seq<char>)
    ensures
        text::blank(v2::escaped(s)) <==> text::blank(s),
    decreases s.len(),
{
    if s.len() > 0 {
        let t = s.drop_last();
        let c = s.last();
        lemma_escaped_blank(t);
        let e = v2::escaped(s);
        assert(e.last() == c);
        if text::blank(s) {
            assert(text::is_space(s[s.len() - 1]));
            assert forall|i: int| 0 <= i < t.len() implies text::is_space(#[trigger] t[i]) by {
                assert(t[i] == s[i]);
            }
            assert(!v2::is_special(c));
            assert(e =~= v2::escaped(t) + seq![c]);
        }
        if text::blank(e) {
            assert(text::is_space(e[e.len() - 1]));
            assert(!v2::is_special(c));
            assert(e =~= v2::escaped(t) + seq![c]);
            assert forall|i: int| 0 <= i < v2::escaped(t).len() implies text::is_space(
                #[trigger] v2::escaped(t)[i],
            ) by {
                assert(v2::escaped(t)[i] == e[i]);
            }
            assert forall|i: int| 0 <= i < s.len() implies text::is_space(#[trigger] s[i]) by {
                if i < t.len() {
                    assert(t[i] == s[i]);
                }
            }
        }
    }
}

/// Inside a link, marks and code go into the link's text.
#[verifier::rlimit(60)]
pub proof fn marks_in_links_are_kept(v: v2::V2View, s: Seq<char>)
    requires
        !v.in_image,
        v.table is None,
        v.link is Some,
    ensures
        v.step(markdown::MdEventView::Start(MdTag::Strong)) == (v2::V2View {
            link_text: v.link_text + seq!['*'],
            ..v
        }),
        v.step(markdown::MdEventView::Start(MdTag::Emphasis)) == (v2::V2View {
            link_text: v.link_text + seq!['_'],
            ..v
        }),
        v.step(markdown::MdEventView::Code(s)) == (v2::V2View {
            link_text: v.link_text + seq!['`'] + v2::escaped_code(s) + seq!['`'],
            ..v
        }),
        v.step(markdown::MdEventView::Text(s)) == (v2::V2View {
            link_text: v.link_text + v2::escaped(s),
            ..v
        }),
{
    reveal_strlit("*");
    reveal_strlit("_");
    reveal_strlit("`");
    assert("*"@ =~= seq!['*']);
    assert("_"@ =~= seq!['_']);
    assert(v.link_text + v2::inline_code(s) =~= v.link_text + seq!['`'] + v2::escaped_code(s)
        + seq!['`']);
}

/// A heading is a block of its own, in bold.
#[verifier::rlimit(60)]
#[verifier::spinoff_prover]
pub proof fn headings_are_bold(before: Seq<markdown::MdEventView>, s: Seq<char>)
    requires
        at_top(v2::V2View::start().run(before)),
    ensures
        v2::rendered(
            before + seq![
                markdown::MdEventView::Start(MdTag::Heading),
                markdown::MdEventView::Text(s),
                markdown::MdEventView::End(MdTag::Heading),
            ],
        ) == v2::rendered(before).push(seq!['*'] + v2::escaped(s) + seq!['*']),
{
    reveal_strlit("*");
    assert("*"@ =~= seq!['*']);
    let v = v2::V2View::start().run(before);
    let e0 = markdown::MdEventView::Start(MdTag::Heading);
    let e1 = markdown::MdEventView::Text(s);
    let e2 = markdown::MdEventView::End(MdTag::Heading);
    let b = seq!['*'] + v2::escaped(s) + seq!['*'];
    let s0 = v2::V2View { cur: seq!['*'], ..v.flush() };
    let s1 = v2::V2View { cur: s0.cur + v2::escaped(s), ..s0 };
    let x = v2::V2View { cur: b, ..s0 };
    assert(Seq::<char>::empty() + seq!['*'] =~= seq!['*']);
    assert(v.step(e0) == s0);
    lemma_text(s0, s);
    let s2 = x.flush();
    assert(s1.push_raw("*"@) == x);
    assert(b.last() == '*');
    lemma_solid_flush(x);
    let events = seq![e0, e1, e2];
    let states = seq![v, s0, s1, s2];
    assert(reads(v, e0, s0)) by {
        reveal(reads);
    }
    assert(reads(s0, e1, s1)) by {
        reveal(reads);
    }
    assert(reads(s1, e2, s2)) by {
        reveal(reads);
    }
    assert forall|i: int| 0 <= i < events.len() implies #[trigger] reads(
        states[i],
        events[i],
        states[i + 1],
    ) by {
        if i == 0 {
            assert(reads(states[0], events[0], states[1]));
        }
        if i == 1 {
            assert(reads(states[1], events[1], states[2]));
        }
    }
    lemma_trace(v, events, states);
    lemma_empty_flush(s2);
    lemma_block_added(before, seq![e0, e1, e2], s2, b);
}

/// A rule is a block of dashes.
#[verifier::rlimit(60)]
pub proof fn rules_are_dashes(before: Seq<markdown::MdEventView>)
    requires
        at_top(v2::V2View::start().run(before)),
    ensures
        v2::rendered(before + seq![markdown::MdEventView::Rule]) == v2::rendered(before).push(
            seq!['—', '—', '—'],
        ),
{
    reveal_strlit("———");
    assert("———"@ =~= seq!['—', '—', '—']);
    let v = v2::V2View::start().run(before);
    let e0 = markdown::MdEventView::Rule;
    let s0 = v2::V2View { blocks: v.flush().blocks.push("———"@), ..v.flush() };
    let events = seq![e0];
    let states = seq![v, s0];
    assert(reads(v, e0, s0)) by {
        reveal(reads);
    }
    assert forall|i: int| 0 <= i < events.len() implies #[trigger] reads(
        states[i],
        events[i],
        states[i + 1],
    ) by {
    }
    lemma_trace(v, events, states);
    lemma_empty_flush(s0);
    lemma_block_added(before, seq![e0], s0, "———"@);
}

/// A code block is a block of its own between fences, the language behind the first;
/// its last line is ended where it is not.
pub proof fn code_blocks_are_fenced(
    before: Seq<markdown::MdEventView>,
    info: Seq<char>,
    code: Seq<char>,
)
    requires
        at_top(v2::V2View::start().run(before)),
        forall|i: int|
            0 <= i < info.len() ==> text::is_ascii_word(#[trigger] info[i]) || info[i] == '_'
                || info[i] == '-' || info[i] == '+',
        code.len() > 0,
        !text::is_space(code.last()),
    ensures
        v2::rendered(
            before + seq![
                markdown::MdEventView::StartCode(info),
                markdown::MdEventView::Text(code),
                markdown::MdEventView::End(MdTag::CodeBlock),
            ],
        ) == v2::rendered(before).push(
            seq!['`', '`', '`'] + info + seq!['\n'] + v2::escaped_code(code) + seq![
                '\n',
                '`',
                '`',
                '`',
            ],
        ),
        v2::rendered(
            before + seq![
                markdown::MdEventView::StartCode(info),
                markdown::MdEventView::Text(code + seq!['\n']),
                markdown::MdEventView::End(MdTag::CodeBlock),
            ],
        ) == v2::rendered(before).push(
            seq!['`', '`', '`'] + info + seq!['\n'] + v2::escaped_code(code) + seq![
                '\n',
                '`',
                '`',
                '`',
            ],
        ),
{
    let none = Seq::<char>::empty();
    code_and_destinations_are_guarded(code, '\n', none);
    assert(code + seq!['\n'] + none =~= code + seq!['\n']);
    assert(v2::escaped_code(code) + seq!['\n'] + v2::escaped_code(none) =~= v2::escaped_code(
        code,
    ) + seq!['\n']);
    code_and_destinations_are_guarded(code.drop_last(), code.last(), none);
    assert(code.drop_last() + seq![code.last()] + none =~= code);
    assert(v2::escaped_code(code).last() == code.last());
    lemma_code_block(before, info, code, v2::escaped_code(code));
    lemma_code_block(
        before,
        info,
        code + seq!['\n'],
        v2::escaped_code(code) + seq!['\n'],
    );
    let front = seq!['`', '`', '`'] + info + seq!['\n'];
    let back = seq!['`', '`', '`'];
    assert(front + (v2::escaped_code(code) + seq!['\n']) + back =~= front + v2::escaped_code(code)
        + seq!['\n', '`', '`', '`']);
}

#[verifier::rlimit(60)]
#[verifier::spinoff_prover]
proof fn lemma_code_block(
    before: Seq<markdown::MdEventView>,
    info: Seq<char>,
    code: Seq<char>,
    written: Seq<char>,
)
    requires
        at_top(v2::V2View::start().run(before)),
        forall|i: int|
            0 <= i < info.len() ==> text::is_ascii_word(#[trigger] info[i]) || info[i] == '_'
                || info[i] == '-' || info[i] == '+',
        written == v2::escaped_code(code),
        written.len() > 0,
    ensures
        v2::rendered(
            before + seq![
                markdown::MdEventView::StartCode(info),
                markdown::MdEventView::Text(code),
                markdown::MdEventView::End(MdTag::CodeBlock),
            ],
        ) == v2::rendered(before).push(
            if written.last() == '\n' {
                seq!['`', '`', '`'] + info + seq!['\n'] + written + seq!['`', '`', '`']
            } else {
                seq!['`', '`', '`'] + info + seq!['\n'] + written + seq!['\n', '`', '`', '`']
            },
        ),
{
    reveal_strlit("```");
    reveal_strlit("\n");
    let v = v2::V2View::start().run(before);
    let e0 = markdown::MdEventView::StartCode(info);
    let e1 = markdown::MdEventView::Text(code);
    let e2 = markdown::MdEventView::End(MdTag::CodeBlock);
    let front = seq!['`', '`', '`'] + info + seq!['\n'];
    let block = if written.last() == '\n' {
        front + written + seq!['`', '`', '`']
    } else {
        front + written + seq!['\n', '`', '`', '`']
    };
    lemma_all_kept(info, |c: char| v2::is_lang_char(c));
    assert(v2::fence_line(info) =~= front);
    let f = v2::V2View { in_code: true, ..v.flush() };
    let s0 = v2::V2View { cur: front, ..f };
    assert(Seq::<char>::empty() + front =~= front);
    assert(v.step(e0) == s0);
    let s1 = v2::V2View { cur: front + written, ..f };
    assert(s0.step(e1) == s1);
    let n = if s1.cur.last() == '\n' {
        s1
    } else {
        v2::V2View { cur: s1.cur.push('\n'), ..s1 }
    };
    assert(s1.cur.last() == written.last());
    let x = v2::V2View { cur: block, in_code: false, ..f };
    assert(n.cur + "```"@ =~= block);
    assert((v2::V2View { in_code: false, ..n.push_raw("```"@) }) == x);
    let s2 = x.flush();
    assert(s1.step(e2) == s2);
    assert(block.last() == '`');
    lemma_solid_flush(x);
    let events = seq![e0, e1, e2];
    let states = seq![v, s0, s1, s2];
    assert(reads(v, e0, s0)) by {
        reveal(reads);
    }
    assert(reads(s0, e1, s1)) by {
        reveal(reads);
    }
    assert(reads(s1, e2, s2)) by {
        reveal(reads);
    }
    assert forall|i: int| 0 <= i < events.len() implies #[trigger] reads(
        states[i],
        events[i],
        states[i + 1],
    ) by {
        if i == 0 {
            assert(reads(states[0], events[0], states[1]));
        }
        if i == 1 {
            assert(reads(states[1], events[1], states[2]));
        }
    }
    lemma_trace(v, events, states);
    lemma_empty_flush(s2);
    lemma_block_added(before, seq![e0, e1, e2], s2, block);
}

proof fn lemma_all_kept(s: Seq<char>, keep: spec_fn(char) -> bool)
    requires
        forall|i: int| 0 <= i < s.len() ==> keep(#[trigger] s[i]),
    ensures
        s.filter(keep) == s,
    decreases s.len(),
{
    reveal(Seq::filter);
    if s.len() > 0 {
        lemma_all_kept(s.drop_last(), keep);
        assert(s =~= s.drop_last().push(s.last()));
    }
}

/// Mathematics on lines of its own is a fenced block of its own.
#[verifier::rlimit(60)]
pub proof fn display_math_is_fenced(before: Seq<markdown::MdEventView>, s: Seq<char>)
    requires
        at_top(v2::V2View::start().run(before)),
    ensures
        v2::rendered(before + seq![markdown::MdEventView::DisplayMath(s)]) == v2::rendered(
            before,
        ).push(
            seq!['`', '`', '`', '\n'] + v2::escaped_code(s) + seq!['\n', '`', '`', '`'],
        ),
{
    reveal_strlit("```\n");
    reveal_strlit("\n```");
    let v = v2::V2View::start().run(before);
    let e0 = markdown::MdEventView::DisplayMath(s);
    let b = seq!['`', '`', '`', '\n'] + v2::escaped_code(s) + seq!['\n', '`', '`', '`'];
    assert(v2::fenced(s) =~= b);
    let x = v2::V2View { cur: b, ..v.flush() };
    assert(Seq::<char>::empty() + b =~= b);
    let s0 = x.flush();
    assert(v.step(e0) == s0);
    assert(b.last() == '`');
    lemma_solid_flush(x);
    let events = seq![e0];
    let states = seq![v, s0];
    assert(reads(v, e0, s0)) by {
        reveal(reads);
    }
    assert forall|i: int| 0 <= i < events.len() implies #[trigger] reads(
        states[i],
        events[i],
        states[i + 1],
    ) by {
    }
    lemma_trace(v, events, states);
    lemma_empty_flush(s0);
    lemma_block_added(before, seq![e0], s0, b);
}

/// A footnote is a block that begins with its label in brackets.
pub proof fn footnotes_begin_with_their_label(v: v2::V2View, label: Seq<char>)
    requires
        at_top(v),
    ensures
        v.step(markdown::MdEventView::StartFootnote(label)) == (v2::V2View {
            cur: seq!['\\', '['] + v2::escaped(label) + seq!['\\', ']', ' '],
            ..v.flush()
        }),
{
    reveal_strlit("\\[");
    reveal_strlit("\\]");
    reveal_strlit(" ");
    assert(Seq::<char>::empty() + (v2::footnote_mark(label) + " "@) =~= seq!['\\', '[']
        + v2::escaped(label) + seq!['\\', ']', ' ']);
}

proof fn lemma_escaped_plain(s: Seq<char>, c: char)
    requires
        !s.contains(c),
        c != '\\',
    ensures
        !v2::escaped(s).contains(c),
    decreases s.len(),
{
    if s.len() > 0 {
        let t = s.drop_last();
        assert(s.contains(s.last()));
        if t.contains(c) {
            assert(s[t.index_of(c)] == c);
        }
        lemma_escaped_plain(t, c);
        let e = v2::escaped(s);
        if e.contains(c) {
            let i = e.index_of(c);
            if i < v2::escaped(t).len() {
                assert(v2::escaped(t)[i] == c);
            }
        }
    }
}

proof fn lemma_two_quoted(a: Seq<char>, b: Seq<char>)
    requires
        !a.contains('\n'),
        !a.contains('\r'),
        !b.contains('\n'),
        !b.contains('\r'),
        b.len() > 0,
    ensures
        v2::quoted(a + seq!['\n'] + b) == seq!['>'] + a + seq!['\n', '>'] + b,
        v2::quoted(b) == seq!['>'] + b,
{
    reveal_strlit("\n");
    text_laws::lines_are_separated(a, b);
    text_laws::lines_are_separated(b, Seq::empty());
    let f = |l: Seq<char>| seq!['>'] + l;
    let one = seq!['>'] + a;
    let two = seq!['>'] + b;
    assert(text::lines(a + seq!['\n'] + b) =~= seq![a, b]);
    assert(text::lines(a + seq!['\n'] + b).map_values(f) =~= seq![one, two]);
    assert(text::lines(b).map_values(f) =~= seq![two]);
    text_laws::joining_separates(Seq::empty(), one, two, "\n"@);
    text_laws::joining_separates(Seq::empty(), two, two, "\n"@);
    assert(one + "\n"@ + two =~= seq!['>'] + a + seq!['\n', '>'] + b);
}

/// In a quotation every line of a paragraph stands behind a `>`, and behind the
/// quotation nothing does.
#[verifier::rlimit(80)]
#[verifier::spinoff_prover]
pub proof fn quotations_are_marked(
    before: Seq<markdown::MdEventView>,
    a: Seq<char>,
    gap: markdown::MdEventView,
    b: Seq<char>,
)
    requires
        at_top(v2::V2View::start().run(before)),
        gap == markdown::MdEventView::SoftBreak || gap == markdown::MdEventView::HardBreak,
        !a.contains('\n'),
        !a.contains('\r'),
        !b.contains('\n'),
        !b.contains('\r'),
        ends_solid(b),
    ensures
        ({
            let list = seq![
                markdown::MdEventView::Start(MdTag::BlockQuote),
                markdown::MdEventView::Start(MdTag::Paragraph),
                markdown::MdEventView::Text(a),
                gap,
                markdown::MdEventView::Text(b),
                markdown::MdEventView::End(MdTag::Paragraph),
                markdown::MdEventView::End(MdTag::BlockQuote),
            ];
            &&& v2::rendered(before + list) == v2::rendered(before).push(
                seq!['>'] + v2::escaped(a) + seq!['\n', '>'] + v2::escaped(b),
            )
            &&& at_top(v2::V2View::start().run(before + list))
        }),
{
    let v = v2::V2View::start().run(before);
    let e0 = markdown::MdEventView::Start(MdTag::BlockQuote);
    let e1 = markdown::MdEventView::Start(MdTag::Paragraph);
    let e2 = markdown::MdEventView::Text(a);
    let e4 = markdown::MdEventView::Text(b);
    let e5 = markdown::MdEventView::End(MdTag::Paragraph);
    let e6 = markdown::MdEventView::End(MdTag::BlockQuote);
    let f = v.flush();
    let s0 = v2::V2View { quote: 1, ..f };
    lemma_empty_flush(s0);
    let s2 = v2::V2View { cur: v2::escaped(a), ..s0 };
    let s3 = v2::V2View { cur: s2.cur + seq!['\n'], ..s0 };
    let s4 = v2::V2View { cur: s3.cur + v2::escaped(b), ..s0 };
    lemma_text(s0, a);
    assert(Seq::<char>::empty() + v2::escaped(a) =~= v2::escaped(a));
    lemma_break(s2, gap);
    lemma_text(s3, b);
    lemma_escaped_solid(b);
    assert(s4.cur.last() == v2::escaped(b).last());
    lemma_solid_flush(s4);
    lemma_escaped_plain(a, '\n');
    lemma_escaped_plain(a, '\r');
    lemma_escaped_plain(b, '\n');
    lemma_escaped_plain(b, '\r');
    lemma_two_quoted(v2::escaped(a), v2::escaped(b));
    let block = seq!['>'] + v2::escaped(a) + seq!['\n', '>'] + v2::escaped(b);
    let s5 = v2::V2View { cur: Seq::empty(), blocks: f.blocks.push(block), ..s0 };
    lemma_empty_flush(s5);
    let s6 = v2::V2View { quote: 0, ..s5 };
    assert(s0.step(e1) == s0);
    assert(s4.step(e5) == s5);
    assert(s5.step(e6) == s6);
    let events = seq![e0, e1, e2, gap, e4, e5, e6];
    let states = seq![v, s0, s0, s2, s3, s4, s5, s6];
    assert(reads(v, e0, s0)) by {
        reveal(reads);
    }
    assert(reads(s0, e1, s0)) by {
        reveal(reads);
    }
    assert(reads(s0, e2, s2)) by {
        reveal(reads);
    }
    assert(reads(s2, gap, s3)) by {
        reveal(reads);
    }
    assert(reads(s3, e4, s4)) by {
        reveal(reads);
    }
    assert(reads(s4, e5, s5)) by {
        reveal(reads);
    }
    assert(reads(s5, e6, s6)) by {
        reveal(reads);
    }
    assert forall|i: int| 0 <= i < events.len() implies #[trigger] reads(
        states[i],
        events[i],
        states[i + 1],
    ) by {
        if i == 0 {
            assert(reads(states[0], events[0], states[1]));
        }
        if i == 1 {
            assert(reads(states[1], events[1], states[2]));
        }
        if i == 2 {
            assert(reads(states[2], events[2], states[3]));
        }
        if i == 3 {
            assert(reads(states[3], events[3], states[4]));
        }
        if i == 4 {
            assert(reads(states[4], events[4], states[5]));
        }
        if i == 5 {
            assert(reads(states[5], events[5], states[6]));
        }
    }
    lemma_trace(v, events, states);
    lemma_empty_flush(s6);
    lemma_block_added(before, seq![e0, e1, e2, gap, e4, e5, e6], s6, block);
    reading_goes_on(v2::V2View::start(), before, seq![e0, e1, e2, gap, e4, e5, e6]);
}

proof fn lemma_open_item(v: v2::V2View, first: Option<u64>, mark: Seq<char>)
    requires
        writing(v),
        v.lists == seq![first],
        first matches Some(n) ==> n < u64::MAX && mark == text::decimal(n as nat) + seq![
            '\\',
            '.',
            ' ',
        ],
        first is None ==> mark == seq!['•', ' '],
        v.cur.len() == 0 || v.cur.last() != '\n',
    ensures
        v.step(markdown::MdEventView::Start(MdTag::Item)) == (v2::V2View {
            lists: seq![
                match first {
                    Some(n) => Some((n + 1) as u64),
                    None => None,
                },
            ],
            cur: (if v.cur.len() > 0 {
                v.cur + seq!['\n']
            } else {
                v.cur
            }) + mark,
            ..v
        }),
{
    reveal_strlit("\\. ");
    reveal_strlit("• ");
    reveal_strlit("  ");
    assert("\\. "@ =~= seq!['\\', '.', ' ']);
    assert("• "@ =~= seq!['•', ' ']);
    assert(text::repeat("  "@, 0) =~= Seq::<char>::empty());
    assert(v2::item_marker(v.lists) =~= mark);
    let next = match first {
        Some(n) => Some((n + 1) as u64),
        None => None,
    };
    assert(v2::counted(v.lists) =~= seq![next]);
    assert(v.cur.push('\n') =~= v.cur + seq!['\n']);
}

/// A list is one block with an item on each line: behind a bullet where it is not
/// counted, and where it is behind numbers that go up by one from the first.
#[verifier::rlimit(60)]
#[verifier::spinoff_prover]
pub proof fn items_are_listed(
    before: Seq<markdown::MdEventView>,
    first: Option<u64>,
    a: Seq<char>,
    b: Seq<char>,
    m: Seq<char>,
    n: Seq<char>,
)
    requires
        at_top(v2::V2View::start().run(before)),
        ends_solid(a),
        ends_solid(b),
        first matches Some(k) ==> k < u64::MAX - 1 && m == text::decimal(k as nat) + seq![
            '\\',
            '.',
            ' ',
        ] && n == text::decimal((k + 1) as nat) + seq!['\\', '.', ' '],
        first is None ==> m == seq!['•', ' '] && n == seq!['•', ' '],
    ensures
        v2::rendered(
            before + seq![
                markdown::MdEventView::StartList(first),
                markdown::MdEventView::Start(MdTag::Item),
                markdown::MdEventView::Text(a),
                markdown::MdEventView::End(MdTag::Item),
                markdown::MdEventView::Start(MdTag::Item),
                markdown::MdEventView::Text(b),
                markdown::MdEventView::End(MdTag::Item),
                markdown::MdEventView::End(MdTag::List),
            ],
        ) == v2::rendered(before).push(
            m + v2::escaped(a) + seq!['\n'] + n + v2::escaped(b),
        ),
{
    let v = v2::V2View::start().run(before);
    let e0 = markdown::MdEventView::StartList(first);
    let item = markdown::MdEventView::Start(MdTag::Item);
    let ta = markdown::MdEventView::Text(a);
    let done = markdown::MdEventView::End(MdTag::Item);
    let tb = markdown::MdEventView::Text(b);
    let end = markdown::MdEventView::End(MdTag::List);
    let f = v.flush();
    let second = match first {
        Some(k) => Some((k + 1) as u64),
        None => None,
    };
    let third = match second {
        Some(k) => Some((k + 1) as u64),
        None => None,
    };
    let s0 = v2::V2View { lists: seq![first], ..f };
    assert(v.lists.push(first) =~= seq![first]);
    let s1 = v2::V2View { lists: seq![second], cur: m, ..f };
    assert(Seq::<char>::empty() + m =~= m);
    lemma_open_item(s0, first, m);
    let s2 = v2::V2View { cur: m + v2::escaped(a), ..s1 };
    lemma_text(s1, a);
    lemma_escaped_solid(a);
    assert(s2.cur.last() == v2::escaped(a).last());
    let s3 = v2::V2View { lists: seq![third], cur: s2.cur + seq!['\n'] + n, ..f };
    lemma_open_item(s2, second, n);
    let s4 = v2::V2View { cur: s3.cur + v2::escaped(b), ..s3 };
    lemma_text(s3, b);
    lemma_escaped_solid(b);
    assert(s4.cur.last() == v2::escaped(b).last());
    let x = v2::V2View { lists: Seq::empty(), ..s4 };
    assert(seq![third].drop_last() =~= Seq::empty());
    let s5 = x.flush();
    lemma_solid_flush(x);
    assert(s4.step(end) == s5);
    let block = m + v2::escaped(a) + seq!['\n'] + n + v2::escaped(b);
    let events = seq![e0, item, ta, done, item, tb, done, end];
    let states = seq![v, s0, s1, s2, s2, s3, s4, s4, s5];
    assert(reads(v, e0, s0)) by {
        reveal(reads);
    }
    assert(reads(s0, item, s1)) by {
        reveal(reads);
    }
    assert(reads(s1, ta, s2)) by {
        reveal(reads);
    }
    assert(reads(s2, done, s2)) by {
        reveal(reads);
    }
    assert(reads(s2, item, s3)) by {
        reveal(reads);
    }
    assert(reads(s3, tb, s4)) by {
        reveal(reads);
    }
    assert(reads(s4, done, s4)) by {
        reveal(reads);
    }
    assert(reads(s4, end, s5)) by {
        reveal(reads);
    }
    assert forall|i: int| 0 <= i < events.len() implies #[trigger] reads(
        states[i],
        events[i],
        states[i + 1],
    ) by {
        if i == 0 {
            assert(reads(states[0], events[0], states[1]));
        }
        if i == 1 {
            assert(reads(states[1], events[1], states[2]));
        }
        if i == 2 {
            assert(reads(states[2], events[2], states[3]));
        }
        if i == 3 {
            assert(reads(states[3], events[3], states[4]));
        }
        if i == 4 {
            assert(reads(states[4], events[4], states[5]));
        }
        if i == 5 {
            assert(reads(states[5], events[5], states[6]));
        }
        if i == 6 {
            assert(reads(states[6], events[6], states[7]));
        }
    }
    lemma_trace(v, events, states);
    lemma_empty_flush(s5);
    lemma_block_added(before, seq![e0, item, ta, done, item, tb, done, end], s5, block);
}

/// An item of a list inside a list starts a line of its own and is indented by two
/// spaces for each list around it.
#[verifier::rlimit(60)]
#[verifier::spinoff_prover]
pub proof fn nested_items_are_indented(v: v2::V2View, lists: Seq<Option<u64>>)
    requires
        writing(v),
        v.lists == lists,
        lists.len() > 0,
        lists.last() is None,
        v.cur.len() > 0,
        v.cur.last() != '\n',
    ensures
        v.step(markdown::MdEventView::Start(MdTag::Item)) == (v2::V2View {
            cur: v.cur + seq!['\n'] + text::repeat(seq![' ', ' '], (lists.len() - 1) as nat) + seq![
                '•',
                ' ',
            ],
            ..v
        }),
        v.step(markdown::MdEventView::StartList(None)) == (v2::V2View {
            lists: lists.push(None),
            ..v
        }),
        lists.len() > 1 ==> v.step(markdown::MdEventView::End(MdTag::List)) == (v2::V2View {
            lists: lists.drop_last(),
            ..v
        }),
{
    reveal_strlit("• ");
    reveal_strlit("  ");
    assert("• "@ =~= seq!['•', ' ']);
    assert("  "@ =~= seq![' ', ' ']);
    assert(v.cur.push('\n') + v2::item_marker(lists) =~= v.cur + seq!['\n'] + text::repeat(
        seq![' ', ' '],
        (lists.len() - 1) as nat,
    ) + seq!['•', ' ']);
}

/// Inside an item a further paragraph starts on a new line of the same block, and the
/// first one stays on the item's own line.
pub proof fn paragraphs_in_items_stay_inside(v: v2::V2View)
    requires
        v.lists.len() > 0,
        v.table is None,
        v.cur.len() > 0,
    ensures
        v.cur.last() != '\n' && v.cur.last() != ' ' ==> v.step(
            markdown::MdEventView::Start(MdTag::Paragraph),
        ) == (v2::V2View { cur: v.cur + seq!['\n'], ..v }),
        v.cur.last() == ' ' || v.cur.last() == '\n' ==> v.step(
            markdown::MdEventView::Start(MdTag::Paragraph),
        ) == v,
        v.step(markdown::MdEventView::End(MdTag::Paragraph)) == v,
{
    assert(v.cur.push('\n') =~= v.cur + seq!['\n']);
}

/// A table collects its cells row by row, each without outer white space.
#[verifier::rlimit(60)]
#[verifier::spinoff_prover]
pub proof fn cells_are_collected(v: v2::V2View, s: Seq<char>, rows: Seq<Seq<Seq<char>>>)
    requires
        !v.in_image,
        v.table is Some,
        v.table->0.rows == rows,
    ensures
        ({
            let head = v.step(markdown::MdEventView::Start(MdTag::TableHead));
            let row = v.step(markdown::MdEventView::Start(MdTag::TableRow));
            let cell = v.run(
                seq![
                    markdown::MdEventView::Start(MdTag::TableCell),
                    markdown::MdEventView::Text(s),
                    markdown::MdEventView::End(MdTag::TableCell),
                ],
            );
            &&& head.table is Some && head.table->0.rows == rows.push(Seq::empty())
            &&& row.table is Some && row.table->0.rows == rows.push(Seq::empty())
            &&& rows.len() > 0 ==> cell.table is Some && cell.table->0.rows == rows.update(
                rows.len() - 1,
                rows.last().push(text::trim(s)),
            )
            &&& cell.cur == v.cur && cell.blocks == v.blocks
        }),
        v.step(markdown::MdEventView::Code(s)).table is Some,
        v.step(markdown::MdEventView::Code(s)).table->0.cell == v.table->0.cell + s,
        v.step(markdown::MdEventView::End(MdTag::TableRow)) == v,
        v.step(markdown::MdEventView::End(MdTag::TableHead)).table is Some,
        v.step(markdown::MdEventView::End(MdTag::TableHead)).table->0.rows == rows,
{
    let t = v.table->0;
    let e0 = markdown::MdEventView::Start(MdTag::TableCell);
    let e1 = markdown::MdEventView::Text(s);
    let e2 = markdown::MdEventView::End(MdTag::TableCell);
    let s0 = v2::V2View { table: Some(v2::TableView { cell: Seq::empty(), ..t }), ..v };
    let s1 = v2::V2View { table: Some(v2::TableView { cell: s, ..t }), ..v };
    assert(Seq::<char>::empty() + s =~= s);
    let s2 = s1.step(e2);
    let events = seq![e0, e1, e2];
    let states = seq![v, s0, s1, s2];
    assert(reads(v, e0, s0)) by {
        reveal(reads);
    }
    assert(reads(s0, e1, s1)) by {
        reveal(reads);
    }
    assert(reads(s1, e2, s2)) by {
        reveal(reads);
    }
    assert forall|i: int| 0 <= i < events.len() implies #[trigger] reads(
        states[i],
        events[i],
        states[i + 1],
    ) by {
        if i == 0 {
            assert(reads(states[0], events[0], states[1]));
        }
        if i == 1 {
            assert(reads(states[1], events[1], states[2]));
        }
    }
    lemma_trace(v, events, states);
}

/// A table is a block of its own, drawn between fences.
#[verifier::rlimit(60)]
pub proof fn tables_are_fenced(v: v2::V2View, rows: Seq<Seq<Seq<char>>>)
    requires
        v.table is Some,
        v.table->0.rows == rows,
        v.cur.len() == 0,
        v.quote == 0,
    ensures
        v.step(markdown::MdEventView::End(MdTag::Table)).blocks == v.blocks.push(
            seq!['`', '`', '`', '\n'] + v2::escaped_code(v2::table_text(rows)) + seq![
                '\n',
                '`',
                '`',
                '`',
            ],
        ),
        v.step(markdown::MdEventView::End(MdTag::Table)).table is None,
{
    reveal_strlit("```\n");
    reveal_strlit("\n```");
    let b = seq!['`', '`', '`', '\n'] + v2::escaped_code(v2::table_text(rows)) + seq![
        '\n',
        '`',
        '`',
        '`',
    ];
    assert(v.cur + v2::fenced(v2::table_text(rows)) =~= b);
    assert(b.last() == '`');
    lemma_solid_flush(v2::V2View { table: None, cur: b, ..v });
}

/// A table begins without rows, and ends the block before it.
pub proof fn tables_begin_empty(v: v2::V2View)
    ensures
        v.step(markdown::MdEventView::Start(MdTag::Table)).table is Some,
        v.step(markdown::MdEventView::Start(MdTag::Table)).table->0.rows.len() == 0,
        v.step(markdown::MdEventView::Start(MdTag::Table)).blocks == v.flush().blocks,
        v.step(markdown::MdEventView::Start(MdTag::Table)).cur.len() == 0,
{
}

proof fn lemma_spaces(n: nat)
    ensures
        text::blank(text::repeat(" "@, n)),
        text::repeat(" "@, n).len() == n,
        text::repeat(" "@, n) == text::repeat(seq![' '], n),
    decreases n,
{
    reveal_strlit(" ");
    assert(" "@ =~= seq![' ']);
    if n > 0 {
        lemma_spaces((n - 1) as nat);
        let q = text::repeat(" "@, (n - 1) as nat);
        let r = text::repeat(" "@, n);
        assert forall|i: int| 0 <= i < r.len() implies text::is_space(#[trigger] r[i]) by {
            if i < q.len() {
                assert(r[i] == q[i]);
            }
        }
    }
}

proof fn lemma_trailing(s: Seq<char>, n: nat)
    requires
        ends_solid(s),
    ensures
        text::trim_end(s + text::repeat(" "@, n)) == s,
{
    lemma_spaces(n);
    let w = s + text::repeat(" "@, n);
    assert(w[s.len() - 1] == s.last());
    assert forall|j: int| s.len() <= j < w.len() implies text::is_space(#[trigger] w[j]) by {
        assert(w[j] == text::repeat(" "@, n)[j - s.len()]);
    }
    text::lemma_trim_end(w, s.len() as int);
    assert(w.take(s.len() as int) =~= s);
}

proof fn lemma_shape(
    a: Seq<char>,
    b: Seq<char>,
    c: Seq<char>,
    d: Seq<char>,
    rows: Seq<Seq<Seq<char>>>,
)
    requires
        a.len() <= 40,
        b.len() <= 40,
        c.len() <= 40,
        d.len() <= 40,
        rows == seq![seq![a, b], seq![c, d]],
    ensures
        v2::column_count(rows) == 2,
        v2::column_width(rows, 0) == (if a.len() >= c.len() {
            a.len()
        } else {
            c.len()
        }),
        v2::column_width(rows, 1) == (if b.len() >= d.len() {
            b.len()
        } else {
            d.len()
        }),
{
    let top = seq![a, b];
    let low = seq![c, d];
    reveal_with_fuel(v2::column_count, 3);
    reveal_with_fuel(v2::column_width, 3);
    assert(rows.drop_last() =~= seq![top]);
    assert(seq![top].drop_last() =~= Seq::<Seq<Seq<char>>>::empty());
    assert(v2::drawn_cell(top, 0) == a);
    assert(v2::drawn_cell(top, 1) == b);
    assert(v2::drawn_cell(low, 0) == c);
    assert(v2::drawn_cell(low, 1) == d);
}

proof fn lemma_row(rows: Seq<Seq<Seq<char>>>, p: Seq<char>, q: Seq<char>)
    requires
        v2::column_count(rows) == 2,
        p.len() <= v2::column_width(rows, 0),
        q.len() <= v2::column_width(rows, 1),
        p.len() <= 40,
        q.len() <= 40,
        ends_solid(q),
    ensures
        v2::row_line(rows, seq![p, q]) == p + text::repeat(
            seq![' '],
            (v2::column_width(rows, 0) - p.len()) as nat,
        ) + seq![' ', '|', ' '] + q,
{
    reveal_strlit(" | ");
    assert(" | "@ =~= seq![' ', '|', ' ']);
    let row = seq![p, q];
    let n = (v2::column_width(rows, 0) - p.len()) as nat;
    let m = (v2::column_width(rows, 1) - q.len()) as nat;
    assert(v2::drawn_cell(row, 0) == p);
    assert(v2::drawn_cell(row, 1) == q);
    lemma_spaces(n);
    let pp = p + text::repeat(" "@, n);
    let qq = q + text::repeat(" "@, m);
    assert(Seq::new(2, |i: int| v2::padded_cell(rows, row, i)) =~= seq![pp, qq]);
    text_laws::joining_separates(Seq::empty(), pp, qq, " | "@);
    let one = pp + " | "@ + q;
    assert(pp + " | "@ + qq =~= one + text::repeat(" "@, m));
    assert(one.last() == q.last());
    lemma_trailing(one, m);
}

proof fn lemma_rule(rows: Seq<Seq<Seq<char>>>)
    requires
        v2::column_count(rows) == 2,
    ensures
        v2::rule_line(rows) == text::repeat(seq!['-'], v2::column_width(rows, 0)) + seq![
            '-',
            '|',
            '-',
        ] + text::repeat(seq!['-'], v2::column_width(rows, 1)),
{
    reveal_strlit("-|-");
    reveal_strlit("-");
    assert("-|-"@ =~= seq!['-', '|', '-']);
    assert("-"@ =~= seq!['-']);
    let da = text::repeat("-"@, v2::column_width(rows, 0));
    let db = text::repeat("-"@, v2::column_width(rows, 1));
    assert(Seq::new(2, |i: int| text::repeat("-"@, v2::column_width(rows, i))) =~= seq![da, db]);
    text_laws::joining_separates(Seq::empty(), da, db, "-|-"@);
}

proof fn lemma_lines_end(
    rows: Seq<Seq<Seq<char>>>,
    one: Seq<char>,
    rule: Seq<char>,
    two: Seq<char>,
)
    requires
        rows.len() == 2,
        v2::column_count(rows) == 2,
        v2::row_line(rows, rows[0]) == one,
        v2::rule_line(rows) == rule,
        v2::row_line(rows, rows[1]) == two,
        ends_solid(two),
    ensures
        v2::table_text(rows) == one + seq!['\n'] + rule + seq!['\n'] + two,
{
    reveal_strlit("\n");
    assert("\n"@ =~= seq!['\n']);
    reveal_with_fuel(v2::table_lines, 3);
    let body = one + seq!['\n'] + rule + seq!['\n'] + two;
    let all = body + seq!['\n'];
    assert(v2::table_lines(rows, 2) =~= all);
    assert(all[body.len() - 1] == body.last());
    assert(body.last() == two.last());
    text::lemma_trim_end(all, body.len() as int);
    assert(all.take(body.len() as int) =~= body);
}

/// The two columns of a table are lined up: every cell of the first is filled up with
/// spaces to the width of the widest, a bar stands between the columns, and under the
/// first row there is a rule of both columns' widths.
pub proof fn columns_are_lined_up(
    a: Seq<char>,
    b: Seq<char>,
    c: Seq<char>,
    d: Seq<char>,
    w: nat,
    x: nat,
)
    requires
        a.len() <= 40,
        b.len() <= 40,
        c.len() <= 40,
        d.len() <= 40,
        ends_solid(b),
        ends_solid(d),
        w == (if a.len() >= c.len() {
            a.len()
        } else {
            c.len()
        }),
        x == (if b.len() >= d.len() {
            b.len()
        } else {
            d.len()
        }),
    ensures
        v2::table_text(seq![seq![a, b], seq![c, d]]) == (a + text::repeat(
            seq![' '],
            (w - a.len()) as nat,
        ) + seq![' ', '|', ' '] + b) + seq!['\n'] + (text::repeat(seq!['-'], w) + seq![
            '-',
            '|',
            '-',
        ] + text::repeat(seq!['-'], x)) + seq!['\n'] + (c + text::repeat(
            seq![' '],
            (w - c.len()) as nat,
        ) + seq![' ', '|', ' '] + d),
{
    let rows = seq![seq![a, b], seq![c, d]];
    lemma_shape(a, b, c, d, rows);
    lemma_row(rows, a, b);
    lemma_row(rows, c, d);
    lemma_rule(rows);
    let one = a + text::repeat(seq![' '], (w - a.len()) as nat) + seq![' ', '|', ' '] + b;
    let two = c + text::repeat(seq![' '], (w - c.len()) as nat) + seq![' ', '|', ' '] + d;
    let rule = text::repeat(seq!['-'], w) + seq!['-', '|', '-'] + text::repeat(seq!['-'], x);
    assert(two.last() == d.last());
    lemma_lines_end(rows, one, rule, two);
}

/// In a table's cell marks and hard breaks add nothing.
#[verifier::rlimit(60)]
#[verifier::spinoff_prover]
pub proof fn marks_in_cells_are_dropped(v: v2::V2View, s: Seq<char>)
    requires
        v.table is Some,
    ensures
        v.step(markdown::MdEventView::Start(MdTag::Emphasis)) == v,
        v.step(markdown::MdEventView::End(MdTag::Emphasis)) == v,
        v.step(markdown::MdEventView::Start(MdTag::Strong)) == v,
        v.step(markdown::MdEventView::End(MdTag::Strong)) == v,
        v.step(markdown::MdEventView::Start(MdTag::Strikethrough)) == v,
        v.step(markdown::MdEventView::HardBreak) == v,
        !v.in_image ==> v.step(markdown::MdEventView::Text(s)) == (v2::V2View {
            table: Some(v2::TableView { cell: v.table->0.cell + s, ..v.table->0 }),
            ..v
        }),
{
}

/// Quotations nest: each one that opens counts, and each one that closes ends the
/// innermost.
#[verifier::rlimit(60)]
#[verifier::spinoff_prover]
pub proof fn quotations_nest(v: v2::V2View)
    ensures
        v.step(markdown::MdEventView::Start(MdTag::BlockQuote)).quote == v.quote + 1,
        v.quote > 0 ==> v.step(markdown::MdEventView::End(MdTag::BlockQuote)).quote == v.quote - 1,
        v.step(markdown::MdEventView::Start(MdTag::BlockQuote)).blocks == v.flush().blocks,
        v.step(markdown::MdEventView::End(MdTag::BlockQuote)).blocks == v.flush().blocks,
        v.step(markdown::MdEventView::End(MdTag::FootnoteDefinition)) == v.flush(),
{
}

} // verus!
