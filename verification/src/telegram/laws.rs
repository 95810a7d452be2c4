//! What holds of rendered text, whatever was rendered.

use crate::telegram::markdown;
use crate::telegram::render;
use crate::telegram::v2;
use crate::text;
use vstd::prelude::*;

verus! {

/// A text without its white space.
pub open spec fn solid(s: Seq<char>) -> Seq<char>
    decreases s.len(),
{
    if s.len() == 0 {
        Seq::empty()
    } else if text::is_space(s.last()) {
        solid(s.drop_last())
    } else {
        solid(s.drop_last()).push(s.last())
    }
}

proof fn lemma_solid_add(a: Seq<char>, b: Seq<char>)
    ensures
        solid(a + b) == solid(a) + solid(b),
    decreases b.len(),
{
    if b.len() == 0 {
        assert(a + b =~= a);
        assert(solid(a) + solid(b) =~= solid(a));
    } else {
        lemma_solid_add(a, b.drop_last());
        assert((a + b).drop_last() =~= a + b.drop_last());
        assert(solid(a) + solid(b.drop_last()).push(b.last()) =~= (solid(a) + solid(
            b.drop_last(),
        )).push(b.last()));
    }
}

proof fn lemma_solid_blank(s: Seq<char>)
    requires
        text::blank(s),
    ensures
        solid(s) == Seq::<char>::empty(),
    decreases s.len(),
{
    if s.len() > 0 {
        assert(text::is_space(s[s.len() - 1]));
        assert forall|i: int| 0 <= i < s.drop_last().len() implies text::is_space(
            #[trigger] s.drop_last()[i],
        ) by {
            assert(text::is_space(s[i]));
        }
        lemma_solid_blank(s.drop_last());
    }
}

proof fn lemma_solid_trim_end(s: Seq<char>)
    ensures
        solid(text::trim_end(s)) == solid(s),
    decreases s.len(),
{
    if s.len() > 0 && text::is_space(s.last()) {
        lemma_solid_trim_end(s.drop_last());
    }
}

proof fn lemma_flatten_cons(a: Seq<char>, b: Seq<Seq<char>>)
    ensures
        (seq![a] + b).flatten() == a + b.flatten(),
{
    assert((seq![a] + b).drop_first() =~= b);
}

proof fn lemma_flatten_one(a: Seq<char>)
    ensures
        seq![a].flatten() == a,
{
    lemma_flatten_cons(a, Seq::empty());
    assert(seq![a] + Seq::<Seq<char>>::empty() =~= seq![a]);
    assert(a + Seq::<Seq<char>>::empty().flatten() =~= a);
}

proof fn lemma_flatten_add(a: Seq<Seq<char>>, b: Seq<Seq<char>>)
    ensures
        (a + b).flatten() == a.flatten() + b.flatten(),
    decreases a.len(),
{
    if a.len() == 0 {
        assert(a + b =~= b);
        assert(a.flatten() + b.flatten() =~= b.flatten());
    } else {
        lemma_flatten_add(a.drop_first(), b);
        assert((a + b).drop_first() =~= a.drop_first() + b);
        assert((a + b).first() == a.first());
        assert(a.first() + (a.drop_first().flatten() + b.flatten()) =~= (a.first()
            + a.drop_first().flatten()) + b.flatten());
    }
}

proof fn lemma_last_index_bounds(s: Seq<char>, c: char)
    ensures
        -1 <= text::last_index_of(s, c) < s.len(),
        text::last_index_of(s, c) >= 0 ==> s[text::last_index_of(s, c)] == c,
    decreases s.len(),
{
    if s.len() > 0 && s.last() != c {
        lemma_last_index_bounds(s.drop_last(), c);
    }
}

proof fn lemma_cut_bounds(s: Seq<char>, limit: int)
    requires
        0 <= limit < s.len(),
    ensures
        0 <= render::cut_point(s, limit) <= limit,
        limit > 0 ==> render::cut_point(s, limit) > 0,
        render::cut_point(s, limit) <= render::resume_point(s, limit) <= s.len(),
{
    lemma_last_index_bounds(s.take(limit), '\n');
    lemma_last_index_bounds(s.take(limit), ' ');
}

/// Every piece of a split text has between one and `limit` characters, and is
/// not blank.
pub proof fn split_pieces_fit(s: Seq<char>, limit: int, i: int)
    requires
        limit >= 0,
        render::divisible(s, limit),
        0 <= i < render::plain_pieces(s, limit).len(),
    ensures
        0 < render::plain_pieces(s, limit)[i].len() <= limit,
        !text::blank(render::plain_pieces(s, limit)[i]),
    decreases s.len(),
{
    if s.len() > limit {
        lemma_cut_bounds(s, limit);
        if limit == 0 {
            assert(s[0] == '\n' || s[0] == ' ');
        }
        let cut = render::cut_point(s, limit);
        let next = render::resume_point(s, limit);
        let head = text::trim_end(s.take(cut));
        let tail = s.skip(next);
        text::lemma_trim_end_tail(s.take(cut));
        let n = render::unless_blank(head).len();
        if i >= n {
            assert forall|j: int| 0 <= j < tail.len() implies (limit > 0 || (#[trigger] tail[j]
                == '\n' || tail[j] == ' ')) by {
                assert(tail[j] == s[next + j]);
                assert(limit > 0 || (s[next + j] == '\n' || s[next + j] == ' '));
            }
            split_pieces_fit(tail, limit, i - n);
            assert(render::plain_pieces(s, limit)[i] == render::plain_pieces(tail, limit)[i - n]);
        }
    }
}

/// Splitting a text loses nothing but white space, and changes no order.
pub proof fn split_keeps_text(s: Seq<char>, limit: int)
    requires
        limit >= 0,
        render::divisible(s, limit),
    ensures
        solid(render::plain_pieces(s, limit).flatten()) == solid(s),
    decreases s.len(),
{
    if s.len() <= limit {
        if text::blank(s) {
            lemma_solid_blank(s);
            assert(Seq::<Seq<char>>::empty().flatten() =~= Seq::<char>::empty());
        } else {
            lemma_flatten_one(s);
        }
    } else {
        lemma_cut_bounds(s, limit);
        if limit == 0 {
            assert(s[0] == '\n' || s[0] == ' ');
        }
        let cut = render::cut_point(s, limit);
        let next = render::resume_point(s, limit);
        let head = text::trim_end(s.take(cut));
        let tail = s.skip(next);
        let rest = render::plain_pieces(tail, limit);
        assert forall|j: int| 0 <= j < tail.len() implies (limit > 0 || (#[trigger] tail[j] == '\n'
            || tail[j] == ' ')) by {
            assert(tail[j] == s[next + j]);
            assert(limit > 0 || (s[next + j] == '\n' || s[next + j] == ' '));
        }
        split_keeps_text(tail, limit);
        lemma_solid_trim_end(s.take(cut));
        if text::blank(head) {
            lemma_solid_blank(head);
            assert(render::unless_blank(head) + rest =~= rest);
            assert(solid(rest.flatten()) =~= solid(head) + solid(tail));
        } else {
            lemma_flatten_cons(head, rest);
            lemma_solid_add(head, rest.flatten());
        }
        let gap = s.subrange(cut, next);
        assert forall|j: int| 0 <= j < gap.len() implies text::is_space(#[trigger] gap[j]) by {
            assert(gap[j] == s[cut + j]);
        }
        lemma_solid_blank(gap);
        assert(s =~= s.take(cut) + gap + tail);
        lemma_solid_add(s.take(cut) + gap, tail);
        lemma_solid_add(s.take(cut), gap);
        assert(solid(s.take(cut)) + Seq::<char>::empty() =~= solid(s.take(cut)));
    }
}

/// Every piece of a fenced block stands between fences of its own, wherever a
/// fence and one character fit; it opens with the block's own fence line, wherever
/// that line and one character fit.
pub proof fn split_keeps_fences(block: Seq<char>, limit: int, i: int)
    requires
        "```"@.is_prefix_of(block),
        limit >= 9,
        0 <= i < render::split_pieces(block, limit).len(),
    ensures
        "```"@.is_prefix_of(render::split_pieces(block, limit)[i]),
        "\n```"@.is_suffix_of(render::split_pieces(block, limit)[i]),
        render::fence_of(block).len() + 6 <= limit ==> (render::fence_of(block)
            + "\n"@).is_prefix_of(render::split_pieces(block, limit)[i]),
{
    reveal_strlit("```");
    let fence = render::piece_fence(block, limit);
    let body = render::plain_pieces(
        render::fenced_body(block),
        render::body_limit(fence, limit),
    )[i];
    let piece = render::split_pieces(block, limit)[i];
    assert(piece == render::refenced(fence, body));
    let open = fence->0;
    assert((open + "\n"@) =~= piece.subrange(0, (open + "\n"@).len() as int));
    assert("\n```"@ =~= piece.subrange(piece.len() - "\n```"@.len(), piece.len() as int));
    if open != "```"@ {
        text::lemma_index_of_is(block, '\n');
        assert forall|j: int| 0 <= j < 3 implies block[j] == '`' by {
            assert(block.subrange(0, 3)[j] == "```"@[j]);
        }
        assert(text::index_of(block, '\n') >= 3);
        assert("```"@ =~= open.subrange(0, 3));
        assert(piece.subrange(0, 3) =~= open.subrange(0, 3));
    } else {
        assert("```"@ =~= piece.subrange(0, 3));
    }
}

/// The pieces of a block fit the limit.
pub proof fn block_pieces_fit(block: Seq<char>, limit: int, i: int)
    requires
        limit > 0,
        0 <= i < render::block_pieces(block, limit).len(),
    ensures
        render::block_pieces(block, limit)[i].len() <= limit,
{
    if block.len() > limit {
        if "```"@.is_prefix_of(block) {
            let body = render::fenced_body(block);
            let fence = render::piece_fence(block, limit);
            let room = render::body_limit(fence, limit);
            reveal_strlit("```");
            reveal_strlit("\n");
            reveal_strlit("\n```");
            split_pieces_fit(body, room, i);
            assert(render::block_pieces(block, limit)[i] == render::refenced(
                fence,
                render::plain_pieces(body, room)[i],
            ));
        } else {
            split_pieces_fit(block, limit, i);
        }
    }
}

proof fn lemma_packing_fits(pieces: Seq<Seq<char>>, limit: int)
    requires
        limit >= 0,
        forall|i: int| 0 <= i < pieces.len() ==> #[trigger] pieces[i].len() <= limit,
    ensures
        render::packing(pieces, limit).cur.len() <= limit,
        forall|i: int|
            0 <= i < render::packing(pieces, limit).done.len() ==> 0 < (
            #[trigger] render::packing(pieces, limit).done[i]).len() <= limit,
    decreases pieces.len(),
{
    if pieces.len() > 0 {
        let init = pieces.drop_last();
        assert forall|i: int| 0 <= i < init.len() implies #[trigger] init[i].len() <= limit by {
            assert(pieces[i].len() <= limit);
        }
        lemma_packing_fits(init, limit);
        assert(pieces[pieces.len() - 1].len() <= limit);
        let before = render::packing(init, limit);
        let after = render::packing(pieces, limit);
        assert forall|i: int| 0 <= i < after.done.len() implies 0 < (
        #[trigger] after.done[i]).len() <= limit by {
            if i < before.done.len() {
                assert(after.done[i] == before.done[i]);
            }
        }
    }
}

proof fn lemma_pieces_fit(blocks: Seq<Seq<char>>, limit: int, i: int)
    requires
        limit > 0,
        0 <= i < render::pieces_of(blocks, limit).len(),
    ensures
        render::pieces_of(blocks, limit)[i].len() <= limit,
    decreases blocks.len(),
{
    if blocks.len() > 0 {
        let init = blocks.drop_last();
        let before = render::pieces_of(init, limit);
        if i < before.len() {
            lemma_pieces_fit(init, limit, i);
        } else {
            assert(blocks.last() == blocks[blocks.len() - 1]);
            block_pieces_fit(blocks.last(), limit, i - before.len());
        }
    }
}

/// No message is empty, and none has more than `limit` characters.
pub proof fn messages_fit(blocks: Seq<Seq<char>>, limit: int, i: int)
    requires
        limit > 0,
        0 <= i < render::packed(blocks, limit).len(),
    ensures
        0 < render::packed(blocks, limit)[i].len() <= limit,
{
    let pieces = render::pieces_of(blocks, limit);
    assert forall|k: int| 0 <= k < pieces.len() implies #[trigger] pieces[k].len() <= limit by {
        lemma_pieces_fit(blocks, limit, k);
    }
    lemma_packing_fits(pieces, limit);
    let p = render::packing(pieces, limit);
    if i < p.done.len() {
        assert(p.all()[i] == p.done[i]);
    }
}

proof fn lemma_packing_keeps(pieces: Seq<Seq<char>>, limit: int)
    ensures
        solid(render::packing(pieces, limit).done.flatten()) + solid(
            render::packing(pieces, limit).cur,
        ) == solid(pieces.flatten()),
    decreases pieces.len(),
{
    if pieces.len() == 0 {
        assert(Seq::<Seq<char>>::empty().flatten() =~= Seq::<char>::empty());
        assert(pieces.flatten() =~= Seq::<char>::empty());
    } else {
        let init = pieces.drop_last();
        let last = pieces.last();
        lemma_packing_keeps(init, limit);
        let b = render::packing(init, limit);
        let a = render::packing(pieces, limit);
        assert(pieces =~= init + seq![last]);
        lemma_flatten_add(init, seq![last]);
        lemma_flatten_one(last);
        lemma_solid_add(init.flatten(), last);
        assert(solid(pieces.flatten()) =~= solid(b.done.flatten()) + solid(b.cur) + solid(last));
        if a.done == b.done {
            if b.cur.len() > 0 {
                reveal_strlit("\n\n");
                if a.cur == b.cur + "\n\n"@ + last {
                    assert(text::blank("\n\n"@));
                    lemma_solid_blank("\n\n"@);
                    lemma_solid_add(b.cur + "\n\n"@, last);
                    lemma_solid_add(b.cur, "\n\n"@);
                    assert(solid(b.cur) + Seq::<char>::empty() =~= solid(b.cur));
                    assert(solid(a.done.flatten()) + (solid(b.cur) + solid(last)) =~= solid(
                        b.done.flatten(),
                    ) + solid(b.cur) + solid(last));
                } else {
                    assert(b.all().len() == b.done.len() + 1);
                    assert(false);
                }
            } else {
                assert(b.cur =~= Seq::<char>::empty());
                assert(solid(b.done.flatten()) + solid(b.cur) + solid(last) =~= solid(
                    b.done.flatten(),
                ) + solid(last));
            }
        } else {
            assert(a.done == b.all());
            assert(a.cur == last);
            assert(b.cur.len() > 0);
            assert(b.done.push(b.cur) =~= b.done + seq![b.cur]);
            lemma_flatten_add(b.done, seq![b.cur]);
            lemma_flatten_one(b.cur);
            lemma_solid_add(b.done.flatten(), b.cur);
        }
    }
}

/// Packing loses nothing of the pieces but white space, and changes no order.
pub proof fn packing_keeps_text(pieces: Seq<Seq<char>>, limit: int)
    ensures
        solid(render::packing(pieces, limit).all().flatten()) == solid(pieces.flatten()),
{
    lemma_packing_keeps(pieces, limit);
    let p = render::packing(pieces, limit);
    if p.cur.len() > 0 {
        assert(p.done.push(p.cur) =~= p.done + seq![p.cur]);
        lemma_flatten_add(p.done, seq![p.cur]);
        lemma_flatten_one(p.cur);
        lemma_solid_add(p.done.flatten(), p.cur);
    } else {
        assert(p.cur =~= Seq::<char>::empty());
        assert(solid(p.done.flatten()) + solid(p.cur) =~= solid(p.done.flatten()));
    }
}

proof fn lemma_escaped_cons(c: char, s: Seq<char>)
    ensures
        v2::escaped(seq![c] + s) == v2::escaped_char(c) + v2::escaped(s),
    decreases s.len(),
{
    if s.len() == 0 {
        assert((seq![c] + s).drop_last() =~= Seq::<char>::empty());
        assert((seq![c] + s).last() == c);
        assert(v2::escaped(Seq::<char>::empty()) + v2::escaped_char(c) =~= v2::escaped_char(c));
        assert(v2::escaped_char(c) + v2::escaped(s) =~= v2::escaped_char(c));
    } else {
        lemma_escaped_cons(c, s.drop_last());
        assert((seq![c] + s).drop_last() =~= seq![c] + s.drop_last());
        assert(v2::escaped_char(c) + v2::escaped(s.drop_last()) + v2::escaped_char(s.last())
            =~= v2::escaped_char(c) + (v2::escaped(s.drop_last()) + v2::escaped_char(s.last())));
    }
}

proof fn lemma_escaped_shows(s: Seq<char>, t: Seq<char>)
    ensures
        render::unescaped(v2::escaped(s) + t) == s + render::unescaped(t),
    decreases s.len(),
{
    if s.len() == 0 {
        assert(v2::escaped(s) + t =~= t);
        assert(s + render::unescaped(t) =~= render::unescaped(t));
    } else {
        let u = s.skip(1);
        lemma_escaped_shows(u, t);
        assert(s =~= seq![s[0]] + u);
        lemma_escaped_cons(s[0], u);
        let e = v2::escaped(s) + t;
        let rest = v2::escaped(u) + t;
        if v2::is_special(s[0]) {
            assert(e.skip(2) =~= rest);
        } else {
            assert(e.skip(1) =~= rest);
        }
        assert(seq![s[0]] + (u + render::unescaped(t)) =~= s + render::unescaped(t));
    }
}

/// Dropping the escapes undoes escaping.
pub proof fn unescape_undoes_escape(s: Seq<char>)
    ensures
        render::unescaped(v2::escaped(s)) == s,
{
    lemma_escaped_shows(s, Seq::empty());
    assert(v2::escaped(s) + Seq::<char>::empty() =~= v2::escaped(s));
    assert(s + render::unescaped(Seq::empty()) =~= s);
}

proof fn lemma_replace_cons(c: char, s: Seq<char>, d: char, by: Seq<char>)
    ensures
        text::replace_char(seq![c] + s, d, by) == (if c == d {
            by
        } else {
            seq![c]
        }) + text::replace_char(s, d, by),
    decreases s.len(),
{
    let whole = seq![c] + s;
    let front = if c == d {
        by
    } else {
        seq![c]
    };
    if s.len() == 0 {
        assert(whole.drop_last() =~= Seq::<char>::empty());
        assert(text::replace_char(Seq::<char>::empty(), d, by) =~= Seq::<char>::empty());
        assert(Seq::<char>::empty() + front =~= front);
        assert(front + text::replace_char(s, d, by) =~= front);
    } else {
        lemma_replace_cons(c, s.drop_last(), d, by);
        assert(whole.drop_last() =~= seq![c] + s.drop_last());
        let back = if s.last() == d {
            by
        } else {
            seq![s.last()]
        };
        assert(front + text::replace_char(s.drop_last(), d, by) + back =~= front + (
        text::replace_char(s.drop_last(), d, by) + back));
    }
}

/// A text with each backslash doubled and each `d` behind a backslash.
pub open spec fn guarded(s: Seq<char>, d: char) -> Seq<char> {
    text::replace_char(text::replace_char(s, '\\', seq!['\\', '\\']), d, seq!['\\', d])
}

proof fn lemma_guarded_cons(c: char, s: Seq<char>, d: char)
    requires
        d != '\\',
    ensures
        guarded(seq![c] + s, d) == (if c == '\\' || c == d {
            seq!['\\', c]
        } else {
            seq![c]
        }) + guarded(s, d),
{
    let slashes = seq!['\\', '\\'];
    let inner = text::replace_char(s, '\\', slashes);
    lemma_replace_cons(c, s, '\\', slashes);
    if c == '\\' {
        assert(slashes + inner =~= seq!['\\'] + (seq!['\\'] + inner));
        lemma_replace_cons('\\', seq!['\\'] + inner, d, seq!['\\', d]);
        lemma_replace_cons('\\', inner, d, seq!['\\', d]);
        assert(seq!['\\'] + (seq!['\\'] + guarded(s, d)) =~= slashes + guarded(s, d));
    } else {
        lemma_replace_cons(c, inner, d, seq!['\\', d]);
    }
}

proof fn lemma_guarded_shows(s: Seq<char>, d: char, place: render::Place, t: Seq<char>)
    requires
        (place == render::Place::Code && d == '`') || (place == render::Place::Fence && d == '`')
            || (place == render::Place::Target && d == ')'),
    ensures
        render::shown_from(guarded(s, d) + t, place) == s + render::shown_from(t, place),
    decreases s.len(),
{
    if s.len() == 0 {
        let slashes = seq!['\\', '\\'];
        assert(text::replace_char(s, '\\', slashes) =~= Seq::<char>::empty());
        assert(guarded(s, d) =~= Seq::<char>::empty());
        assert(guarded(s, d) + t =~= t);
        assert(s + render::shown_from(t, place) =~= render::shown_from(t, place));
    } else {
        let u = s.skip(1);
        lemma_guarded_shows(u, d, place, t);
        assert(s =~= seq![s[0]] + u);
        lemma_guarded_cons(s[0], u, d);
        let e = guarded(s, d) + t;
        let rest = guarded(u, d) + t;
        if s[0] == '\\' || s[0] == d {
            assert(e.skip(2) =~= rest);
        } else {
            assert(e.skip(1) =~= rest);
        }
        assert(seq![s[0]] + (u + render::shown_from(t, place)) =~= s + render::shown_from(
            t,
            place,
        ));
    }
}

proof fn lemma_escapes_guard(s: Seq<char>)
    ensures
        v2::escaped_code(s) == guarded(s, '`'),
        v2::escaped_url(s) == guarded(s, ')'),
{
    reveal_strlit("\\\\");
    reveal_strlit("\\`");
    reveal_strlit("\\)");
    assert("\\\\"@ =~= seq!['\\', '\\']);
    assert("\\`"@ =~= seq!['\\', '`']);
    assert("\\)"@ =~= seq!['\\', ')']);
}

/// Plain text shows code inside a line as it is, whatever stands behind it.
pub proof fn code_is_kept(code: Seq<char>, rest: Seq<char>)
    requires
        code.len() > 0,
    ensures
        render::unescaped(v2::inline_code(code) + rest) == code + render::unescaped(rest),
{
    reveal_strlit("`");
    lemma_escapes_guard(code);
    let tail = seq!['`'] + rest;
    let whole = v2::inline_code(code) + rest;
    lemma_guarded_cons(code[0], code.skip(1), '`');
    assert(code =~= seq![code[0]] + code.skip(1));
    assert(whole[1] == guarded(code, '`')[0]);
    assert(whole.skip(1) =~= guarded(code, '`') + tail);
    lemma_guarded_shows(code, '`', render::Place::Code, tail);
    assert(tail.skip(1) =~= rest);
    assert(Seq::<char>::empty() + render::unescaped(rest) =~= render::unescaped(rest));
    assert(Seq::<char>::empty() + (code + render::unescaped(rest)) =~= code + render::unescaped(
        rest,
    ));
}

/// Plain text shows code on lines of its own as it is, whatever stands behind it.
pub proof fn fenced_code_is_kept(code: Seq<char>, rest: Seq<char>)
    ensures
        render::unescaped(v2::fenced(code) + rest) == "\n"@ + code + "\n"@ + render::unescaped(
            rest,
        ),
{
    reveal_strlit("```\n");
    reveal_strlit("\n```");
    reveal_strlit("\n");
    lemma_escapes_guard(code);
    let whole = v2::fenced(code) + rest;
    let inner = guarded(code, '`');
    let close = seq!['`', '`', '`'] + rest;
    let tail = seq!['\n'] + close;
    assert(whole.skip(3) =~= seq!['\n'] + (inner + tail));
    let body = seq!['\n'] + (inner + tail);
    assert(body.skip(1) =~= inner + tail);
    lemma_guarded_shows(code, '`', render::Place::Fence, tail);
    assert(tail.skip(1) =~= close);
    assert(close.skip(3) =~= rest);
    assert(render::shown_from(close, render::Place::Fence) =~= render::unescaped(rest));
    assert(render::shown_from(tail, render::Place::Fence) =~= seq!['\n'] + render::unescaped(rest));
    assert(render::shown_from(body, render::Place::Fence) =~= seq!['\n'] + (code + (seq!['\n']
        + render::unescaped(rest))));
    assert(render::unescaped(whole) =~= "\n"@ + code + "\n"@ + render::unescaped(rest));
}

/// Plain text shows a link as its text with the whole destination behind it,
/// whatever stands behind the link.
pub proof fn destinations_are_kept(url: Seq<char>, label: Seq<char>, rest: Seq<char>)
    requires
        v2::linkable(url),
        !text::blank(v2::escaped(label)),
    ensures
        render::unescaped(v2::link_piece(url, v2::escaped(label)) + rest) == label + " ("@ + url
            + ")"@ + render::unescaped(rest),
{
    reveal_strlit("[");
    reveal_strlit("](");
    reveal_strlit(")");
    reveal_strlit(" (");
    lemma_escapes_guard(url);
    let whole = v2::link_piece(url, v2::escaped(label)) + rest;
    let close = seq![')'] + rest;
    let target = guarded(url, ')') + close;
    let middle = seq![']', '('] + target;
    assert(whole.skip(1) =~= v2::escaped(label) + middle);
    lemma_escaped_shows(label, middle);
    assert(middle.skip(2) =~= target);
    lemma_guarded_shows(url, ')', render::Place::Target, close);
    assert(close.skip(1) =~= rest);
    assert(render::shown_from(close, render::Place::Target) == seq![')'] + render::unescaped(rest));
    assert(render::unescaped(middle) == seq![' ', '('] + (url + (seq![')'] + render::unescaped(
        rest,
    ))));
    assert(render::unescaped(whole) =~= label + " ("@ + url + ")"@ + render::unescaped(rest));
}

proof fn lemma_paragraphs_fit(taken: Seq<char>, paragraphs: Seq<Seq<char>>, limit: int)
    requires
        taken.len() <= limit,
    ensures
        render::paragraphs_within(taken, paragraphs, limit).len() <= limit,
    decreases paragraphs.len(),
{
    reveal_strlit("\n\n");
    if paragraphs.len() > 0 && taken.len() + paragraphs[0].len() + 2 <= limit {
        lemma_paragraphs_fit(
            if taken.len() > 0 {
                taken + "\n\n"@ + paragraphs[0]
            } else {
                paragraphs[0]
            },
            paragraphs.skip(1),
            limit,
        );
    }
}

/// A clamped text has at most `limit` characters.
pub proof fn clamp_fits(md: Seq<char>, limit: int)
    requires
        limit >= 0,
    ensures
        render::clamped(md, limit).len() <= limit,
{
    reveal_strlit("\n\n…");
    lemma_paragraphs_fit(
        Seq::empty(),
        text::split_by(md, "\n\n"@),
        render::room_before_mark(limit),
    );
}

proof fn lemma_paragraphs_are_whole(
    paragraphs: Seq<Seq<char>>,
    k: int,
    limit: int,
) -> (n: int)
    requires
        0 < k <= paragraphs.len(),
        paragraphs[0].len() > 0,
    ensures
        k <= n <= paragraphs.len(),
        render::paragraphs_within(
            text::join(paragraphs.take(k), "\n\n"@),
            paragraphs.skip(k),
            limit,
        ) == text::join(paragraphs.take(n), "\n\n"@),
    decreases paragraphs.len() - k,
{
    let taken = text::join(paragraphs.take(k), "\n\n"@);
    let rest = paragraphs.skip(k);
    if rest.len() == 0 || taken.len() + rest[0].len() + 2 > limit {
        k
    } else {
        lemma_join_front(paragraphs.take(k), "\n\n"@);
        assert(paragraphs.take(k)[0] == paragraphs[0]);
        assert(paragraphs.take(k + 1).drop_last() =~= paragraphs.take(k));
        assert(paragraphs.take(k + 1).last() == rest[0]);
        assert(rest.skip(1) =~= paragraphs.skip(k + 1));
        lemma_paragraphs_are_whole(paragraphs, k + 1, limit)
    }
}

/// A clamped text ends in the mark of the cut, and where its first paragraph fits,
/// whole paragraphs stand before the mark: none is cut.
pub proof fn clamp_cuts_between_paragraphs(md: Seq<char>, limit: int)
    requires
        md.len() > limit,
        0 < text::split_by(md, "\n\n"@)[0].len() <= limit - 6,
    ensures
        exists|n: int|
            0 < n <= text::split_by(md, "\n\n"@).len() && render::clamped(md, limit)
                == #[trigger] text::join(text::split_by(md, "\n\n"@).take(n), "\n\n"@)
                + render::cut_mark(),
{
    reveal_strlit("\n\n…");
    let paragraphs = text::split_by(md, "\n\n"@);
    let room = render::room_before_mark(limit);
    assert(paragraphs.len() > 0);
    assert(paragraphs.take(1) =~= seq![paragraphs[0]]);
    assert(text::join(paragraphs.take(1), "\n\n"@) =~= paragraphs[0]);
    let n = lemma_paragraphs_are_whole(paragraphs, 1, room);
    lemma_join_front(paragraphs.take(n), "\n\n"@);
    assert(paragraphs.take(n)[0] == paragraphs[0]);
    assert(render::clamped(md, limit) == text::join(paragraphs.take(n), "\n\n"@)
        + render::cut_mark());
}

/// A text that fits is not clamped.
pub proof fn clamp_keeps_short(md: Seq<char>, limit: int)
    requires
        md.len() <= limit,
    ensures
        render::clamped(md, limit) == md,
{
}

proof fn lemma_fence_count_cons(a: Seq<char>, b: Seq<Seq<char>>)
    ensures
        render::fence_count(seq![a] + b) == render::fence_count(b) + (if render::is_fence_line(a) {
            1nat
        } else {
            0nat
        }),
    decreases b.len(),
{
    if b.len() == 0 {
        assert((seq![a] + b).drop_last() =~= Seq::<Seq<char>>::empty());
        assert((seq![a] + b).last() == a);
        assert(render::fence_count(Seq::<Seq<char>>::empty()) == 0);
    } else {
        lemma_fence_count_cons(a, b.drop_last());
        assert((seq![a] + b).drop_last() =~= seq![a] + b.drop_last());
        assert((seq![a] + b).last() == b.last());
    }
}

proof fn lemma_trim_start_push(u: Seq<char>, c: char)
    requires
        text::is_space(c),
    ensures
        text::trim_start(u.push(c)) == (if text::trim_start(u).len() == 0 {
            Seq::empty()
        } else {
            text::trim_start(u).push(c)
        }),
    decreases u.len(),
{
    if u.len() == 0 {
        assert(u.push(c).skip(1) =~= Seq::<char>::empty());
        assert(text::trim_start(Seq::<char>::empty()) =~= Seq::<char>::empty());
    } else if text::is_space(u[0]) {
        lemma_trim_start_push(u.skip(1), c);
        assert(u.push(c).skip(1) =~= u.skip(1).push(c));
    }
}

proof fn lemma_fence_line_cr(s: Seq<char>)
    ensures
        render::is_fence_line(text::strip_cr(s)) == render::is_fence_line(s),
{
    if s.len() > 0 && s.last() == '\r' {
        let u = s.drop_last();
        assert(u.push('\r') =~= s);
        lemma_trim_start_push(u, '\r');
        reveal_strlit("```");
        let t = text::trim_start(u);
        if t.len() > 0 {
            if t.len() >= 3 {
                assert(t.push('\r').subrange(0, 3) =~= t.subrange(0, 3));
            } else {
                if "```"@.is_prefix_of(t.push('\r')) {
                    assert(t.push('\r').subrange(0, 3)[t.len() as int] == '\r');
                    assert("```"@[t.len() as int] == '`');
                }
            }
        }
    }
}

proof fn lemma_close_adds_one(s: Seq<char>)
    ensures
        render::fence_count(text::lines(s + "\n```"@)) == render::fence_count(text::lines(s)) + 1,
    decreases s.len(),
{
    reveal_strlit("\n```");
    reveal_strlit("```");
    let t = "\n```"@;
    let st = s + t;
    let i = text::index_of(s, '\n');
    text::lemma_index_of_is(s, '\n');
    assert forall|j: int| 0 <= j < i implies #[trigger] st[j] != '\n' by {
        assert(s[j] != '\n');
    }
    assert(st[i] == '\n');
    text::lemma_index_of(st, '\n', i);
    let head = text::strip_cr(st.take(i));
    let fence = seq!['`', '`', '`'];
    assert(fence =~= "```"@);
    if i < s.len() {
        let u = s.skip(i + 1);
        assert(st.take(i) =~= s.take(i));
        assert(st.skip(i + 1) =~= u + t);
        lemma_close_adds_one(u);
        lemma_fence_count_cons(head, text::lines(u + t));
        lemma_fence_count_cons(head, text::lines(u));
    } else {
        assert(st.take(i) =~= s);
        assert(st.skip(i + 1) =~= fence);
        text::lemma_index_of(fence, '\n', 3);
        assert(text::lines(fence) == seq![fence]);
        assert(text::trim_start(fence) == fence);
        assert("```"@ =~= fence.subrange(0, 3));
        assert(render::is_fence_line(fence));
        lemma_fence_count_cons(head, seq![fence]);
        lemma_fence_count_cons(fence, Seq::empty());
        assert(seq![fence] + Seq::<Seq<char>>::empty() =~= seq![fence]);
        assert(render::fence_count(Seq::<Seq<char>>::empty()) == 0);
        lemma_fence_line_cr(s);
        if s.len() == 0 {
            assert(text::trim_start(s) =~= Seq::<char>::empty());
            assert(!render::is_fence_line(s));
        } else {
            lemma_fence_count_cons(s, Seq::empty());
            assert(seq![s] + Seq::<Seq<char>>::empty() =~= seq![s]);
        }
    }
}

/// After closing, every code fence that a text opens is closed.
pub proof fn closed_fences_pair(md: Seq<char>)
    ensures
        render::fence_count(text::lines(render::fence_closed(md))) % 2 == 0,
{
    lemma_close_adds_one(md);
}

/// Closing fences twice is closing them once.
pub proof fn closing_is_idempotent(md: Seq<char>)
    ensures
        render::fence_closed(render::fence_closed(md)) == render::fence_closed(md),
{
    closed_fences_pair(md);
}

proof fn lemma_join_front(list: Seq<Seq<char>>, sep: Seq<char>)
    requires
        list.len() > 0,
    ensures
        list[0].is_prefix_of(text::join(list, sep)),
    decreases list.len(),
{
    if list.len() > 1 {
        lemma_join_front(list.drop_last(), sep);
        let j = text::join(list.drop_last(), sep);
        assert(list.drop_last()[0] == list[0]);
        let whole = text::join(list, sep);
        assert(whole.subrange(0, list[0].len() as int) =~= j.subrange(0, list[0].len() as int));
    } else {
        assert(list[0] =~= list[0].subrange(0, list[0].len() as int));
    }
}

proof fn lemma_flush_not_blank(st: v2::V2View)
    requires
        forall|i: int| 0 <= i < st.blocks.len() ==> !text::blank(#[trigger] st.blocks[i]),
    ensures
        forall|i: int|
            0 <= i < st.flush().blocks.len() ==> !text::blank(#[trigger] st.flush().blocks[i]),
{
    let done = text::trim_end(st.cur);
    if !text::blank(done) && st.quote > 0 {
        let quoted = text::lines(done).map_values(|l: Seq<char>| seq!['>'] + l);
        assert(done.len() > 0);
        assert(text::lines(done).len() > 0) by {
            text::lemma_index_of_is(done, '\n');
        }
        lemma_join_front(quoted, "\n"@);
        let block = v2::quoted(done);
        assert(quoted[0][0] == '>');
        assert(block.subrange(0, quoted[0].len() as int)[0] == block[0]);
        assert(block[0] == '>');
        assert(!text::is_space(block[0]));
    }
}

proof fn lemma_step_not_blank(st: v2::V2View, event: markdown::MdEventView)
    requires
        forall|i: int| 0 <= i < st.blocks.len() ==> !text::blank(#[trigger] st.blocks[i]),
    ensures
        forall|i: int|
            0 <= i < st.step(event).blocks.len() ==> !text::blank(
                #[trigger] st.step(event).blocks[i],
            ),
{
    lemma_flush_not_blank(st);
    match event {
        markdown::MdEventView::End(tag) => {
            lemma_flush_not_blank(st.push_raw("*"@));
            let n = if st.cur.len() > 0 && st.cur.last() == '\n' {
                st
            } else {
                v2::V2View { cur: st.cur.push('\n'), ..st }
            };
            lemma_flush_not_blank(v2::V2View { in_code: false, ..n.push_raw("```"@) });
            lemma_flush_not_blank(
                v2::V2View {
                    lists: if st.lists.len() > 0 {
                        st.lists.drop_last()
                    } else {
                        st.lists
                    },
                    ..st
                },
            );
            if st.table is Some {
                lemma_flush_not_blank(
                    v2::V2View {
                        table: None,
                        cur: st.cur + v2::fenced(v2::table_text(st.table->0.rows)),
                        ..st
                    },
                );
            }
        },
        markdown::MdEventView::DisplayMath(s) => {
            lemma_flush_not_blank(st.flush().push_raw(v2::fenced(s)));
        },
        markdown::MdEventView::Rule => {
            reveal_strlit("———");
            assert(!text::is_space("———"@[0]));
        },
        _ => {},
    }
}

proof fn lemma_run_not_blank(events: Seq<markdown::MdEventView>)
    ensures
        forall|i: int|
            0 <= i < v2::V2View::start().run(events).blocks.len() ==> !text::blank(
                #[trigger] v2::V2View::start().run(events).blocks[i],
            ),
    decreases events.len(),
{
    if events.len() > 0 {
        lemma_run_not_blank(events.drop_last());
        lemma_step_not_blank(v2::V2View::start().run(events.drop_last()), events.last());
    }
}

/// No block that markdown renders to is blank, whatever the events are.
pub proof fn blocks_are_not_blank(events: Seq<markdown::MdEventView>, i: int)
    requires
        0 <= i < v2::rendered(events).len(),
    ensures
        !text::blank(v2::rendered(events)[i]),
{
    lemma_run_not_blank(events);
    lemma_flush_not_blank(v2::V2View::start().run(events));
}

/// Every line of a table but the rule is drawn from cells cut to the column
/// limit, so no column is wider than that.
pub proof fn columns_are_narrow(rows: Seq<Seq<Seq<char>>>, i: int)
    ensures
        v2::column_width(rows, i) <= v2::MAX_CELL,
    decreases rows.len(),
{
    if rows.len() > 0 {
        columns_are_narrow(rows.drop_last(), i);
    }
}

}
