//! Minimal server-sent-events parser (`data:` lines, comments, blank-line dispatch).

use crate::text;
use vstd::prelude::*;

verus! {

/// The text that `String::from_utf8_lossy` reads from bytes, with a mark for what is
/// not UTF-8.
pub uninterp spec fn utf8_lossy(bytes: Seq<u8>) -> Seq<char>;

/// The text that bytes hold: what they encode where they are UTF-8, and else that
/// with a mark for what is not.
pub open spec fn text_in(bytes: Seq<u8>) -> Seq<char> {
    if vstd::utf8::valid_utf8(bytes) {
        vstd::utf8::decode_utf8(bytes)
    } else {
        utf8_lossy(bytes)
    }
}

/// `String::from_utf8_lossy`. Bytes that are UTF-8 give the text they encode.
#[verifier::external_body]
pub(crate) fn lossy_text(bytes: &[u8]) -> (s: String)
    ensures
        s@ == utf8_lossy(bytes@),
        vstd::utf8::valid_utf8(bytes@) ==> s@ == vstd::utf8::decode_utf8(bytes@),
{
    String::from_utf8_lossy(bytes).into_owned()
}

/// The parser's state: the unfinished line, and the data lines of the
/// unfinished event.
pub ghost struct SseView {
    pub buf: Seq<char>,
    pub data: Seq<Seq<char>>,
}

/// What a stretch of text leads to: the state after it, and the payloads it completes.
pub ghost struct SseRun {
    pub state: SseView,
    pub out: Seq<Seq<char>>,
}

/// The value of a field: what follows the colon, without one leading space.
pub open spec fn field_value(line: Seq<char>) -> Seq<char> {
    let rest = line.skip(text::index_of(line, ':') + 1);
    if rest.len() > 0 && rest[0] == ' ' {
        rest.skip(1)
    } else {
        rest
    }
}

/// Whether a line is a `data` field.
pub open spec fn is_data_line(line: Seq<char>) -> bool {
    line.take(text::index_of(line, ':')) == "data"@
}

/// The data lines after one more line.
pub open spec fn data_after(data: Seq<Seq<char>>, line: Seq<char>) -> Seq<Seq<char>> {
    if line.len() == 0 {
        Seq::empty()
    } else if is_data_line(line) {
        data.push(
            if text::index_of(line, ':') < line.len() {
                field_value(line)
            } else {
                Seq::empty()
            },
        )
    } else {
        data
    }
}

/// The payload that a line completes: an empty line ends an event that has data.
pub open spec fn completed_by(data: Seq<Seq<char>>, line: Seq<char>) -> Seq<Seq<char>> {
    if line.len() == 0 && data.len() > 0 {
        seq![text::join(data, "\n"@)]
    } else {
        Seq::empty()
    }
}

/// The first line of a text, without the carriage returns at its end.
pub open spec fn first_line(s: Seq<char>) -> Seq<char> {
    text::drop_back(s.take(text::index_of(s, '\n')), '\r')
}

/// Works off the complete lines of a text.
pub open spec fn sse_lines(data: Seq<Seq<char>>, s: Seq<char>) -> SseRun
    decreases s.len(),
{
    let i = text::index_of(s, '\n');
    if 0 <= i < s.len() {
        let rest = sse_lines(data_after(data, first_line(s)), s.skip(i + 1));
        SseRun { state: rest.state, out: completed_by(data, first_line(s)) + rest.out }
    } else {
        SseRun { state: SseView { buf: s, data }, out: Seq::empty() }
    }
}

impl SseView {
    /// More text arrives.
    pub open spec fn feed(self, s: Seq<char>) -> SseRun {
        sse_lines(self.data, self.buf + s)
    }

    /// The text ends: an unfinished line counts as a line. The payload is the one
    /// that this line completes, or else the data lines that are left.
    pub open spec fn finish(self) -> Option<Seq<char>> {
        let end = if self.buf.len() > 0 {
            self.feed("\n"@)
        } else {
            SseRun { state: self, out: Seq::empty() }
        };
        if end.out.len() > 0 {
            Some(end.out[0])
        } else if end.state.data.len() > 0 {
            Some(text::join(end.state.data, "\n"@))
        } else {
            None
        }
    }
}

/// A parser for one stream.
#[derive(Debug)]
pub struct SseParser {
    buf: String,
    data: Vec<String>,
}

impl View for SseParser {
    type V = SseView;

    closed spec fn view(&self) -> SseView {
        SseView { buf: self.buf@, data: text::views(self.data@) }
    }
}

impl Default for SseParser {
    fn default() -> (r: SseParser)
        ensures
            r@ == (SseView { buf: Seq::empty(), data: Seq::empty() }),
    {
        let r = SseParser { buf: String::new(), data: Vec::new() };
        assert(text::views(r.data@) =~= Seq::<Seq<char>>::empty());
        r
    }
}

impl SseParser {
    /// One complete line.
    fn take_line(&mut self, line: &str) -> (out: Option<String>)
        ensures
            final(self)@ == (SseView { data: data_after(old(self)@.data, line@), ..old(self)@ }),
            (match out {
                Some(s) => seq![s@],
                None => Seq::empty(),
            }) == completed_by(old(self)@.data, line@),
    {
        let v = text::chars_of(line);
        if v.len() == 0 {
            if self.data.len() > 0 {
                let payload = text::join_list(&self.data, "\n");
                self.data = Vec::new();
                assert(text::views(self.data@) =~= Seq::<Seq<char>>::empty());
                return Some(payload);
            }
            assert(text::views(self.data@) =~= Seq::<Seq<char>>::empty());
            return None;
        }
        assert(v@.skip(0) =~= v@);
        let i = text::position(&v, 0, ':');
        let field = text::string_between(&v, 0, i);
        assert(field@ =~= line@.take(i as int));
        if text::same(field.as_str(), "data") {
            let value: String = if i < v.len() {
                let from: usize = if i + 1 < v.len() && v[i + 1] == ' ' {
                    i + 2
                } else {
                    i + 1
                };
                text::string_between(&v, from, v.len())
            } else {
                String::new()
            };
            proof {
                if i < v.len() {
                    let rest = line@.skip(i + 1);
                    if rest.len() > 0 {
                        assert(rest[0] == v@[i + 1]);
                    }
                    assert(value@ =~= field_value(line@));
                }
                text::lemma_views_push(self.data@, value);
            }
            self.data.push(value);
        }
        None
    }

    /// Feed text; returns complete `data` payloads in order.
    fn feed(&mut self, more: &str) -> (out: Vec<String>)
        ensures
            final(self)@ == old(self)@.feed(more@).state,
            text::views(out@) == old(self)@.feed(more@).out,
    {
        let mut whole: String = self.buf.as_str().to_string();
        whole.append(more);
        let v = text::chars_of(whole.as_str());
        let ghost all = sse_lines(self@.data, v@);
        let mut out: Vec<String> = Vec::new();
        let mut from: usize = 0;
        let mut i = text::position(&v, 0, '\n');
        assert(v@.skip(0) =~= v@);
        assert(text::views(out@) + all.out =~= all.out);
        while i < v.len()
            invariant
                from <= i <= v@.len(),
                i == from + text::index_of(v@.skip(from as int), '\n'),
                sse_lines(self@.data, v@.skip(from as int)).state == all.state,
                text::views(out@) + sse_lines(self@.data, v@.skip(from as int)).out == all.out,
            decreases v@.len() - i,
        {
            let ghost rest = v@.skip(from as int);
            let ghost before = self@.data;
            let line = text::string_between(&v, from, i);
            let line = text::dropped_back(line.as_str(), '\r');
            proof {
                assert(rest.take(i - from) =~= v@.subrange(from as int, i as int));
                assert(line@ == first_line(rest));
                assert(rest.skip(i - from + 1) =~= v@.skip(i + 1));
            }
            let done = self.take_line(line.as_str());
            proof {
                let tail = sse_lines(self@.data, v@.skip(i + 1));
                assert(sse_lines(before, rest).out == completed_by(before, line@) + tail.out);
                if done is Some {
                    let s = done->0;
                    text::lemma_views_push(out@, s);
                    assert(text::views(out@) + (seq![s@] + tail.out) =~= text::views(out@).push(s@)
                        + tail.out);
                } else {
                    assert(text::views(out@) + (Seq::<Seq<char>>::empty() + tail.out)
                        =~= text::views(out@) + tail.out);
                }
            }
            match done {
                Some(s) => {
                    out.push(s);
                },
                None => {},
            }
            from = i + 1;
            i = text::position(&v, from, '\n');
        }
        assert(text::views(out@) + Seq::<Seq<char>>::empty() =~= text::views(out@));
        self.buf = text::string_between(&v, from, v.len());
        assert(self.buf@ =~= v@.skip(from as int));
        out
    }

    /// Feed raw bytes; returns complete `data` payloads in order.
    pub fn push(&mut self, chunk: &[u8]) -> (out: Vec<String>)
        ensures
            final(self)@ == old(self)@.feed(text_in(chunk@)).state,
            text::views(out@) == old(self)@.feed(text_in(chunk@)).out,
    {
        let more = lossy_text(chunk);
        self.feed(more.as_str())
    }

    /// Flush a trailing event without a final blank line.
    pub fn finish(&mut self) -> (r: Option<String>)
        ensures
            text::opt_view(r) == old(self)@.finish(),
            final(self)@ == (SseView { buf: Seq::empty(), data: Seq::empty() }),
    {
        proof {
            reveal_strlit("\n");
            lemma_last_line_is_whole(self@.data, self.buf@ + "\n"@);
        }
        let mut done: Vec<String> = Vec::new();
        if text::char_count(self.buf.as_str()) > 0 {
            done = self.feed("\n");
        }
        assert(self.buf@ =~= Seq::<char>::empty());
        let r: Option<String> = if done.len() > 0 {
            assert(text::views(done@)[0] == done@[0]@);
            Some(done[0].as_str().to_string())
        } else if self.data.len() > 0 {
            Some(text::join_list(&self.data, "\n"))
        } else {
            None
        };
        self.data = Vec::new();
        assert(text::views(self.data@) =~= Seq::<Seq<char>>::empty());
        r
    }
}

/// The bytes that encode a text hold that text.
pub proof fn encoded_text_is_read(t: Seq<char>)
    ensures
        text_in(vstd::utf8::encode_utf8(t)) == t,
{
    vstd::utf8::encode_utf8_valid_utf8(t);
    vstd::utf8::encode_utf8_decode_utf8(t);
}

/// A text and what follows it can arrive in one piece or in two.
pub proof fn feeding_in_pieces(st: SseView, a: Seq<char>, b: Seq<char>)
    ensures
        st.feed(a + b).state == st.feed(a).state.feed(b).state,
        st.feed(a + b).out == st.feed(a).out + st.feed(a).state.feed(b).out,
{
    lemma_lines_in_pieces(st.data, st.buf + a, b);
    assert((st.buf + a) + b =~= st.buf + (a + b));
}

proof fn lemma_lines_in_pieces(data: Seq<Seq<char>>, s: Seq<char>, b: Seq<char>)
    ensures
        sse_lines(data, s + b).state == sse_lines(data, s).state.feed(b).state,
        sse_lines(data, s + b).out == sse_lines(data, s).out + sse_lines(data, s).state.feed(b).out,
    decreases s.len(),
{
    let i = text::index_of(s, '\n');
    text::lemma_index_of_is(s, '\n');
    if i < s.len() {
        let sb = s + b;
        assert forall|j: int| 0 <= j < i implies #[trigger] sb[j] != '\n' by {
            assert(s[j] != '\n');
        }
        assert(sb[i] == '\n');
        text::lemma_index_of(sb, '\n', i);
        assert(sb.take(i) =~= s.take(i));
        assert(sb.skip(i + 1) =~= s.skip(i + 1) + b);
        let d = data_after(data, first_line(s));
        lemma_lines_in_pieces(d, s.skip(i + 1), b);
        let head = completed_by(data, first_line(s));
        let tail = sse_lines(d, s.skip(i + 1));
        assert(head + (tail.out + tail.state.feed(b).out) =~= (head + tail.out)
            + tail.state.feed(b).out);
    } else {
        assert(Seq::<Seq<char>>::empty() + sse_lines(data, s + b).out =~= sse_lines(
            data,
            s + b,
        ).out);
    }
}

proof fn lemma_decode_concat(a: Seq<u8>, b: Seq<u8>)
    requires
        vstd::utf8::valid_utf8(a),
        vstd::utf8::valid_utf8(b),
    ensures
        vstd::utf8::valid_utf8(a + b),
        vstd::utf8::decode_utf8(a + b) == vstd::utf8::decode_utf8(a) + vstd::utf8::decode_utf8(b),
    decreases a.len(),
{
    vstd::utf8::valid_utf8_concat(a, b);
    if a.len() == 0 {
        assert(a + b =~= b);
        assert(vstd::utf8::decode_utf8(a) =~= Seq::<char>::empty());
        assert(Seq::<char>::empty() + vstd::utf8::decode_utf8(b) =~= vstd::utf8::decode_utf8(b));
    } else {
        let t = vstd::utf8::pop_first_scalar(a);
        assert(t.len() < a.len());
        lemma_decode_concat(t, b);
        assert(vstd::utf8::pop_first_scalar(a + b) =~= t + b);
        let c = vstd::utf8::decode_first_scalar(a) as char;
        assert(vstd::utf8::decode_first_scalar(a + b) == vstd::utf8::decode_first_scalar(a));
        assert(seq![c] + (vstd::utf8::decode_utf8(t) + vstd::utf8::decode_utf8(b)) =~= (seq![c]
            + vstd::utf8::decode_utf8(t)) + vstd::utf8::decode_utf8(b));
    }
}

/// A stream that is cut between characters gives the same payloads however it
/// is cut.
pub proof fn chunks_do_not_matter(st: SseView, a: Seq<u8>, b: Seq<u8>)
    requires
        vstd::utf8::valid_utf8(a),
        vstd::utf8::valid_utf8(b),
    ensures
        st.feed(vstd::utf8::decode_utf8(a + b)).out == st.feed(vstd::utf8::decode_utf8(a)).out
            + st.feed(vstd::utf8::decode_utf8(a)).state.feed(vstd::utf8::decode_utf8(b)).out,
        st.feed(vstd::utf8::decode_utf8(a + b)).state == st.feed(
            vstd::utf8::decode_utf8(a),
        ).state.feed(vstd::utf8::decode_utf8(b)).state,
{
    lemma_decode_concat(a, b);
    feeding_in_pieces(st, vstd::utf8::decode_utf8(a), vstd::utf8::decode_utf8(b));
}

/// After a feed, the unfinished line holds no line end.
pub proof fn unfinished_line_is_one_line(st: SseView, s: Seq<char>)
    ensures
        text::index_of(st.feed(s).state.buf, '\n') == st.feed(s).state.buf.len(),
{
    lemma_rest_is_one_line(st.data, st.buf + s);
}

/// Finishing gives the payload that the end of the line and a blank line would
/// have completed: no event is lost at the end of a stream.
pub proof fn finishing_ends_the_event(st: SseView)
    requires
        text::index_of(st.buf, '\n') == st.buf.len(),
    ensures
        st.feed("\n\n"@).out == (match st.finish() {
            Some(payload) => seq![payload],
            None => Seq::empty(),
        }),
{
    reveal_strlit("\n");
    reveal_strlit("\n\n");
    let nl = "\n"@;
    assert(nl + nl =~= "\n\n"@);
    feeding_in_pieces(st, nl, nl);
    let mid = st.feed(nl);
    lemma_one_line(st.data, st.buf);
    lemma_one_line(mid.state.data, Seq::empty());
    assert(mid.state.buf + nl =~= Seq::<char>::empty() + nl);
    assert(text::drop_back(Seq::<char>::empty(), '\r') =~= Seq::<char>::empty());
    if st.buf.len() == 0 {
        assert(st.buf =~= Seq::<char>::empty());
    }
    assert(st.feed("\n\n"@).out =~= (match st.finish() {
        Some(payload) => seq![payload],
        None => Seq::empty(),
    }));
}

proof fn lemma_one_line(data: Seq<Seq<char>>, line: Seq<char>)
    requires
        text::index_of(line, '\n') == line.len(),
    ensures
        sse_lines(data, line + "\n"@) == (SseRun {
            state: SseView {
                buf: Seq::empty(),
                data: data_after(data, text::drop_back(line, '\r')),
            },
            out: completed_by(data, text::drop_back(line, '\r')),
        }),
{
    reveal_strlit("\n");
    let s = line + "\n"@;
    text::lemma_index_of_is(line, '\n');
    assert forall|j: int| 0 <= j < line.len() implies #[trigger] s[j] != '\n' by {
        assert(line[j] != '\n');
    }
    text::lemma_index_of(s, '\n', line.len() as int);
    assert(s.take(line.len() as int) =~= line);
    let rest = s.skip(line.len() as int + 1);
    assert(rest =~= Seq::<char>::empty());
    text::lemma_index_of(rest, '\n', 0);
    let after = sse_lines(data_after(data, first_line(s)), rest);
    assert(after.out =~= Seq::<Seq<char>>::empty());
    assert(after.state.buf =~= Seq::<char>::empty());
    assert(completed_by(data, first_line(s)) + Seq::<Seq<char>>::empty() =~= completed_by(
        data,
        first_line(s),
    ));
}

proof fn lemma_last_line_is_whole(data: Seq<Seq<char>>, s: Seq<char>)
    requires
        s.len() > 0,
        s.last() == '\n',
    ensures
        sse_lines(data, s).state.buf.len() == 0,
    decreases s.len(),
{
    let i = text::index_of(s, '\n');
    text::lemma_index_of_is(s, '\n');
    assert(i < s.len()) by {
        if i == s.len() {
            assert(s[s.len() - 1] != '\n');
        }
    }
    let t = s.skip(i + 1);
    let d = data_after(data, first_line(s));
    if t.len() > 0 {
        lemma_last_line_is_whole(d, t);
    } else {
        assert(text::index_of(t, '\n') == 0);
    }
}

proof fn lemma_rest_is_one_line(data: Seq<Seq<char>>, s: Seq<char>)
    ensures
        text::index_of(sse_lines(data, s).state.buf, '\n') == sse_lines(data, s).state.buf.len(),
    decreases s.len(),
{
    let i = text::index_of(s, '\n');
    text::lemma_index_of_is(s, '\n');
    if i < s.len() {
        lemma_rest_is_one_line(data_after(data, first_line(s)), s.skip(i + 1));
    }
}

}
