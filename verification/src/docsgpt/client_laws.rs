//! What is asked of DocsGPT and what its replies come to, as laws over the bodies, the
//! headers and the lines of the stream.

use crate::docsgpt::{client, event_laws, sse, types};
use crate::json;
use crate::text;
use crate::text_laws;
use crate::util;
use vstd::prelude::*;

verus! {

/// A question's body carries the question, the agent's key and the conversation it goes
/// on, and the attachments where there are any.
pub proof fn questions_are_carried(
    question: Seq<char>,
    key: Seq<char>,
    conversation: Option<Seq<char>>,
    attachments: Seq<Seq<char>>,
    i: int,
)
    ensures
        ({
            let body = client::question_body(question, key, conversation, attachments);
            &&& event_laws::says(body, "question"@, question)
            &&& event_laws::says(body, "api_key"@, key)
            &&& event_laws::says(body, "history"@, "[]"@)
            &&& conversation matches Some(c) ==> event_laws::says(body, "conversation_id"@, c)
            &&& conversation is None ==> json::field(body, "conversation_id"@) == Some(
                json::JsonView::Null,
            )
            &&& attachments.len() == 0 ==> json::field(body, "attachments"@) is None
            &&& attachments.len() > 0 ==> (json::field(
                body,
                "attachments"@,
            ) matches Some(json::JsonView::Array(list)) && list.len() == attachments.len() && (0
                <= i < list.len() ==> list[i] == json::JsonView::Str(attachments[i])))
        }),
{
    reveal_strlit("question");
    reveal_strlit("api_key");
    reveal_strlit("history");
    reveal_strlit("conversation_id");
    reveal_strlit("attachments");
    assert("question"@.len() == 8 && "api_key"@.len() == 7 && "history"@.len() == 7
        && "conversation_id"@.len() == 15 && "attachments"@.len() == 11);
    assert("api_key"@[0] == 'a' && "history"@[0] == 'h');
    let body = client::question_body(question, key, conversation, attachments);
    let names = match body {
        json::JsonView::Object(names, _) => names,
        _ => Seq::empty(),
    };
    let values = match body {
        json::JsonView::Object(_, values) => values,
        _ => Seq::empty(),
    };
    event_laws::first_fields_count(names, values, "question"@, 0);
    event_laws::first_fields_count(names, values, "api_key"@, 1);
    event_laws::first_fields_count(names, values, "history"@, 2);
    event_laws::first_fields_count(names, values, "conversation_id"@, 3);
    event_laws::first_fields_count(names, values, "attachments"@, 4);
    assert(names[0] == "question"@ && names[1] == "api_key"@ && names[2] == "history"@ && names[3]
        == "conversation_id"@);
    if attachments.len() > 0 {
        assert(names[4] == "attachments"@);
    } else {
        assert(!names.contains("attachments"@)) by {
            if names.contains("attachments"@) {
                let k = names.index_of("attachments"@);
                assert(k == 0 || k == 1 || k == 2 || k == 3);
            }
        }
    }
}

/// An upload's reply names the file that was stored, and the task that prepares it: at
/// its top, or in the first of its tasks. Without an id it is refused.
pub proof fn stored_files_are_named(
    names: Seq<Seq<char>>,
    values: Seq<json::JsonView>,
    body: Seq<char>,
    id: Seq<char>,
    task: Seq<char>,
    tasks: Seq<json::JsonView>,
)
    ensures
        ({
            let v = json::JsonView::Object(names, values);
            &&& event_laws::says(v, "attachment_id"@, id) && event_laws::says(v, "task_id"@, task)
                && id.len() > 0 ==> client::stored_reply(body, Some(v)) == Ok::<
                client::StoredView,
                client::ReplyErrorView,
            >(client::StoredView { attachment_id: id, task_id: Some(task) })
            &&& event_laws::says(v, "attachment_id"@, id) && json::field(v, "task_id"@) is None
                && id.len() > 0 ==> client::stored_reply(body, Some(v)) == Ok::<
                client::StoredView,
                client::ReplyErrorView,
            >(client::StoredView { attachment_id: id, task_id: None })
            &&& json::field(v, "attachment_id"@) is None && json::field(v, "tasks"@) == Some(
                json::JsonView::Array(tasks),
            ) && tasks.len() > 0 && event_laws::says(tasks[0], "attachment_id"@, id)
                && event_laws::says(tasks[0], "task_id"@, task) && id.len() > 0
                ==> client::stored_reply(body, Some(v)) == Ok::<
                client::StoredView,
                client::ReplyErrorView,
            >(client::StoredView { attachment_id: id, task_id: Some(task) })
            &&& json::field(v, "attachment_id"@) is None && json::field(v, "tasks"@) is None
                ==> client::stored_reply(body, Some(v)) == Err::<
                client::StoredView,
                client::ReplyErrorView,
            >(client::ReplyErrorView::NoAttachmentId(body))
        }),
        client::stored_reply(body, None) == Err::<client::StoredView, client::ReplyErrorView>(
            client::ReplyErrorView::NotJson("store_attachment"@),
        ),
{
}

/// A transcription is the reply's text without outer white space; without words it is
/// refused.
pub proof fn transcripts_are_trimmed(v: json::JsonView, s: Seq<char>)
    ensures
        event_laws::says(v, "text"@, s) && !text::blank(s) ==> client::transcript_reply(Some(v))
            == Ok::<Seq<char>, client::ReplyErrorView>(text::trim(s)),
        event_laws::says(v, "text"@, s) && text::blank(s) ==> client::transcript_reply(Some(v))
            == Err::<Seq<char>, client::ReplyErrorView>(client::ReplyErrorView::NoText),
        json::field(v, "text"@) is None ==> client::transcript_reply(Some(v)) == Err::<
            Seq<char>,
            client::ReplyErrorView,
        >(client::ReplyErrorView::NoText),
        client::transcript_reply(None) == Err::<Seq<char>, client::ReplyErrorView>(
            client::ReplyErrorView::NotJson("/api/stt"@),
        ),
{
}

/// Speech is the bytes that the reply's audio encodes.
pub proof fn audio_is_decoded(v: json::JsonView, s: Seq<char>, bytes: Seq<u8>)
    ensures
        event_laws::says(v, "audio_base64"@, s) && client::base64_bytes(s) == Some(bytes)
            ==> client::audio_reply(Some(v)) == Ok::<Seq<u8>, client::ReplyErrorView>(bytes),
        event_laws::says(v, "audio_base64"@, s) && client::base64_bytes(s) is None
            ==> client::audio_reply(Some(v)) == Err::<Seq<u8>, client::ReplyErrorView>(
            client::ReplyErrorView::BadAudio,
        ),
        json::field(v, "audio_base64"@) is None ==> client::audio_reply(Some(v)) == Err::<
            Seq<u8>,
            client::ReplyErrorView,
        >(client::ReplyErrorView::NoAudio),
{
}

/// A refusal tells who refused, with what status, and the reply as far as it is shown.
pub proof fn refusals_are_told(what: Seq<char>, status: Seq<char>, body: Seq<char>, max: nat)
    ensures
        body.len() <= max ==> client::refusal(what, status, body, max) == what + " returned "@
            + status + ": "@ + body,
        client::refusal(what, status, body, max).len() <= what.len() + " returned "@.len()
            + status.len() + ": "@.len() + max,
{
}

/// Capitals: a small letter of ASCII becomes its capital, anything else stays.
pub proof fn small_letters_become_capitals(s: Seq<char>, i: int)
    requires
        0 <= i < s.len(),
    ensures
        client::upper(s).len() == s.len(),
        'a' <= s[i] && s[i] <= 'z' ==> client::upper(s)[i] as u32 + 32 == s[i] as u32,
        !('a' <= s[i] && s[i] <= 'z') ==> client::upper(s)[i] == s[i],
{
}

/// A task is waited for until it has succeeded or the wait is over; one that failed or
/// was revoked fails the file; the pause between two questions does not change by
/// asking.
pub proof fn tasks_are_waited_for(
    v: json::JsonView,
    printed: Seq<char>,
    status: Seq<char>,
    late: bool,
    pause: nat,
)
    requires
        event_laws::says(v, "status"@, status),
    ensures
        client::upper(status) == "SUCCESS"@ ==> client::task_step(v, printed, late, pause)
            == client::TaskStepView::Proceed,
        (client::upper(status) == "FAILURE"@ || client::upper(status) == "REVOKED"@)
            && printed.len() <= 200 ==> client::task_step(v, printed, late, pause)
            == client::TaskStepView::Fail("attachment processing failed: "@ + printed),
        client::upper(status) != "SUCCESS"@ && client::upper(status) != "FAILURE"@
            && client::upper(status) != "REVOKED"@ && late ==> client::task_step(
            v,
            printed,
            late,
            pause,
        ) == client::TaskStepView::Proceed,
        client::upper(status) != "SUCCESS"@ && client::upper(status) != "FAILURE"@
            && client::upper(status) != "REVOKED"@ && !late ==> client::task_step(
            v,
            printed,
            late,
            pause,
        ) == client::TaskStepView::Again(pause),
{
    reveal_strlit("SUCCESS");
    reveal_strlit("FAILURE");
    reveal_strlit("REVOKED");
    assert("SUCCESS"@[0] == 'S');
    assert("FAILURE"@[0] == 'F');
    assert("REVOKED"@[0] == 'R');
}

/// Pauses grow by half until they reach three seconds.
pub proof fn pauses_grow_by_half(pause: nat)
    ensures
        pause < 2_000_000_000 ==> client::pause_after(pause) == pause + pause / 2,
        pause >= 2_000_000_000 ==> client::pause_after(pause) == 3_000_000_000,
{
}

/// A failed question about a task does not hold the file up, and a refused one only for
/// a moment.
pub proof fn unanswered_tasks_go_on(late: bool, pause: nat)
    ensures
        client::step_for_reply(client::TaskReply::Refused, late, pause)
            == client::TaskStepView::PauseThenProceed,
        client::step_for_reply(client::TaskReply::Failed, late, pause)
            == client::TaskStepView::Proceed,
{
}

proof fn lemma_unquoted(name: Seq<char>)
    requires
        !name.contains('"'),
    ensures
        client::unquoted(seq!['"'] + name + seq!['"']) == name,
        client::unquoted(name) == name,
{
    let q = '"';
    let w = seq![q] + name + seq![q];
    if name.len() > 0 {
        assert(name.contains(name[0]));
        assert(name.contains(name.last()));
    }
    assert(w.skip(1) =~= name + seq![q]);
    let t = name + seq![q];
    reveal_with_fuel(text::drop_front, 3);
    reveal_with_fuel(text::drop_back, 3);
    if name.len() > 0 {
        assert(t[0] == name[0]);
        assert(text::drop_front(w, q) == t);
        assert(t.drop_last() =~= name);
    } else {
        assert(t =~= seq![q]);
        assert(t.skip(1) =~= Seq::<char>::empty());
        assert(name =~= Seq::<char>::empty());
        assert(text::drop_front(w, q) =~= Seq::<char>::empty());
        assert(text::drop_back(Seq::<char>::empty(), q) =~= Seq::<char>::empty());
    }
}

/// The file name of a download is the one that its header gives, with or without
/// quotes, wherever in the header it stands; without one it is the hint.
pub proof fn headers_name_downloads(front: Seq<char>, name: Seq<char>, hint: Seq<char>)
    requires
        !front.contains(';'),
        client::part_name(front) is None,
        !name.contains(';'),
        !name.contains('"'),
        name.len() > 0,
        !text::is_space(name.last()),
    ensures
        client::download_name(
            Some(front + seq![';'] + (seq![' '] + "filename="@ + (seq!['"'] + name + seq!['"']))),
            hint,
        ) == name,
        client::download_name(
            Some(front + seq![';'] + (seq![' '] + "filename="@ + name)),
            hint,
        ) == name,
        client::download_name(Some(front), hint) == hint,
        client::download_name(None, hint) == hint,
{
    lemma_header(front, name, seq!['"'] + name + seq!['"']);
    lemma_header(front, name, name);
    text_laws::splitting_parts(front, ';', Seq::empty());
    reveal_with_fuel(client::first_name, 2);
    assert(seq![front].skip(1) =~= Seq::<Seq<char>>::empty());
}

proof fn lemma_header(front: Seq<char>, name: Seq<char>, given: Seq<char>)
    requires
        !front.contains(';'),
        client::part_name(front) is None,
        !name.contains(';'),
        !name.contains('"'),
        name.len() > 0,
        !text::is_space(name.last()),
        given == name || given == seq!['"'] + name + seq!['"'],
    ensures
        client::disposition_name(front + seq![';'] + (seq![' '] + "filename="@ + given)) == Some(
            name,
        ),
{
    reveal_strlit("filename=");
    reveal_strlit("filename*=");
    lemma_unquoted(name);
    let key = "filename="@;
    let part = seq![' '] + key + given;
    let s = key + given;
    assert(part =~= seq![' '] + s + Seq::<char>::empty());
    assert(s.last() == given.last());
    assert(s[0] == 'f');
    text_laws::trimming_takes_outer_space(seq![' '], s, Seq::empty());
    assert(text::trim(part) == s);
    assert(s.subrange(0, 9) =~= key);
    assert(s.skip(9) =~= given);
    assert(!"filename*="@.is_prefix_of(s)) by {
        if "filename*="@.is_prefix_of(s) {
            assert("filename*="@[8] == s.subrange(0, 10)[8]);
            assert(s[8] == key[8]);
        }
    }
    assert(client::part_name(part) == Some((false, name)));
    assert forall|j: int| 0 <= j < part.len() implies #[trigger] part[j] != ';' by {
        if j >= 10 {
            assert(part[j] == given[j - 10]);
            if given == name {
                assert(name.contains(name[j - 10]));
            } else if 0 < j - 10 < given.len() - 1 {
                assert(given[j - 10] == name[j - 11]);
                assert(name.contains(name[j - 11]));
            }
        } else if j >= 1 {
            assert(part[j] == key[j - 1]);
        }
    }
    text_laws::splitting_parts(front, ';', part);
    text_laws::splitting_parts(part, ';', Seq::empty());
    let parts = seq![front] + seq![part];
    assert(parts.skip(1) =~= seq![part]);
    reveal_with_fuel(client::first_name, 3);
}

/// A media type is what stands before its parameters, and a file's address names the
/// file by its last segment, without the query.
pub proof fn types_and_addresses_are_cut(
    a: Seq<char>,
    b: Seq<char>,
    c: Seq<char>,
)
    ensures
        !a.contains(';') ==> client::media_type(a + seq![';'] + b) == text::trim(a)
            && client::media_type(a) == text::trim(a),
        !b.contains('/') && !b.contains('?') && !c.contains('/') ==> client::url_name(
            a + seq!['/'] + b + seq!['?'] + c,
        ) == b && client::url_name(a + seq!['/'] + b) == b,
{
    if !a.contains(';') {
        let w = a + seq![';'] + b;
        assert forall|j: int| 0 <= j < a.len() implies #[trigger] w[j] != ';' by {
            assert(w[j] == a[j]);
            assert(a.contains(a[j]));
        }
        assert(w[a.len() as int] == ';');
        text::lemma_index_of(w, ';', a.len() as int);
        assert(w.take(a.len() as int) =~= a);
        assert forall|j: int| 0 <= j < a.len() implies #[trigger] a[j] != ';' by {
            assert(a.contains(a[j]));
        }
        text::lemma_index_of(a, ';', a.len() as int);
        assert(a.take(a.len() as int) =~= a);
    }
    if !b.contains('/') && !b.contains('?') && !c.contains('/') {
        let tail = b + seq!['?'] + c;
        lemma_last_segment(a, tail);
        assert(a + seq!['/'] + b + seq!['?'] + c =~= a + seq!['/'] + tail);
        assert forall|j: int| 0 <= j < tail.len() implies #[trigger] tail[j] != '/' by {
            if j < b.len() {
                assert(tail[j] == b[j]);
                assert(b.contains(b[j]));
            } else if j > b.len() {
                assert(tail[j] == c[j - b.len() - 1]);
                assert(c.contains(c[j - b.len() - 1]));
            }
        }
        assert forall|j: int| 0 <= j < b.len() implies #[trigger] tail[j] != '?' by {
            assert(tail[j] == b[j]);
            assert(b.contains(b[j]));
        }
        assert(tail[b.len() as int] == '?');
        text::lemma_index_of(tail, '?', b.len() as int);
        assert(tail.take(b.len() as int) =~= b);
        assert forall|j: int| 0 <= j < b.len() implies #[trigger] b[j] != '/' && b[j] != '?' by {
            assert(b.contains(b[j]));
        }
        lemma_last_segment(a, b);
        text::lemma_index_of(b, '?', b.len() as int);
        assert(b.take(b.len() as int) =~= b);
    }
}

proof fn lemma_last_segment(a: Seq<char>, tail: Seq<char>)
    ensures
        (forall|j: int| 0 <= j < tail.len() ==> #[trigger] tail[j] != '/') ==> (a + seq!['/']
            + tail).skip(text::last_index_of(a + seq!['/'] + tail, '/') + 1) == tail,
{
    if forall|j: int| 0 <= j < tail.len() ==> #[trigger] tail[j] != '/' {
        let w = a + seq!['/'] + tail;
        assert(w[a.len() as int] == '/');
        assert forall|j: int| a.len() < j < w.len() implies #[trigger] w[j] != '/' by {
            assert(w[j] == tail[j - a.len() - 1]);
        }
        text::lemma_last_index_of(w, '/', a.len() as int);
        assert(w.skip((a.len() + 1) as int) =~= tail);
    }
}

/// The events of a stream are those of its payloads, in order; a payload that is not
/// JSON is passed over.
pub proof fn payloads_become_events(payloads: Seq<Seq<char>>, s: Seq<char>)
    ensures
        types::event_in(s) matches Some(e) ==> client::events_in(
            payloads.push(s),
            payloads.len() + 1,
        ) == client::events_in(payloads, payloads.len()).push(e),
        types::event_in(s) is None ==> client::events_in(payloads.push(s), payloads.len() + 1)
            == client::events_in(payloads, payloads.len()),
        json::json_text(s) is None ==> types::event_in(s) is None,
        json::json_text(s) is Some ==> types::event_in(s) is Some,
{
    lemma_same_payloads(payloads, payloads.push(s), payloads.len());
}

proof fn lemma_same_payloads(a: Seq<Seq<char>>, b: Seq<Seq<char>>, n: nat)
    requires
        n <= a.len(),
        n <= b.len(),
        forall|i: int| 0 <= i < n ==> #[trigger] a[i] == b[i],
    ensures
        client::events_in(a, n) == client::events_in(b, n),
    decreases n,
{
    if n > 0 {
        lemma_same_payloads(a, b, (n - 1) as nat);
        assert(a[n - 1] == b[n - 1]);
    }
}

proof fn lemma_line_read(data: Seq<Seq<char>>, line: Seq<char>, rest: Seq<char>)
    requires
        !line.contains('\n'),
        line.len() == 0 || line.last() != '\r',
    ensures
        sse::sse_lines(data, line + seq!['\n'] + rest) == (sse::SseRun {
            state: sse::sse_lines(sse::data_after(data, line), rest).state,
            out: sse::completed_by(data, line) + sse::sse_lines(
                sse::data_after(data, line),
                rest,
            ).out,
        }),
{
    let s = line + seq!['\n'] + rest;
    assert forall|j: int| 0 <= j < line.len() implies #[trigger] s[j] != '\n' by {
        assert(s[j] == line[j]);
        assert(line.contains(line[j]));
    }
    assert(s[line.len() as int] == '\n');
    text::lemma_index_of(s, '\n', line.len() as int);
    assert(s.take(line.len() as int) =~= line);
    assert(s.skip((line.len() + 1) as int) =~= rest);
}

proof fn lemma_data_line(x: Seq<char>)
    requires
        !x.contains('\n'),
    ensures
        sse::is_data_line("data: "@ + x),
        sse::field_value("data: "@ + x) == x,
        text::index_of("data: "@ + x, ':') == 4,
        ("data: "@ + x).len() == x.len() + 6,
        !("data: "@ + x).contains('\n'),
{
    reveal_strlit("data: ");
    reveal_strlit("data");
    let w = "data: "@ + x;
    assert(w[4] == ':');
    assert(w[0] == 'd' && w[1] == 'a' && w[2] == 't' && w[3] == 'a');
    assert forall|j: int| 0 <= j < 4 implies #[trigger] w[j] != ':' by {}
    text::lemma_index_of(w, ':', 4);
    assert(w.take(4) =~= "data"@);
    assert(w.skip(5)[0] == ' ');
    assert(w.skip(5).skip(1) =~= x);
    assert forall|j: int| 0 <= j < w.len() implies #[trigger] w[j] != '\n' by {
        if j >= 6 {
            assert(w[j] == x[j - 6]);
            assert(x.contains(x[j - 6]));
        } else if j == 5 {
            assert(w[5] == ' ');
        }
    }
}

/// A `data` line followed by an empty line is an event with that payload, whatever
/// comes behind it.
pub proof fn data_lines_are_payloads(x: Seq<char>, rest: Seq<char>)
    requires
        !x.contains('\n'),
        x.len() > 0,
        x.last() != '\r',
    ensures
        ({
            let st = sse::SseView { buf: Seq::empty(), data: Seq::empty() };
            let after = st.feed("data: "@ + x + seq!['\n'] + (seq!['\n'] + rest));
            &&& after.out == seq![x] + st.feed(rest).out
            &&& after.state == st.feed(rest).state
        }),
{
    let none = Seq::<Seq<char>>::empty();
    let st = sse::SseView { buf: Seq::empty(), data: none };
    let line = "data: "@ + x;
    let tail = seq!['\n'] + rest;
    lemma_data_line(x);
    assert(line.last() == x.last());
    let all = line + seq!['\n'] + tail;
    assert(Seq::<char>::empty() + all =~= all);
    assert(Seq::<char>::empty() + rest =~= rest);
    lemma_line_read(none, line, tail);
    let held = none.push(x);
    assert(sse::data_after(none, line) == held);
    assert(Seq::<char>::empty() + seq!['\n'] + rest =~= tail);
    lemma_line_read(held, Seq::empty(), rest);
    assert(held =~= seq![x]);
    assert(text::join(held, "\n"@) == x);
    assert(sse::completed_by(none, line) =~= Seq::<Seq<char>>::empty());
    assert(sse::completed_by(held, Seq::empty()) =~= seq![x]);
    let later = sse::sse_lines(none, rest);
    assert(Seq::<Seq<char>>::empty() + (seq![x] + later.out) =~= seq![x] + later.out);
}

/// Several `data` lines are one payload with line feeds between them, a comment or
/// another field adds nothing, and an empty line without data is no event.
pub proof fn data_lines_are_collected(data: Seq<Seq<char>>, x: Seq<char>, other: Seq<char>)
    requires
        !x.contains('\n'),
    ensures
        sse::data_after(data, "data: "@ + x) == data.push(x),
        sse::completed_by(data, "data: "@ + x).len() == 0,
        sse::completed_by(Seq::empty(), Seq::empty()).len() == 0,
        data.len() > 0 ==> sse::completed_by(data, Seq::empty()) == seq![
            text::join(data, seq!['\n']),
        ],
        sse::data_after(data, Seq::empty()).len() == 0,
        other.len() > 0 && other[0] != 'd' ==> sse::data_after(data, other) == data
            && sse::completed_by(data, other).len() == 0,
{
    reveal_strlit("\n");
    reveal_strlit("data");
    assert("\n"@ =~= seq!['\n']);
    lemma_data_line(x);
    if other.len() > 0 && other[0] != 'd' {
        text::lemma_index_of_is(other, ':');
        let k = text::index_of(other, ':');
        if other.take(k) == "data"@ {
            assert("data"@[0] == 'd');
            assert("data"@.len() == 4);
            assert(0 <= k <= other.len());
            assert(other.take(k)[0] == other[0]);
        }
    }
}

/// A line may end in a carriage return and a line feed.
pub proof fn carriage_returns_end_lines(data: Seq<Seq<char>>, line: Seq<char>, rest: Seq<char>)
    requires
        !line.contains('\n'),
        !line.contains('\r'),
    ensures
        sse::sse_lines(data, line + seq!['\r', '\n'] + rest) == sse::sse_lines(
            data,
            line + seq!['\n'] + rest,
        ),
{
    lemma_no_return(line);
    lemma_line_read(data, line, rest);
    let full = line + seq!['\r'];
    let s = line + seq!['\r', '\n'] + rest;
    assert(s =~= full + seq!['\n'] + rest);
    assert forall|j: int| 0 <= j < full.len() implies #[trigger] s[j] != '\n' by {
        if j < line.len() {
            assert(s[j] == line[j]);
            assert(line.contains(line[j]));
        }
    }
    assert(s[full.len() as int] == '\n');
    text::lemma_index_of(s, '\n', full.len() as int);
    assert(s.take(full.len() as int) =~= full);
    assert(s.skip((full.len() + 1) as int) =~= rest);
    assert(full.drop_last() =~= line);
    assert(sse::first_line(s) == line);
}

proof fn lemma_no_return(line: Seq<char>)
    requires
        !line.contains('\r'),
    ensures
        text::drop_back(line + seq!['\r'], '\r') == line,
        line.len() == 0 || line.last() != '\r',
{
    if line.len() > 0 {
        assert(line.contains(line.last()));
    }
    let w = line + seq!['\r'];
    assert(w.drop_last() =~= line);
    reveal_with_fuel(text::drop_back, 2);
}

/// The words for a reply that cannot be used tell what is wrong with it.
pub proof fn reply_errors_are_told(s: Seq<char>)
    ensures
        client::error_words(client::ReplyErrorView::NotJson(s)) == "decoding "@ + s + " response"@,
        s.len() <= 300 ==> client::error_words(client::ReplyErrorView::NoAttachmentId(s))
            == "DocsGPT did not return an attachment id: "@ + s,
        client::error_words(client::ReplyErrorView::NoText)
            == "speech recognition returned no text"@,
        client::error_words(client::ReplyErrorView::NoAudio) == "tts response has no audio"@,
        client::error_words(client::ReplyErrorView::BadAudio) == "decoding tts audio"@,
        util::truncated(s, 300).len() <= 300,
{
}

/// A stream's events come out in the order of its lines: a payload that is complete is an
/// event behind those that wait, and one that the end cuts short still is.
pub proof fn streams_become_events(r: client::ReaderView, x: Seq<char>, e: types::EventView)
    requires
        r.parser == (sse::SseView { buf: Seq::empty(), data: Seq::empty() }),
        !x.contains('\n'),
        x.len() > 0,
        x.last() != '\r',
        types::event_in(x) == Some(e),
    ensures
        r.chunk("data: "@ + x + seq!['\n'] + (seq!['\n'] + Seq::<char>::empty())).queue
            == r.queue.push(e),
        r.chunk("data: "@ + x + seq!['\n'] + (seq!['\n'] + Seq::<char>::empty())).done == r.done,
        r.chunk("data: "@ + x).queue == r.queue,
        r.end().done,
        r.end().queue == r.queue,
{
    let none = Seq::<char>::empty();
    let st = r.parser;
    data_lines_are_payloads(x, none);
    lemma_index_none(none);
    assert(st.feed(none).out =~= Seq::<Seq<char>>::empty());
    let out = seq![x] + Seq::<Seq<char>>::empty();
    assert(out =~= seq![x]);
    reveal_with_fuel(client::events_in, 2);
    assert(client::events_in(seq![x], 1) =~= seq![e]);
    assert(r.queue + seq![e] =~= r.queue.push(e));
    lemma_data_line(x);
    let line = "data: "@ + x;
    assert(none + line =~= line);
    lemma_index_none(line);
    assert(st.feed(line).out =~= Seq::<Seq<char>>::empty());
    assert(r.queue + Seq::<types::EventView>::empty() =~= r.queue);
}

proof fn lemma_index_none(s: Seq<char>)
    requires
        !s.contains('\n'),
    ensures
        text::index_of(s, '\n') == s.len(),
{
    assert forall|j: int| 0 <= j < s.len() implies #[trigger] s[j] != '\n' by {
        assert(s.contains(s[j]));
    }
    text::lemma_index_of(s, '\n', s.len() as int);
}

/// A percent sign with two hexadecimal digits behind it is the byte that they stand for,
/// in capitals or not; every other byte is itself.
pub proof fn percent_signs_are_worked_off(rest: Seq<u8>, b: u8, hi: u8, lo: u8)
    ensures
        b != 37 ==> client::percent_bytes(seq![b] + rest) == seq![b] + client::percent_bytes(rest),
        48 <= hi <= 57 && 48 <= lo <= 57 ==> client::percent_bytes(seq![37u8, hi, lo] + rest)
            == seq![((hi - 48) * 16 + (lo - 48)) as u8] + client::percent_bytes(rest),
        48 <= hi <= 57 && 65 <= lo <= 70 ==> client::percent_bytes(seq![37u8, hi, lo] + rest)
            == seq![((hi - 48) * 16 + (lo - 55)) as u8] + client::percent_bytes(rest),
        65 <= hi <= 70 && 97 <= lo <= 102 ==> client::percent_bytes(seq![37u8, hi, lo] + rest)
            == seq![((hi - 55) * 16 + (lo - 87)) as u8] + client::percent_bytes(rest),
        client::percent_bytes(Seq::empty()).len() == 0,
{
    assert((seq![b] + rest).skip(1) =~= rest);
    let w = seq![37u8, hi, lo] + rest;
    assert(w.skip(3) =~= rest);
    assert(w[1] == hi && w[2] == lo);
}

/// The body of a reply about a task is read as JSON, and what is no JSON tells nothing of
/// the task.
pub proof fn task_replies_are_read(body: String, v: json::JsonView, late: bool, pause: nat)
    ensures
        json::json_text(body@) == Some(v) && event_laws::says(v, "status"@, "SUCCESS"@)
            ==> client::step_for_reply(client::TaskReply::Body(body), late, pause)
            == client::TaskStepView::Proceed,
        json::json_text(body@) is None && !late ==> client::step_for_reply(
            client::TaskReply::Body(body),
            late,
            pause,
        ) == client::TaskStepView::Again(pause),
        json::json_text(body@) is None && late ==> client::step_for_reply(
            client::TaskReply::Body(body),
            late,
            pause,
        ) == client::TaskStepView::Proceed,
{
    reveal_strlit("SUCCESS");
    reveal_strlit("FAILURE");
    reveal_strlit("REVOKED");
    assert(client::upper("SUCCESS"@) =~= "SUCCESS"@);
    assert(client::upper(Seq::empty()).len() == 0);
}

} // verus!
