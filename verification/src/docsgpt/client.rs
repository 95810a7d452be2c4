//! Talking to DocsGPT: what is asked, and what the replies mean.

use crate::docsgpt::sse;
use crate::docsgpt::sse::SseParser;
use crate::docsgpt::types;
use crate::docsgpt::types::Event;
use crate::json;
use crate::json::Json;
use crate::text;
use crate::util;
use base64::Engine;
use vstd::prelude::*;

verus! {

/// The most bytes of a download.
pub const MAX_DOWNLOAD: usize = 52_428_800;

/// A DocsGPT server.
#[derive(Debug)]
pub struct DocsGpt {
    base: String,
}

impl DocsGpt {
    /// The base address, without a slash at its end.
    pub closed spec fn base_view(&self) -> Seq<char> {
        self.base@
    }

    /// A server, by its address.
    pub fn new(base: &str) -> (r: DocsGpt)
        ensures
            r.base_view() == text::drop_back(base@, '/'),
    {
        DocsGpt { base: text::dropped_back(base, '/') }
    }

    /// The base address.
    pub fn base(&self) -> (r: &str)
        ensures
            r@ == self.base_view(),
    {
        self.base.as_str()
    }

    /// The address of an endpoint.
    pub fn endpoint(&self, path: &str) -> (r: String)
        ensures
            r@ == self.base_view() + path@,
    {
        let mut r: String = self.base.as_str().to_string();
        r.append(path);
        r
    }

    /// The address that an artifact is downloaded from.
    pub fn artifact_url(&self, artifact_id: &str) -> (r: String)
        ensures
            r@ == self.base_view() + "/api/artifacts/"@ + artifact_id@ + "/download"@,
    {
        let mut r: String = self.base.as_str().to_string();
        r.append("/api/artifacts/");
        r.append(artifact_id);
        r.append("/download");
        r
    }
}

/// A question to an agent.
#[derive(Debug)]
pub struct StreamRequest {
    pub question: String,
    pub api_key: String,
    pub conversation_id: Option<String>,
    pub attachments: Vec<String>,
}

/// A text as a JSON value.
pub open spec fn json_str(s: Seq<char>) -> json::JsonView {
    json::JsonView::Str(s)
}

/// An optional text as a JSON value.
pub open spec fn json_opt(s: Option<Seq<char>>) -> json::JsonView {
    match s {
        Some(t) => json::JsonView::Str(t),
        None => json::JsonView::Null,
    }
}

/// The body of a question: the attachments only where there are any.
pub open spec fn question_body(
    question: Seq<char>,
    api_key: Seq<char>,
    conversation_id: Option<Seq<char>>,
    attachments: Seq<Seq<char>>,
) -> json::JsonView {
    let names = seq!["question"@, "api_key"@, "history"@, "conversation_id"@];
    let values = seq![
        json_str(question),
        json_str(api_key),
        json_str("[]"@),
        json_opt(conversation_id),
    ];
    if attachments.len() == 0 {
        json::JsonView::Object(names, values)
    } else {
        json::JsonView::Object(
            names.push("attachments"@),
            values.push(
                json::JsonView::Array(attachments.map_values(|a: Seq<char>| json_str(a))),
            ),
        )
    }
}

impl DocsGpt {
    /// The body of a question.
    pub fn body(req: &StreamRequest) -> (r: Json)
        ensures
            r@ == question_body(
                req.question@,
                req.api_key@,
                text::opt_view(req.conversation_id),
                text::views(req.attachments@),
            ),
    {
        let mut fields: Vec<(String, Json)> = Vec::new();
        let question = Json::Str(req.question.as_str().to_string());
        let api_key = Json::Str(req.api_key.as_str().to_string());
        let history = Json::Str("[]".to_string());
        let conversation_id = match &req.conversation_id {
            Some(c) => Json::Str(c.as_str().to_string()),
            None => Json::Null,
        };
        fields.push(("question".to_string(), question));
        fields.push(("api_key".to_string(), api_key));
        fields.push(("history".to_string(), history));
        fields.push(("conversation_id".to_string(), conversation_id));
        let ghost four = fields@;
        if req.attachments.len() > 0 {
            let ghost want = text::views(req.attachments@).map_values(|a: Seq<char>| json_str(a));
            let mut items: Vec<Json> = Vec::new();
            let mut i: usize = 0;
            while i < req.attachments.len()
                invariant
                    i <= req.attachments@.len(),
                    items@.len() == i,
                    forall|k: int|
                        0 <= k < i ==> (#[trigger] items@[k])@ == json_str(req.attachments@[k]@),
                decreases req.attachments@.len() - i,
            {
                items.push(Json::Str(req.attachments[i].as_str().to_string()));
                i = i + 1;
            }
            let list = Json::Array(items);
            assert(list@->Array_0 =~= want);
            fields.push(("attachments".to_string(), list));
        }
        let r = Json::Object(fields);
        proof {
            json::lemma_fields(fields);
            let want = question_body(
                req.question@,
                req.api_key@,
                text::opt_view(req.conversation_id),
                text::views(req.attachments@),
            );
            assert(r@->Object_0 =~= want->Object_0);
            assert(r@->Object_1 =~= want->Object_1);
        }
        r
    }

    /// The body of a request for speech.
    pub fn speech_body(text: &str) -> (r: Json)
        ensures
            r@ == json::JsonView::Object(seq!["text"@], seq![json_str(text@)]),
    {
        let mut fields: Vec<(String, Json)> = Vec::new();
        fields.push(("text".to_string(), Json::Str(text.to_string())));
        let r = Json::Object(fields);
        proof {
            json::lemma_fields(fields);
            assert(r@->Object_0 =~= seq!["text"@]);
            assert(r@->Object_1 =~= seq![json_str(text@)]);
        }
        r
    }
}

/// The message for a reply whose status is not a success.
pub open spec fn refusal(what: Seq<char>, status: Seq<char>, body: Seq<char>, max: nat) -> Seq<
    char,
> {
    what + " returned "@ + status + ": "@ + util::truncated(body, max)
}

/// Words a reply whose status is not a success.
pub fn refusal_message(what: &str, status: &str, body: &str, max: usize) -> (r: String)
    ensures
        r@ == refusal(what@, status@, body@, max as nat),
{
    let mut r: String = what.to_string();
    r.append(" returned ");
    r.append(status);
    r.append(": ");
    r.append(util::truncate_chars(body, max).as_str());
    r
}

/// The most characters of a reply that an error repeats.
pub const SHOWN_BODY: usize = 300;

/// The events of the payloads that are JSON, in order.
pub open spec fn events_in(payloads: Seq<Seq<char>>, n: nat) -> Seq<types::EventView>
    decreases n,
{
    if n == 0 {
        Seq::empty()
    } else {
        let before = events_in(payloads, (n - 1) as nat);
        match types::event_in(payloads[n - 1]) {
            Some(e) => before.push(e),
            None => before,
        }
    }
}

/// The values of a list of events.
pub open spec fn event_views(list: Seq<Event>) -> Seq<types::EventView> {
    list.map_values(|e: Event| e@)
}

/// A reader of one answer stream: the parser, the events not handed out yet,
/// and whether the stream has come to its end.
pub struct StreamReader {
    parser: SseParser,
    queue: Vec<Event>,
    done: bool,
}

/// A reader as mathematical values.
pub ghost struct ReaderView {
    pub parser: sse::SseView,
    pub queue: Seq<types::EventView>,
    pub done: bool,
}

impl View for StreamReader {
    type V = ReaderView;

    closed spec fn view(&self) -> ReaderView {
        ReaderView { parser: self.parser@, queue: event_views(self.queue@), done: self.done }
    }
}

/// What the reader of a stream wants next.
#[derive(Debug)]
pub enum ReadStep {
    /// An event to hand out.
    Event(Event),
    /// Another chunk of the stream.
    Read,
    /// Nothing: the stream is over.
    Over,
}

impl ReaderView {
    /// A chunk arrives.
    pub open spec fn chunk(self, s: Seq<char>) -> ReaderView {
        let run = self.parser.feed(s);
        ReaderView {
            parser: run.state,
            queue: self.queue + events_in(run.out, run.out.len()),
            ..self
        }
    }

    /// The stream ends.
    pub open spec fn end(self) -> ReaderView {
        ReaderView {
            parser: sse::SseView { buf: Seq::empty(), data: Seq::empty() },
            queue: match self.parser.finish() {
                Some(data) => match types::event_in(data) {
                    Some(e) => self.queue.push(e),
                    None => self.queue,
                },
                None => self.queue,
            },
            done: true,
        }
    }
}

impl StreamReader {
    /// A reader at the start of its stream.
    pub fn new() -> (r: StreamReader)
        ensures
            r@ == (ReaderView {
                parser: sse::SseView { buf: Seq::empty(), data: Seq::empty() },
                queue: Seq::empty(),
                done: false,
            }),
    {
        let r = StreamReader { parser: SseParser::default(), queue: Vec::new(), done: false };
        assert(event_views(r.queue@) =~= Seq::<types::EventView>::empty());
        r
    }

    /// Hands out the oldest event, or says how to go on.
    pub fn next(&mut self) -> (r: ReadStep)
        ensures
            old(self)@.queue.len() > 0 ==> (r matches ReadStep::Event(e) && e@
                == old(self)@.queue[0] && final(self)@ == (ReaderView {
                queue: old(self)@.queue.skip(1),
                ..old(self)@
            })),
            old(self)@.queue.len() == 0 ==> final(self)@ == old(self)@ && (if old(self)@.done {
                r is Over
            } else {
                r is Read
            }),
    {
        if self.queue.len() > 0 {
            let ghost before = self.queue@;
            let e = self.queue.remove(0);
            assert(event_views(self.queue@) =~= event_views(before).skip(1));
            ReadStep::Event(e)
        } else if self.done {
            ReadStep::Over
        } else {
            ReadStep::Read
        }
    }

    /// Takes a chunk of the stream.
    pub fn on_chunk(&mut self, chunk: &[u8])
        ensures
            final(self)@ == old(self)@.chunk(sse::text_in(chunk@)),
            vstd::utf8::valid_utf8(chunk@) ==> final(self)@ == old(self)@.chunk(
                vstd::utf8::decode_utf8(chunk@),
            ),
    {
        let payloads = self.parser.push(chunk);
        let ghost vs = text::views(payloads@);
        let ghost start = event_views(self.queue@);
        let ghost state = self.parser@;
        let ghost done = self.done;
        let mut i: usize = 0;
        assert(start + events_in(vs, 0) =~= start);
        while i < payloads.len()
            invariant
                i <= payloads@.len(),
                vs == text::views(payloads@),
                self.parser@ == state,
                self.done == done,
                event_views(self.queue@) == start + events_in(vs, i as nat),
            decreases payloads@.len() - i,
        {
            match Event::parse(payloads[i].as_str()) {
                Some(e) => {
                    proof {
                        assert(event_views(self.queue@.push(e)) =~= event_views(self.queue@).push(
                            e@,
                        ));
                        assert(start + events_in(vs, i as nat).push(e@) =~= (start + events_in(
                            vs,
                            i as nat,
                        )).push(e@));
                    }
                    self.queue.push(e);
                },
                None => {},
            }
            i = i + 1;
        }
    }

    /// Takes note that the stream broke; nothing is read after that.
    pub fn on_error(&mut self)
        ensures
            final(self)@ == (ReaderView { done: true, ..old(self)@ }),
    {
        self.done = true;
    }

    /// Takes note of the stream's end.
    pub fn on_end(&mut self)
        ensures
            final(self)@ == old(self)@.end(),
    {
        self.done = true;
        match self.parser.finish() {
            Some(data) => {
                match Event::parse(data.as_str()) {
                    Some(e) => {
                        assert(event_views(self.queue@.push(e)) =~= event_views(self.queue@).push(
                            e@,
                        ));
                        self.queue.push(e);
                    },
                    None => {},
                }
            },
            None => {},
        }
    }
}

/// An uploaded file.
#[derive(Debug)]
pub struct StoredAttachment {
    pub attachment_id: String,
    pub task_id: Option<String>,
}

/// An uploaded file as mathematical values.
pub ghost struct StoredView {
    pub attachment_id: Seq<char>,
    pub task_id: Option<Seq<char>>,
}

impl View for StoredAttachment {
    type V = StoredView;

    open spec fn view(&self) -> StoredView {
        StoredView { attachment_id: self.attachment_id@, task_id: text::opt_view(self.task_id) }
    }
}

/// An answer that came in one piece.
#[derive(Debug)]
pub struct AnswerResponse {
    pub answer: String,
    pub conversation_id: Option<String>,
}

/// What an upload's reply names: at its top where it does so, else in the first
/// of its tasks.
pub open spec fn stored_in(v: json::JsonView) -> StoredView {
    let id = types::text_member(types::member(v, "attachment_id"@, 0));
    let task = types::optional_member(types::member(v, "task_id"@, 1));
    let top = if types::is_record(v, 2) && id is Some && task is Some {
        StoredView { attachment_id: id->0, task_id: task->0 }
    } else {
        StoredView { attachment_id: Seq::empty(), task_id: None }
    };
    let tasks = types::items_or_none(json::field(v, "tasks"@));
    if top.attachment_id.len() == 0 && tasks.len() > 0 {
        StoredView {
            attachment_id: json::str_field(tasks[0], "attachment_id"@),
            task_id: json::str_of(json::field(tasks[0], "task_id"@)),
        }
    } else {
        top
    }
}

/// Why a reply is of no use.
#[derive(Debug, PartialEq, Eq)]
pub enum ReplyError {
    /// It is not JSON; the text says what was being decoded.
    NotJson(String),
    /// It names no attachment.
    NoAttachmentId(String),
    /// It holds no words.
    NoText,
    /// It holds no audio.
    NoAudio,
    /// Its audio cannot be decoded.
    BadAudio,
}

/// A reply error as mathematical values.
pub ghost enum ReplyErrorView {
    NotJson(Seq<char>),
    NoAttachmentId(Seq<char>),
    NoText,
    NoAudio,
    BadAudio,
}

impl View for ReplyError {
    type V = ReplyErrorView;

    open spec fn view(&self) -> ReplyErrorView {
        match self {
            ReplyError::NotJson(s) => ReplyErrorView::NotJson(s@),
            ReplyError::NoAttachmentId(s) => ReplyErrorView::NoAttachmentId(s@),
            ReplyError::NoText => ReplyErrorView::NoText,
            ReplyError::NoAudio => ReplyErrorView::NoAudio,
            ReplyError::BadAudio => ReplyErrorView::BadAudio,
        }
    }
}

/// The words for a reply error.
pub open spec fn error_words(e: ReplyErrorView) -> Seq<char> {
    match e {
        ReplyErrorView::NotJson(what) => "decoding "@ + what + " response"@,
        ReplyErrorView::NoAttachmentId(body) => "DocsGPT did not return an attachment id: "@
            + util::truncated(body, SHOWN_BODY as nat),
        ReplyErrorView::NoText => "speech recognition returned no text"@,
        ReplyErrorView::NoAudio => "tts response has no audio"@,
        ReplyErrorView::BadAudio => "decoding tts audio"@,
    }
}

impl ReplyError {
    /// The error in words.
    pub fn message(&self) -> (r: String)
        ensures
            r@ == error_words(self@),
    {
        match self {
            ReplyError::NotJson(what) => {
                let mut r: String = "decoding ".to_string();
                r.append(what.as_str());
                r.append(" response");
                r
            },
            ReplyError::NoAttachmentId(body) => {
                let mut r: String = "DocsGPT did not return an attachment id: ".to_string();
                r.append(util::truncate_chars(body.as_str(), SHOWN_BODY).as_str());
                r
            },
            ReplyError::NoText => "speech recognition returned no text".to_string(),
            ReplyError::NoAudio => "tts response has no audio".to_string(),
            ReplyError::BadAudio => "decoding tts audio".to_string(),
        }
    }
}

/// Reads what an upload's reply names.
pub fn read_stored(v: &Json) -> (r: StoredAttachment)
    ensures
        r@ == stored_in(v@),
{
    let record = types::record_of(v, 2);
    let id = types::read_text(types::get_member(v, "attachment_id", 0));
    let task = types::read_optional(types::get_member(v, "task_id", 1));
    let mut stored = match (record, id, task) {
        (true, Some(attachment_id), Some(task_id)) => StoredAttachment { attachment_id, task_id },
        _ => StoredAttachment { attachment_id: String::new(), task_id: None },
    };
    assert(stored.attachment_id@.len() == 0 ==> stored.attachment_id@ =~= Seq::<char>::empty());
    if text::char_count(stored.attachment_id.as_str()) == 0 {
        match v.items_at("tasks") {
            Some(tasks) => {
                if tasks.len() > 0 {
                    stored = StoredAttachment {
                        attachment_id: match tasks[0].text_of("attachment_id") {
                            Some(s) => s,
                            None => String::new(),
                        },
                        task_id: tasks[0].text_of("task_id"),
                    };
                }
            },
            None => {},
        }
    }
    stored
}

/// What an upload's reply comes to.
pub open spec fn stored_reply(body: Seq<char>, v: Option<json::JsonView>) -> Result<
    StoredView,
    ReplyErrorView,
> {
    match v {
        None => Err(ReplyErrorView::NotJson("store_attachment"@)),
        Some(v) => if stored_in(v).attachment_id.len() == 0 {
            Err(ReplyErrorView::NoAttachmentId(body))
        } else {
            Ok(stored_in(v))
        },
    }
}

/// Reads an upload's reply.
pub fn stored_attachment(body: &str) -> (r: Result<StoredAttachment, ReplyError>)
    ensures
        (match r {
            Ok(s) => Ok(s@),
            Err(e) => Err(e@),
        }) == stored_reply(body@, json::json_text(body@)),
{
    match json::parse_json(body) {
        None => Err(ReplyError::NotJson("store_attachment".to_string())),
        Some(v) => {
            let stored = read_stored(&v);
            if text::char_count(stored.attachment_id.as_str()) == 0 {
                Err(ReplyError::NoAttachmentId(body.to_string()))
            } else {
                Ok(stored)
            }
        },
    }
}

/// What a transcription's reply comes to.
pub open spec fn transcript_reply(v: Option<json::JsonView>) -> Result<Seq<char>, ReplyErrorView> {
    match v {
        None => Err(ReplyErrorView::NotJson("/api/stt"@)),
        Some(v) => if text::blank(json::str_field(v, "text"@)) {
            Err(ReplyErrorView::NoText)
        } else {
            Ok(text::trim(json::str_field(v, "text"@)))
        },
    }
}

/// Reads a transcription's reply.
pub fn transcript(body: &str) -> (r: Result<String, ReplyError>)
    ensures
        (match r {
            Ok(s) => Ok(s@),
            Err(e) => Err(e@),
        }) == transcript_reply(json::json_text(body@)),
{
    match json::parse_json(body) {
        None => Err(ReplyError::NotJson("/api/stt".to_string())),
        Some(v) => {
            let words: String = match v.text_of("text") {
                Some(s) => s,
                None => String::new(),
            };
            if text::is_blank(words.as_str()) {
                Err(ReplyError::NoText)
            } else {
                Ok(text::trimmed(words.as_str()))
            }
        },
    }
}

/// The bytes that a base64 text encodes; none where it is not base64.
pub uninterp spec fn base64_bytes(s: Seq<char>) -> Option<Seq<u8>>;

/// `base64::Engine::decode` of the standard alphabet with padding.
#[verifier::external_body]
fn decode_base64(s: &str) -> (r: Option<Vec<u8>>)
    ensures
        (match r {
            Some(v) => Some(v@),
            None => None,
        }) == base64_bytes(s@),
{
    base64::engine::general_purpose::STANDARD.decode(s).ok()
}

/// The text that a speech reply holds its audio in.
pub open spec fn audio_text(v: Option<json::JsonView>) -> Result<Seq<char>, ReplyErrorView> {
    match v {
        None => Err(ReplyErrorView::NotJson("/api/tts"@)),
        Some(v) => match json::str_of(json::field(v, "audio_base64"@)) {
            Some(s) => Ok(s),
            None => Err(ReplyErrorView::NoAudio),
        },
    }
}

/// Finds the audio in a speech reply, still encoded.
pub fn encoded_audio(v: Option<&Json>) -> (r: Result<String, ReplyError>)
    ensures
        (match r {
            Ok(s) => Ok(s@),
            Err(e) => Err(e@),
        }) == audio_text(json::ref_view(v)),
{
    match v {
        None => Err(ReplyError::NotJson("/api/tts".to_string())),
        Some(v) => match v.text_of("audio_base64") {
            Some(s) => Ok(s),
            None => Err(ReplyError::NoAudio),
        },
    }
}

/// What a speech reply comes to.
pub open spec fn audio_reply(v: Option<json::JsonView>) -> Result<Seq<u8>, ReplyErrorView> {
    match audio_text(v) {
        Err(e) => Err(e),
        Ok(s) => match base64_bytes(s) {
            Some(bytes) => Ok(bytes),
            None => Err(ReplyErrorView::BadAudio),
        },
    }
}

/// Reads the audio out of a speech reply.
pub fn audio(body: &str) -> (r: Result<Vec<u8>, ReplyError>)
    ensures
        (match r {
            Ok(b) => Ok(b@),
            Err(e) => Err(e@),
        }) == audio_reply(json::json_text(body@)),
{
    let v = json::parse_json(body);
    let encoded = match &v {
        Some(j) => encoded_audio(Some(j)),
        None => encoded_audio(None),
    };
    match encoded {
        Err(e) => Err(e),
        Ok(s) => match decode_base64(s.as_str()) {
            Some(bytes) => Ok(bytes),
            None => Err(ReplyError::BadAudio),
        },
    }
}

/// The text without the double quotes at its ends.
pub open spec fn unquoted(s: Seq<char>) -> Seq<char> {
    text::drop_back(text::drop_front(s, '"'), '"')
}

/// What follows the last `p`, or the whole text where there is none.
pub open spec fn after_last(s: Seq<char>, p: Seq<char>) -> Seq<char>
    decreases s.len(),
{
    match text::find(s, p) {
        Some(i) => if p.len() > 0 && 0 <= i && i + 1 <= s.len() && text::has(s.skip(i + 1), p) {
            after_last(s.skip(i + 1), p)
        } else {
            s.skip(i + p.len())
        },
        None => s,
    }
}

/// The value of a hexadecimal digit.
pub open spec fn hex_value(b: u8) -> Option<int> {
    if 48 <= b <= 57 {
        Some(b - 48)
    } else if 65 <= b <= 70 {
        Some(b - 55)
    } else if 97 <= b <= 102 {
        Some(b - 87)
    } else {
        None
    }
}

/// The byte that stands behind a percent sign: two hexadecimal digits, or a
/// plus and one.
pub open spec fn hex_pair(a: u8, b: u8) -> Option<u8> {
    match (hex_value(a), hex_value(b)) {
        (Some(x), Some(y)) => Some((x * 16 + y) as u8),
        (None, Some(y)) => if a == 43 {
            Some(y as u8)
        } else {
            None
        },
        _ => None,
    }
}

/// Bytes with their percent signs worked off.
pub open spec fn percent_bytes(b: Seq<u8>) -> Seq<u8>
    decreases b.len(),
{
    if b.len() == 0 {
        Seq::empty()
    } else if b[0] == 37 && b.len() > 2 && hex_pair(b[1], b[2]) is Some {
        seq![hex_pair(b[1], b[2])->0] + percent_bytes(b.skip(3))
    } else {
        seq![b[0]] + percent_bytes(b.skip(1))
    }
}

fn hex_digit(b: u8) -> (r: Option<u8>)
    ensures
        (match r {
            Some(v) => Some(v as int),
            None => None,
        }) == hex_value(b),
        r matches Some(v) ==> v < 16,
{
    if 48 <= b && b <= 57 {
        Some(b - 48)
    } else if 65 <= b && b <= 70 {
        Some(b - 55)
    } else if 97 <= b && b <= 102 {
        Some(b - 87)
    } else {
        None
    }
}

fn read_hex_pair(a: u8, b: u8) -> (r: Option<u8>)
    ensures
        r == hex_pair(a, b),
{
    match (hex_digit(a), hex_digit(b)) {
        (Some(x), Some(y)) => Some(x * 16 + y),
        (None, Some(y)) => if a == 43 {
            Some(y)
        } else {
            None
        },
        _ => None,
    }
}

/// Works off the percent signs of a text's bytes.
pub fn percent_decoded_bytes(s: &str) -> (out: Vec<u8>)
    ensures
        out@ == percent_bytes(vstd::utf8::encode_utf8(s@)),
{
    let bytes = s.as_bytes();
    let mut out: Vec<u8> = Vec::new();
    let mut i: usize = 0;
    assert(bytes@.skip(0) =~= bytes@);
    while i < bytes.len()
        invariant
            i <= bytes@.len(),
            bytes@ == vstd::utf8::encode_utf8(s@),
            out@ + percent_bytes(bytes@.skip(i as int)) == percent_bytes(bytes@),
        decreases bytes@.len() - i,
    {
        let ghost rest = bytes@.skip(i as int);
        let left: usize = bytes.len() - i;
        let pair: Option<u8> = if bytes[i] == 37 && left > 2 {
            read_hex_pair(bytes[i + 1], bytes[i + 2])
        } else {
            None
        };
        match pair {
            Some(v) => {
                proof {
                    assert(rest.skip(3) =~= bytes@.skip(i + 3));
                    assert(out@ + (seq![v] + percent_bytes(rest.skip(3))) =~= out@.push(v)
                        + percent_bytes(rest.skip(3)));
                }
                out.push(v);
                i = i + 3;
            },
            None => {
                let b = bytes[i];
                proof {
                    assert(rest.skip(1) =~= bytes@.skip(i + 1));
                    assert(out@ + (seq![b] + percent_bytes(rest.skip(1))) =~= out@.push(b)
                        + percent_bytes(rest.skip(1)));
                }
                out.push(b);
                i = i + 1;
            },
        }
    }
    assert(out@ + Seq::<u8>::empty() =~= out@);
    out
}

/// The text that percent signs encode.
pub open spec fn percent_text(s: Seq<char>) -> Seq<char> {
    sse::text_in(percent_bytes(vstd::utf8::encode_utf8(s)))
}

fn percent_decode(s: &str) -> (r: String)
    ensures
        r@ == percent_text(s@),
{
    let bytes = percent_decoded_bytes(s);
    sse::lossy_text(bytes.as_slice())
}

/// The file name in one part of a `Content-Disposition` header; an extended one
/// is still encoded.
pub open spec fn part_name(part: Seq<char>) -> Option<(bool, Seq<char>)> {
    let t = text::trim(part);
    if "filename*="@.is_prefix_of(t) {
        Some((true, after_last(unquoted(t.skip(10)), "''"@)))
    } else if "filename="@.is_prefix_of(t) {
        Some((false, unquoted(t.skip(9))))
    } else {
        None
    }
}

/// The first file name among the parts of a header.
pub open spec fn first_name(parts: Seq<Seq<char>>) -> Option<(bool, Seq<char>)>
    decreases parts.len(),
{
    if parts.len() == 0 {
        None
    } else {
        match part_name(parts[0]) {
            Some(n) => Some(n),
            None => first_name(parts.skip(1)),
        }
    }
}

/// The file name that a `Content-Disposition` header gives.
pub open spec fn disposition_name(header: Seq<char>) -> Option<Seq<char>> {
    match first_name(text::split_on(header, ';')) {
        Some((encoded, name)) => Some(
            if encoded {
                percent_text(name)
            } else {
                name
            },
        ),
        None => None,
    }
}

/// The bytes of the encoded file name that a `Content-Disposition` header gives, where
/// the name it gives is an encoded one.
pub open spec fn encoded_name(header: Seq<char>) -> Option<Seq<u8>> {
    match first_name(text::split_on(header, ';')) {
        Some((true, name)) => Some(percent_bytes(vstd::utf8::encode_utf8(name))),
        _ => None,
    }
}

fn without_quotes(s: &str) -> (r: String)
    ensures
        r@ == unquoted(s@),
{
    let front = text::dropped_front(s, '"');
    text::dropped_back(front.as_str(), '"')
}

fn tail_after(s: &str, p: &str) -> (r: String)
    requires
        p@.len() > 0,
    ensures
        r@ == after_last(s@, p@),
{
    let v = text::chars_of(s);
    let q = text::chars_of(p);
    let mut from: usize = 0;
    assert(v@.skip(0) =~= v@);
    loop
        invariant
            v@ == s@,
            q@ == p@,
            p@.len() > 0,
            from <= v@.len(),
            after_last(s@, p@) == after_last(v@.skip(from as int), p@),
        decreases v@.len() - from,
    {
        let ghost rest = v@.skip(from as int);
        match text::find_from(&v, from, &q) {
            Some(i) => {
                assert(i + q.len() <= v.len());
                assert(rest.skip(i - from + 1) =~= v@.skip(i + 1));
                match text::find_from(&v, i + 1, &q) {
                    Some(_) => {
                        from = i + 1;
                    },
                    None => {
                        let r = text::string_between(&v, i + q.len(), v.len());
                        assert(r@ =~= rest.skip(i - from + q@.len()));
                        return r;
                    },
                }
            },
            None => {
                let r = text::string_between(&v, from, v.len());
                assert(r@ =~= rest);
                return r;
            },
        }
    }
}

/// Finds the file name in one part of a header.
fn read_part(part: &str) -> (r: Option<(bool, String)>)
    ensures
        (match r {
            Some(p) => Some((p.0, p.1@)),
            None => None,
        }) == part_name(part@),
{
    proof {
        reveal_strlit("filename*=");
        reveal_strlit("filename=");
        reveal_strlit("''");
    }
    let t = text::trimmed(part);
    if text::starts_with(t.as_str(), "filename*=") {
        let v = text::skip_chars(t.as_str(), 10);
        let v = without_quotes(v.as_str());
        Some((true, tail_after(v.as_str(), "''")))
    } else if text::starts_with(t.as_str(), "filename=") {
        let v = text::skip_chars(t.as_str(), 9);
        Some((false, without_quotes(v.as_str())))
    } else {
        None
    }
}

/// The file name that a `Content-Disposition` header gives.
pub fn parse_content_disposition_filename(header: &str) -> (r: Option<String>)
    ensures
        text::opt_view(r) == disposition_name(header@),
        encoded_name(header@) matches Some(bytes) ==> vstd::utf8::valid_utf8(bytes)
            ==> text::opt_view(r) == Some(vstd::utf8::decode_utf8(bytes)),
{
    let parts = text::split(header, ';');
    let ghost vs = text::views(parts@);
    let mut i: usize = 0;
    assert(vs.skip(0) =~= vs);
    while i < parts.len()
        invariant
            i <= parts@.len(),
            vs == text::views(parts@),
            vs == text::split_on(header@, ';'),
            first_name(vs) == first_name(vs.skip(i as int)),
        decreases parts@.len() - i,
    {
        assert(vs.skip(i as int)[0] == parts@[i as int]@);
        match read_part(parts[i].as_str()) {
            Some((encoded, name)) => {
                return Some(
                    if encoded {
                        percent_decode(name.as_str())
                    } else {
                        name
                    },
                );
            },
            None => {},
        }
        assert(vs.skip(i as int).skip(1) =~= vs.skip(i + 1));
        i = i + 1;
    }
    None
}

/// A header that gives an encoded file name gives the text that was encoded.
pub proof fn encoded_names_are_read(header: Seq<char>, t: Seq<char>)
    requires
        encoded_name(header) == Some(vstd::utf8::encode_utf8(t)),
    ensures
        disposition_name(header) == Some(t),
{
    sse::encoded_text_is_read(t);
}

/// The name under which a download is kept: the header's, or failing that the hint.
pub open spec fn download_name(header: Option<Seq<char>>, hint: Seq<char>) -> Seq<char> {
    match header {
        Some(h) => match disposition_name(h) {
            Some(n) => n,
            None => hint,
        },
        None => hint,
    }
}

/// Names a download.
pub fn name_download(header: Option<String>, hint: &str) -> (r: String)
    ensures
        r@ == download_name(text::opt_view(header), hint@),
        header matches Some(h) ==> (encoded_name(h@) matches Some(bytes)
            ==> vstd::utf8::valid_utf8(bytes) ==> r@ == vstd::utf8::decode_utf8(bytes)),
{
    match header {
        Some(h) => match parse_content_disposition_filename(h.as_str()) {
            Some(n) => n,
            None => hint.to_string(),
        },
        None => hint.to_string(),
    }
}

/// A media type without its parameters.
pub open spec fn media_type(content_type: Seq<char>) -> Seq<char> {
    text::trim(content_type.take(text::index_of(content_type, ';')))
}

/// Reads a `Content-Type` header.
pub fn read_media_type(content_type: &str) -> (r: String)
    ensures
        r@ == media_type(content_type@),
{
    let v = text::chars_of(content_type);
    let i = text::position(&v, 0, ';');
    assert(v@.skip(0) =~= v@);
    let t = text::string_between(&v, 0, i);
    assert(t@ =~= content_type@.take(i as int));
    text::trimmed(t.as_str())
}

/// The last segment of an address, without its query.
pub open spec fn url_name(url: Seq<char>) -> Seq<char> {
    let last = url.skip(text::last_index_of(url, '/') + 1);
    last.take(text::index_of(last, '?'))
}

/// Names what an address leads to.
pub fn name_from_url(url: &str) -> (r: String)
    ensures
        r@ == url_name(url@),
{
    let last: String = match text::rsplit_once(url, '/') {
        Some((_, b)) => b,
        None => url.to_string(),
    };
    proof {
        lemma_no_slash(url@);
        assert(url@.skip(0) =~= url@);
    }
    let v = text::chars_of(last.as_str());
    let i = text::position(&v, 0, '?');
    assert(v@.skip(0) =~= v@);
    let r = text::string_between(&v, 0, i);
    assert(r@ =~= last@.take(i as int));
    r
}

proof fn lemma_no_slash(s: Seq<char>)
    ensures
        -1 <= text::last_index_of(s, '/') < s.len(),
    decreases s.len(),
{
    if s.len() > 0 {
        lemma_no_slash(s.drop_last());
    }
}

/// Whether a chunk still fits a download that has `have` bytes.
pub fn chunk_fits(have: usize, chunk: usize) -> (r: bool)
    ensures
        r == (have + chunk <= MAX_DOWNLOAD),
{
    have <= MAX_DOWNLOAD && chunk <= MAX_DOWNLOAD - have
}

/// The words for a download that is too large.
pub fn too_large_message() -> (r: String)
    ensures
        r@ == "download exceeds 50 MB"@,
{
    "download exceeds 50 MB".to_string()
}

/// How the status of a processing task was answered.
#[derive(Debug)]
pub enum TaskReply {
    /// With a success, and this body.
    Body(String),
    /// With another status.
    Refused,
    /// Not at all.
    Failed,
}

/// What to do about a processing task.
#[derive(Debug)]
pub enum TaskStep {
    /// Go on with the answer.
    Proceed,
    /// Wait two seconds, then go on with the answer.
    PauseThenProceed,
    /// Give up, for this reason.
    Fail(String),
    /// Ask again after so many nanoseconds.
    Again(u64),
}

/// A task step as mathematical values.
pub ghost enum TaskStepView {
    Proceed,
    PauseThenProceed,
    Fail(Seq<char>),
    Again(nat),
}

impl View for TaskStep {
    type V = TaskStepView;

    open spec fn view(&self) -> TaskStepView {
        match self {
            TaskStep::Proceed => TaskStepView::Proceed,
            TaskStep::PauseThenProceed => TaskStepView::PauseThenProceed,
            TaskStep::Fail(s) => TaskStepView::Fail(s@),
            TaskStep::Again(n) => TaskStepView::Again(*n as nat),
        }
    }
}

/// The pause before the second question about a task, in nanoseconds.
pub const FIRST_PAUSE: u64 = 700_000_000;

/// The longest pause between questions about a task, in nanoseconds.
pub const LONGEST_PAUSE: u64 = 3_000_000_000;

/// The pause after a pause: half as long again, up to the longest.
pub open spec fn pause_after(pause: nat) -> nat {
    if pause * 3 / 2 < LONGEST_PAUSE {
        pause * 3 / 2
    } else {
        LONGEST_PAUSE as nat
    }
}

/// Lengthens a pause.
pub fn next_pause(pause: u64) -> (r: u64)
    ensures
        r == pause_after(pause as nat),
{
    let wide: u128 = (pause as u128) * 3 / 2;
    if wide < LONGEST_PAUSE as u128 {
        wide as u64
    } else {
        LONGEST_PAUSE
    }
}

/// An ASCII small letter as its capital.
pub open spec fn upper_char(c: char) -> char {
    if 'a' <= c && c <= 'z' {
        ((c as u8) - 32) as char
    } else {
        c
    }
}

/// The text with its ASCII small letters made capitals.
pub open spec fn upper(s: Seq<char>) -> Seq<char> {
    s.map_values(|c: char| upper_char(c))
}

fn uppered(s: &str) -> (r: String)
    ensures
        r@ == upper(s@),
{
    let v = text::chars_of(s);
    let mut r: String = String::new();
    let mut i: usize = 0;
    while i < v.len()
        invariant
            v@ == s@,
            i <= v@.len(),
            r@ == upper(v@.take(i as int)),
        decreases v@.len() - i,
    {
        let c = v[i];
        r.push(
            if 'a' <= c && c <= 'z' {
                ((c as u8) - 32) as char
            } else {
                c
            },
        );
        assert(r@ =~= upper(v@.take(i + 1)));
        i = i + 1;
    }
    assert(v@.take(i as int) =~= s@);
    r
}

/// What a task's status in the reply `v` asks for; `printed` is the reply as it
/// prints, `late` whether the wait has lasted long enough.
pub open spec fn task_step(
    v: json::JsonView,
    printed: Seq<char>,
    late: bool,
    pause: nat,
) -> TaskStepView {
    let status = upper(json::str_field(v, "status"@));
    if status == "SUCCESS"@ {
        TaskStepView::Proceed
    } else if status == "FAILURE"@ || status == "REVOKED"@ {
        TaskStepView::Fail("attachment processing failed: "@ + util::truncated(printed, 200))
    } else if late {
        TaskStepView::Proceed
    } else {
        TaskStepView::Again(pause)
    }
}

/// Decides on a task by its status.
pub fn step_for_status(v: &Json, printed: &str, late: bool, pause: u64) -> (r: TaskStep)
    ensures
        r@ == task_step(v@, printed@, late, pause as nat),
{
    let status: String = match v.text_of("status") {
        Some(s) => s,
        None => String::new(),
    };
    let status = uppered(status.as_str());
    if text::same(status.as_str(), "SUCCESS") {
        TaskStep::Proceed
    } else if text::same(status.as_str(), "FAILURE") || text::same(status.as_str(), "REVOKED") {
        let mut why: String = "attachment processing failed: ".to_string();
        why.append(util::truncate_chars(printed, 200).as_str());
        TaskStep::Fail(why)
    } else if late {
        TaskStep::Proceed
    } else {
        TaskStep::Again(pause)
    }
}

/// What the reply to a question about a task asks for.
pub open spec fn step_for_reply(reply: TaskReply, late: bool, pause: nat) -> TaskStepView {
    match reply {
        TaskReply::Body(body) => match json::json_text(body@) {
            Some(v) => task_step(
                v,
                match json::printed_text(body@) {
                    Some(p) => p,
                    None => Seq::empty(),
                },
                late,
                pause,
            ),
            None => task_step(json::JsonView::Null, "null"@, late, pause),
        },
        TaskReply::Refused => TaskStepView::PauseThenProceed,
        TaskReply::Failed => TaskStepView::Proceed,
    }
}

/// Decides on a task by the reply to a question about it.
pub fn on_task_reply(reply: TaskReply, late: bool, pause: u64) -> (r: TaskStep)
    ensures
        r@ == step_for_reply(reply, late, pause as nat),
{
    match reply {
        TaskReply::Body(body) => match json::parse_json(body.as_str()) {
            Some(v) => {
                let printed: String = match json::print_text(body.as_str()) {
                    Some(p) => p,
                    None => String::new(),
                };
                step_for_status(&v, printed.as_str(), late, pause)
            },
            None => step_for_status(&Json::Null, "null", late, pause),
        },
        TaskReply::Refused => TaskStep::PauseThenProceed,
        TaskReply::Failed => TaskStep::Proceed,
    }
}

/// Pauses between questions never shrink, and never exceed the longest.
pub proof fn pauses_grow(pause: nat)
    requires
        pause <= LONGEST_PAUSE,
    ensures
        pause <= pause_after(pause) <= LONGEST_PAUSE,
{
}

}
