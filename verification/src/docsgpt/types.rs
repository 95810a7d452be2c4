//! What DocsGPT streams: events, sources, tool calls and what tools produce.

use crate::json;
use crate::json::Json;
use crate::text;
use crate::util;
use vstd::prelude::*;

verus! {

/// A document that an answer rests on.
#[derive(Debug, PartialEq, Eq)]
pub struct Source {
    pub title: String,
    pub url: Option<String>,
}

/// A source as mathematical values.
pub ghost struct SourceView {
    pub title: Seq<char>,
    pub url: Option<Seq<char>>,
}

impl View for Source {
    type V = SourceView;

    open spec fn view(&self) -> SourceView {
        SourceView { title: self.title@, url: text::opt_view(self.url) }
    }
}

/// The values of a list of sources.
pub open spec fn source_views(list: Seq<Source>) -> Seq<SourceView> {
    list.map_values(|s: Source| s@)
}

/// A file that a tool made, ready to be fetched.
#[derive(Debug, PartialEq, Eq)]
pub struct ArtifactRef {
    pub id: String,
    pub filename: String,
    pub mime_type: Option<String>,
}

/// A file as a tool call lists it.
#[derive(Debug, PartialEq, Eq)]
pub struct RawArtifact {
    pub id: String,
    pub filename: String,
    pub mime_type: Option<String>,
}

/// A file as mathematical values.
pub ghost struct ArtifactView {
    pub id: Seq<char>,
    pub filename: Seq<char>,
    pub mime_type: Option<Seq<char>>,
}

impl View for ArtifactRef {
    type V = ArtifactView;

    open spec fn view(&self) -> ArtifactView {
        ArtifactView {
            id: self.id@,
            filename: self.filename@,
            mime_type: text::opt_view(self.mime_type),
        }
    }
}

impl View for RawArtifact {
    type V = ArtifactView;

    open spec fn view(&self) -> ArtifactView {
        ArtifactView {
            id: self.id@,
            filename: self.filename@,
            mime_type: text::opt_view(self.mime_type),
        }
    }
}

/// The values of a list of files.
pub open spec fn artifact_views(list: Seq<ArtifactRef>) -> Seq<ArtifactView> {
    list.map_values(|a: ArtifactRef| a@)
}

/// The values of a list of files as a tool call lists them.
pub open spec fn raw_views(list: Seq<RawArtifact>) -> Seq<ArtifactView> {
    list.map_values(|a: RawArtifact| a@)
}

/// A tool call and how far it has come.
#[derive(Debug, PartialEq)]
pub struct ToolCall {
    pub tool_name: String,
    pub call_id: String,
    pub action_name: String,
    pub arguments: Json,
    /// Python `repr` of the tool result, or JSON.
    pub result: Option<String>,
    pub status: String,
    pub artifact_id: Option<String>,
    pub artifacts: Vec<RawArtifact>,
}

/// A tool call as mathematical values.
pub ghost struct ToolCallView {
    pub tool_name: Seq<char>,
    pub call_id: Seq<char>,
    pub action_name: Seq<char>,
    pub arguments: json::JsonView,
    pub result: Option<Seq<char>>,
    pub status: Seq<char>,
    pub artifact_id: Option<Seq<char>>,
    pub artifacts: Seq<ArtifactView>,
}

impl View for ToolCall {
    type V = ToolCallView;

    open spec fn view(&self) -> ToolCallView {
        ToolCallView {
            tool_name: self.tool_name@,
            call_id: self.call_id@,
            action_name: self.action_name@,
            arguments: self.arguments@,
            result: text::opt_view(self.result),
            status: self.status@,
            artifact_id: text::opt_view(self.artifact_id),
            artifacts: raw_views(self.artifacts@),
        }
    }
}

/// The values of a list of tool calls.
pub open spec fn call_views(list: Seq<ToolCall>) -> Seq<ToolCallView> {
    list.map_values(|c: ToolCall| c@)
}

/// One server-sent event from `/stream`.
#[derive(Debug, PartialEq)]
pub enum Event {
    /// First event: ids reserved for this turn.
    MessageId { message_id: String, conversation_id: Option<String> },
    /// Answer text delta.
    Answer(String),
    /// Reasoning text delta (models with visible thinking).
    Thought(String),
    /// Retrieved sources (sent once, before the end).
    Source(Vec<Source>),
    /// Incremental tool call state (`pending` → `completed`).
    ToolCall(ToolCall),
    /// Final summary of all tool calls made during the turn.
    ToolCalls(Vec<ToolCall>),
    /// Conversation id to reuse for the next turn.
    ConversationId(String),
    /// Full structured (JSON-schema) answer, when the agent is configured for it.
    StructuredAnswer(String),
    Notice(String),
    Error(String),
    End,
    /// Anything without a case of its own (guardrail, workflow_run, …).
    Other(String, Json),
}

/// An event as mathematical values.
pub ghost enum EventView {
    MessageId { message_id: Seq<char>, conversation_id: Option<Seq<char>> },
    Answer(Seq<char>),
    Thought(Seq<char>),
    Source(Seq<SourceView>),
    ToolCall(ToolCallView),
    ToolCalls(Seq<ToolCallView>),
    ConversationId(Seq<char>),
    StructuredAnswer(Seq<char>),
    Notice(Seq<char>),
    Error(Seq<char>),
    End,
    Other(Seq<char>, json::JsonView),
}

impl View for Event {
    type V = EventView;

    open spec fn view(&self) -> EventView {
        match self {
            Event::MessageId { message_id, conversation_id } => EventView::MessageId {
                message_id: message_id@,
                conversation_id: text::opt_view(*conversation_id),
            },
            Event::Answer(s) => EventView::Answer(s@),
            Event::Thought(s) => EventView::Thought(s@),
            Event::Source(list) => EventView::Source(source_views(list@)),
            Event::ToolCall(call) => EventView::ToolCall(call@),
            Event::ToolCalls(list) => EventView::ToolCalls(call_views(list@)),
            Event::ConversationId(s) => EventView::ConversationId(s@),
            Event::StructuredAnswer(s) => EventView::StructuredAnswer(s@),
            Event::Notice(s) => EventView::Notice(s@),
            Event::Error(s) => EventView::Error(s@),
            Event::End => EventView::End,
            Event::Other(ty, v) => EventView::Other(ty@, v@),
        }
    }
}

/// A member of a record: by name in an object, by position in an array.
pub open spec fn member(v: json::JsonView, key: Seq<char>, pos: int) -> Option<json::JsonView> {
    match v {
        json::JsonView::Array(items) => if 0 <= pos < items.len() {
            Some(items[pos])
        } else {
            None
        },
        _ => json::field(v, key),
    }
}

/// Whether a value can be a record of `n` members.
pub open spec fn is_record(v: json::JsonView, n: int) -> bool {
    match v {
        json::JsonView::Array(items) => items.len() <= n,
        json::JsonView::Object(_, _) => true,
        _ => false,
    }
}

/// A member that is a text: empty where it is missing, refused where it is
/// anything else.
pub open spec fn text_member(m: Option<json::JsonView>) -> Option<Seq<char>> {
    match m {
        None => Some(Seq::empty()),
        Some(json::JsonView::Str(s)) => Some(s),
        Some(_) => None,
    }
}

/// A member that may be a text: none where it is missing or null, refused where
/// it is anything else.
pub open spec fn optional_member(m: Option<json::JsonView>) -> Option<Option<Seq<char>>> {
    match m {
        None => Some(None),
        Some(json::JsonView::Null) => Some(None),
        Some(json::JsonView::Str(s)) => Some(Some(s)),
        Some(_) => None,
    }
}

/// The id of a listed file; it has two names, of which a record uses one.
pub open spec fn raw_id(v: json::JsonView) -> Option<Seq<char>> {
    match v {
        json::JsonView::Object(_, _) => if json::field(v, "id"@) is Some && json::field(
            v,
            "artifact_id"@,
        ) is Some {
            None
        } else if json::field(v, "id"@) is Some {
            text_member(json::field(v, "id"@))
        } else {
            text_member(json::field(v, "artifact_id"@))
        },
        _ => text_member(member(v, "id"@, 0)),
    }
}

/// A listed file, where the value is a record of one.
pub open spec fn raw_artifact(v: json::JsonView) -> Option<ArtifactView> {
    let id = raw_id(v);
    let filename = text_member(member(v, "filename"@, 1));
    let mime_type = optional_member(member(v, "mime_type"@, 2));
    if is_record(v, 3) && id is Some && filename is Some && mime_type is Some {
        Some(ArtifactView { id: id->0, filename: filename->0, mime_type: mime_type->0 })
    } else {
        None
    }
}

/// The listed files of the first `n` items, where each is a record of one.
pub open spec fn raw_list(items: Seq<json::JsonView>, n: nat) -> Option<Seq<ArtifactView>>
    decreases n,
{
    if n == 0 {
        Some(Seq::empty())
    } else {
        match (raw_list(items, (n - 1) as nat), raw_artifact(items[n - 1])) {
            (Some(list), Some(a)) => Some(list.push(a)),
            _ => None,
        }
    }
}

/// A member that is a list of files.
pub open spec fn raw_member(m: Option<json::JsonView>) -> Option<Seq<ArtifactView>> {
    match m {
        None => Some(Seq::empty()),
        Some(json::JsonView::Array(items)) => raw_list(items, items.len()),
        Some(_) => None,
    }
}

/// The tool call that says nothing.
pub open spec fn no_call() -> ToolCallView {
    ToolCallView {
        tool_name: Seq::empty(),
        call_id: Seq::empty(),
        action_name: Seq::empty(),
        arguments: json::JsonView::Null,
        result: None,
        status: Seq::empty(),
        artifact_id: None,
        artifacts: Seq::empty(),
    }
}

/// A tool call, where the value is a record of one.
pub open spec fn call_record(v: json::JsonView) -> Option<ToolCallView> {
    let tool_name = text_member(member(v, "tool_name"@, 0));
    let call_id = text_member(member(v, "call_id"@, 1));
    let action_name = text_member(member(v, "action_name"@, 2));
    let result = optional_member(member(v, "result"@, 4));
    let status = text_member(member(v, "status"@, 5));
    let artifact_id = optional_member(member(v, "artifact_id"@, 6));
    let artifacts = raw_member(member(v, "artifacts"@, 7));
    if is_record(v, 8) && tool_name is Some && call_id is Some && action_name is Some
        && result is Some && status is Some && artifact_id is Some && artifacts is Some {
        Some(
            ToolCallView {
                tool_name: tool_name->0,
                call_id: call_id->0,
                action_name: action_name->0,
                arguments: match member(v, "arguments"@, 3) {
                    Some(a) => a,
                    None => json::JsonView::Null,
                },
                result: result->0,
                status: status->0,
                artifact_id: artifact_id->0,
                artifacts: artifacts->0,
            },
        )
    } else {
        None
    }
}

/// The tool calls of the first `n` items, where each is a record of one.
pub open spec fn call_list(items: Seq<json::JsonView>, n: nat) -> Option<Seq<ToolCallView>>
    decreases n,
{
    if n == 0 {
        Some(Seq::empty())
    } else {
        match (call_list(items, (n - 1) as nat), call_record(items[n - 1])) {
            (Some(list), Some(c)) => Some(list.push(c)),
            _ => None,
        }
    }
}

/// Whether a text is a web address.
pub open spec fn is_web_address(s: Seq<char>) -> bool {
    "http://"@.is_prefix_of(s) || "https://"@.is_prefix_of(s)
}

/// A field that is a web address.
pub open spec fn address_field(v: json::JsonView, key: Seq<char>) -> Option<Seq<char>> {
    match json::str_of(json::field(v, key)) {
        Some(s) => if is_web_address(s) {
            Some(s)
        } else {
            None
        },
        None => None,
    }
}

/// A source: its title, or failing that what it names as its source; and the
/// first web address among its link, its url and its source.
pub open spec fn source_of(v: json::JsonView) -> SourceView {
    let title = json::str_of(json::field(v, "title"@));
    let source = json::str_of(json::field(v, "source"@));
    SourceView {
        title: if title is Some && !text::blank(title->0) {
            title->0
        } else if source is Some {
            source->0
        } else {
            "Source"@
        },
        url: match address_field(v, "link"@) {
            Some(u) => Some(u),
            None => match address_field(v, "url"@) {
                Some(u) => Some(u),
                None => address_field(v, "source"@),
            },
        },
    }
}

/// The field that an event of a type shows as text, whatever its value.
pub open spec fn shown_key(ty: Seq<char>) -> Seq<char> {
    if ty == "error"@ {
        "error"@
    } else {
        "answer"@
    }
}

/// A field as text: a string as it is, any other value as it prints.
pub open spec fn shown_text(
    v: json::JsonView,
    key: Seq<char>,
    printed: Option<Seq<char>>,
    missing: Seq<char>,
) -> Seq<char> {
    match json::field(v, key) {
        Some(json::JsonView::Str(s)) => s,
        Some(_) => match printed {
            Some(p) => p,
            None => Seq::empty(),
        },
        None => missing,
    }
}

/// The event that a value stands for; `printed` is the field that an error or
/// a structured answer shows, as it prints.
pub open spec fn event_of(v: json::JsonView, printed: Option<Seq<char>>) -> EventView {
    let ty = json::str_field(v, "type"@);
    if ty == "answer"@ {
        EventView::Answer(json::str_field(v, "answer"@))
    } else if ty == "thought"@ {
        EventView::Thought(json::str_field(v, "thought"@))
    } else if ty == "message_id"@ {
        EventView::MessageId {
            message_id: json::str_field(v, "message_id"@),
            conversation_id: json::str_of(json::field(v, "conversation_id"@)),
        }
    } else if ty == "id"@ {
        EventView::ConversationId(json::str_field(v, "id"@))
    } else if ty == "end"@ {
        EventView::End
    } else if ty == "error"@ {
        EventView::Error(shown_text(v, "error"@, printed, "unknown error"@))
    } else if ty == "notice"@ {
        EventView::Notice(json::str_field(v, "notice"@))
    } else if ty == "structured_answer"@ {
        EventView::StructuredAnswer(shown_text(v, "answer"@, printed, Seq::empty()))
    } else if ty == "source"@ || ty == "sources"@ {
        let list = json::items_of(
            match json::field(v, "source"@) {
                Some(x) => Some(x),
                None => json::field(v, "sources"@),
            },
        );
        EventView::Source(
            match list {
                Some(items) => items.map_values(|x: json::JsonView| source_of(x)),
                None => Seq::empty(),
            },
        )
    } else if ty == "tool_call"@ {
        EventView::ToolCall(
            match json::field(v, "data"@) {
                Some(data) => match call_record(data) {
                    Some(c) => c,
                    None => no_call(),
                },
                None => no_call(),
            },
        )
    } else if ty == "tool_calls"@ {
        EventView::ToolCalls(
            match json::items_of(json::field(v, "tool_calls"@)) {
                Some(items) => match call_list(items, items.len()) {
                    Some(list) => list,
                    None => Seq::empty(),
                },
                None => Seq::empty(),
            },
        )
    } else {
        EventView::Other(ty, v)
    }
}

/// The event in the JSON payload of one `data:` line; none where it is not JSON.
pub open spec fn event_in(data: Seq<char>) -> Option<EventView> {
    match json::json_text(data) {
        Some(v) => Some(
            event_of(
                v,
                json::printed_field(data, shown_key(json::str_field(v, "type"@))),
            ),
        ),
        None => None,
    }
}

/// A member by name or position.
pub(crate) fn get_member<'a>(v: &'a Json, key: &str, pos: usize) -> (r: Option<&'a Json>)
    ensures
        json::ref_view(r) == member(v@, key@, pos as int),
{
    match v {
        Json::Array(items) => {
            if pos < items.len() {
                Some(&items[pos])
            } else {
                None
            }
        },
        _ => v.get(key),
    }
}

pub(crate) fn record_of(v: &Json, n: usize) -> (r: bool)
    ensures
        r == is_record(v@, n as int),
{
    match v {
        Json::Array(items) => items.len() <= n,
        Json::Object(_) => true,
        _ => false,
    }
}

pub(crate) fn read_text(m: Option<&Json>) -> (r: Option<String>)
    ensures
        text::opt_view(r) == text_member(json::ref_view(m)),
{
    match m {
        None => {
            let r: String = String::new();
            assert(r@ =~= Seq::<char>::empty());
            Some(r)
        },
        Some(Json::Str(s)) => Some(s.as_str().to_string()),
        Some(_) => None,
    }
}

pub(crate) fn read_optional(m: Option<&Json>) -> (r: Option<Option<String>>)
    ensures
        (match r {
            Some(o) => Some(text::opt_view(o)),
            None => None,
        }) == optional_member(json::ref_view(m)),
{
    match m {
        None => Some(None),
        Some(Json::Null) => Some(None),
        Some(Json::Str(s)) => Some(Some(s.as_str().to_string())),
        Some(_) => None,
    }
}

fn read_raw_id(v: &Json) -> (r: Option<String>)
    ensures
        text::opt_view(r) == raw_id(v@),
{
    match v {
        Json::Object(_) => {
            let plain = v.get("id");
            let long = v.get("artifact_id");
            if plain.is_some() && long.is_some() {
                None
            } else if plain.is_some() {
                read_text(plain)
            } else {
                read_text(long)
            }
        },
        _ => read_text(get_member(v, "id", 0)),
    }
}

fn read_raw_artifact(v: &Json) -> (r: Option<RawArtifact>)
    ensures
        (match r {
            Some(a) => Some(a@),
            None => None,
        }) == raw_artifact(v@),
{
    if !record_of(v, 3) {
        return None;
    }
    let id = read_raw_id(v);
    let filename = read_text(get_member(v, "filename", 1));
    let mime_type = read_optional(get_member(v, "mime_type", 2));
    match (id, filename, mime_type) {
        (Some(id), Some(filename), Some(mime_type)) => Some(
            RawArtifact { id, filename, mime_type },
        ),
        _ => None,
    }
}

proof fn lemma_raw_list_fails(items: Seq<json::JsonView>, i: nat, n: nat)
    requires
        i < n,
        raw_artifact(items[i as int]) is None,
    ensures
        raw_list(items, n) is None,
    decreases n,
{
    if i + 1 < n {
        lemma_raw_list_fails(items, i, (n - 1) as nat);
    }
}

fn read_raw_list(m: Option<&Json>) -> (r: Option<Vec<RawArtifact>>)
    ensures
        (match r {
            Some(v) => Some(raw_views(v@)),
            None => None,
        }) == raw_member(json::ref_view(m)),
{
    let mut out: Vec<RawArtifact> = Vec::new();
    assert(raw_views(out@) =~= Seq::<ArtifactView>::empty());
    match m {
        None => Some(out),
        Some(Json::Array(items)) => {
            let ghost vs = json::ref_view(m)->0->Array_0;
            let mut i: usize = 0;
            while i < items.len()
                invariant
                    i <= items@.len(),
                    vs.len() == items@.len(),
                    forall|k: int| 0 <= k < items@.len() ==> #[trigger] vs[k] == items@[k]@,
                    json::ref_view(m) == Some(json::JsonView::Array(vs)),
                    raw_list(vs, i as nat) == Some(raw_views(out@)),
                decreases items@.len() - i,
            {
                assert(vs[i as int] == items@[i as int]@);
                match read_raw_artifact(&items[i]) {
                    Some(a) => {
                        assert(raw_views(out@.push(a)) =~= raw_views(out@).push(a@));
                        out.push(a);
                    },
                    None => {
                        proof {
                            lemma_raw_list_fails(vs, i as nat, vs.len());
                        }
                        return None;
                    },
                }
                i = i + 1;
            }
            Some(out)
        },
        Some(_) => None,
    }
}

impl ToolCall {
    /// The tool call that says nothing.
    pub fn empty() -> (r: ToolCall)
        ensures
            r@ == no_call(),
    {
        let r = ToolCall {
            tool_name: String::new(),
            call_id: String::new(),
            action_name: String::new(),
            arguments: Json::Null,
            result: None,
            status: String::new(),
            artifact_id: None,
            artifacts: Vec::new(),
        };
        assert(r@.artifacts =~= Seq::<ArtifactView>::empty());
        assert(r@.tool_name =~= Seq::<char>::empty());
        r
    }

    /// Reads a tool call; none where the value is no record of one.
    pub fn from_json(v: &Json) -> (r: Option<ToolCall>)
        ensures
            (match r {
                Some(c) => Some(c@),
                None => None,
            }) == call_record(v@),
    {
        if !record_of(v, 8) {
            return None;
        }
        let tool_name = read_text(get_member(v, "tool_name", 0));
        let call_id = read_text(get_member(v, "call_id", 1));
        let action_name = read_text(get_member(v, "action_name", 2));
        let arguments = match get_member(v, "arguments", 3) {
            Some(a) => json::copy_json(a),
            None => Json::Null,
        };
        let result = read_optional(get_member(v, "result", 4));
        let status = read_text(get_member(v, "status", 5));
        let artifact_id = read_optional(get_member(v, "artifact_id", 6));
        let artifacts = read_raw_list(get_member(v, "artifacts", 7));
        match (tool_name, call_id, action_name, result, status, artifact_id, artifacts) {
            (
                Some(tool_name),
                Some(call_id),
                Some(action_name),
                Some(result),
                Some(status),
                Some(artifact_id),
                Some(artifacts),
            ) => Some(
                ToolCall {
                    tool_name,
                    call_id,
                    action_name,
                    arguments,
                    result,
                    status,
                    artifact_id,
                    artifacts,
                },
            ),
            _ => None,
        }
    }
}

proof fn lemma_call_list_fails(items: Seq<json::JsonView>, i: nat, n: nat)
    requires
        i < n,
        call_record(items[i as int]) is None,
    ensures
        call_list(items, n) is None,
    decreases n,
{
    if i + 1 < n {
        lemma_call_list_fails(items, i, (n - 1) as nat);
    }
}

fn read_calls(items: &Vec<Json>) -> (r: Vec<ToolCall>)
    ensures
        call_views(r@) == (match call_list(json::json_views(items@), items@.len()) {
            Some(list) => list,
            None => Seq::empty(),
        }),
{
    let ghost vs = json::json_views(items@);
    let mut out: Vec<ToolCall> = Vec::new();
    assert(call_views(out@) =~= Seq::<ToolCallView>::empty());
    let mut i: usize = 0;
    while i < items.len()
        invariant
            i <= items@.len(),
            vs == json::json_views(items@),
            call_list(vs, i as nat) == Some(call_views(out@)),
        decreases items@.len() - i,
    {
        assert(vs[i as int] == items@[i as int]@);
        match ToolCall::from_json(&items[i]) {
            Some(c) => {
                assert(call_views(out@.push(c)) =~= call_views(out@).push(c@));
                out.push(c);
            },
            None => {
                proof {
                    lemma_call_list_fails(vs, i as nat, vs.len());
                }
                let none: Vec<ToolCall> = Vec::new();
                assert(call_views(none@) =~= Seq::<ToolCallView>::empty());
                return none;
            },
        }
        i = i + 1;
    }
    out
}

fn read_address(v: &Json, key: &str) -> (r: Option<String>)
    ensures
        text::opt_view(r) == address_field(v@, key@),
{
    match v.text_of(key) {
        Some(s) => {
            if text::starts_with(s.as_str(), "http://") || text::starts_with(
                s.as_str(),
                "https://",
            ) {
                Some(s)
            } else {
                None
            }
        },
        None => None,
    }
}

fn parse_source(v: &Json) -> (r: Source)
    ensures
        r@ == source_of(v@),
{
    let title = match v.text_of("title") {
        Some(t) => if text::is_blank(t.as_str()) {
            None
        } else {
            Some(t)
        },
        None => None,
    };
    let title: String = match title {
        Some(t) => t,
        None => match v.text_of("source") {
            Some(s) => s,
            None => "Source".to_string(),
        },
    };
    let url: Option<String> = match read_address(v, "link") {
        Some(u) => Some(u),
        None => match read_address(v, "url") {
            Some(u) => Some(u),
            None => read_address(v, "source"),
        },
    };
    Source { title, url }
}

fn read_sources(items: &Vec<Json>) -> (r: Vec<Source>)
    ensures
        source_views(r@) == json::json_views(items@).map_values(
            |x: json::JsonView| source_of(x),
        ),
{
    let ghost want = json::json_views(items@).map_values(|x: json::JsonView| source_of(x));
    let mut out: Vec<Source> = Vec::new();
    let mut i: usize = 0;
    while i < items.len()
        invariant
            i <= items@.len(),
            want == json::json_views(items@).map_values(|x: json::JsonView| source_of(x)),
            source_views(out@) == want.take(i as int),
        decreases items@.len() - i,
    {
        let s = parse_source(&items[i]);
        assert(source_views(out@.push(s)) =~= source_views(out@).push(s@));
        assert(want.take(i + 1) =~= want.take(i as int).push(s@));
        out.push(s);
        i = i + 1;
    }
    assert(want.take(i as int) =~= want);
    out
}

fn str_field(v: &Json, key: &str) -> (r: String)
    ensures
        r@ == json::str_field(v@, key@),
{
    match v.text_of(key) {
        Some(s) => s,
        None => String::new(),
    }
}

fn show_field(v: &Json, key: &str, printed: Option<String>, missing: &str) -> (r: String)
    ensures
        r@ == shown_text(v@, key@, text::opt_view(printed), missing@),
{
    match v.get(key) {
        Some(Json::Str(s)) => s.as_str().to_string(),
        Some(_) => match printed {
            Some(p) => p,
            None => String::new(),
        },
        None => missing.to_string(),
    }
}

impl Event {
    /// The event that a value stands for; `printed` is the field that an error
    /// or a structured answer shows, as it prints.
    pub fn from_json(v: &Json, printed: Option<String>) -> (r: Event)
        ensures
            r@ == event_of(v@, text::opt_view(printed)),
    {
        let ty = str_field(v, "type");
        let t = ty.as_str();
        if text::same(t, "answer") {
            Event::Answer(str_field(v, "answer"))
        } else if text::same(t, "thought") {
            Event::Thought(str_field(v, "thought"))
        } else if text::same(t, "message_id") {
            Event::MessageId {
                message_id: str_field(v, "message_id"),
                conversation_id: v.text_of("conversation_id"),
            }
        } else if text::same(t, "id") {
            Event::ConversationId(str_field(v, "id"))
        } else if text::same(t, "end") {
            Event::End
        } else if text::same(t, "error") {
            Event::Error(show_field(v, "error", printed, "unknown error"))
        } else if text::same(t, "notice") {
            Event::Notice(str_field(v, "notice"))
        } else if text::same(t, "structured_answer") {
            proof {
                reveal_strlit("");
                assert(""@ =~= Seq::<char>::empty());
            }
            Event::StructuredAnswer(show_field(v, "answer", printed, ""))
        } else if text::same(t, "source") || text::same(t, "sources") {
            let list = match v.get("source") {
                Some(x) => x.as_array(),
                None => v.items_at("sources"),
            };
            let sources: Vec<Source> = match list {
                Some(items) => read_sources(items),
                None => Vec::new(),
            };
            assert(list is None ==> source_views(sources@) =~= Seq::<SourceView>::empty());
            Event::Source(sources)
        } else if text::same(t, "tool_call") {
            let call = match v.get("data") {
                Some(data) => match ToolCall::from_json(data) {
                    Some(c) => c,
                    None => ToolCall::empty(),
                },
                None => ToolCall::empty(),
            };
            Event::ToolCall(call)
        } else if text::same(t, "tool_calls") {
            let list = v.items_at("tool_calls");
            let calls: Vec<ToolCall> = match list {
                Some(items) => read_calls(items),
                None => Vec::new(),
            };
            assert(list is None ==> call_views(calls@) =~= Seq::<ToolCallView>::empty());
            Event::ToolCalls(calls)
        } else {
            Event::Other(ty, json::copy_json(v))
        }
    }

    /// Parse the JSON payload of one `data:` line.
    pub fn parse(data: &str) -> (r: Option<Event>)
        ensures
            (match r {
                Some(e) => Some(e@),
                None => None,
            }) == event_in(data@),
    {
        match json::parse_json(data) {
            Some(v) => {
                let ty = str_field(&v, "type");
                let printed = if text::same(ty.as_str(), "error") {
                    json::print_field(data, "error")
                } else {
                    json::print_field(data, "answer")
                };
                Some(Event::from_json(&v, printed))
            },
            None => None,
        }
    }
}

/// Files and images a tool produced that the bot should deliver.
#[derive(Debug, PartialEq, Eq)]
pub struct ToolOutputs {
    pub artifacts: Vec<ArtifactRef>,
    pub image_urls: Vec<String>,
}

/// What a tool produced, as mathematical values.
pub ghost struct OutputsView {
    pub artifacts: Seq<ArtifactView>,
    pub image_urls: Seq<Seq<char>>,
}

impl View for ToolOutputs {
    type V = OutputsView;

    open spec fn view(&self) -> OutputsView {
        OutputsView {
            artifacts: artifact_views(self.artifacts@),
            image_urls: text::views(self.image_urls@),
        }
    }
}

/// Where the first file of that id stands; the length where there is none.
pub open spec fn id_index(list: Seq<ArtifactView>, id: Seq<char>) -> int
    decreases list.len(),
{
    if list.len() == 0 || list[0].id == id {
        0
    } else {
        1 + id_index(list.skip(1), id)
    }
}

/// Whether a file of that id is listed.
pub open spec fn has_id(list: Seq<ArtifactView>, id: Seq<char>) -> bool {
    exists|i: int| 0 <= i < list.len() && (#[trigger] list[i]).id == id
}

/// One more file, unless its id is listed already.
pub open spec fn with_artifact(list: Seq<ArtifactView>, a: ArtifactView) -> Seq<ArtifactView> {
    if has_id(list, a.id) {
        list
    } else {
        list.push(a)
    }
}

/// The first `n` of `more`, each unless its id is listed already.
pub open spec fn with_artifacts(
    list: Seq<ArtifactView>,
    more: Seq<ArtifactView>,
    n: nat,
) -> Seq<ArtifactView>
    decreases n,
{
    if n == 0 {
        list
    } else {
        with_artifact(with_artifacts(list, more, (n - 1) as nat), more[n - 1])
    }
}

/// One more text, unless it is listed already.
pub open spec fn with_text(list: Seq<Seq<char>>, s: Seq<char>) -> Seq<Seq<char>> {
    if list.contains(s) {
        list
    } else {
        list.push(s)
    }
}

/// The first `n` of `more`, each unless it is listed already.
pub open spec fn with_texts(list: Seq<Seq<char>>, more: Seq<Seq<char>>, n: nat) -> Seq<Seq<char>>
    decreases n,
{
    if n == 0 {
        list
    } else {
        with_text(with_texts(list, more, (n - 1) as nat), more[n - 1])
    }
}

impl OutputsView {
    /// The outputs of two calls: those of the first, then what only the second has.
    pub open spec fn merged(self, other: OutputsView) -> OutputsView {
        OutputsView {
            artifacts: with_artifacts(self.artifacts, other.artifacts, other.artifacts.len()),
            image_urls: with_texts(self.image_urls, other.image_urls, other.image_urls.len()),
        }
    }
}

proof fn lemma_id_index(list: Seq<ArtifactView>, id: Seq<char>, i: int)
    requires
        0 <= i <= list.len(),
        forall|j: int| 0 <= j < i ==> (#[trigger] list[j]).id != id,
        i < list.len() ==> list[i].id == id,
    ensures
        id_index(list, id) == i,
        has_id(list, id) == (i < list.len()),
    decreases list.len(),
{
    if i > 0 {
        assert(list[0].id != id);
        let t = list.skip(1);
        assert forall|j: int| 0 <= j < i - 1 implies (#[trigger] t[j]).id != id by {
            assert(list[j + 1].id != id);
        }
        lemma_id_index(t, id, i - 1);
    }
}

/// Where the first file of that id stands.
fn find_id(list: &Vec<ArtifactRef>, id: &str) -> (r: usize)
    ensures
        r <= list@.len(),
        r == id_index(artifact_views(list@), id@),
        has_id(artifact_views(list@), id@) == (r < list@.len()),
{
    let ghost vs = artifact_views(list@);
    let mut i: usize = 0;
    while i < list.len()
        invariant
            i <= list@.len(),
            vs == artifact_views(list@),
            forall|j: int| 0 <= j < i ==> (#[trigger] vs[j]).id != id@,
        decreases list@.len() - i,
    {
        if text::same(list[i].id.as_str(), id) {
            proof {
                lemma_id_index(vs, id@, i as int);
            }
            return i;
        }
        i = i + 1;
    }
    proof {
        lemma_id_index(vs, id@, i as int);
    }
    i
}

fn has_text(list: &Vec<String>, s: &str) -> (r: bool)
    ensures
        r == text::views(list@).contains(s@),
{
    let mut i: usize = 0;
    while i < list.len()
        invariant
            i <= list@.len(),
            forall|j: int| 0 <= j < i ==> list@[j]@ != s@,
        decreases list@.len() - i,
    {
        if text::same(list[i].as_str(), s) {
            assert(text::views(list@)[i as int] == s@);
            return true;
        }
        i = i + 1;
    }
    proof {
        if text::views(list@).contains(s@) {
            let k = choose|k: int| 0 <= k < list@.len() && text::views(list@)[k] == s@;
            assert(list@[k]@ == s@);
        }
    }
    false
}

impl ToolOutputs {
    /// Nothing produced.
    pub fn none() -> (r: ToolOutputs)
        ensures
            r@.artifacts == Seq::<ArtifactView>::empty(),
            r@.image_urls == Seq::<Seq<char>>::empty(),
    {
        let r = ToolOutputs { artifacts: Vec::new(), image_urls: Vec::new() };
        assert(r@.artifacts =~= Seq::<ArtifactView>::empty());
        assert(r@.image_urls =~= Seq::<Seq<char>>::empty());
        r
    }

    fn push_artifact(&mut self, a: ArtifactRef)
        ensures
            final(self)@ == (OutputsView {
                artifacts: with_artifact(old(self)@.artifacts, a@),
                ..old(self)@
            }),
    {
        if find_id(&self.artifacts, a.id.as_str()) == self.artifacts.len() {
            assert(artifact_views(self.artifacts@.push(a)) =~= artifact_views(
                self.artifacts@,
            ).push(a@));
            self.artifacts.push(a);
        }
    }

    fn push_url(&mut self, url: &str)
        ensures
            final(self)@ == (OutputsView {
                image_urls: with_text(old(self)@.image_urls, url@),
                ..old(self)@
            }),
    {
        if !has_text(&self.image_urls, url) {
            let u = url.to_string();
            proof {
                text::lemma_views_push(self.image_urls@, u);
            }
            self.image_urls.push(u);
        }
    }

    /// Adds what another call produced and is not here yet.
    pub fn merge(&mut self, other: ToolOutputs)
        ensures
            final(self)@ == old(self)@.merged(other@),
    {
        let ghost start = self@;
        let mut i: usize = 0;
        while i < other.artifacts.len()
            invariant
                i <= other.artifacts@.len(),
                self@ == (OutputsView {
                    artifacts: with_artifacts(start.artifacts, other@.artifacts, i as nat),
                    ..start
                }),
            decreases other.artifacts@.len() - i,
        {
            let a = &other.artifacts[i];
            let copy = ArtifactRef {
                id: a.id.as_str().to_string(),
                filename: a.filename.as_str().to_string(),
                mime_type: text::copy_opt(&a.mime_type),
            };
            assert(copy@ == other@.artifacts[i as int]);
            self.push_artifact(copy);
            i = i + 1;
        }
        let mut k: usize = 0;
        while k < other.image_urls.len()
            invariant
                k <= other.image_urls@.len(),
                self@ == (OutputsView {
                    artifacts: with_artifacts(
                        start.artifacts,
                        other@.artifacts,
                        other@.artifacts.len(),
                    ),
                    image_urls: with_texts(start.image_urls, other@.image_urls, k as nat),
                }),
            decreases other.image_urls@.len() - k,
        {
            assert(other.image_urls@[k as int]@ == other@.image_urls[k as int]);
            self.push_url(other.image_urls[k].as_str());
            k = k + 1;
        }
    }

    /// Whether there is nothing to deliver.
    pub fn is_empty(&self) -> (r: bool)
        ensures
            r == (self@.artifacts.len() == 0 && self@.image_urls.len() == 0),
    {
        self.artifacts.len() == 0 && self.image_urls.len() == 0
    }
}

/// The listed files that have an id, with the id for a name that is missing.
pub open spec fn named_artifacts(raw: Seq<ArtifactView>, n: nat) -> Seq<ArtifactView>
    decreases n,
{
    if n == 0 {
        Seq::empty()
    } else {
        let before = named_artifacts(raw, (n - 1) as nat);
        let a = raw[n - 1];
        if a.id.len() == 0 {
            before
        } else {
            before.push(
                ArtifactView {
                    filename: if a.filename.len() == 0 {
                        a.id
                    } else {
                        a.filename
                    },
                    ..a
                },
            )
        }
    }
}

/// The id of a file that a result lists, or nothing.
pub open spec fn result_id(a: json::JsonView) -> Seq<char> {
    match json::str_of(
        match json::field(a, "artifact_id"@) {
            Some(x) => Some(x),
            None => json::field(a, "id"@),
        },
    ) {
        Some(id) => id,
        None => Seq::empty(),
    }
}

/// A file that a result lists.
pub open spec fn result_artifact(a: json::JsonView) -> ArtifactView {
    ArtifactView {
        id: result_id(a),
        filename: match json::str_of(json::field(a, "filename"@)) {
            Some(s) => s,
            None => result_id(a),
        },
        mime_type: json::str_of(json::field(a, "mime_type"@)),
    }
}

/// With the files of the first `n` items of a result that have an id.
pub open spec fn with_results(
    list: Seq<ArtifactView>,
    items: Seq<json::JsonView>,
    n: nat,
) -> Seq<ArtifactView>
    decreases n,
{
    if n == 0 {
        list
    } else {
        let before = with_results(list, items, (n - 1) as nat);
        if result_id(items[n - 1]).len() == 0 {
            before
        } else {
            with_artifact(before, result_artifact(items[n - 1]))
        }
    }
}

/// With the type of one listed file, where the file of that id has none.
pub open spec fn with_type(list: Seq<ArtifactView>, a: json::JsonView) -> Seq<ArtifactView> {
    let i = id_index(list, result_id(a));
    if 0 <= i < list.len() && list[i].mime_type is None {
        list.update(
            i,
            ArtifactView { mime_type: json::str_of(json::field(a, "mime_type"@)), ..list[i] },
        )
    } else {
        list
    }
}

/// With the types of the first `n` items of a result.
pub open spec fn with_types(
    list: Seq<ArtifactView>,
    items: Seq<json::JsonView>,
    n: nat,
) -> Seq<ArtifactView>
    decreases n,
{
    if n == 0 {
        list
    } else {
        with_type(with_types(list, items, (n - 1) as nat), items[n - 1])
    }
}

/// With a value that is the address of an image.
pub open spec fn with_url(urls: Seq<Seq<char>>, v: Option<json::JsonView>) -> Seq<Seq<char>> {
    match json::str_of(v) {
        Some(u) => if "http"@.is_prefix_of(u) {
            with_text(urls, u)
        } else {
            urls
        },
        None => urls,
    }
}

/// With those of the first `n` items that are addresses of images.
pub open spec fn with_urls(
    urls: Seq<Seq<char>>,
    items: Seq<json::JsonView>,
    n: nat,
) -> Seq<Seq<char>>
    decreases n,
{
    if n == 0 {
        urls
    } else {
        with_url(with_urls(urls, items, (n - 1) as nat), Some(items[n - 1]))
    }
}

/// The items of a list, or none.
pub open spec fn items_or_none(v: Option<json::JsonView>) -> Seq<json::JsonView> {
    match json::items_of(v) {
        Some(items) => items,
        None => Seq::empty(),
    }
}

/// What a result adds to the files that a call lists.
pub open spec fn with_result(listed: Seq<ArtifactView>, v: json::JsonView) -> OutputsView {
    let items = items_or_none(json::field(v, "artifacts"@));
    let first = items_or_none(json::field(v, "image_urls"@));
    let second = items_or_none(json::field(v, "urls"@));
    OutputsView {
        artifacts: with_types(
            with_results(listed, items, items.len()),
            items,
            items.len(),
        ),
        image_urls: with_url(
            with_urls(
                with_urls(Seq::empty(), first, first.len()),
                second,
                second.len(),
            ),
            json::field(v, "image_url"@),
        ),
    }
}

/// What a call produced; `result` is the value of its result, where it has one.
pub open spec fn outputs_of(call: ToolCallView, result: Option<json::JsonView>) -> OutputsView {
    let listed = named_artifacts(call.artifacts, call.artifacts.len());
    let out = match result {
        Some(v) => with_result(listed, v),
        None => OutputsView { artifacts: listed, image_urls: Seq::empty() },
    };
    match call.artifact_id {
        Some(id) => if id.len() > 0 {
            OutputsView {
                artifacts: with_artifact(
                    out.artifacts,
                    ArtifactView { id, filename: id, mime_type: None },
                ),
                ..out
            }
        } else {
            out
        },
        None => out,
    }
}

/// The value of a call's result.
pub open spec fn result_value(call: ToolCallView) -> Option<json::JsonView> {
    match call.result {
        Some(s) => util::repr_value(s),
        None => None,
    }
}

fn read_result_id(a: &Json) -> (r: String)
    ensures
        r@ == result_id(a@),
{
    let v = match a.get("artifact_id") {
        Some(x) => Some(x),
        None => a.get("id"),
    };
    match v {
        Some(Json::Str(s)) => s.as_str().to_string(),
        _ => String::new(),
    }
}

impl ToolOutputs {
    fn add_results(&mut self, items: &Vec<Json>)
        ensures
            final(self)@ == (OutputsView {
                artifacts: with_results(
                    old(self)@.artifacts,
                    json::json_views(items@),
                    items@.len(),
                ),
                ..old(self)@
            }),
    {
        let ghost start = self@;
        let ghost vs = json::json_views(items@);
        let mut i: usize = 0;
        while i < items.len()
            invariant
                i <= items@.len(),
                vs == json::json_views(items@),
                self@ == (OutputsView {
                    artifacts: with_results(start.artifacts, vs, i as nat),
                    ..start
                }),
            decreases items@.len() - i,
        {
            assert(vs[i as int] == items@[i as int]@);
            let id = read_result_id(&items[i]);
            if text::char_count(id.as_str()) > 0 {
                let filename = match items[i].text_of("filename") {
                    Some(s) => s,
                    None => id.as_str().to_string(),
                };
                let a = ArtifactRef { id, filename, mime_type: items[i].text_of("mime_type") };
                assert(a@ == result_artifact(vs[i as int]));
                self.push_artifact(a);
            }
            i = i + 1;
        }
    }

    fn add_types(&mut self, items: &Vec<Json>)
        ensures
            final(self)@ == (OutputsView {
                artifacts: with_types(
                    old(self)@.artifacts,
                    json::json_views(items@),
                    items@.len(),
                ),
                ..old(self)@
            }),
    {
        let ghost start = self@;
        let ghost vs = json::json_views(items@);
        let mut i: usize = 0;
        while i < items.len()
            invariant
                i <= items@.len(),
                vs == json::json_views(items@),
                self@ == (OutputsView {
                    artifacts: with_types(start.artifacts, vs, i as nat),
                    ..start
                }),
            decreases items@.len() - i,
        {
            assert(vs[i as int] == items@[i as int]@);
            let id = read_result_id(&items[i]);
            let k = find_id(&self.artifacts, id.as_str());
            if k < self.artifacts.len() && self.artifacts[k].mime_type.is_none() {
                let ghost before = artifact_views(self.artifacts@);
                let typed = ArtifactRef {
                    id: self.artifacts[k].id.as_str().to_string(),
                    filename: self.artifacts[k].filename.as_str().to_string(),
                    mime_type: items[i].text_of("mime_type"),
                };
                let ghost tv = typed@;
                self.artifacts.set(k, typed);
                assert(artifact_views(self.artifacts@) =~= before.update(k as int, tv));
            }
            i = i + 1;
        }
    }

    fn add_url(&mut self, v: Option<&Json>)
        ensures
            final(self)@ == (OutputsView {
                image_urls: with_url(old(self)@.image_urls, json::ref_view(v)),
                ..old(self)@
            }),
    {
        match v {
            Some(Json::Str(u)) => {
                if text::starts_with(u.as_str(), "http") {
                    self.push_url(u.as_str());
                }
            },
            _ => {},
        }
    }

    fn add_urls(&mut self, items: &Vec<Json>)
        ensures
            final(self)@ == (OutputsView {
                image_urls: with_urls(
                    old(self)@.image_urls,
                    json::json_views(items@),
                    items@.len(),
                ),
                ..old(self)@
            }),
    {
        let ghost start = self@;
        let ghost vs = json::json_views(items@);
        let mut i: usize = 0;
        while i < items.len()
            invariant
                i <= items@.len(),
                vs == json::json_views(items@),
                self@ == (OutputsView {
                    image_urls: with_urls(start.image_urls, vs, i as nat),
                    ..start
                }),
            decreases items@.len() - i,
        {
            assert(vs[i as int] == items@[i as int]@);
            self.add_url(Some(&items[i]));
            i = i + 1;
        }
    }

    fn add_result(&mut self, v: &Json)
        requires
            old(self)@.image_urls.len() == 0,
        ensures
            final(self)@ == with_result(old(self)@.artifacts, v@),
    {
        assert(self@.image_urls =~= Seq::<Seq<char>>::empty());
        let list = v.items_at("artifacts");
        match list {
            Some(items) => {
                self.add_results(items);
            },
            None => {},
        }
        match v.items_at("image_urls") {
            Some(items) => {
                self.add_urls(items);
            },
            None => {},
        }
        match v.items_at("urls") {
            Some(items) => {
                self.add_urls(items);
            },
            None => {},
        }
        self.add_url(v.get("image_url"));
        match list {
            Some(items) => {
                self.add_types(items);
            },
            None => {},
        }
    }
}

/// Words for a name with underscores.
fn pretty(s: &str) -> (r: String)
    ensures
        r@ == text::replace_char(s@, '_', " "@),
{
    text::replaced_char(s, '_', " ")
}

/// The label of a call while it runs.
pub open spec fn label_of(tool: Seq<char>, action: Seq<char>) -> Seq<char> {
    let tool_words = text::replace_char(tool, '_', " "@);
    if tool == "code_executor"@ {
        "Running code"@
    } else if tool == "imagegen"@ || action == "imagegen_generate"@ {
        "Generating image"@
    } else if action.len() > 0 {
        "Using "@ + tool_words + " ("@ + text::replace_char(action, '_', " "@) + ")"@
    } else {
        "Using "@ + tool_words
    }
}

impl ToolCall {
    /// Whether the call has come to its end.
    pub fn is_completed(&self) -> (r: bool)
        ensures
            r == (self@.status == "completed"@),
    {
        text::same(self.status.as_str(), "completed")
    }

    /// Short label for progress indicators ("Running code", "Generating image").
    pub fn label(&self) -> (r: String)
        ensures
            r@ == label_of(self@.tool_name, self@.action_name),
    {
        let tool = self.tool_name.as_str();
        let action = self.action_name.as_str();
        if text::same(tool, "code_executor") {
            return "Running code".to_string();
        }
        if text::same(tool, "imagegen") || text::same(action, "imagegen_generate") {
            return "Generating image".to_string();
        }
        let mut r: String = "Using ".to_string();
        r.append(pretty(tool).as_str());
        if text::char_count(action) > 0 {
            r.append(" (");
            r.append(pretty(action).as_str());
            r.append(")");
        }
        r
    }

    /// The listed files, and what the value of the result adds to them.
    pub fn outputs_with(&self, result: Option<&Json>) -> (r: ToolOutputs)
        ensures
            r@ == outputs_of(self@, json::ref_view(result)),
    {
        let mut out = ToolOutputs::none();
        let ghost raw = raw_views(self.artifacts@);
        let mut i: usize = 0;
        while i < self.artifacts.len()
            invariant
                i <= self.artifacts@.len(),
                raw == raw_views(self.artifacts@),
                out@.image_urls == Seq::<Seq<char>>::empty(),
                out@.artifacts == named_artifacts(raw, i as nat),
            decreases self.artifacts@.len() - i,
        {
            let a = &self.artifacts[i];
            assert(a@ == raw[i as int]);
            if text::char_count(a.id.as_str()) > 0 {
                let filename = if text::char_count(a.filename.as_str()) == 0 {
                    a.id.as_str().to_string()
                } else {
                    a.filename.as_str().to_string()
                };
                let named = ArtifactRef {
                    id: a.id.as_str().to_string(),
                    filename,
                    mime_type: text::copy_opt(&a.mime_type),
                };
                assert(artifact_views(out.artifacts@.push(named)) =~= artifact_views(
                    out.artifacts@,
                ).push(named@));
                out.artifacts.push(named);
            }
            i = i + 1;
        }
        match result {
            Some(v) => {
                out.add_result(v);
            },
            None => {},
        }
        match &self.artifact_id {
            Some(id) => {
                if text::char_count(id.as_str()) > 0 {
                    out.push_artifact(
                        ArtifactRef {
                            id: id.as_str().to_string(),
                            filename: id.as_str().to_string(),
                            mime_type: None,
                        },
                    );
                }
            },
            None => {},
        }
        out
    }

    /// Extract artifacts and image URLs from the explicit fields and the result payload.
    pub fn outputs(&self) -> (r: ToolOutputs)
        ensures
            r@ == outputs_of(self@, result_value(self@)),
    {
        let value: Option<Json> = match &self.result {
            Some(s) => util::python_repr_to_json(s.as_str()),
            None => None,
        };
        match &value {
            Some(v) => self.outputs_with(Some(v)),
            None => self.outputs_with(None),
        }
    }
}

/// No two files of a list have the same id.
pub open spec fn distinct_ids(list: Seq<ArtifactView>) -> bool {
    forall|i: int, j: int| 0 <= i < j < list.len() ==> (#[trigger] list[i]).id != (#[trigger] list[j]).id
}

proof fn lemma_with_artifacts(list: Seq<ArtifactView>, more: Seq<ArtifactView>, n: nat)
    requires
        n <= more.len(),
    ensures
        distinct_ids(list) ==> distinct_ids(with_artifacts(list, more, n)),
        list.is_prefix_of(with_artifacts(list, more, n)),
        forall|i: int| 0 <= i < n ==> has_id(with_artifacts(list, more, n), (#[trigger] more[i]).id),
    decreases n,
{
    let after = with_artifacts(list, more, n);
    if n > 0 {
        lemma_with_artifacts(list, more, (n - 1) as nat);
        let before = with_artifacts(list, more, (n - 1) as nat);
        let a = more[n - 1];
        assert forall|i: int| 0 <= i < n implies has_id(after, (#[trigger] more[i]).id) by {
            if i < n - 1 {
                assert(has_id(before, more[i].id));
                let k = choose|k: int| 0 <= k < before.len() && (#[trigger] before[k]).id == more[i].id;
                assert(after[k] == before[k]);
            } else if !has_id(before, a.id) {
                assert(after[before.len() as int].id == a.id);
            }
        }
        if !has_id(before, a.id) {
            assert forall|i: int, j: int|
                0 <= i < j < after.len() && distinct_ids(list) implies (#[trigger] after[i]).id != (
            #[trigger] after[j]).id by {
                if j == before.len() {
                    assert(before[i].id != a.id);
                }
            }
            assert(list =~= after.subrange(0, list.len() as int)) by {
                assert(list =~= before.subrange(0, list.len() as int));
            }
        }
    } else {
        assert(list =~= list.subrange(0, list.len() as int));
    }
}

proof fn lemma_with_texts(list: Seq<Seq<char>>, more: Seq<Seq<char>>, n: nat)
    requires
        n <= more.len(),
    ensures
        list.no_duplicates() ==> with_texts(list, more, n).no_duplicates(),
        list.is_prefix_of(with_texts(list, more, n)),
        forall|i: int| 0 <= i < n ==> with_texts(list, more, n).contains(#[trigger] more[i]),
    decreases n,
{
    let after = with_texts(list, more, n);
    if n > 0 {
        lemma_with_texts(list, more, (n - 1) as nat);
        let before = with_texts(list, more, (n - 1) as nat);
        assert forall|i: int| 0 <= i < n implies after.contains(#[trigger] more[i]) by {
            if i < n - 1 {
                assert(before.contains(more[i]));
                let k = choose|k: int| 0 <= k < before.len() && before[k] == more[i];
                assert(after[k] == more[i]);
            } else if !before.contains(more[n - 1]) {
                assert(after[before.len() as int] == more[n - 1]);
            }
        }
        if !before.contains(more[n - 1]) {
            assert(list =~= after.subrange(0, list.len() as int)) by {
                assert(list =~= before.subrange(0, list.len() as int));
            }
        }
    } else {
        assert(list =~= list.subrange(0, list.len() as int));
    }
}

/// Merging keeps what was there in its place and brings in every file and image of
/// the other side; where nothing was listed twice, nothing is.
pub proof fn merge_keeps_and_adds(a: OutputsView, b: OutputsView)
    ensures
        distinct_ids(a.artifacts) ==> distinct_ids(a.merged(b).artifacts),
        a.image_urls.no_duplicates() ==> a.merged(b).image_urls.no_duplicates(),
        a.artifacts.is_prefix_of(a.merged(b).artifacts),
        a.image_urls.is_prefix_of(a.merged(b).image_urls),
        forall|i: int|
            0 <= i < b.artifacts.len() ==> has_id(
                a.merged(b).artifacts,
                (#[trigger] b.artifacts[i]).id,
            ),
        forall|i: int|
            0 <= i < b.image_urls.len() ==> a.merged(b).image_urls.contains(
                #[trigger] b.image_urls[i],
            ),
{
    lemma_with_artifacts(a.artifacts, b.artifacts, b.artifacts.len());
    lemma_with_texts(a.image_urls, b.image_urls, b.image_urls.len());
}

proof fn lemma_nothing_to_add(list: Seq<ArtifactView>, more: Seq<ArtifactView>, n: nat)
    requires
        n <= more.len(),
        forall|i: int| 0 <= i < more.len() ==> has_id(list, (#[trigger] more[i]).id),
    ensures
        with_artifacts(list, more, n) == list,
    decreases n,
{
    if n > 0 {
        lemma_nothing_to_add(list, more, (n - 1) as nat);
        assert(has_id(list, more[n - 1].id));
    }
}

proof fn lemma_no_text_to_add(list: Seq<Seq<char>>, more: Seq<Seq<char>>, n: nat)
    requires
        n <= more.len(),
        forall|i: int| 0 <= i < more.len() ==> list.contains(#[trigger] more[i]),
    ensures
        with_texts(list, more, n) == list,
    decreases n,
{
    if n > 0 {
        lemma_no_text_to_add(list, more, (n - 1) as nat);
        assert(list.contains(more[n - 1]));
    }
}

/// Merging the same outputs a second time changes nothing.
pub proof fn merge_is_idempotent(a: OutputsView, b: OutputsView)
    ensures
        a.merged(b).merged(b) == a.merged(b),
{
    merge_keeps_and_adds(a, b);
    let m = a.merged(b);
    lemma_nothing_to_add(m.artifacts, b.artifacts, b.artifacts.len());
    lemma_no_text_to_add(m.image_urls, b.image_urls, b.image_urls.len());
}

}
