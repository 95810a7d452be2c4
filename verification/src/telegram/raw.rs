//! Parameters of Bot API methods (draft stop button, ephemeral messages), and
//! the kinds of raw updates.

use crate::json;
use crate::json::{Fields, Json};
use crate::telegram::types::Chat;
use crate::text;
use vstd::prelude::*;

verus! {

/// Delivers a message to one user only.
#[derive(Debug)]
pub struct EphemeralMessageParameters {
    pub receiver_user_id: u64,
    pub callback_query_id: Option<String>,
    pub replace_callback_query_message: Option<bool>,
}

/// How links in a message are shown.
#[derive(Debug, Clone, Copy)]
pub struct LinkPreviewOptions {
    pub is_disabled: Option<bool>,
}

/// How a text is marked up.
#[derive(Debug, Clone, Copy, PartialEq, Eq, Structural)]
pub enum ParseMode {
    MarkdownV2,
}

/// A button under a message.
#[derive(Debug)]
pub struct Button {
    pub text: String,
    pub callback_data: String,
}

/// The message that another one replies to.
#[derive(Debug, Clone, Copy)]
pub struct ReplyParameters {
    pub message_id: i32,
    pub allow_sending_without_reply: bool,
}

/// `sendMessage` with ephemeral parameters.
#[derive(Debug)]
pub struct SendMessageRaw {
    pub chat_id: i64,
    pub message_thread_id: Option<i32>,
    pub business_connection_id: Option<String>,
    pub text: String,
    pub parse_mode: Option<ParseMode>,
    pub link_preview_options: Option<LinkPreviewOptions>,
    pub reply_parameters: Option<ReplyParameters>,
    /// The rows of buttons under the message.
    pub reply_markup: Option<Vec<Vec<Button>>>,
    pub ephemeral_message_parameters: Option<EphemeralMessageParameters>,
}

/// The body of a rich message.
#[derive(Debug)]
pub struct InputRichMessageRaw {
    pub markdown: Option<String>,
    pub html: Option<String>,
}

/// `sendRichMessage` with ephemeral parameters.
#[derive(Debug)]
pub struct SendRichMessageRaw {
    pub chat_id: i64,
    pub message_thread_id: Option<i32>,
    pub business_connection_id: Option<String>,
    pub rich_message: InputRichMessageRaw,
    pub reply_parameters: Option<ReplyParameters>,
    pub reply_markup: Option<Vec<Vec<Button>>>,
    pub ephemeral_message_parameters: Option<EphemeralMessageParameters>,
}

/// `sendMessageDraft` with `can_stop` / `keep_on_stop`.
#[derive(Debug)]
pub struct SendMessageDraftRaw {
    pub chat_id: i64,
    pub message_thread_id: Option<i32>,
    pub draft_id: i64,
    pub text: String,
    pub parse_mode: Option<ParseMode>,
    pub can_stop: Option<bool>,
    pub keep_on_stop: Option<bool>,
}

/// `sendRichMessageDraft` with `can_stop` / `keep_on_stop`.
#[derive(Debug)]
pub struct SendRichMessageDraftRaw {
    pub chat_id: i64,
    pub message_thread_id: Option<i32>,
    pub draft_id: i64,
    pub rich_message: InputRichMessageRaw,
    pub can_stop: Option<bool>,
    pub keep_on_stop: Option<bool>,
}

/// An optional integer as an optional JSON value.
pub open spec fn opt_int(n: Option<i32>) -> Option<json::JsonView> {
    match n {
        Some(x) => Some(json::int_value(x as int)),
        None => None,
    }
}

/// Ephemeral parameters as a JSON value.
pub open spec fn ephemeral_value(e: Option<EphemeralMessageParameters>) -> Option<json::JsonView> {
    match e {
        Some(p) => Some(
            json::FieldsView::none().with(
                "receiver_user_id"@,
                json::JsonView::Number(text::decimal(p.receiver_user_id as nat)),
            ).maybe(
                "callback_query_id"@,
                json::str_value(text::opt_view(p.callback_query_id)),
            ).maybe(
                "replace_callback_query_message"@,
                json::bool_value(p.replace_callback_query_message),
            ).object(),
        ),
        None => None,
    }
}

/// A parse mode as a JSON value.
pub open spec fn mode_value(m: Option<ParseMode>) -> Option<json::JsonView> {
    match m {
        Some(ParseMode::MarkdownV2) => Some(json::JsonView::Str("MarkdownV2"@)),
        None => None,
    }
}

/// Link options as a JSON value.
pub open spec fn preview_value(o: Option<LinkPreviewOptions>) -> Option<json::JsonView> {
    match o {
        Some(x) => Some(
            json::FieldsView::none().maybe("is_disabled"@, json::bool_value(x.is_disabled)).object(),
        ),
        None => None,
    }
}

/// The replied-to message as a JSON value.
pub open spec fn reply_value(r: Option<ReplyParameters>) -> Option<json::JsonView> {
    match r {
        Some(p) => Some(
            json::FieldsView::none().with("message_id"@, json::int_value(p.message_id as int)).with(
                "allow_sending_without_reply"@,
                json::JsonView::Bool(p.allow_sending_without_reply),
            ).object(),
        ),
        None => None,
    }
}

/// A button as a JSON value.
pub open spec fn button_value(b: Button) -> json::JsonView {
    json::FieldsView::none().with("text"@, json::JsonView::Str(b.text@)).with(
        "callback_data"@,
        json::JsonView::Str(b.callback_data@),
    ).object()
}

/// A row of buttons as a JSON value.
pub open spec fn row_value(row: Vec<Button>) -> json::JsonView {
    json::JsonView::Array(row@.map_values(|b: Button| button_value(b)))
}

/// Rows of buttons as a JSON value.
pub open spec fn keyboard_value(rows: Option<Vec<Vec<Button>>>) -> Option<json::JsonView> {
    match rows {
        Some(list) => Some(
            json::FieldsView::none().with(
                "inline_keyboard"@,
                json::JsonView::Array(list@.map_values(|r: Vec<Button>| row_value(r))),
            ).object(),
        ),
        None => None,
    }
}

/// The body of a rich message as a JSON value.
pub open spec fn rich_value(m: InputRichMessageRaw) -> json::JsonView {
    json::FieldsView::none().maybe(
        "markdown"@,
        json::str_value(text::opt_view(m.markdown)),
    ).maybe("html"@, json::str_value(text::opt_view(m.html))).object()
}

fn put_opt(f: &mut Fields, name: &str, value: Option<Json>)
    ensures
        final(f)@ == old(f)@.maybe(name@, json::opt_view(value)),
{
    match value {
        Some(v) => f.put(name, v),
        None => {},
    }
}

fn ephemeral_json(e: &Option<EphemeralMessageParameters>) -> (r: Option<Json>)
    ensures
        json::opt_view(r) == ephemeral_value(*e),
{
    match e {
        Some(p) => {
            let mut f = Fields::new();
            f.put("receiver_user_id", Json::Number(text::decimal_of(p.receiver_user_id)));
            f.put_opt_str("callback_query_id", &p.callback_query_id);
            f.put_opt_bool("replace_callback_query_message", p.replace_callback_query_message);
            Some(f.object())
        },
        None => None,
    }
}

fn mode_json(m: Option<ParseMode>) -> (r: Option<Json>)
    ensures
        json::opt_view(r) == mode_value(m),
{
    match m {
        Some(ParseMode::MarkdownV2) => Some(Json::Str("MarkdownV2".to_string())),
        None => None,
    }
}

fn preview_json(o: Option<LinkPreviewOptions>) -> (r: Option<Json>)
    ensures
        json::opt_view(r) == preview_value(o),
{
    match o {
        Some(x) => {
            let mut f = Fields::new();
            f.put_opt_bool("is_disabled", x.is_disabled);
            Some(f.object())
        },
        None => None,
    }
}

fn reply_json(p: Option<ReplyParameters>) -> (r: Option<Json>)
    ensures
        json::opt_view(r) == reply_value(p),
{
    match p {
        Some(x) => {
            let mut f = Fields::new();
            f.put_int("message_id", x.message_id as i64);
            f.put("allow_sending_without_reply", Json::Bool(x.allow_sending_without_reply));
            Some(f.object())
        },
        None => None,
    }
}

fn row_json(row: &Vec<Button>) -> (r: Json)
    ensures
        r@ == row_value(*row),
{
    let mut items: Vec<Json> = Vec::new();
    let mut i: usize = 0;
    while i < row.len()
        invariant
            i <= row@.len(),
            items@.len() == i,
            forall|k: int| 0 <= k < i ==> (#[trigger] items@[k])@ == button_value(row@[k]),
        decreases row@.len() - i,
    {
        let mut f = Fields::new();
        f.put_str("text", row[i].text.as_str());
        f.put_str("callback_data", row[i].callback_data.as_str());
        items.push(f.object());
        i = i + 1;
    }
    let r = Json::Array(items);
    assert(r@->Array_0 =~= row@.map_values(|b: Button| button_value(b)));
    r
}

/// Rows of buttons as a JSON value.
pub fn keyboard_json(rows: &Option<Vec<Vec<Button>>>) -> (r: Option<Json>)
    ensures
        json::opt_view(r) == keyboard_value(*rows),
{
    match rows {
        Some(list) => {
            let mut items: Vec<Json> = Vec::new();
            let mut i: usize = 0;
            while i < list.len()
                invariant
                    i <= list@.len(),
                    items@.len() == i,
                    forall|k: int| 0 <= k < i ==> (#[trigger] items@[k])@ == row_value(list@[k]),
                decreases list@.len() - i,
            {
                items.push(row_json(&list[i]));
                i = i + 1;
            }
            let all = Json::Array(items);
            assert(all@->Array_0 =~= list@.map_values(|r: Vec<Button>| row_value(r)));
            let mut f = Fields::new();
            f.put("inline_keyboard", all);
            Some(f.object())
        },
        None => None,
    }
}

fn rich_json(m: &InputRichMessageRaw) -> (r: Json)
    ensures
        r@ == rich_value(*m),
{
    let mut f = Fields::new();
    f.put_opt_str("markdown", &m.markdown);
    f.put_opt_str("html", &m.html);
    f.object()
}

impl SendMessageRaw {
    /// The parameters as a JSON value; what is not set is left out.
    pub open spec fn value(self) -> json::JsonView {
        json::FieldsView::none().with("chat_id"@, json::int_value(self.chat_id as int)).maybe(
            "message_thread_id"@,
            opt_int(self.message_thread_id),
        ).maybe(
            "business_connection_id"@,
            json::str_value(text::opt_view(self.business_connection_id)),
        ).with("text"@, json::JsonView::Str(self.text@)).maybe(
            "parse_mode"@,
            mode_value(self.parse_mode),
        ).maybe("link_preview_options"@, preview_value(self.link_preview_options)).maybe(
            "reply_parameters"@,
            reply_value(self.reply_parameters),
        ).maybe("reply_markup"@, keyboard_value(self.reply_markup)).maybe(
            "ephemeral_message_parameters"@,
            ephemeral_value(self.ephemeral_message_parameters),
        ).object()
    }

    /// The parameters as a JSON value.
    pub fn to_json(&self) -> (r: Json)
        ensures
            r@ == self.value(),
    {
        let mut f = Fields::new();
        f.put_int("chat_id", self.chat_id);
        f.put_opt_int("message_thread_id", self.message_thread_id);
        f.put_opt_str("business_connection_id", &self.business_connection_id);
        f.put_str("text", self.text.as_str());
        put_opt(&mut f, "parse_mode", mode_json(self.parse_mode));
        put_opt(&mut f, "link_preview_options", preview_json(self.link_preview_options));
        put_opt(&mut f, "reply_parameters", reply_json(self.reply_parameters));
        put_opt(&mut f, "reply_markup", keyboard_json(&self.reply_markup));
        put_opt(
            &mut f,
            "ephemeral_message_parameters",
            ephemeral_json(&self.ephemeral_message_parameters),
        );
        f.object()
    }
}

impl SendRichMessageRaw {
    /// The parameters as a JSON value; what is not set is left out.
    pub open spec fn value(self) -> json::JsonView {
        json::FieldsView::none().with("chat_id"@, json::int_value(self.chat_id as int)).maybe(
            "message_thread_id"@,
            opt_int(self.message_thread_id),
        ).maybe(
            "business_connection_id"@,
            json::str_value(text::opt_view(self.business_connection_id)),
        ).with("rich_message"@, rich_value(self.rich_message)).maybe(
            "reply_parameters"@,
            reply_value(self.reply_parameters),
        ).maybe("reply_markup"@, keyboard_value(self.reply_markup)).maybe(
            "ephemeral_message_parameters"@,
            ephemeral_value(self.ephemeral_message_parameters),
        ).object()
    }

    /// The parameters as a JSON value.
    pub fn to_json(&self) -> (r: Json)
        ensures
            r@ == self.value(),
    {
        let mut f = Fields::new();
        f.put_int("chat_id", self.chat_id);
        f.put_opt_int("message_thread_id", self.message_thread_id);
        f.put_opt_str("business_connection_id", &self.business_connection_id);
        f.put("rich_message", rich_json(&self.rich_message));
        put_opt(&mut f, "reply_parameters", reply_json(self.reply_parameters));
        put_opt(&mut f, "reply_markup", keyboard_json(&self.reply_markup));
        put_opt(
            &mut f,
            "ephemeral_message_parameters",
            ephemeral_json(&self.ephemeral_message_parameters),
        );
        f.object()
    }
}

impl SendMessageDraftRaw {
    /// The parameters as a JSON value; what is not set is left out.
    pub open spec fn value(self) -> json::JsonView {
        json::FieldsView::none().with("chat_id"@, json::int_value(self.chat_id as int)).maybe(
            "message_thread_id"@,
            opt_int(self.message_thread_id),
        ).with("draft_id"@, json::int_value(self.draft_id as int)).with(
            "text"@,
            json::JsonView::Str(self.text@),
        ).maybe("parse_mode"@, mode_value(self.parse_mode)).maybe(
            "can_stop"@,
            json::bool_value(self.can_stop),
        ).maybe("keep_on_stop"@, json::bool_value(self.keep_on_stop)).object()
    }

    /// The parameters as a JSON value.
    pub fn to_json(&self) -> (r: Json)
        ensures
            r@ == self.value(),
    {
        let mut f = Fields::new();
        f.put_int("chat_id", self.chat_id);
        f.put_opt_int("message_thread_id", self.message_thread_id);
        f.put_int("draft_id", self.draft_id);
        f.put_str("text", self.text.as_str());
        put_opt(&mut f, "parse_mode", mode_json(self.parse_mode));
        f.put_opt_bool("can_stop", self.can_stop);
        f.put_opt_bool("keep_on_stop", self.keep_on_stop);
        f.object()
    }
}

impl SendRichMessageDraftRaw {
    /// The parameters as a JSON value; what is not set is left out.
    pub open spec fn value(self) -> json::JsonView {
        json::FieldsView::none().with("chat_id"@, json::int_value(self.chat_id as int)).maybe(
            "message_thread_id"@,
            opt_int(self.message_thread_id),
        ).with("draft_id"@, json::int_value(self.draft_id as int)).with(
            "rich_message"@,
            rich_value(self.rich_message),
        ).maybe("can_stop"@, json::bool_value(self.can_stop)).maybe(
            "keep_on_stop"@,
            json::bool_value(self.keep_on_stop),
        ).object()
    }

    /// The parameters as a JSON value.
    pub fn to_json(&self) -> (r: Json)
        ensures
            r@ == self.value(),
    {
        let mut f = Fields::new();
        f.put_int("chat_id", self.chat_id);
        f.put_opt_int("message_thread_id", self.message_thread_id);
        f.put_int("draft_id", self.draft_id);
        f.put("rich_message", rich_json(&self.rich_message));
        f.put_opt_bool("can_stop", self.can_stop);
        f.put_opt_bool("keep_on_stop", self.keep_on_stop);
        f.object()
    }
}

/// Update payload for `stopped_message_generation`.
#[derive(Debug, Clone, Copy, PartialEq, Eq, Structural)]
pub struct MessageGenerationStopped {
    pub chat: Chat,
    pub message_thread_id: Option<i32>,
    pub draft_id: i64,
}

/// Every update type the bot asks Telegram for.
pub fn allowed_updates() -> (r: Vec<String>)
    ensures
        text::views(r@) == seq![
            "message"@,
            "edited_message"@,
            "business_connection"@,
            "business_message"@,
            "guest_message"@,
            "message_reaction"@,
            "inline_query"@,
            "callback_query"@,
            "my_chat_member"@,
            "stopped_message_generation"@,
        ],
{
    let mut r: Vec<String> = Vec::new();
    r.push("message".to_string());
    r.push("edited_message".to_string());
    r.push("business_connection".to_string());
    r.push("business_message".to_string());
    r.push("guest_message".to_string());
    r.push("message_reaction".to_string());
    r.push("inline_query".to_string());
    r.push("callback_query".to_string());
    r.push("my_chat_member".to_string());
    r.push("stopped_message_generation".to_string());
    assert(text::views(r@) =~= seq![
        "message"@,
        "edited_message"@,
        "business_connection"@,
        "business_message"@,
        "guest_message"@,
        "message_reaction"@,
        "inline_query"@,
        "callback_query"@,
        "my_chat_member"@,
        "stopped_message_generation"@,
    ]);
    r
}

/// A raw update, sorted.
#[derive(Debug)]
pub enum Incoming {
    /// One of the kinds with a model.
    Update(Json),
    /// The user stopped an answer.
    StoppedGeneration(MessageGenerationStopped),
    /// Anything else.
    Unknown(Json),
}

/// A sorted update as mathematical values.
pub ghost enum IncomingView {
    Update(json::JsonView),
    StoppedGeneration(MessageGenerationStopped),
    Unknown(json::JsonView),
}

impl View for Incoming {
    type V = IncomingView;

    open spec fn view(&self) -> IncomingView {
        match self {
            Incoming::Update(v) => IncomingView::Update(v@),
            Incoming::StoppedGeneration(s) => IncomingView::StoppedGeneration(*s),
            Incoming::Unknown(v) => IncomingView::Unknown(v@),
        }
    }
}

/// The number of an update; zero where it has none.
pub open spec fn update_number(v: json::JsonView) -> int {
    match json::int_of(json::field(v, "update_id"@)) {
        Some(n) => n as int,
        None => 0,
    }
}

/// What an update is: a stop where it has one that could be read, or else of a
/// modelled kind or not.
pub open spec fn sorted_update(
    v: json::JsonView,
    stopped: Option<MessageGenerationStopped>,
    modelled: bool,
) -> IncomingView {
    if json::field(v, "stopped_message_generation"@) is Some && stopped is Some {
        IncomingView::StoppedGeneration(stopped->0)
    } else if modelled {
        IncomingView::Update(v)
    } else {
        IncomingView::Unknown(v)
    }
}

/// Whether a text is the JSON of an update of a kind that frankenstein models.
pub uninterp spec fn modelled_update(data: Seq<char>) -> bool;

/// `serde_json::from_value` into `frankenstein::updates::Update`, of the value that
/// `serde_json::from_str` reads from a text: whether both succeed, which depends on
/// the text alone.
#[verifier::external_body]
fn is_modelled(data: &str) -> (r: bool)
    ensures
        r == modelled_update(data@),
{
    serde_json::from_str::<serde_json::Value>(data)
        .and_then(serde_json::from_value::<frankenstein::updates::Update>)
        .is_ok()
}

/// Reads and sorts the text of one raw update; none where it is not JSON. `stopped`
/// is its `stopped_message_generation` where that could be read.
pub fn read_update(data: &str, stopped: Option<MessageGenerationStopped>) -> (r: Option<
    (i64, Incoming),
>)
    ensures
        r is None <==> json::json_text(data@) is None,
        r matches Some(p) ==> {
            &&& p.0 == update_number(json::json_text(data@)->0)
            &&& p.1@ == sorted_update(json::json_text(data@)->0, stopped, modelled_update(data@))
        },
{
    match json::parse_json(data) {
        Some(v) => Some(parse_update(v, stopped, is_modelled(data))),
        None => None,
    }
}

/// Sorts one raw update object. `stopped` is its `stopped_message_generation`
/// where that could be read, `modelled` whether the whole is of a modelled kind.
pub fn parse_update(v: Json, stopped: Option<MessageGenerationStopped>, modelled: bool) -> (r: (
    i64,
    Incoming,
))
    ensures
        r.0 == (match json::int_of(json::field(v@, "update_id"@)) {
            Some(n) => n,
            None => 0,
        }),
        if json::field(v@, "stopped_message_generation"@) is Some && stopped is Some {
            r.1 == Incoming::StoppedGeneration(stopped->0)
        } else if modelled {
            r.1 == Incoming::Update(v)
        } else {
            r.1 == Incoming::Unknown(v)
        },
{
    let update_id: i64 = match v.int_at("update_id") {
        Some(n) => n,
        None => 0,
    };
    if v.get("stopped_message_generation").is_some() {
        match stopped {
            Some(s) => {
                return (update_id, Incoming::StoppedGeneration(s));
            },
            None => {},
        }
    }
    if modelled {
        (update_id, Incoming::Update(v))
    } else {
        (update_id, Incoming::Unknown(v))
    }
}

}
