//! Calling the Bot API: where replies go, what is retried, what is too large.

use crate::json;
use crate::json::{Fields, Json};
use crate::storage;
use crate::telegram::raw;
use crate::telegram::raw::{
    Button, EphemeralMessageParameters, InputRichMessageRaw, LinkPreviewOptions, ParseMode,
    ReplyParameters, SendMessageDraftRaw, SendMessageRaw, SendRichMessageDraftRaw,
    SendRichMessageRaw,
};
use crate::text;
use crate::util;
use vstd::prelude::*;

verus! {

/// Where a reply goes.
#[derive(Debug)]
pub struct Target {
    pub chat_id: i64,
    pub thread_id: Option<i32>,
    pub business_connection_id: Option<String>,
    pub reply_to: Option<i32>,
    /// Deliver only to this user (groups), optionally tied to a callback query.
    pub ephemeral: Option<EphemeralMessageParameters>,
}

/// A delivery to one user only, as mathematical values.
pub ghost struct EphemeralView {
    pub receiver_user_id: u64,
    pub callback_query_id: Option<Seq<char>>,
    pub replace_callback_query_message: Option<bool>,
}

impl View for EphemeralMessageParameters {
    type V = EphemeralView;

    open spec fn view(&self) -> EphemeralView {
        EphemeralView {
            receiver_user_id: self.receiver_user_id,
            callback_query_id: text::opt_view(self.callback_query_id),
            replace_callback_query_message: self.replace_callback_query_message,
        }
    }
}

/// A target as mathematical values.
pub ghost struct TargetView {
    pub chat_id: i64,
    pub thread_id: Option<i32>,
    pub business_connection_id: Option<Seq<char>>,
    pub reply_to: Option<i32>,
    /// The one user who sees the reply, and how it is tied to a callback query.
    pub only_for: Option<EphemeralView>,
}

impl View for Target {
    type V = TargetView;

    open spec fn view(&self) -> TargetView {
        TargetView {
            chat_id: self.chat_id,
            thread_id: self.thread_id,
            business_connection_id: text::opt_view(self.business_connection_id),
            reply_to: self.reply_to,
            only_for: match self.ephemeral {
                Some(e) => Some(e@),
                None => None,
            },
        }
    }
}

impl Clone for EphemeralMessageParameters {
    fn clone(&self) -> (r: EphemeralMessageParameters)
        ensures
            r@ == self@,
    {
        EphemeralMessageParameters {
            receiver_user_id: self.receiver_user_id,
            callback_query_id: text::copy_opt(&self.callback_query_id),
            replace_callback_query_message: self.replace_callback_query_message,
        }
    }
}

impl Clone for Target {
    fn clone(&self) -> (r: Target)
        ensures
            r@ == self@,
            raw::ephemeral_value(r.ephemeral) == raw::ephemeral_value(self.ephemeral),
    {
        Target {
            chat_id: self.chat_id,
            thread_id: self.thread_id,
            business_connection_id: text::copy_opt(&self.business_connection_id),
            reply_to: self.reply_to,
            ephemeral: match &self.ephemeral {
                Some(e) => Some(e.clone()),
                None => None,
            },
        }
    }
}

impl Target {
    /// A chat, and nothing more.
    pub fn chat(chat_id: i64) -> (r: Target)
        ensures
            r@ == (TargetView {
                chat_id,
                thread_id: None,
                business_connection_id: None,
                reply_to: None,
                only_for: None,
            }),
            r.ephemeral is None,
    {
        Target {
            chat_id,
            thread_id: None,
            business_connection_id: None,
            reply_to: None,
            ephemeral: None,
        }
    }

    /// The replied-to message; the reply is sent even where that is gone.
    pub open spec fn reply_of(self) -> Option<ReplyParameters> {
        match self.reply_to {
            Some(id) => Some(
                ReplyParameters { message_id: id, allow_sending_without_reply: true },
            ),
            None => None,
        }
    }

    fn reply_parameters(&self) -> (r: Option<ReplyParameters>)
        ensures
            r == self.reply_of(),
    {
        match self.reply_to {
            Some(id) => Some(
                ReplyParameters { message_id: id, allow_sending_without_reply: true },
            ),
            None => None,
        }
    }

    /// The parameters of `sendMessage`, with link previews off.
    pub open spec fn message_value(
        self,
        words: Seq<char>,
        mode: Option<ParseMode>,
        markup: Option<Vec<Vec<Button>>>,
    ) -> json::JsonView {
        json::FieldsView::none().with("chat_id"@, json::int_value(self.chat_id as int)).maybe(
            "message_thread_id"@,
            raw::opt_int(self.thread_id),
        ).maybe(
            "business_connection_id"@,
            json::str_value(text::opt_view(self.business_connection_id)),
        ).with("text"@, json::JsonView::Str(words)).maybe(
            "parse_mode"@,
            raw::mode_value(mode),
        ).maybe(
            "link_preview_options"@,
            raw::preview_value(Some(LinkPreviewOptions { is_disabled: Some(true) })),
        ).maybe("reply_parameters"@, raw::reply_value(self.reply_of())).maybe(
            "reply_markup"@,
            raw::keyboard_value(markup),
        ).maybe(
            "ephemeral_message_parameters"@,
            raw::ephemeral_value(self.ephemeral),
        ).object()
    }

    /// The parameters of `sendMessage` for this target.
    pub fn message_params(
        &self,
        words: &str,
        mode: Option<ParseMode>,
        markup: Option<Vec<Vec<Button>>>,
    ) -> (r: Json)
        ensures
            r@ == self.message_value(words@, mode, markup),
    {
        let to = self.clone();
        let params = SendMessageRaw {
            chat_id: to.chat_id,
            message_thread_id: to.thread_id,
            business_connection_id: to.business_connection_id,
            text: words.to_string(),
            parse_mode: mode,
            link_preview_options: Some(LinkPreviewOptions { is_disabled: Some(true) }),
            reply_parameters: self.reply_parameters(),
            reply_markup: markup,
            ephemeral_message_parameters: to.ephemeral,
        };
        params.to_json()
    }

    /// The parameters of `sendRichMessage`.
    pub open spec fn rich_params_value(
        self,
        markdown: Seq<char>,
        markup: Option<Vec<Vec<Button>>>,
    ) -> json::JsonView {
        json::FieldsView::none().with("chat_id"@, json::int_value(self.chat_id as int)).maybe(
            "message_thread_id"@,
            raw::opt_int(self.thread_id),
        ).maybe(
            "business_connection_id"@,
            json::str_value(text::opt_view(self.business_connection_id)),
        ).with("rich_message"@, rich_markdown(markdown)).maybe(
            "reply_parameters"@,
            raw::reply_value(self.reply_of()),
        ).maybe("reply_markup"@, raw::keyboard_value(markup)).maybe(
            "ephemeral_message_parameters"@,
            raw::ephemeral_value(self.ephemeral),
        ).object()
    }

    /// The parameters of `sendRichMessage` for this target.
    pub fn rich_params(&self, markdown: &str, markup: Option<Vec<Vec<Button>>>) -> (r: Json)
        ensures
            r@ == self.rich_params_value(markdown@, markup),
    {
        let to = self.clone();
        let params = SendRichMessageRaw {
            chat_id: to.chat_id,
            message_thread_id: to.thread_id,
            business_connection_id: to.business_connection_id,
            rich_message: InputRichMessageRaw {
                markdown: Some(markdown.to_string()),
                html: None,
            },
            reply_parameters: self.reply_parameters(),
            reply_markup: markup,
            ephemeral_message_parameters: to.ephemeral,
        };
        params.to_json()
    }
}

/// A rich message of markdown.
pub open spec fn rich_markdown(markdown: Seq<char>) -> json::JsonView {
    json::FieldsView::none().with("markdown"@, json::JsonView::Str(markdown)).object()
}

/// The parameters of `sendMessageDraft`: the user may stop it, and keeps what
/// is there then.
pub fn draft_params(
    chat_id: i64,
    thread_id: Option<i32>,
    draft_id: i64,
    words: &str,
    can_stop: bool,
) -> (r: Json)
    ensures
        r@ == json::FieldsView::none().with("chat_id"@, json::int_value(chat_id as int)).maybe(
            "message_thread_id"@,
            raw::opt_int(thread_id),
        ).with("draft_id"@, json::int_value(draft_id as int)).with(
            "text"@,
            json::JsonView::Str(words@),
        ).with("can_stop"@, json::JsonView::Bool(can_stop)).with(
            "keep_on_stop"@,
            json::JsonView::Bool(true),
        ).object(),
{
    let params = SendMessageDraftRaw {
        chat_id,
        message_thread_id: thread_id,
        draft_id,
        text: words.to_string(),
        parse_mode: None,
        can_stop: Some(can_stop),
        keep_on_stop: Some(true),
    };
    params.to_json()
}

/// The parameters of `sendRichMessageDraft`.
pub fn rich_draft_params(
    chat_id: i64,
    thread_id: Option<i32>,
    draft_id: i64,
    markdown: &str,
    can_stop: bool,
) -> (r: Json)
    ensures
        r@ == json::FieldsView::none().with("chat_id"@, json::int_value(chat_id as int)).maybe(
            "message_thread_id"@,
            raw::opt_int(thread_id),
        ).with("draft_id"@, json::int_value(draft_id as int)).with(
            "rich_message"@,
            rich_markdown(markdown@),
        ).with("can_stop"@, json::JsonView::Bool(can_stop)).with(
            "keep_on_stop"@,
            json::JsonView::Bool(true),
        ).object(),
{
    let params = SendRichMessageDraftRaw {
        chat_id,
        message_thread_id: thread_id,
        draft_id,
        rich_message: InputRichMessageRaw { markdown: Some(markdown.to_string()), html: None },
        can_stop: Some(can_stop),
        keep_on_stop: Some(true),
    };
    params.to_json()
}

/// The list of update types as a JSON value.
fn updates_json() -> (r: Json)
    ensures
        r@ == updates_value(),
{
    let names = raw::allowed_updates();
    let mut items: Vec<Json> = Vec::new();
    let mut i: usize = 0;
    while i < names.len()
        invariant
            i <= names@.len(),
            items@.len() == i,
            forall|k: int|
                0 <= k < i ==> (#[trigger] items@[k])@ == json::JsonView::Str(
                    text::views(names@)[k],
                ),
        decreases names@.len() - i,
    {
        items.push(Json::Str(names[i].as_str().to_string()));
        i = i + 1;
    }
    let r = Json::Array(items);
    assert(r@->Array_0 =~= updates_value()->Array_0);
    r
}

/// The list of update types as a JSON value.
pub open spec fn updates_value() -> json::JsonView {
    json::JsonView::Array(
        seq![
            "message"@,
            "edited_message"@,
            "business_connection"@,
            "business_message"@,
            "guest_message"@,
            "message_reaction"@,
            "inline_query"@,
            "callback_query"@,
            "my_chat_member"@,
            "stopped_message_generation"@,
        ].map_values(|s: Seq<char>| json::JsonView::Str(s)),
    )
}

/// The parameters of `getUpdates`: a hundred at a time.
pub fn get_updates_params(offset: Option<i64>, timeout_secs: u32) -> (r: Json)
    ensures
        r@ == json::FieldsView::none().with(
            "offset"@,
            match offset {
                Some(n) => json::int_value(n as int),
                None => json::JsonView::Null,
            },
        ).with("timeout"@, json::int_value(timeout_secs as int)).with(
            "limit"@,
            json::int_value(100),
        ).with("allowed_updates"@, updates_value()).object(),
{
    let mut f = Fields::new();
    match offset {
        Some(n) => f.put_int("offset", n),
        None => f.put("offset", Json::Null),
    }
    f.put_int("timeout", timeout_secs as i64);
    f.put_int("limit", 100);
    f.put("allowed_updates", updates_json());
    f.object()
}

/// The parameters of `setWebhook`: pending updates are kept.
pub fn set_webhook_params(url: &str, secret: &str) -> (r: Json)
    ensures
        r@ == json::FieldsView::none().with("url"@, json::JsonView::Str(url@)).with(
            "secret_token"@,
            json::JsonView::Str(secret@),
        ).with("allowed_updates"@, updates_value()).with(
            "drop_pending_updates"@,
            json::JsonView::Bool(false),
        ).object(),
{
    let mut f = Fields::new();
    f.put_str("url", url);
    f.put_str("secret_token", secret);
    f.put("allowed_updates", updates_json());
    f.put("drop_pending_updates", Json::Bool(false));
    f.object()
}

/// The parameters of `editMessageText`.
pub fn edit_params(
    chat_id: i64,
    message_id: i32,
    words: &str,
    mode: Option<ParseMode>,
    markup: Option<Vec<Vec<Button>>>,
) -> (r: Json)
    ensures
        r@ == json::FieldsView::none().with("chat_id"@, json::int_value(chat_id as int)).with(
            "message_id"@,
            json::int_value(message_id as int),
        ).with("text"@, json::JsonView::Str(words@)).maybe(
            "parse_mode"@,
            raw::mode_value(mode),
        ).maybe("reply_markup"@, raw::keyboard_value(markup)).object(),
{
    let mut f = Fields::new();
    f.put_int("chat_id", chat_id);
    f.put_int("message_id", message_id as i64);
    f.put_str("text", words);
    match mode {
        Some(ParseMode::MarkdownV2) => f.put_str("parse_mode", "MarkdownV2"),
        None => {},
    }
    match raw::keyboard_json(&markup) {
        Some(k) => f.put("reply_markup", k),
        None => {},
    }
    f.object()
}

/// The Bot API root: the one given, without a slash at its end, unless it is
/// blank.
pub open spec fn root_of(given: Option<Seq<char>>) -> Seq<char> {
    match given {
        Some(s) => if text::blank(s) {
            "https://api.telegram.org"@
        } else {
            text::drop_back(s, '/')
        },
        None => "https://api.telegram.org"@,
    }
}

/// Bot API root: `TELEGRAM_API_URL` lets you point at a local Bot API server or a mock.
pub fn api_root(given: &Option<String>) -> (r: String)
    ensures
        r@ == root_of(text::opt_view(*given)),
{
    match given {
        Some(s) => {
            if text::is_blank(s.as_str()) {
                "https://api.telegram.org".to_string()
            } else {
                text::dropped_back(s.as_str(), '/')
            }
        },
        None => "https://api.telegram.org".to_string(),
    }
}

/// The address that a bot's methods are called under.
pub fn bot_url(root: &str, token: &str) -> (r: String)
    ensures
        r@ == root@ + "/bot"@ + token@,
{
    let mut r: String = root.to_string();
    r.append("/bot");
    r.append(token);
    r
}

/// The address that a file is downloaded from.
pub fn file_url(root: &str, token: &str, path: &str) -> (r: String)
    ensures
        r@ == root@ + "/file/bot"@ + token@ + "/"@ + path@,
{
    let mut r: String = root.to_string();
    r.append("/file/bot");
    r.append(token);
    r.append("/");
    r.append(path);
    r
}

/// How a call failed.
#[derive(Debug, Clone, Copy, PartialEq, Eq, Structural)]
pub enum CallFailure {
    /// Telegram refused it with this code, and may say how many seconds to wait.
    Api { code: u64, retry_after: Option<u16> },
    /// No reply came through.
    Network,
    /// Anything else.
    Other,
}

/// The failures after which a call is tried again.
pub const MAX_RETRIES: u32 = 3;

/// The pause before a failed call is tried again, in milliseconds; none where it
/// is given up. `attempt` counts the calls so far.
pub open spec fn pause_before_retry(failure: CallFailure, attempt: int) -> Option<int> {
    if attempt > MAX_RETRIES {
        None
    } else {
        match failure {
            CallFailure::Api { code, retry_after } => if code == 429 {
                let wait = match retry_after {
                    Some(w) => w as int,
                    None => 2,
                };
                Some(
                    1000 * (if wait < 30 {
                        wait
                    } else {
                        30
                    }),
                )
            } else if code >= 500 {
                Some(500 * attempt)
            } else {
                None
            },
            CallFailure::Network => Some(700 * attempt),
            CallFailure::Other => None,
        }
    }
}

/// Decides whether and when a failed call is tried again.
pub fn retry_pause(failure: CallFailure, attempt: u32) -> (r: Option<u64>)
    ensures
        (match r {
            Some(ms) => Some(ms as int),
            None => None,
        }) == pause_before_retry(failure, attempt as int),
{
    if attempt > MAX_RETRIES {
        return None;
    }
    match failure {
        CallFailure::Api { code, retry_after } => {
            if code == 429 {
                let wait: u64 = match retry_after {
                    Some(w) => w as u64,
                    None => 2,
                };
                Some(
                    1000 * (if wait < 30 {
                        wait
                    } else {
                        30
                    }),
                )
            } else if code >= 500 {
                Some(500 * (attempt as u64))
            } else {
                None
            }
        },
        CallFailure::Network => Some(700 * (attempt as u64)),
        CallFailure::Other => None,
    }
}

/// Whether Telegram found fault with the request itself.
pub fn is_bad_request(code: Option<u64>) -> (r: bool)
    ensures
        r == (code == Some(400u64)),
{
    match code {
        Some(c) => c == 400,
        None => false,
    }
}

/// The words for a file that is announced too large.
pub open spec fn oversize_words(size: nat, max: nat) -> Seq<char> {
    "file is "@ + text::decimal(size / 1024 / 1024) + " MB; the limit is "@ + text::decimal(
        max / 1024 / 1024,
    ) + " MB"@
}

/// Checks the size that Telegram announces for a file.
pub fn announced_size(size: Option<u64>, max_bytes: u64) -> (r: Result<(), String>)
    ensures
        match size {
            Some(n) => if n > max_bytes {
                r matches Err(e) && e@ == oversize_words(n as nat, max_bytes as nat)
            } else {
                r is Ok
            },
            None => r is Ok,
        },
{
    match size {
        Some(n) => {
            if n > max_bytes {
                let mut e: String = "file is ".to_string();
                e.append(text::decimal_of(n / 1024 / 1024).as_str());
                e.append(" MB; the limit is ");
                e.append(text::decimal_of(max_bytes / 1024 / 1024).as_str());
                e.append(" MB");
                return Err(e);
            }
        },
        None => {},
    }
    Ok(())
}

/// Checks the size of a file that was downloaded.
pub fn received_size(len: usize, max_bytes: u64) -> (r: Result<(), String>)
    ensures
        if len > max_bytes {
            r matches Err(e) && e@ == "file exceeds "@ + text::decimal(
                max_bytes as nat / 1024 / 1024,
            ) + " MB"@
        } else {
            r is Ok
        },
{
    if len as u64 > max_bytes {
        let mut e: String = "file exceeds ".to_string();
        e.append(text::decimal_of(max_bytes / 1024 / 1024).as_str());
        e.append(" MB");
        return Err(e);
    }
    Ok(())
}

/// The most characters of a caption.
pub const CAPTION_LIMIT: usize = 1000;

/// A caption as it is sent.
pub fn caption_of(caption: Option<&str>) -> (r: Option<String>)
    ensures
        text::opt_view(r) == (match caption {
            Some(c) => Some(util::truncated(c@, CAPTION_LIMIT as nat)),
            None => None,
        }),
{
    match caption {
        Some(c) => Some(util::truncate_chars(c, CAPTION_LIMIT)),
        None => None,
    }
}

/// A call is made at most four times, and waits at most half a minute between
/// two of them.
pub proof fn retries_are_bounded(failure: CallFailure, attempt: int)
    requires
        attempt >= 1,
    ensures
        attempt > MAX_RETRIES ==> pause_before_retry(failure, attempt) is None,
        pause_before_retry(failure, attempt) matches Some(ms) ==> 0 <= ms <= 30_000,
{
}

}
