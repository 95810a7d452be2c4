//! What the library's functions give back for what they are given, as laws over their
//! arguments and results.

use crate::config;
use crate::config::{BotConfig, Config, ConfigError, GroupMode};
use crate::docsgpt::client;
use crate::docsgpt::client::{DocsGpt, StreamRequest};
use crate::docsgpt::event_laws;
use crate::env_laws;
use crate::handlers::chat::{Ask, Delivery};
use crate::handlers::message::Route;
use crate::handlers::{attachments, business, chat, commands, draft, groups, guest, message};
use crate::handlers::{message_laws, process};
use crate::json;
use crate::json::Json;
use crate::storage::ChatScope;
use crate::telegram::api;
use crate::telegram::api::Target;
use crate::telegram::types::{ChatKind, EntityKind, Message};
use crate::telegram::{ratelimit, render};
use crate::text;
use crate::util;
use crate::wire_laws;
use vstd::prelude::*;

verus! {

/// The topic of a message is the one it was written in, in groups and private chats.
pub proof fn topics_are_told(msg: &Message, r: Option<i32>)
    requires
        call_ensures(groups::thread_id, (msg,), r),
    ensures
        msg.is_topic_message || msg.chat.kind == ChatKind::Private ==> r == msg.message_thread_id,
        !msg.is_topic_message && msg.chat.kind != ChatKind::Private ==> r is None,
{
}

/// A conversation and a reply belong to the topic of the message.
pub proof fn topics_are_followed(bot: &str, msg: &Message, topic: i32, s: ChatScope, t: Target)
    requires
        call_ensures(message::scope_for, (bot, msg), s),
        call_ensures(message::target_for, (msg,), t),
        msg.is_topic_message,
        msg.message_thread_id == Some(topic),
        msg.business_connection_id is None,
    ensures
        s.thread_id == topic,
        s.chat_id == msg.chat.id,
        s.bot@ == bot@,
        s.namespace is None,
        t.thread_id == Some(topic),
        t.chat_id == msg.chat.id,
{
    message_laws::topics_have_their_own_conversations(bot@, *msg, topic);
    assert(s@.thread_id == s.thread_id);
    assert(t@.thread_id == t.thread_id);
}

/// A file whose caption mentions the bot is let through, and so is a text that does.
pub proof fn mentions_are_let_through(
    msg: &Message,
    me: u64,
    username: &str,
    i: int,
    front: Seq<char>,
    name: Seq<char>,
    rest: Seq<char>,
    heard: bool,
    r: Option<String>,
)
    requires
        call_ensures(groups::addressed_to_bot, (msg, me, username), heard),
        call_ensures(groups::gate, (msg, GroupMode::Mention, me, username), r),
        username@.len() > 0,
        text::lower(name) == seq!['@'] + text::lower(username@),
    ensures
        msg.text is None && text::opt_view(msg.caption) == Some(front + name + rest) && 0 <= i
            < msg.caption_entities@.len() && msg.caption_entities@[i].kind == EntityKind::Mention
            && msg.caption_entities@[i].offset == groups::utf16(front).len()
            && msg.caption_entities@[i].length == groups::utf16(name).len() ==> heard && r is Some,
        text::opt_view(msg.text) == Some(front + name + rest) && 0 <= i < msg.entities@.len()
            && msg.entities@[i].kind == EntityKind::Mention && msg.entities@[i].offset
            == groups::utf16(front).len() && msg.entities@[i].length == groups::utf16(name).len()
            ==> heard && r is Some,
        msg.reply_author == Some(me) ==> heard && r is Some,
{
    if msg.text is None && text::opt_view(msg.caption) == Some(front + name + rest) && 0 <= i
        < msg.caption_entities@.len() && msg.caption_entities@[i].kind == EntityKind::Mention
        && msg.caption_entities@[i].offset == groups::utf16(front).len()
        && msg.caption_entities@[i].length == groups::utf16(name).len() {
        message_laws::mentions_in_captions_are_heard(
            *msg,
            i,
            front,
            name,
            rest,
            me,
            username@,
        );
    }
    if text::opt_view(msg.text) == Some(front + name + rest) && 0 <= i < msg.entities@.len()
        && msg.entities@[i].kind == EntityKind::Mention && msg.entities@[i].offset
        == groups::utf16(front).len() && msg.entities@[i].length == groups::utf16(name).len() {
        message_laws::mentions_in_texts_are_heard(*msg, i, front, name, rest, me, username@);
    }
}

/// A private chat's words are asked of a bot that serves it; a chat that it does not
/// serve is told so; and a bot's own settings decide both.
pub proof fn messages_are_routed(
    msg: &Message,
    cfg: &BotConfig,
    me: u64,
    username: &str,
    words: Seq<char>,
    r: Route,
)
    requires
        call_ensures(message::handle, (msg, cfg, me, username), r),
        msg.chat.kind == ChatKind::Private,
        msg.from matches Some(u) ==> !u.is_bot,
        text::opt_view(msg.text) == Some(words),
        !text::blank(words),
        words[0] != '/',
    ensures
        (cfg.allowed_chats@.len() == 0 || cfg.allowed_chats@.contains(msg.chat.id))
            && !attachments::carries_media(*msg) ==> r@ == message::RouteView::Ask(
            text::trim(words),
        ),
        cfg.allowed_chats@.len() > 0 && !cfg.allowed_chats@.contains(msg.chat.id) ==> r@
            == message::RouteView::Restricted,
{
    if cfg.allowed_chats@.len() == 0 || cfg.allowed_chats@.contains(msg.chat.id) {
        message_laws::private_words_are_questions(
            *msg,
            words,
            cfg.allowed_chats@,
            cfg.groups,
            me,
            username@,
        );
    }
}

/// A configuration from the environment has the server that `API_BASE` names, and the
/// token of `TELEGRAM_BOT_TOKEN`.
pub proof fn environments_are_read(
    env: &Vec<(String, String)>,
    r: Result<Config, ConfigError>,
    i: int,
    value: Seq<char>,
)
    requires
        call_ensures(config::from_env, (env,), r),
    ensures
        r matches Ok(c) ==> (env_laws::sets(config::env_views(env@), i, "API_BASE"@, value)
            ==> c.api_base@ == value) && (env_laws::unset(config::env_views(env@), "API_BASE"@)
            ==> c.api_base@ == "https://gptcloud.arc53.com"@) && c.bots@.len() == 1 && (
        env_laws::sets(config::env_views(env@), i, "TELEGRAM_BOT_TOKEN"@, value)
            ==> c.bots@[0].token@ == value),
{
    match r {
        Ok(c) => {
            let e = config::env_views(env@);
            env_laws::the_server_address_is_api_base(e, c@, i, value);
            env_laws::the_rest_is_usual(e, c@);
            if env_laws::sets(e, i, "TELEGRAM_BOT_TOKEN"@, value) {
                env_laws::the_token_is_the_bots(e, c@, i, value);
            }
            assert(c@.api_base == c.api_base@);
            assert(c@.bots.len() == c.bots@.len());
            assert(c@.bots[0] == c.bots@[0]@);
        },
        Err(_) => {},
    }
}

/// A bot reaches its own server where it has one, and the common one else.
pub proof fn bots_reach_their_server(bot: &BotConfig, global: &str, r: &str, own: Seq<char>)
    requires
        call_ensures(BotConfig::api_base, (bot, global), r),
    ensures
        text::opt_view(bot.api_base) == Some(own) ==> r@ == own,
        bot.api_base is None ==> r@ == global@,
{
}

/// A question to DocsGPT carries the words, the key of the agent that answers, the
/// conversation that goes on and the files.
pub proof fn requests_carry_the_question(a: &Ask, c: &Option<String>, r: StreamRequest)
    requires
        call_ensures(Ask::request, (a, c), r),
    ensures
        r.question@ == a.question@,
        r.api_key@ == a.agent.api_key@,
        text::opt_view(r.conversation_id) == text::opt_view(*c),
        text::views(r.attachments@) == text::views(a.attachments@),
{
}

/// A voice note is answered aloud as well where that was asked for: with the answer in
/// plain words, as far as they are spoken.
pub proof fn answers_are_spoken(a: &Ask, answer: &str, r: Option<String>)
    requires
        call_ensures(Ask::spoken, (a, answer), r),
    ensures
        a.voice_reply && !(a@.delivery is Guest) && render::plain_of(answer@).len() <= 1500
            ==> text::opt_view(r) == Some(render::plain_of(answer@)),
        !a.voice_reply ==> r is None,
        a@.delivery is Guest ==> r is None,
{
}

/// Voice answers are for audio, and for bots that are set to give them.
pub proof fn audio_is_answered_aloud(p: &process::Intake, cfg: &BotConfig, r: bool, u: bool)
    requires
        call_ensures(process::Intake::voice_reply, (p, cfg), r),
        call_ensures(process::Intake::shows_upload, (p,), u),
    ensures
        r <==> p@ is Voice && cfg.voice_replies,
        u <==> p@ is Files,
{
}

/// Files, business chats and guests are served where the bot's settings say so.
pub proof fn settings_switch_things_off(msg: &Message, cfg: &BotConfig, username: &str, m: attachments::MediaRoute, g: guest::GuestRoute, b: Option<String>)
    requires
        call_ensures(attachments::handle, (msg, cfg), m),
        call_ensures(guest::handle, (msg, cfg, username), g),
        call_ensures(business::needed_connection, (cfg, msg), b),
    ensures
        !cfg.attachments ==> m@ == attachments::MediaRouteView::Ignore || m@
            is Refuse,
        cfg.attachments ==> m@ is Album || m@ is Single,
        !cfg.guest ==> g@ == guest::GuestRouteView::Ignore,
        cfg.business ==> text::opt_view(b) == text::opt_view(msg.business_connection_id),
        !cfg.business ==> b is None,
{
}

/// A limit in megabytes is that many times a million bytes and a bit; a file is too
/// large above it, and not at it.
pub proof fn large_files_are_refused(
    mb: u64,
    max: u64,
    size: Option<u64>,
    n: u64,
    len: usize,
    r: Result<(), String>,
    s: Result<(), String>,
)
    requires
        call_ensures(attachments::max_bytes, (mb,), max),
        call_ensures(api::announced_size, (size, max), r),
        call_ensures(api::received_size, (len, max), s),
    ensures
        max == mb * 1_048_576,
        size == Some(n) ==> (r is Err <==> n > max),
        size is None ==> r is Ok,
        s is Err <==> len > max,
{
}

/// Downloads are taken up to fifty megabytes.
pub proof fn large_downloads_are_refused(have: usize, chunk: usize, r: bool)
    requires
        call_ensures(client::chunk_fits, (have, chunk), r),
    ensures
        r <==> have + chunk <= 50 * 1024 * 1024,
{
}

/// A caption is kept as far as Telegram takes it.
pub proof fn captions_are_kept(caption: Option<&str>, c: &str, r: Option<String>)
    requires
        call_ensures(api::caption_of, (caption,), r),
    ensures
        caption == Some(c) && c@.len() <= 1000 ==> text::opt_view(r) == Some(c@),
        caption is None ==> r is None,
        r matches Some(s) ==> s@.len() <= 1000,
{
}

/// The addresses of the Bot API: the token behind `bot`, and a file's path behind that.
pub proof fn api_addresses_are_built(root: &str, token: &str, path: &str, r: String, f: String)
    requires
        call_ensures(api::bot_url, (root, token), r),
        call_ensures(api::file_url, (root, token, path), f),
    ensures
        r@ == root@ + "/bot"@ + token@,
        f@ == root@ + "/file/bot"@ + token@ + "/"@ + path@,
{
}

/// The addresses of DocsGPT: a path behind the base, and a file by its id.
pub proof fn server_addresses_are_built(
    base: &str,
    path: &str,
    id: &str,
    d: &DocsGpt,
    r: String,
    a: String,
)
    requires
        call_ensures(DocsGpt::new, (base,), *d),
        call_ensures(DocsGpt::endpoint, (d, path), r),
        call_ensures(DocsGpt::artifact_url, (d, id), a),
        base@.len() > 0,
        base@.last() != '/',
    ensures
        r@ == base@ + path@,
        a@ == base@ + "/api/artifacts/"@ + id@ + "/download"@,
{
}

/// The request for updates asks for those that were not seen, of every kind.
pub proof fn updates_are_asked_for(offset: Option<i64>, secs: u32, n: i64, r: Json)
    requires
        call_ensures(api::get_updates_params, (offset, secs), r),
    ensures
        offset == Some(n) ==> json::field(r@, "offset"@) == Some(json::int_value(n as int)),
        json::field(r@, "timeout"@) == Some(json::int_value(secs as int)),
        json::field(r@, "allowed_updates"@) == Some(api::updates_value()),
{
    reveal_strlit("offset");
    reveal_strlit("timeout");
    reveal_strlit("limit");
    reveal_strlit("allowed_updates");
    assert("offset"@.len() == 6 && "timeout"@.len() == 7 && "limit"@.len() == 5
        && "allowed_updates"@.len() == 15);
    let f0 = json::FieldsView::none();
    let v1 = match offset {
        Some(k) => json::int_value(k as int),
        None => json::JsonView::Null,
    };
    let f1 = f0.with("offset"@, v1);
    let f2 = f1.with("timeout"@, json::int_value(secs as int));
    let f3 = f2.with("limit"@, json::int_value(100));
    assert forall|k: Seq<char>| true implies #[trigger] json::field(r@, k) == (if k == "offset"@ {
        Some(v1)
    } else if k == "timeout"@ {
        Some(json::int_value(secs as int))
    } else if k == "limit"@ {
        Some(json::int_value(100))
    } else if k == "allowed_updates"@ {
        Some(api::updates_value())
    } else {
        None
    }) by {
        wire_laws::added_fields_are_found(f0, "offset"@, v1, k);
        wire_laws::added_fields_are_found(f1, "timeout"@, json::int_value(secs as int), k);
        wire_laws::added_fields_are_found(f2, "limit"@, json::int_value(100), k);
        wire_laws::added_fields_are_found(f3, "allowed_updates"@, api::updates_value(), k);
    }
}

/// A webhook is set with its address, its secret and every kind of update.
pub proof fn webhooks_are_set(url: &str, secret: &str, r: Json)
    requires
        call_ensures(api::set_webhook_params, (url, secret), r),
    ensures
        event_laws::says(r@, "url"@, url@),
        event_laws::says(r@, "secret_token"@, secret@),
        json::field(r@, "allowed_updates"@) == Some(api::updates_value()),
{
    reveal_strlit("url");
    reveal_strlit("secret_token");
    reveal_strlit("allowed_updates");
    reveal_strlit("drop_pending_updates");
    assert("url"@.len() == 3 && "secret_token"@.len() == 12 && "allowed_updates"@.len() == 15
        && "drop_pending_updates"@.len() == 20);
    let f0 = json::FieldsView::none();
    let v1 = json::JsonView::Str(url@);
    let v2 = json::JsonView::Str(secret@);
    let v3 = api::updates_value();
    let v4 = json::JsonView::Bool(false);
    let f1 = f0.with("url"@, v1);
    let f2 = f1.with("secret_token"@, v2);
    let f3 = f2.with("allowed_updates"@, v3);
    assert forall|k: Seq<char>| true implies #[trigger] json::field(r@, k) == (if k == "url"@ {
        Some(v1)
    } else if k == "secret_token"@ {
        Some(v2)
    } else if k == "allowed_updates"@ {
        Some(v3)
    } else if k == "drop_pending_updates"@ {
        Some(v4)
    } else {
        None
    }) by {
        wire_laws::added_fields_are_found(f0, "url"@, v1, k);
        wire_laws::added_fields_are_found(f1, "secret_token"@, v2, k);
        wire_laws::added_fields_are_found(f2, "allowed_updates"@, v3, k);
        wire_laws::added_fields_are_found(f3, "drop_pending_updates"@, v4, k);
    }
}

/// Drafts are known by their chat, their topic and their own number.
pub proof fn drafts_have_keys(chat_id: i64, thread: Option<i32>, id: i64, t: i32, r: (i64, i32, i64))
    requires
        call_ensures(draft::draft_key, (chat_id, thread, id), r),
    ensures
        thread == Some(t) ==> r == (chat_id, t, id),
        thread is None ==> r == (chat_id, 0i32, id),
{
}

/// A draft is shown when something changed: at once where that was asked for, and else
/// in its turn.
pub proof fn drafts_are_flushed(d: &draft::DraftState, dirty: bool, now: bool, at: u64, r: bool)
    requires
        call_ensures(draft::DraftState::wants_flush, (d, dirty, now, at), r),
    ensures
        !dirty ==> !r,
        dirty && now ==> r,
        dirty && d.last_flush is None ==> r,
        dirty && !now && d.last_flush is Some ==> (r <==> at - d.last_flush->0 >= 500),
{
}

/// An answer is a live draft in private chats where streaming is on.
pub proof fn deliveries_are_chosen(msg: &Message, streaming: bool, r: Delivery)
    requires
        call_ensures(chat::delivery_for, (msg, streaming), r),
    ensures
        r@ == chat::DeliveryView::Draft <==> (msg.chat.kind == ChatKind::Private
            && msg.business_connection_id is None && streaming),
        !(r@ is Guest),
{
}

/// The commands whose answer has to do with the chat's state are those that name the
/// agent, clear its conversation or ask again.
pub proof fn states_are_read_where_needed(cmd: &commands::Command, r: bool)
    requires
        call_ensures(commands::needs_state, (cmd,), r),
    ensures
        cmd@ is Start || cmd@ is Agents || cmd@ is ShowAgent || cmd@ is New || cmd@ is Regenerate
            ==> r,
        cmd@ is Help || cmd@ is SwitchAgent || cmd@ is UnknownAgent || cmd@ is Other ==> !r,
{
}

/// Limits are off where they are switched off, and only there.
pub proof fn limits_are_switched_off(setting: Option<&str>, s: &str, r: bool)
    requires
        call_ensures(ratelimit::disabled, (setting,), r),
    ensures
        setting == Some(s) ==> (r <==> s@ == "off"@ || s@ == "0"@),
        setting is None ==> !r,
{
}

/// A draft's number is positive and fits where Telegram keeps it; only what comes to
/// zero gives none.
pub proof fn draft_numbers_are_positive(word: u32, r: Option<i64>)
    requires
        call_ensures(util::draft_id_of, (word,), r),
    ensures
        r matches Some(id) ==> 0 < id < 0x8000_0000 && id == word % 0x8000_0000,
        r is None <==> word % 0x8000_0000 == 0,
{
}

/// What is configured where nothing is said: the public server, SQLite, polling,
/// mentions in groups, and everything switched on.
pub proof fn defaults_are_usual(
    base: String,
    backend: config::Backend,
    path: String,
    db: String,
    own: String,
    older: String,
    bind: String,
    mode: config::Mode,
    mentions: GroupMode,
    on: bool,
    mb: u64,
)
    requires
        call_ensures(config::default_api_base, (), base),
        call_ensures(config::default_backend, (), backend),
        call_ensures(config::default_sqlite_path, (), path),
        call_ensures(config::default_db_name, (), db),
        call_ensures(config::default_collection, (), own),
        call_ensures(config::default_legacy_collection, (), older),
        call_ensures(config::default_bind, (), bind),
        call_ensures(config::default_mode, (), mode),
        call_ensures(config::default_group_mode, (), mentions),
        call_ensures(config::default_true, (), on),
        call_ensures(config::default_max_file_mb, (), mb),
    ensures
        base@ == "https://gptcloud.arc53.com"@,
        backend == config::Backend::Sqlite,
        path@ == "data/docsgpt-telegram.db"@,
        db@ == "telegram_bot_memory"@,
        own@ == "telegram_bot_state"@,
        older@ == "chat_histories"@,
        bind@ == "0.0.0.0:8080"@,
        mode == config::Mode::Polling,
        mentions == GroupMode::Mention,
        on,
        mb == 20,
{
}

/// An inline query is answered where that is switched on and the query is a finished
/// question; until then it gets a hint.
pub proof fn inline_queries_are_answered(
    cfg: &BotConfig,
    raw: &str,
    r: crate::handlers::inline::InlineStep,
)
    requires
        call_ensures(crate::handlers::inline::handle, (cfg, raw), r),
    ensures
        !cfg.inline ==> r is Ignore,
        cfg.inline && text::trim(raw@).len() >= 3 && text::trim(raw@).last() == '?' ==> r is Ask,
        cfg.inline && text::trim(raw@).len() >= 3 && text::trim(raw@).last() != '?' ==> (
        r matches crate::handlers::inline::InlineStep::Show(v) && v@.len() == 1),
        cfg.inline && text::trim(raw@).len() < 3 ==> (
        r matches crate::handlers::inline::InlineStep::Show(v) && v@.len() == 0),
{
    match r {
        crate::handlers::inline::InlineStep::Show(v) => {
            assert(crate::handlers::inline::article_views(v@).len() == v@.len());
        },
        _ => {},
    }
}

} // verus!
