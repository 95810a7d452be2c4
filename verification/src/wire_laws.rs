//! What goes over the wire and what is made of it, as laws over requests, replies and
//! configured texts.

use crate::app;
use crate::config;
use crate::config::ConfigSource;
use crate::docsgpt::event_laws;
use crate::handlers::commands;
use crate::json;
use crate::telegram::api::{CallFailure, Target};
use crate::telegram::raw::{ParseMode, ReplyParameters};
use crate::telegram::ratelimit::Kind;
use crate::telegram::runtime::PollState;
use crate::telegram::webhook::Verdict;
use crate::telegram::{api, ratelimit, raw, webhook};
use crate::text;
use vstd::prelude::*;

verus! {

/// A webhook call is taken where it brings the secret and its bot is served; the secret
/// is judged first.
pub proof fn webhook_calls_are_judged(provided: Option<&str>, secret: &str, known: bool, r: Verdict)
    requires
        call_ensures(webhook::judge, (provided, secret, known), r),
    ensures
        provided matches Some(p) ==> (p@ == secret@ && known ==> r == Verdict::Accepted) && (p@
            == secret@ && !known ==> r == Verdict::NotFound) && (p@ != secret@ ==> r
            == Verdict::Unauthorized),
        provided is None && secret@.len() > 0 ==> r == Verdict::Unauthorized,
        Verdict::Accepted.status() == 200,
        Verdict::Unauthorized.status() == 401,
        Verdict::NotFound.status() == 404,
{
}

/// The address of a bot's webhook is the public one with the bot's name behind it, with
/// one slash between them.
pub proof fn webhooks_have_addresses(public: &str, bot: &str, r: String)
    requires
        call_ensures(webhook::webhook_url, (public, bot), r),
        public@.len() > 0,
        public@.last() != '/',
    ensures
        r@ == public@ + "/webhook/"@ + bot@,
{
}

/// A configuration file that is named goes first, then the one that a variable names,
/// then the one at hand, and the environment alone last.
pub proof fn configurations_are_looked_for(
    explicit: bool,
    variable: bool,
    file: bool,
    r: ConfigSource,
)
    requires
        call_ensures(config::config_source, (explicit, variable, file), r),
    ensures
        explicit ==> r == ConfigSource::Explicit,
        !explicit && variable ==> r == ConfigSource::Variable,
        !explicit && !variable && file ==> r == ConfigSource::WorkingDirectory,
        !explicit && !variable && !file ==> r == ConfigSource::Environment,
{
}

/// Every command of the menus is one that the bot knows, and the menus name the agents
/// where there are several.
pub proof fn menus_name_known_commands(
    agents: Seq<config::AgentView>,
    multi: bool,
    args: Seq<char>,
    i: int,
)
    ensures
        0 <= i < app::private_menu(multi).len() ==> commands::meaning(
            agents,
            app::private_menu(multi)[i].command,
            args,
        ) != commands::CommandView::Other,
        0 <= i < app::group_menu(multi).len() ==> commands::meaning(
            agents,
            app::group_menu(multi)[i].command,
            args,
        ) != commands::CommandView::Other,
        app::private_menu(false).len() == 3,
        app::private_menu(true).len() == 5,
        app::group_menu(false).len() == 2,
        app::group_menu(true).len() == 4,
        app::private_menu(multi)[0].command == "start"@,
        app::private_menu(multi)[1].command == "new"@,
        app::private_menu(multi)[2].command == "help"@,
        app::private_menu(true)[3].command == "agents"@,
        app::private_menu(true)[4].command == "agent"@,
        app::group_menu(multi)[0].command == "new"@,
        app::group_menu(multi)[1].command == "help"@,
        app::group_menu(true)[2].command == "agents"@,
        app::group_menu(true)[3].command == "agent"@,
        app::group_menu(multi)[1].ephemeral,
        app::group_menu(true)[2].ephemeral,
        !app::group_menu(multi)[0].ephemeral,
{
    crate::handlers::ask_laws::commands_have_meanings(agents, args, args);
}

/// Messages to one chat are a second apart, drafts less than half of that, and lighter
/// calls less again; without limits nothing waits.
pub proof fn calls_have_gaps(t: u64, now: u64, kind: Kind)
    ensures
        ratelimit::gap_of(Kind::Message, false) == 1_000_000_000,
        ratelimit::gap_of(Kind::Draft, false) == 450_000_000,
        ratelimit::gap_of(Kind::Light, false) == 150_000_000,
        ratelimit::gap_of(kind, true) == 0,
        ratelimit::next_slot(None, ratelimit::gap_of(kind, false), now) == now,
        t <= 1_000_000_000_000_000_000 && now <= t ==> ratelimit::next_slot(
            Some(t),
            ratelimit::gap_of(Kind::Message, false),
            now,
        ) == t + 1_000_000_000,
        t <= now && now - t >= 1_000_000_000 ==> ratelimit::next_slot(
            Some(t),
            ratelimit::gap_of(kind, false),
            now,
        ) == now,
{
}

/// A call that is told to wait waits so long, up to half a minute; server and network
/// failures wait longer each time; other refusals, and a fourth failure, are final.
pub proof fn failed_calls_are_retried(code: u64, wait: u16, attempt: int, failure: CallFailure)
    requires
        1 <= attempt <= 3,
    ensures
        wait <= 30 ==> api::pause_before_retry(
            CallFailure::Api { code: 429, retry_after: Some(wait) },
            attempt,
        ) == Some(1000 * wait as int),
        wait > 30 ==> api::pause_before_retry(
            CallFailure::Api { code: 429, retry_after: Some(wait) },
            attempt,
        ) == Some(30_000int),
        api::pause_before_retry(
            CallFailure::Api { code: 429, retry_after: None },
            attempt,
        ) == Some(2_000int),
        code >= 500 ==> api::pause_before_retry(
            CallFailure::Api { code, retry_after: None },
            attempt,
        ) == Some(500 * attempt),
        code < 500 && code != 429 ==> api::pause_before_retry(
            CallFailure::Api { code, retry_after: None },
            attempt,
        ) is None,
        api::pause_before_retry(CallFailure::Network, attempt) == Some(700 * attempt),
        api::pause_before_retry(CallFailure::Other, attempt) is None,
        api::pause_before_retry(failure, 4) is None,
{
}

/// The Bot API is reached where it was told to be, without a slash at the end, and else
/// at Telegram.
pub proof fn the_api_is_reached(s: Seq<char>)
    ensures
        s.len() > 0 && s.last() != '/' && !text::blank(s) ==> api::root_of(Some(s)) == s
            && api::root_of(Some(s + seq!['/'])) == s,
        text::blank(s) ==> api::root_of(Some(s)) == "https://api.telegram.org"@,
        api::root_of(None) == "https://api.telegram.org"@,
{
    if s.len() > 0 && s.last() != '/' && !text::blank(s) {
        let w = s + seq!['/'];
        assert(w.drop_last() =~= s);
        reveal_with_fuel(text::drop_back, 2);
        assert(!text::blank(w)) by {
            let i = choose|i: int| 0 <= i < s.len() && !text::is_space(#[trigger] s[i]);
            assert(w[i] == s[i]);
        }
    }
}

/// Telegram is asked for every kind of update that the bot handles.
pub proof fn all_updates_are_asked_for(i: int)
    ensures
        api::updates_value() matches json::JsonView::Array(list) && list.len() == 10 && list[0]
            == json::JsonView::Str("message"@) && list[1] == json::JsonView::Str(
            "edited_message"@,
        ) && list[2] == json::JsonView::Str("business_connection"@) && list[3]
            == json::JsonView::Str("business_message"@) && list[4] == json::JsonView::Str(
            "guest_message"@,
        ) && list[5] == json::JsonView::Str("message_reaction"@) && list[6]
            == json::JsonView::Str("inline_query"@) && list[7] == json::JsonView::Str(
            "callback_query"@,
        ) && list[8] == json::JsonView::Str("my_chat_member"@) && list[9] == json::JsonView::Str(
            "stopped_message_generation"@,
        ),
{
}

proof fn lemma_field_push(
    names: Seq<Seq<char>>,
    values: Seq<json::JsonView>,
    n: Seq<char>,
    v: json::JsonView,
    k: Seq<char>,
)
    requires
        names.len() == values.len(),
    ensures
        json::field_in(names.push(n), values.push(v), k) == (match json::field_in(
            names,
            values,
            k,
        ) {
            Some(x) => Some(x),
            None => if n == k {
                Some(v)
            } else {
                None
            },
        }),
    decreases names.len(),
{
    let ns = names.push(n);
    let vs = values.push(v);
    if names.len() == 0 {
        reveal_with_fuel(json::field_in, 2);
        assert(ns[0] == n);
        assert(vs[0] == v);
        assert(ns.skip(1).len() == 0);
    } else {
        lemma_field_push(names.skip(1), values.skip(1), n, v, k);
        assert(ns.skip(1) =~= names.skip(1).push(n));
        assert(vs.skip(1) =~= values.skip(1).push(v));
        assert(ns[0] == names[0]);
        assert(vs[0] == values[0]);
    }
}

/// A field that is added to an object is found in it, and leaves the others as they
/// are; one that has no value is not added.
pub proof fn added_fields_are_found(
    f: json::FieldsView,
    n: Seq<char>,
    v: json::JsonView,
    k: Seq<char>,
)
    requires
        f.names.len() == f.values.len(),
    ensures
        json::field(f.with(n, v).object(), k) == (match json::field(f.object(), k) {
            Some(x) => Some(x),
            None => if n == k {
                Some(v)
            } else {
                None
            },
        }),
        f.maybe(n, Some(v)) == f.with(n, v),
        f.maybe(n, None) == f,
        f.with(n, v).names.len() == f.with(n, v).values.len(),
        json::field(json::FieldsView::none().object(), k) is None,
{
    lemma_field_push(f.names, f.values, n, v, k);
}

proof fn lemma_maybe(
    f: json::FieldsView,
    n: Seq<char>,
    v: Option<json::JsonView>,
    k: Seq<char>,
)
    requires
        f.names.len() == f.values.len(),
    ensures
        json::field(f.maybe(n, v).object(), k) == (match json::field(f.object(), k) {
            Some(x) => Some(x),
            None => if n == k {
                v
            } else {
                None
            },
        }),
        f.maybe(n, v).names.len() == f.maybe(n, v).values.len(),
{
    match v {
        Some(x) => {
            added_fields_are_found(f, n, x, k);
        },
        None => {},
    }
}

proof fn lemma_keys_differ()
    ensures
        "chat_id"@.len() == 7,
        "message_thread_id"@.len() == 17,
        "business_connection_id"@.len() == 22,
        "text"@.len() == 4,
        "parse_mode"@.len() == 10,
        "link_preview_options"@.len() == 20,
        "reply_parameters"@.len() == 16,
        "reply_markup"@.len() == 12,
        "ephemeral_message_parameters"@.len() == 28,
        "rich_message"@.len() == 12,
        "rich_message"@[1] == 'i',
        "reply_markup"@[1] == 'e',
{
    reveal_strlit("chat_id");
    reveal_strlit("message_thread_id");
    reveal_strlit("business_connection_id");
    reveal_strlit("text");
    reveal_strlit("parse_mode");
    reveal_strlit("link_preview_options");
    reveal_strlit("reply_parameters");
    reveal_strlit("reply_markup");
    reveal_strlit("ephemeral_message_parameters");
    reveal_strlit("rich_message");
}

/// What a message goes out with, by the names of its fields.
spec fn field_of(
    t: Target,
    words: Seq<char>,
    mode: Option<ParseMode>,
    k: Seq<char>,
) -> Option<json::JsonView> {
    json::field(t.message_value(words, mode, None), k)
}

proof fn lemma_message_field(t: Target, words: Seq<char>, mode: Option<ParseMode>, k: Seq<char>)
    ensures
        k == "chat_id"@ ==> field_of(t, words, mode, k) == Some(json::int_value(t.chat_id as int)),
        k == "message_thread_id"@ ==> field_of(t, words, mode, k) == raw::opt_int(t.thread_id),
        k == "business_connection_id"@ ==> field_of(t, words, mode, k) == json::str_value(
            text::opt_view(t.business_connection_id),
        ),
        k == "text"@ ==> field_of(t, words, mode, k) == Some(json::JsonView::Str(words)),
        k == "parse_mode"@ ==> field_of(t, words, mode, k) == raw::mode_value(mode),
        k == "reply_parameters"@ ==> field_of(t, words, mode, k) == raw::reply_value(t.reply_of()),
        k == "ephemeral_message_parameters"@ ==> field_of(t, words, mode, k)
            == raw::ephemeral_value(t.ephemeral),
        k == "link_preview_options"@ ==> field_of(t, words, mode, k) is Some,
{
    lemma_keys_differ();
    let f0 = json::FieldsView::none();
    let v1 = json::int_value(t.chat_id as int);
    let f1 = f0.with("chat_id"@, v1);
    added_fields_are_found(f0, "chat_id"@, v1, k);
    let v2 = raw::opt_int(t.thread_id);
    let f2 = f1.maybe("message_thread_id"@, v2);
    lemma_maybe(f1, "message_thread_id"@, v2, k);
    let v3 = json::str_value(text::opt_view(t.business_connection_id));
    let f3 = f2.maybe("business_connection_id"@, v3);
    lemma_maybe(f2, "business_connection_id"@, v3, k);
    let f4 = f3.with("text"@, json::JsonView::Str(words));
    added_fields_are_found(f3, "text"@, json::JsonView::Str(words), k);
    let v5 = raw::mode_value(mode);
    let f5 = f4.maybe("parse_mode"@, v5);
    lemma_maybe(f4, "parse_mode"@, v5, k);
    let v6 = raw::preview_value(Some(raw::LinkPreviewOptions { is_disabled: Some(true) }));
    let f6 = f5.maybe("link_preview_options"@, v6);
    lemma_maybe(f5, "link_preview_options"@, v6, k);
    let v7 = raw::reply_value(t.reply_of());
    let f7 = f6.maybe("reply_parameters"@, v7);
    lemma_maybe(f6, "reply_parameters"@, v7, k);
    let v8 = raw::keyboard_value(None);
    let f8 = f7.maybe("reply_markup"@, v8);
    lemma_maybe(f7, "reply_markup"@, v8, k);
    let v9 = raw::ephemeral_value(t.ephemeral);
    lemma_maybe(f8, "ephemeral_message_parameters"@, v9, k);
}

/// A message goes to its chat, its topic and its connection, with its words as they are
/// and its markup named; it replies to the message it answers, which may be gone.
pub proof fn messages_carry_their_target(
    t: Target,
    words: Seq<char>,
    topic: i32,
    c: Seq<char>,
    m: i32,
)
    ensures
        ({
            let plain = t.message_value(words, None, None);
            let marked = t.message_value(words, Some(ParseMode::MarkdownV2), None);
            &&& json::field(plain, "chat_id"@) == Some(
                json::JsonView::Number(text::signed_decimal(t.chat_id as int)),
            )
            &&& event_laws::says(plain, "text"@, words)
            &&& event_laws::says(marked, "text"@, words)
            &&& event_laws::says(marked, "parse_mode"@, "MarkdownV2"@)
            &&& json::field(plain, "parse_mode"@) is None
            &&& t.thread_id == Some(topic) ==> json::field(plain, "message_thread_id"@) == Some(
                json::JsonView::Number(text::signed_decimal(topic as int)),
            )
            &&& t.thread_id is None ==> json::field(plain, "message_thread_id"@) is None
            &&& text::opt_view(t.business_connection_id) == Some(c) ==> event_laws::says(
                plain,
                "business_connection_id"@,
                c,
            )
            &&& t.business_connection_id is None ==> json::field(
                plain,
                "business_connection_id"@,
            ) is None
            &&& t.reply_to == Some(m) ==> json::field(plain, "reply_parameters"@)
                == raw::reply_value(
                Some(ReplyParameters { message_id: m, allow_sending_without_reply: true }),
            )
            &&& t.reply_to is None ==> json::field(plain, "reply_parameters"@) is None
            &&& t.ephemeral is None ==> json::field(
                plain,
                "ephemeral_message_parameters"@,
            ) is None
            &&& t.ephemeral is Some ==> json::field(
                plain,
                "ephemeral_message_parameters"@,
            ) is Some
            &&& json::field(plain, "link_preview_options"@) is Some
        }),
{
    lemma_message_field(t, words, None, "chat_id"@);
    lemma_message_field(t, words, None, "text"@);
    lemma_message_field(t, words, None, "parse_mode"@);
    lemma_message_field(t, words, None, "message_thread_id"@);
    lemma_message_field(t, words, None, "business_connection_id"@);
    lemma_message_field(t, words, None, "reply_parameters"@);
    lemma_message_field(t, words, None, "ephemeral_message_parameters"@);
    lemma_message_field(t, words, None, "link_preview_options"@);
    lemma_message_field(t, words, Some(ParseMode::MarkdownV2), "text"@);
    lemma_message_field(t, words, Some(ParseMode::MarkdownV2), "parse_mode"@);
}

/// An update is known by its number, and one that says that an answer was stopped is
/// that, whatever else it is.
pub proof fn updates_are_sorted(
    v: json::JsonView,
    stopped: raw::MessageGenerationStopped,
    n: nat,
    modelled: bool,
)
    ensures
        json::field(v, "update_id"@) == Some(json::JsonView::Number(text::decimal(n))) && n
            <= 0x7fff_ffff_ffff_ffff ==> raw::update_number(v) == n,
        json::field(v, "update_id"@) is None ==> raw::update_number(v) == 0,
        json::field(v, "stopped_message_generation"@) is Some ==> raw::sorted_update(
            v,
            Some(stopped),
            modelled,
        ) == raw::IncomingView::StoppedGeneration(stopped),
        json::field(v, "stopped_message_generation"@) is None ==> raw::sorted_update(
            v,
            Some(stopped),
            true,
        ) == raw::IncomingView::Update(v) && raw::sorted_update(v, Some(stopped), false)
            == raw::IncomingView::Unknown(v),
{
    crate::text_laws::written_numbers_are_read(n, 0x7fff_ffff_ffff_ffff);
    let d = text::decimal(n);
    assert(text::is_digit(d[0]));
}

/// An update that was taken is not asked for again: the next request begins behind it.
pub proof fn taken_updates_are_not_asked_for(s: PollState, id: i64)
    requires
        id < i64::MAX,
    ensures
        s.after_update(id).offset matches Some(n) && n == id + 1,
        s.after_update(id).backoff == s.backoff,
        s.after_batch().offset == s.offset,
        s.after_failure().offset == s.offset,
{
}

/// After each failure the wait doubles, up to half a minute, and a batch that arrives
/// makes it short again.
pub proof fn waits_double(s: PollState)
    requires
        1 <= s.backoff <= 30,
    ensures
        s.backoff < 15 ==> s.after_failure().backoff == 2 * s.backoff,
        s.backoff >= 15 ==> s.after_failure().backoff == 30,
        s.after_batch().backoff == 1,
        s.backoff <= s.after_failure().backoff <= 30,
{
}

proof fn lemma_rich_field(t: Target, md: Seq<char>, k: Seq<char>)
    ensures
        ({
            let r = json::field(t.rich_params_value(md, None), k);
            &&& k == "chat_id"@ ==> r == Some(json::int_value(t.chat_id as int))
            &&& k == "message_thread_id"@ ==> r == raw::opt_int(t.thread_id)
            &&& k == "business_connection_id"@ ==> r == json::str_value(
                text::opt_view(t.business_connection_id),
            )
            &&& k == "rich_message"@ ==> r == Some(api::rich_markdown(md))
            &&& k == "reply_parameters"@ ==> r == raw::reply_value(t.reply_of())
            &&& k == "ephemeral_message_parameters"@ ==> r == raw::ephemeral_value(t.ephemeral)
        }),
{
    lemma_keys_differ();
    let f0 = json::FieldsView::none();
    let v1 = json::int_value(t.chat_id as int);
    let f1 = f0.with("chat_id"@, v1);
    added_fields_are_found(f0, "chat_id"@, v1, k);
    let v2 = raw::opt_int(t.thread_id);
    let f2 = f1.maybe("message_thread_id"@, v2);
    lemma_maybe(f1, "message_thread_id"@, v2, k);
    let v3 = json::str_value(text::opt_view(t.business_connection_id));
    let f3 = f2.maybe("business_connection_id"@, v3);
    lemma_maybe(f2, "business_connection_id"@, v3, k);
    let v4 = api::rich_markdown(md);
    let f4 = f3.with("rich_message"@, v4);
    added_fields_are_found(f3, "rich_message"@, v4, k);
    let v5 = raw::reply_value(t.reply_of());
    let f5 = f4.maybe("reply_parameters"@, v5);
    lemma_maybe(f4, "reply_parameters"@, v5, k);
    let v6 = raw::keyboard_value(None);
    let f6 = f5.maybe("reply_markup"@, v6);
    lemma_maybe(f5, "reply_markup"@, v6, k);
    lemma_maybe(f6, "ephemeral_message_parameters"@, raw::ephemeral_value(t.ephemeral), k);
}

/// A rich message goes to its chat, topic and connection like any other, with its
/// markdown as it is.
pub proof fn rich_messages_carry_their_target(t: Target, md: Seq<char>, topic: i32, m: i32)
    ensures
        ({
            let p = t.rich_params_value(md, None);
            &&& json::field(p, "chat_id"@) == Some(
                json::JsonView::Number(text::signed_decimal(t.chat_id as int)),
            )
            &&& json::field(p, "rich_message"@) matches Some(body) && event_laws::says(
                body,
                "markdown"@,
                md,
            )
            &&& t.thread_id == Some(topic) ==> json::field(p, "message_thread_id"@) == Some(
                json::JsonView::Number(text::signed_decimal(topic as int)),
            )
            &&& t.reply_to == Some(m) ==> json::field(p, "reply_parameters"@) is Some
            &&& t.reply_to is None ==> json::field(p, "reply_parameters"@) is None
            &&& t.ephemeral is Some ==> json::field(p, "ephemeral_message_parameters"@) is Some
        }),
{
    lemma_rich_field(t, md, "chat_id"@);
    lemma_rich_field(t, md, "rich_message"@);
    lemma_rich_field(t, md, "message_thread_id"@);
    lemma_rich_field(t, md, "reply_parameters"@);
    lemma_rich_field(t, md, "ephemeral_message_parameters"@);
    added_fields_are_found(
        json::FieldsView::none(),
        "markdown"@,
        json::JsonView::Str(md),
        "markdown"@,
    );
}

/// A reply names the message it answers and may be sent without it; a button carries its
/// label and what it sends; and a message for one reader names that reader.
pub proof fn parameters_are_written_out(
    m: i32,
    b: raw::Button,
    e: raw::EphemeralMessageParameters,
)
    ensures
        raw::reply_value(
            Some(ReplyParameters { message_id: m, allow_sending_without_reply: true }),
        ) matches Some(v) && json::field(v, "message_id"@) == Some(json::int_value(m as int))
            && json::field(v, "allow_sending_without_reply"@) == Some(json::JsonView::Bool(true)),
        event_laws::says(raw::button_value(b), "text"@, b.text@),
        event_laws::says(raw::button_value(b), "callback_data"@, b.callback_data@),
        raw::ephemeral_value(Some(e)) matches Some(v) && json::field(v, "receiver_user_id"@)
            == Some(json::JsonView::Number(text::decimal(e.receiver_user_id as nat))),
        raw::ephemeral_value(None) is None,
        raw::mode_value(None) is None,
{
    reveal_strlit("message_id");
    reveal_strlit("allow_sending_without_reply");
    reveal_strlit("text");
    reveal_strlit("callback_data");
    assert("message_id"@.len() == 10 && "allow_sending_without_reply"@.len() == 27);
    assert("text"@.len() == 4 && "callback_data"@.len() == 13);
    let f0 = json::FieldsView::none();
    let v1 = json::int_value(m as int);
    let f1 = f0.with("message_id"@, v1);
    let yes = json::JsonView::Bool(true);
    added_fields_are_found(f0, "message_id"@, v1, "message_id"@);
    added_fields_are_found(f1, "allow_sending_without_reply"@, yes, "message_id"@);
    added_fields_are_found(f0, "message_id"@, v1, "allow_sending_without_reply"@);
    added_fields_are_found(
        f1,
        "allow_sending_without_reply"@,
        yes,
        "allow_sending_without_reply"@,
    );
    let t = json::JsonView::Str(b.text@);
    let d = json::JsonView::Str(b.callback_data@);
    let g1 = f0.with("text"@, t);
    added_fields_are_found(f0, "text"@, t, "text"@);
    added_fields_are_found(g1, "callback_data"@, d, "text"@);
    added_fields_are_found(f0, "text"@, t, "callback_data"@);
    added_fields_are_found(g1, "callback_data"@, d, "callback_data"@);
    let r = json::JsonView::Number(text::decimal(e.receiver_user_id as nat));
    let h1 = f0.with("receiver_user_id"@, r);
    added_fields_are_found(f0, "receiver_user_id"@, r, "receiver_user_id"@);
    let c = json::str_value(text::opt_view(e.callback_query_id));
    let h2 = h1.maybe("callback_query_id"@, c);
    lemma_maybe(h1, "callback_query_id"@, c, "receiver_user_id"@);
    lemma_maybe(
        h2,
        "replace_callback_query_message"@,
        json::bool_value(e.replace_callback_query_message),
        "receiver_user_id"@,
    );
}

} // verus!
