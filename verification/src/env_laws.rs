//! What each variable of the environment decides, as laws over the variables
//! themselves.

use crate::config;
use crate::config::{Backend, GroupMode, Mode};
use crate::text;
use vstd::prelude::*;

verus! {

/// Whether variable `i` is the first of a name, with that value.
pub open spec fn sets(
    env: Seq<(Seq<char>, Seq<char>)>,
    i: int,
    name: Seq<char>,
    value: Seq<char>,
) -> bool {
    &&& 0 <= i < env.len()
    &&& env[i] == (name, value)
    &&& forall|j: int| 0 <= j < i ==> (#[trigger] env[j]).0 != name
}

/// Whether no variable has a name.
pub open spec fn unset(env: Seq<(Seq<char>, Seq<char>)>, name: Seq<char>) -> bool {
    forall|j: int| 0 <= j < env.len() ==> (#[trigger] env[j]).0 != name
}

/// A variable's value is that of its first occurrence, and without one there is none.
pub proof fn first_values_count(
    env: Seq<(Seq<char>, Seq<char>)>,
    i: int,
    name: Seq<char>,
    value: Seq<char>,
)
    ensures
        sets(env, i, name, value) ==> config::env_value(env, name) == Some(value),
        unset(env, name) ==> config::env_value(env, name) is None,
    decreases env.len(),
{
    if env.len() > 0 {
        let rest = env.skip(1);
        first_values_count(rest, i - 1, name, value);
        assert(forall|j: int| 0 <= j < rest.len() ==> #[trigger] rest[j] == env[j + 1]);
        if sets(env, i, name, value) && i > 0 {
            assert(env[0].0 != name);
            assert forall|j: int| 0 <= j < i - 1 implies (#[trigger] rest[j]).0 != name by {
                assert(rest[j] == env[j + 1]);
            }
            assert(sets(rest, i - 1, name, value));
        }
        if unset(env, name) {
            assert(env[0].0 != name);
            assert forall|j: int| 0 <= j < rest.len() implies (#[trigger] rest[j]).0 != name by {
                assert(rest[j] == env[j + 1]);
            }
        }
    }
}

/// A configuration of the environment alone needs a token and a key: without a token
/// that is more than white space it is refused for that, and with one but without any
/// key for the lack of a key.
pub proof fn tokens_and_keys_are_needed(
    env: Seq<(Seq<char>, Seq<char>)>,
    i: int,
    token: Seq<char>,
)
    ensures
        unset(env, "TELEGRAM_BOT_TOKEN"@) ==> config::env_config(env) == Err::<
            config::ConfigView,
            config::ConfigErrorView,
        >(config::ConfigErrorView::NoToken),
        sets(env, i, "TELEGRAM_BOT_TOKEN"@, token) && text::blank(token) ==> config::env_config(
            env,
        ) == Err::<config::ConfigView, config::ConfigErrorView>(config::ConfigErrorView::NoToken),
        sets(env, i, "TELEGRAM_BOT_TOKEN"@, token) && !text::blank(token) && unset(env, "API_KEY"@)
            && (forall|j: int|
            0 <= j < env.len() ==> !"API_KEY_"@.is_prefix_of((#[trigger] env[j]).0))
            ==> config::env_config(env) == Err::<config::ConfigView, config::ConfigErrorView>(
            config::ConfigErrorView::NoApiKey,
        ),
{
    first_values_count(env, i, "TELEGRAM_BOT_TOKEN"@, token);
    first_values_count(env, i, "API_KEY"@, token);
    if forall|j: int| 0 <= j < env.len() ==> !"API_KEY_"@.is_prefix_of((#[trigger] env[j]).0) {
        lemma_none_named(env, env.len());
    }
}

proof fn lemma_none_named(env: Seq<(Seq<char>, Seq<char>)>, n: nat)
    requires
        n <= env.len(),
        forall|j: int| 0 <= j < env.len() ==> !"API_KEY_"@.is_prefix_of((#[trigger] env[j]).0),
    ensures
        config::named_agents(env, n).len() == 0,
    decreases n,
{
    if n > 0 {
        lemma_none_named(env, (n - 1) as nat);
        assert(!"API_KEY_"@.is_prefix_of(env[n - 1].0));
    }
}

/// With a token and a key there is a configuration.
pub proof fn tokens_and_keys_are_enough(
    env: Seq<(Seq<char>, Seq<char>)>,
    i: int,
    token: Seq<char>,
    j: int,
    name: Seq<char>,
    key: Seq<char>,
)
    requires
        sets(env, i, "TELEGRAM_BOT_TOKEN"@, token),
        !text::blank(token),
        (name == "API_KEY"@ && sets(env, j, name, key) && !text::blank(key)) || (name.len() > 8
            && "API_KEY_"@.is_prefix_of(name) && 0 <= j < env.len() && env[j] == (name, key)),
    ensures
        config::env_config(env) is Ok,
{
    first_values_count(env, i, "TELEGRAM_BOT_TOKEN"@, token);
    if name == "API_KEY"@ && sets(env, j, name, key) && !text::blank(key) {
        first_values_count(env, j, name, key);
    } else {
        lemma_named(env, env.len(), j);
    }
}

proof fn lemma_inserted(list: Seq<(Seq<char>, Seq<char>)>, p: (Seq<char>, Seq<char>))
    ensures
        config::insert_pair(list, p).len() == list.len() + 1,
        config::insert_pair(list, p).contains(p),
        forall|q: (Seq<char>, Seq<char>)|
            list.contains(q) ==> #[trigger] config::insert_pair(list, p).contains(q),
        forall|q: (Seq<char>, Seq<char>)|
            #[trigger] config::insert_pair(list, p).contains(q) ==> q == p || list.contains(q),
    decreases list.len(),
{
    let r = config::insert_pair(list, p);
    if list.len() == 0 || config::pair_le(p, list[0]) {
        assert(r =~= seq![p] + list);
        assert(r[0] == p);
        assert forall|q: (Seq<char>, Seq<char>)| list.contains(q) implies #[trigger] r.contains(
            q,
        ) by {
            let k = list.index_of(q);
            assert(r[k + 1] == q);
        }
        assert forall|q: (Seq<char>, Seq<char>)| #[trigger] r.contains(q) implies q == p
            || list.contains(q) by {
            let k = r.index_of(q);
            if k > 0 {
                assert(list[k - 1] == q);
            }
        }
    } else {
        let rest = list.skip(1);
        let s = config::insert_pair(rest, p);
        lemma_inserted(rest, p);
        assert(r =~= seq![list[0]] + s);
        assert(r[s.index_of(p) + 1] == p);
        assert forall|q: (Seq<char>, Seq<char>)| list.contains(q) implies #[trigger] r.contains(
            q,
        ) by {
            let k = list.index_of(q);
            if k == 0 {
                assert(r[0] == q);
            } else {
                assert(rest[k - 1] == q);
                assert(s.contains(q));
                assert(r[s.index_of(q) + 1] == q);
            }
        }
        assert forall|q: (Seq<char>, Seq<char>)| #[trigger] r.contains(q) implies q == p
            || list.contains(q) by {
            let k = r.index_of(q);
            if k == 0 {
                assert(list[0] == q);
            } else {
                assert(s[k - 1] == q);
                assert(s.contains(q));
                if q != p {
                    assert(rest.contains(q));
                    assert(list[rest.index_of(q) + 1] == q);
                }
            }
        }
    }
}

proof fn lemma_named(env: Seq<(Seq<char>, Seq<char>)>, n: nat, j: int)
    requires
        0 <= j < n <= env.len(),
        env[j].0.len() > 8,
        "API_KEY_"@.is_prefix_of(env[j].0),
    ensures
        config::named_agents(env, n).contains((text::lower(env[j].0.skip(8)), env[j].1)),
    decreases n,
{
    let p = (text::lower(env[j].0.skip(8)), env[j].1);
    let e = env[n - 1];
    if j < n - 1 {
        lemma_named(env, (n - 1) as nat, j);
    }
    if config::names_agent(e.0) {
        lemma_inserted(
            config::named_agents(env, (n - 1) as nat),
            (text::lower(e.0.skip(8)), e.1),
        );
    }
}

proof fn lemma_named_by(
    env: Seq<(Seq<char>, Seq<char>)>,
    n: nat,
    p: (Seq<char>, Seq<char>),
) -> (j: int)
    requires
        n <= env.len(),
        config::named_agents(env, n).contains(p),
    ensures
        0 <= j < n,
        env[j].0.len() > 8,
        "API_KEY_"@.is_prefix_of(env[j].0),
        p == (text::lower(env[j].0.skip(8)), env[j].1),
    decreases n,
{
    let e = env[n - 1];
    let before = config::named_agents(env, (n - 1) as nat);
    let q = (text::lower(e.0.skip(8)), e.1);
    if config::names_agent(e.0) {
        lemma_inserted(before, q);
        if p == q {
            n - 1
        } else {
            lemma_named_by(env, (n - 1) as nat, p)
        }
    } else {
        lemma_named_by(env, (n - 1) as nat, p)
    }
}

/// Every variable `API_KEY_<NAME>` makes an agent of that name, in small letters, with
/// the variable's value for its key.
pub proof fn named_keys_make_agents(
    env: Seq<(Seq<char>, Seq<char>)>,
    cfg: config::ConfigView,
    j: int,
    name: Seq<char>,
    key: Seq<char>,
)
    requires
        config::env_config(env) == Ok::<config::ConfigView, config::ConfigErrorView>(cfg),
        0 <= j < env.len(),
        name.len() > 0,
        env[j] == ("API_KEY_"@ + name, key),
    ensures
        exists|k: int|
            0 <= k < cfg.bots[0].agents.len() && (#[trigger] cfg.bots[0].agents[k]).name
                == text::lower(name) && cfg.bots[0].agents[k].api_key == key
                && cfg.bots[0].agents[k].description is None,
{
    reveal_strlit("API_KEY_");
    let whole = "API_KEY_"@ + name;
    assert(whole.skip(8) =~= name);
    assert("API_KEY_"@ =~= whole.subrange(0, 8));
    lemma_named(env, env.len(), j);
    let list = config::named_agents(env, env.len());
    let k = list.index_of((text::lower(name), key));
    let agents = cfg.bots[0].agents;
    let first = config::env_value(env, "API_KEY"@);
    if first is Some && !text::blank(first->0) {
        assert(agents[k + 1].name == text::lower(name));
    } else {
        assert(agents[k].name == text::lower(name));
    }
}

/// Every agent comes from a variable: the default one from `API_KEY`, where it is
/// set, and each other from an `API_KEY_<NAME>`.
pub proof fn agents_come_from_keys(
    env: Seq<(Seq<char>, Seq<char>)>,
    cfg: config::ConfigView,
    k: int,
)
    requires
        config::env_config(env) == Ok::<config::ConfigView, config::ConfigErrorView>(cfg),
        0 <= k < cfg.bots[0].agents.len(),
    ensures
        (k == 0 && cfg.bots[0].agents[k].name == "default"@ && config::env_value(env, "API_KEY"@)
            == Some(cfg.bots[0].agents[k].api_key)) || exists|j: int|
            0 <= j < env.len() && env[j].0.len() > 8 && "API_KEY_"@.is_prefix_of(
                (#[trigger] env[j]).0,
            ) && cfg.bots[0].agents[k].name == text::lower(env[j].0.skip(8))
                && cfg.bots[0].agents[k].api_key == env[j].1,
{
    let list = config::named_agents(env, env.len());
    let first = config::env_value(env, "API_KEY"@);
    let a = cfg.bots[0].agents[k];
    if first is Some && !text::blank(first->0) {
        if k > 0 {
            let j = lemma_named_by(env, env.len(), list[k - 1]);
            assert(a.name == text::lower(env[j].0.skip(8)));
        }
    } else {
        let j = lemma_named_by(env, env.len(), list[k]);
        assert(a.name == text::lower(env[j].0.skip(8)));
    }
}

/// `API_KEY` makes the first agent and the default one; without it the first of the
/// others is the default. There is exactly one default.
pub proof fn the_plain_key_is_the_default(
    env: Seq<(Seq<char>, Seq<char>)>,
    cfg: config::ConfigView,
    i: int,
    key: Seq<char>,
    k: int,
)
    requires
        config::env_config(env) == Ok::<config::ConfigView, config::ConfigErrorView>(cfg),
        0 <= k < cfg.bots[0].agents.len(),
    ensures
        sets(env, i, "API_KEY"@, key) && !text::blank(key) ==> cfg.bots[0].agents[0].name
            == "default"@ && cfg.bots[0].agents[0].api_key == key,
        cfg.bots[0].agents[k].default <==> k == 0,
        config::default_index(cfg.bots[0].agents) == 0,
{
    first_values_count(env, i, "API_KEY"@, key);
    let agents = cfg.bots[0].agents;
    assert(agents[0].default);
    assert(config::default_from(agents, 0) == Some(0int));
}

/// `TELEGRAM_BOT_TOKEN` is the token of the one bot.
pub proof fn the_token_is_the_bots(
    env: Seq<(Seq<char>, Seq<char>)>,
    cfg: config::ConfigView,
    i: int,
    token: Seq<char>,
)
    requires
        config::env_config(env) == Ok::<config::ConfigView, config::ConfigErrorView>(cfg),
        sets(env, i, "TELEGRAM_BOT_TOKEN"@, token),
    ensures
        cfg.bots.len() == 1,
        cfg.bots[0].token == token,
{
    first_values_count(env, i, "TELEGRAM_BOT_TOKEN"@, token);
}

/// `API_BASE` is the address of the DocsGPT server; the cloud's is used only where it
/// is not set.
pub proof fn the_server_address_is_api_base(
    env: Seq<(Seq<char>, Seq<char>)>,
    cfg: config::ConfigView,
    i: int,
    value: Seq<char>,
)
    requires
        config::env_config(env) == Ok::<config::ConfigView, config::ConfigErrorView>(cfg),
    ensures
        sets(env, i, "API_BASE"@, value) ==> cfg.api_base == value,
        unset(env, "API_BASE"@) ==> cfg.api_base == "https://gptcloud.arc53.com"@,
{
    first_values_count(env, i, "API_BASE"@, value);
}

/// `BOT_NAME` is the bot's name, and without it the bot is called `bot`.
pub proof fn bots_have_their_name(
    env: Seq<(Seq<char>, Seq<char>)>,
    cfg: config::ConfigView,
    i: int,
    value: Seq<char>,
)
    requires
        config::env_config(env) == Ok::<config::ConfigView, config::ConfigErrorView>(cfg),
    ensures
        sets(env, i, "BOT_NAME"@, value) ==> cfg.bots[0].name == value,
        unset(env, "BOT_NAME"@) ==> cfg.bots[0].name == "bot"@,
{
    first_values_count(env, i, "BOT_NAME"@, value);
}

/// `WELCOME_TEXT` is the greeting, and without it there is none of the bot's own.
pub proof fn the_welcome_is_welcome_text(
    env: Seq<(Seq<char>, Seq<char>)>,
    cfg: config::ConfigView,
    i: int,
    value: Seq<char>,
)
    requires
        config::env_config(env) == Ok::<config::ConfigView, config::ConfigErrorView>(cfg),
    ensures
        sets(env, i, "WELCOME_TEXT"@, value) ==> cfg.bots[0].welcome == Some(value),
        unset(env, "WELCOME_TEXT"@) ==> cfg.bots[0].welcome is None,
{
    first_values_count(env, i, "WELCOME_TEXT"@, value);
}

/// `MENU_BUTTON_URL` is what the menu button opens; without it the button opens
/// nothing.
pub proof fn the_menu_button_opens_its_address(
    env: Seq<(Seq<char>, Seq<char>)>,
    cfg: config::ConfigView,
    i: int,
    value: Seq<char>,
)
    requires
        config::env_config(env) == Ok::<config::ConfigView, config::ConfigErrorView>(cfg),
    ensures
        sets(env, i, "MENU_BUTTON_URL"@, value) ==> cfg.bots[0].menu_button_url == Some(value),
        unset(env, "MENU_BUTTON_URL"@) ==> cfg.bots[0].menu_button_url is None,
{
    first_values_count(env, i, "MENU_BUTTON_URL"@, value);
}

/// `WEBHOOK_SECRET` is the secret of the webhooks, and without it none is given.
pub proof fn webhooks_have_their_secret(
    env: Seq<(Seq<char>, Seq<char>)>,
    cfg: config::ConfigView,
    i: int,
    value: Seq<char>,
)
    requires
        config::env_config(env) == Ok::<config::ConfigView, config::ConfigErrorView>(cfg),
    ensures
        sets(env, i, "WEBHOOK_SECRET"@, value) ==> cfg.server.webhook_secret == Some(value),
        unset(env, "WEBHOOK_SECRET"@) ==> cfg.server.webhook_secret is None,
{
    first_values_count(env, i, "WEBHOOK_SECRET"@, value);
}

/// `WEBHOOK_PUBLIC_URL` makes the bot one with webhooks, at that address and with the
/// server on; without it the bot polls.
pub proof fn a_public_address_means_webhooks(
    env: Seq<(Seq<char>, Seq<char>)>,
    cfg: config::ConfigView,
    i: int,
    value: Seq<char>,
)
    requires
        config::env_config(env) == Ok::<config::ConfigView, config::ConfigErrorView>(cfg),
    ensures
        sets(env, i, "WEBHOOK_PUBLIC_URL"@, value) ==> cfg.bots[0].mode == Mode::Webhook && cfg.server.public_url == Some(value)
            && cfg.server.enabled,
        unset(env, "WEBHOOK_PUBLIC_URL"@) ==> cfg.bots[0].mode == Mode::Polling && cfg.server.public_url
            is None,
{
    first_values_count(env, i, "WEBHOOK_PUBLIC_URL"@, value);
}

/// `HTTP_BIND` is where the server listens, and turns it on; without it the place is the
/// usual one, and the server is on only for webhooks.
pub proof fn the_server_listens_where_told(
    env: Seq<(Seq<char>, Seq<char>)>,
    cfg: config::ConfigView,
    i: int,
    value: Seq<char>,
)
    requires
        config::env_config(env) == Ok::<config::ConfigView, config::ConfigErrorView>(cfg),
    ensures
        sets(env, i, "HTTP_BIND"@, value) ==> cfg.server.bind == value && cfg.server.enabled,
        unset(env, "HTTP_BIND"@) ==> cfg.server.bind == "0.0.0.0:8080"@ && (cfg.server.enabled
            <==> cfg.server.public_url is Some),
{
    first_values_count(env, i, "HTTP_BIND"@, value);
}

/// `GROUPS_MODE` decides what is answered in groups, in any letter case; what it does not
/// know, and its absence, mean mentions.
pub proof fn groups_mode_decides(
    env: Seq<(Seq<char>, Seq<char>)>,
    cfg: config::ConfigView,
    i: int,
    value: Seq<char>,
)
    requires
        config::env_config(env) == Ok::<config::ConfigView, config::ConfigErrorView>(cfg),
    ensures
        sets(env, i, "GROUPS_MODE"@, value) && text::lower(value) == "all"@ ==> cfg.bots[0].groups
            == GroupMode::All,
        sets(env, i, "GROUPS_MODE"@, value) && text::lower(value) == "off"@ ==> cfg.bots[0].groups
            == GroupMode::Off,
        sets(env, i, "GROUPS_MODE"@, value) && text::lower(value) != "all"@ && text::lower(value)
            != "off"@ ==> cfg.bots[0].groups == GroupMode::Mention,
        unset(env, "GROUPS_MODE"@) ==> cfg.bots[0].groups == GroupMode::Mention,
{
    reveal_strlit("all");
    reveal_strlit("off");
    assert("all"@[0] != "off"@[0]);
    assert(text::lower(Seq::empty()).len() == 0);
    first_values_count(env, i, "GROUPS_MODE"@, value);
}

/// `STREAMING` turns live drafts off where it says so, and only there.
pub proof fn streaming_is_on_unless_refused(
    env: Seq<(Seq<char>, Seq<char>)>,
    cfg: config::ConfigView,
    i: int,
    value: Seq<char>,
)
    requires
        config::env_config(env) == Ok::<config::ConfigView, config::ConfigErrorView>(cfg),
    ensures
        sets(env, i, "STREAMING"@, value) ==> (cfg.bots[0].streaming <==> value != "false"@ && value
            != "0"@),
        unset(env, "STREAMING"@) ==> cfg.bots[0].streaming,
{
    first_values_count(env, i, "STREAMING"@, value);
}

/// `VOICE_REPLIES` turns voice answers on where it says so, and only there.
pub proof fn voice_replies_are_off_unless_asked(
    env: Seq<(Seq<char>, Seq<char>)>,
    cfg: config::ConfigView,
    i: int,
    value: Seq<char>,
)
    requires
        config::env_config(env) == Ok::<config::ConfigView, config::ConfigErrorView>(cfg),
    ensures
        sets(env, i, "VOICE_REPLIES"@, value) ==> (cfg.bots[0].voice_replies <==> value == "true"@
            || value == "1"@),
        unset(env, "VOICE_REPLIES"@) ==> !cfg.bots[0].voice_replies,
{
    first_values_count(env, i, "VOICE_REPLIES"@, value);
}

/// What the environment has no say in: everything is allowed, in every chat, and the bot
/// has no texts or server of its own.
pub proof fn the_rest_is_usual(env: Seq<(Seq<char>, Seq<char>)>, cfg: config::ConfigView)
    requires
        config::env_config(env) == Ok::<config::ConfigView, config::ConfigErrorView>(cfg),
    ensures
        cfg.bots.len() == 1,
        cfg.bots[0].reactions,
        cfg.bots[0].attachments,
        cfg.bots[0].business,
        cfg.bots[0].guest,
        cfg.bots[0].inline,
        cfg.bots[0].allowed_chats.len() == 0,
        cfg.bots[0].description is None,
        cfg.bots[0].short_description is None,
        cfg.bots[0].max_file_mb == 20,
        cfg.bots[0].api_base is None,
        cfg.storage.collection == "telegram_bot_state"@,
{
}

/// `STORAGE_TYPE` decides where conversations are kept, in any letter case; what it does
/// not know, and its absence, mean SQLite.
pub proof fn storage_type_decides(
    env: Seq<(Seq<char>, Seq<char>)>,
    cfg: config::ConfigView,
    i: int,
    value: Seq<char>,
)
    requires
        config::env_config(env) == Ok::<config::ConfigView, config::ConfigErrorView>(cfg),
    ensures
        sets(env, i, "STORAGE_TYPE"@, value) && (text::lower(value) == "mongodb"@ || text::lower(
            value,
        ) == "mongo"@) ==> cfg.storage.backend == Backend::Mongodb,
        sets(env, i, "STORAGE_TYPE"@, value) && text::lower(value) == "memory"@
            ==> cfg.storage.backend == Backend::Memory,
        sets(env, i, "STORAGE_TYPE"@, value) && text::lower(value) != "mongodb"@ && text::lower(
            value,
        ) != "mongo"@ && text::lower(value) != "memory"@ ==> cfg.storage.backend
            == Backend::Sqlite,
        unset(env, "STORAGE_TYPE"@) ==> cfg.storage.backend == Backend::Sqlite,
{
    reveal_strlit("mongodb");
    reveal_strlit("mongo");
    reveal_strlit("memory");
    assert(text::lower(Seq::empty()).len() == 0);
    assert("memory"@[1] != "mongodb"@[1]);
    assert("memory"@[1] != "mongo"@[1]);
    first_values_count(env, i, "STORAGE_TYPE"@, value);
}

/// `SQLITE_PATH` is the file of a SQLite store, and without it the usual one is.
pub proof fn sqlite_keeps_its_file(
    env: Seq<(Seq<char>, Seq<char>)>,
    cfg: config::ConfigView,
    i: int,
    value: Seq<char>,
)
    requires
        config::env_config(env) == Ok::<config::ConfigView, config::ConfigErrorView>(cfg),
        cfg.storage.backend == Backend::Sqlite,
    ensures
        sets(env, i, "SQLITE_PATH"@, value) ==> cfg.storage.path == value,
        unset(env, "SQLITE_PATH"@) ==> cfg.storage.path == "data/docsgpt-telegram.db"@,
{
    first_values_count(env, i, "SQLITE_PATH"@, value);
}

/// `MONGODB_URI` is the address of a MongoDB store.
pub proof fn mongodb_is_where_told(
    env: Seq<(Seq<char>, Seq<char>)>,
    cfg: config::ConfigView,
    i: int,
    value: Seq<char>,
)
    requires
        config::env_config(env) == Ok::<config::ConfigView, config::ConfigErrorView>(cfg),
        cfg.storage.backend == Backend::Mongodb,
    ensures
        sets(env, i, "MONGODB_URI"@, value) ==> cfg.storage.uri == Some(value),
        unset(env, "MONGODB_URI"@) ==> cfg.storage.uri is None,
{
    first_values_count(env, i, "MONGODB_URI"@, value);
}

/// `MONGODB_DB_NAME` is the database of a MongoDB store, and without it the usual one.
pub proof fn mongodb_has_its_database(
    env: Seq<(Seq<char>, Seq<char>)>,
    cfg: config::ConfigView,
    i: int,
    value: Seq<char>,
)
    requires
        config::env_config(env) == Ok::<config::ConfigView, config::ConfigErrorView>(cfg),
        cfg.storage.backend == Backend::Mongodb,
    ensures
        sets(env, i, "MONGODB_DB_NAME"@, value) ==> cfg.storage.db_name == value,
        unset(env, "MONGODB_DB_NAME"@) ==> cfg.storage.db_name == "telegram_bot_memory"@,
{
    first_values_count(env, i, "MONGODB_DB_NAME"@, value);
}

/// `MONGODB_COLLECTION_NAME` is the older collection that conversations are adopted from,
/// and without it the usual one.
pub proof fn mongodb_adopts_from(
    env: Seq<(Seq<char>, Seq<char>)>,
    cfg: config::ConfigView,
    i: int,
    value: Seq<char>,
)
    requires
        config::env_config(env) == Ok::<config::ConfigView, config::ConfigErrorView>(cfg),
        cfg.storage.backend == Backend::Mongodb,
    ensures
        sets(env, i, "MONGODB_COLLECTION_NAME"@, value) ==> cfg.storage.legacy_collection == value,
        unset(env, "MONGODB_COLLECTION_NAME"@) ==> cfg.storage.legacy_collection
            == "chat_histories"@,
{
    first_values_count(env, i, "MONGODB_COLLECTION_NAME"@, value);
}

} // verus!
