//! Which configurations are in order and what references in them stand for, as laws over
//! the settings themselves.

use crate::config;
use crate::config::{Backend, Mode};
use crate::pattern;
use crate::text;
use crate::text_laws;
use crate::util;
use vstd::prelude::*;

verus! {

/// Whether a name may stand as it is: small letters, digits, hyphens and underscores.
pub open spec fn plain_name(s: Seq<char>) -> bool {
    &&& s.len() > 0
    &&& forall|i: int|
        0 <= i < s.len() ==> ('a' <= #[trigger] s[i] && s[i] <= 'z') || ('0' <= s[i] && s[i] <= '9')
            || s[i] == '-' || s[i] == '_'
}

/// Names are kept in small letters and without white space around them, and may hold
/// letters, digits, hyphens and underscores and nothing else.
pub proof fn names_are_kept_plain(s: Seq<char>, a: Seq<char>, b: Seq<char>, c: char)
    ensures
        plain_name(s) ==> config::kept_name(s) == s && config::is_name(s),
        plain_name(s) && text::blank(a) && text::blank(b) ==> config::kept_name(a + s + b) == s,
        s.contains(c) && !text::is_ascii_word(c) && c != '-' && c != '_' ==> !config::is_name(s),
        !config::is_name(Seq::empty()),
{
    if plain_name(s) {
        let none = Seq::<char>::empty();
        assert(!text::is_space(s[0]));
        assert(!text::is_space(s[s.len() - 1]));
        text_laws::trimming_takes_outer_space(none, s, none);
        assert(none + s + none =~= s);
        if text::blank(a) && text::blank(b) {
            text_laws::trimming_takes_outer_space(a, s, b);
        }
        assert(text::lower(s) =~= s);
        assert forall|i: int| 0 <= i < s.len() implies config::is_name_char(#[trigger] s[i]) by {
            let d = s[i];
        }
    }
    if s.contains(c) {
        let k = s.index_of(c);
        assert(s[k] == c);
    }
}

proof fn lemma_one_agent(bot: Seq<char>, a: config::AgentView)
    requires
        plain_name(a.name),
        !text::blank(a.api_key),
    ensures
        config::normal_agents(bot, seq![a], 1) == Ok::<
            Seq<config::AgentView>,
            config::ConfigErrorView,
        >(seq![a]),
{
    reveal_with_fuel(config::normal_agents, 2);
    names_are_kept_plain(a.name, a.name, a.name, ' ');
    let none = Seq::<config::AgentView>::empty();
    assert(config::normal_agents(bot, seq![a], 0) == Ok::<
        Seq<config::AgentView>,
        config::ConfigErrorView,
    >(none));
    assert(config::normal_agent(bot, none, a) == Ok::<config::AgentView, config::ConfigErrorView>(
        a,
    ));
    assert(none.push(a) =~= seq![a]);
}

/// A configuration of one bot with one agent is in order where both have plain names, a
/// token and a key; the agent becomes the default, and a slash at the end of the
/// server's address goes.
pub proof fn orderly_configurations_are_taken(
    cfg: config::ConfigView,
    bot: config::BotView,
    a: config::AgentView,
)
    requires
        cfg.bots == seq![bot],
        bot.agents == seq![a],
        plain_name(bot.name),
        plain_name(a.name),
        !text::blank(bot.token),
        !text::blank(a.api_key),
        bot.mode == Mode::Webhook ==> cfg.server.public_url is Some,
        cfg.storage.backend == Backend::Mongodb ==> cfg.storage.uri is Some && !text::blank(
            cfg.storage.uri->0,
        ),
        cfg.api_base.len() > 0,
        cfg.api_base.last() != '/',
    ensures
        config::normalized(cfg) == Ok::<config::ConfigView, config::ConfigErrorView>(
            config::ConfigView {
                bots: seq![
                    config::BotView {
                        agents: seq![config::AgentView { default: true, ..a }],
                        ..bot
                    },
                ],
                server: config::ServerView {
                    enabled: cfg.server.enabled || bot.mode == Mode::Webhook,
                    ..cfg.server
                },
                ..cfg
            },
        ),
{
    lemma_one_agent(bot.name, a);
    names_are_kept_plain(bot.name, bot.name, bot.name, ' ');
    reveal_with_fuel(config::normal_bots, 2);
    reveal_with_fuel(config::default_count, 2);
    let url = cfg.server.public_url;
    let none = Seq::<config::BotView>::empty();
    assert(seq![a].drop_last() =~= Seq::<config::AgentView>::empty());
    let b = config::AgentView { default: true, ..a };
    assert(config::with_default(seq![a]) =~= seq![b]) by {
        if a.default {
            assert(a == b);
        }
    }
    let done = config::BotView { agents: seq![b], ..bot };
    assert(config::normal_bots(cfg.bots, url, 0) == Ok::<
        Seq<config::BotView>,
        config::ConfigErrorView,
    >(none));
    assert(config::normal_bot(none, url, bot) == Ok::<config::BotView, config::ConfigErrorView>(
        done,
    ));
    assert(none.push(done) =~= seq![done]);
    assert(config::any_webhook(cfg.bots) <==> bot.mode == Mode::Webhook) by {
        assert(cfg.bots[0] == bot);
    }
}

/// What is wrong with a bot is found in order: its name, a name that is taken, its
/// token, its agents, and last its webhook's address.
pub proof fn wrong_bots_are_refused(
    done: Seq<config::BotView>,
    url: Option<Seq<char>>,
    bot: config::BotView,
)
    ensures
        !config::is_name(config::kept_name(bot.name)) ==> config::normal_bot(done, url, bot)
            == Err::<config::BotView, config::ConfigErrorView>(
            config::ConfigErrorView::BadBotName(config::kept_name(bot.name)),
        ),
        plain_name(bot.name) && config::has_bot(done, bot.name) ==> config::normal_bot(
            done,
            url,
            bot,
        ) == Err::<config::BotView, config::ConfigErrorView>(
            config::ConfigErrorView::DuplicateBot(bot.name),
        ),
        plain_name(bot.name) && !config::has_bot(done, bot.name) && text::blank(bot.token)
            ==> config::normal_bot(done, url, bot) == Err::<
            config::BotView,
            config::ConfigErrorView,
        >(config::ConfigErrorView::EmptyToken(bot.name)),
        plain_name(bot.name) && !config::has_bot(done, bot.name) && !text::blank(bot.token)
            && bot.agents.len() == 0 ==> config::normal_bot(done, url, bot) == Err::<
            config::BotView,
            config::ConfigErrorView,
        >(config::ConfigErrorView::NoAgents(bot.name)),
{
    names_are_kept_plain(bot.name, bot.name, bot.name, ' ');
}

/// What is wrong with an agent: its name, a name that is taken, or a key that is
/// missing.
pub proof fn wrong_agents_are_refused(
    bot: Seq<char>,
    done: Seq<config::AgentView>,
    a: config::AgentView,
)
    ensures
        !config::is_name(config::kept_name(a.name)) ==> config::normal_agent(bot, done, a)
            == Err::<config::AgentView, config::ConfigErrorView>(
            config::ConfigErrorView::BadAgentName(bot, config::kept_name(a.name)),
        ),
        plain_name(a.name) && config::has_agent(done, a.name) ==> config::normal_agent(bot, done, a)
            == Err::<config::AgentView, config::ConfigErrorView>(
            config::ConfigErrorView::DuplicateAgent(bot, a.name),
        ),
        plain_name(a.name) && !config::has_agent(done, a.name) && text::blank(a.api_key)
            ==> config::normal_agent(bot, done, a) == Err::<
            config::AgentView,
            config::ConfigErrorView,
        >(config::ConfigErrorView::EmptyApiKey(bot, a.name)),
        plain_name(a.name) && !config::has_agent(done, a.name) && !text::blank(a.api_key)
            ==> config::normal_agent(bot, done, a) == Ok::<
            config::AgentView,
            config::ConfigErrorView,
        >(a),
{
    names_are_kept_plain(a.name, a.name, a.name, ' ');
}

/// A configuration without bots, and one for MongoDB without its address, are refused.
pub proof fn incomplete_configurations_are_refused(cfg: config::ConfigView)
    ensures
        cfg.bots.len() == 0 ==> config::normalized(cfg) == Err::<
            config::ConfigView,
            config::ConfigErrorView,
        >(config::ConfigErrorView::NoBots),
        cfg.bots.len() > 0 && config::normal_bots(
            cfg.bots,
            cfg.server.public_url,
            cfg.bots.len(),
        ) is Ok && cfg.storage.backend == Backend::Mongodb && cfg.storage.uri is None
            ==> config::normalized(cfg) == Err::<config::ConfigView, config::ConfigErrorView>(
            config::ConfigErrorView::NoMongoUri,
        ),
{
}

/// A reference is replaced by its variable's value, or by its default where the variable
/// is not set; one that has neither is reported by its name.
pub proof fn references_are_replaced(
    a: Seq<char>,
    name: Seq<char>,
    otherwise: Option<Seq<char>>,
    whole: Seq<char>,
    b: Seq<char>,
    env: Seq<(Seq<char>, Seq<char>)>,
    value: Seq<char>,
)
    ensures
        ({
            let found = pattern::FoundView {
                pieces: seq![a, b],
                groups: seq![seq![Some(whole), Some(name), otherwise]],
            };
            &&& config::env_value(env, name) == Some(value) ==> config::expanded(found, env)
                == Ok::<Seq<char>, config::ConfigErrorView>(a + value + b)
            &&& config::env_value(env, name) is None && otherwise == Some(value)
                ==> config::expanded(found, env) == Ok::<Seq<char>, config::ConfigErrorView>(
                a + value + b,
            )
            &&& config::env_value(env, name) is None && otherwise is None ==> config::expanded(
                found,
                env,
            ) == Err::<Seq<char>, config::ConfigErrorView>(
                config::ConfigErrorView::MissingVariables(seq![name]),
            )
        }),
        config::expanded(pattern::FoundView { pieces: seq![a], groups: Seq::empty() }, env)
            == Ok::<Seq<char>, config::ConfigErrorView>(a),
{
    reveal_with_fuel(config::missing_names, 2);
    reveal_with_fuel(pattern::woven, 2);
    let found = pattern::FoundView {
        pieces: seq![a, b],
        groups: seq![seq![Some(whole), Some(name), otherwise]],
    };
    assert(found.group(0, 1) == Some(name));
    assert(found.group(0, 2) == otherwise);
    assert(config::missing_names(found, env, 0) =~= Seq::<Seq<char>>::empty());
    assert(Seq::<Seq<char>>::empty().push(name) =~= seq![name]);
}

/// What is wrong with a configuration is said in words that name what it is about.
pub proof fn configuration_errors_are_told(b: Seq<char>, x: Seq<char>, y: Seq<char>)
    ensures
        config::config_error_words(config::ConfigErrorView::NoToken)
            == "TELEGRAM_BOT_TOKEN is not set and no config file was found"@,
        config::config_error_words(config::ConfigErrorView::NoApiKey)
            == "API_KEY (or API_KEY_<NAME>) is not set"@,
        config::config_error_words(config::ConfigErrorView::NoBots) == "no bots configured"@,
        config::config_error_words(config::ConfigErrorView::NoMongoUri)
            == "storage.backend = mongodb requires storage.uri (or MONGODB_URI)"@,
        config::config_error_words(config::ConfigErrorView::MissingVariables(seq![x, y]))
            == "missing environment variables referenced in config: "@ + (x + ", "@ + y),
        config::config_error_words(config::ConfigErrorView::EmptyToken(b)) == "bot "@
            + config::debug_text(b) + ": token is empty"@,
        config::config_error_words(config::ConfigErrorView::DuplicateBot(b))
            == "duplicate bot name "@ + config::debug_text(b),
        config::config_error_words(config::ConfigErrorView::NoPublicUrl(b)) == "bot "@
            + config::debug_text(b) + " uses webhook mode but server.public_url is not set"@,
        config::config_error_words(config::ConfigErrorView::ManyDefaults(b)) == "bot "@
            + config::debug_text(b) + ": more than one default agent"@,
{
    text_laws::joining_separates(Seq::empty(), x, y, ", "@);
}

/// A Python text in single quotes is a JSON text in double ones; its constants have
/// JSON's names; and what stands between them stays.
pub proof fn reprs_become_json(s: Seq<char>, rest: Seq<char>)
    requires
        forall|i: int|
            0 <= i < s.len() ==> #[trigger] s[i] != '\'' && s[i] != '"' && s[i] != '\\' && s[i]
                != '\n',
    ensures
        util::repr_as_json(seq!['\''] + s + seq!['\''] + rest, None) == seq!['"'] + s + seq!['"']
            + util::repr_as_json(rest, None),
        util::json_word("True"@) == "true"@,
        util::json_word("False"@) == "false"@,
        util::json_word("None"@) == "null"@,
        util::repr_as_json(Seq::empty(), None).len() == 0,
        util::repr_as_json(seq!['{'] + rest, None) == seq!['{'] + util::repr_as_json(rest, None),
        util::repr_as_json(seq![','] + rest, None) == seq![','] + util::repr_as_json(rest, None),
        util::repr_as_json(seq!['\\', '\''] + rest, Some('\'')) == seq!['\''] + util::repr_as_json(
            rest,
            Some('\''),
        ),
        util::repr_as_json(seq!['"'] + rest, Some('\'')) == seq!['\\', '"'] + util::repr_as_json(
            rest,
            Some('\''),
        ),
{
    reveal_strlit("\"");
    reveal_strlit("'");
    reveal_strlit("\\\"");
    reveal_strlit("True");
    reveal_strlit("False");
    reveal_strlit("None");
    assert("\""@ =~= seq!['"']);
    assert("'"@ =~= seq!['\'']);
    assert("\\\""@ =~= seq!['\\', '"']);
    assert("True"@[0] == 'T' && "False"@[0] == 'F' && "None"@[0] == 'N');
    let tail = s + seq!['\''] + rest;
    let w = seq!['\''] + s + seq!['\''] + rest;
    assert(w.skip(1) =~= tail);
    lemma_inside(s, rest);
    let a = seq!['"'] + (s + seq!['"'] + util::repr_as_json(rest, None));
    assert(a =~= seq!['"'] + s + seq!['"'] + util::repr_as_json(rest, None));
    assert((seq!['{'] + rest).skip(1) =~= rest);
    assert((seq![','] + rest).skip(1) =~= rest);
    assert((seq!['\\', '\''] + rest).skip(2) =~= rest);
    assert((seq!['"'] + rest).skip(1) =~= rest);
}

proof fn lemma_inside(s: Seq<char>, rest: Seq<char>)
    requires
        forall|i: int|
            0 <= i < s.len() ==> #[trigger] s[i] != '\'' && s[i] != '"' && s[i] != '\\' && s[i]
                != '\n',
    ensures
        util::repr_as_json(s + seq!['\''] + rest, Some('\'')) == s + seq!['"']
            + util::repr_as_json(rest, None),
    decreases s.len(),
{
    reveal_strlit("\"");
    assert("\""@ =~= seq!['"']);
    let w = s + seq!['\''] + rest;
    let none = util::repr_as_json(rest, None);
    if s.len() == 0 {
        assert(w[0] == '\'');
        assert(w.skip(1) =~= rest);
        assert(s + seq!['"'] + none =~= seq!['"'] + none);
    } else {
        let t = s.skip(1);
        assert forall|i: int| 0 <= i < t.len() implies #[trigger] t[i] != '\'' && t[i] != '"'
            && t[i] != '\\' && t[i] != '\n' by {
            assert(t[i] == s[i + 1]);
        }
        lemma_inside(t, rest);
        assert(w[0] == s[0]);
        assert(w.skip(1) =~= t + seq!['\''] + rest);
        assert(seq![s[0]] + (t + seq!['"'] + none) =~= s + seq!['"'] + none);
    }
}

} // verus!
