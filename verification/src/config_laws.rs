//! What holds of a configuration that was put in order.

use crate::config;
use crate::text;
use vstd::prelude::*;

verus! {

/// A name as it is kept: without capitals, and made of name characters.
pub open spec fn is_kept_name(s: Seq<char>) -> bool {
    config::is_name(s) && config::kept_name(s) == s
}

/// The agents of a bot in order: each with a name of its own and a key, exactly
/// one of them the default.
pub open spec fn agents_in_order(agents: Seq<config::AgentView>) -> bool {
    &&& agents.len() > 0
    &&& forall|i: int|
        0 <= i < agents.len() ==> is_kept_name((#[trigger] agents[i]).name) && !text::blank(
            agents[i].api_key,
        )
    &&& forall|i: int, j: int|
        0 <= i < j < agents.len() ==> (#[trigger] agents[i]).name != (#[trigger] agents[j]).name
    &&& config::default_count(agents) == 1
}

/// The bots in order: each with a name of its own, a token and agents in order.
pub open spec fn bots_in_order(bots: Seq<config::BotView>) -> bool {
    &&& forall|i: int|
        0 <= i < bots.len() ==> is_kept_name((#[trigger] bots[i]).name) && !text::blank(
            bots[i].token,
        ) && agents_in_order(bots[i].agents)
    &&& forall|i: int, j: int|
        0 <= i < j < bots.len() ==> (#[trigger] bots[i]).name != (#[trigger] bots[j]).name
}

proof fn lemma_lower_lower(s: Seq<char>)
    ensures
        text::lower(text::lower(s)) == text::lower(s),
{
    let l = text::lower(s);
    assert forall|i: int| 0 <= i < s.len() implies text::lower_char(#[trigger] l[i]) == l[i] by {
        assert(l[i] == text::lower_char(s[i]));
    }
    assert(text::lower(l) =~= l);
}

proof fn lemma_trim_solid(s: Seq<char>)
    requires
        forall|i: int| 0 <= i < s.len() ==> !text::is_space(#[trigger] s[i]),
    ensures
        text::trim(s) == s,
{
    if s.len() > 0 {
        assert(!text::is_space(s[0]));
        assert(!text::is_space(s[s.len() - 1]));
    }
}

proof fn lemma_kept(s: Seq<char>)
    requires
        config::is_name(config::kept_name(s)),
    ensures
        is_kept_name(config::kept_name(s)),
{
    let k = config::kept_name(s);
    assert forall|i: int| 0 <= i < k.len() implies !text::is_space(#[trigger] k[i]) by {
        assert(config::is_name_char(k[i]));
    }
    lemma_trim_solid(k);
    lemma_lower_lower(text::trim(s));
}

proof fn lemma_agents(bot: Seq<char>, agents: Seq<config::AgentView>, n: nat)
    requires
        n <= agents.len(),
        config::normal_agents(bot, agents, n) is Ok,
    ensures
        ({
            let list = config::normal_agents(bot, agents, n)->Ok_0;
            &&& list.len() == n
            &&& forall|i: int|
                0 <= i < n ==> is_kept_name((#[trigger] list[i]).name) && !text::blank(
                    list[i].api_key,
                )
            &&& forall|i: int, j: int|
                0 <= i < j < n ==> (#[trigger] list[i]).name != (#[trigger] list[j]).name
        }),
    decreases n,
{
    if n > 0 {
        let m = (n - 1) as nat;
        lemma_agents(bot, agents, m);
        let done = config::normal_agents(bot, agents, m)->Ok_0;
        let a = agents[n - 1];
        lemma_kept(a.name);
        let list = config::normal_agents(bot, agents, n)->Ok_0;
        assert forall|i: int, j: int| 0 <= i < j < n implies (#[trigger] list[i]).name != (
        #[trigger] list[j]).name by {
            if j == n - 1 {
                assert(done[i].name != config::kept_name(a.name));
            }
        }
    }
}

proof fn lemma_count_none(agents: Seq<config::AgentView>)
    requires
        config::default_count(agents) == 0,
    ensures
        forall|i: int| 0 <= i < agents.len() ==> !(#[trigger] agents[i]).default,
    decreases agents.len(),
{
    if agents.len() > 0 {
        lemma_count_none(agents.drop_last());
        assert forall|i: int| 0 <= i < agents.len() implies !(#[trigger] agents[i]).default by {
            if i < agents.len() - 1 {
                assert(!agents.drop_last()[i].default);
            }
        }
    }
}

proof fn lemma_count_first(agents: Seq<config::AgentView>)
    requires
        agents.len() > 0,
        agents[0].default,
        forall|i: int| 0 < i < agents.len() ==> !(#[trigger] agents[i]).default,
    ensures
        config::default_count(agents) == 1,
    decreases agents.len(),
{
    let t = agents.drop_last();
    if agents.len() > 1 {
        assert forall|i: int| 0 < i < t.len() implies !(#[trigger] t[i]).default by {
            assert(!agents[i].default);
        }
        lemma_count_first(t);
    } else {
        assert(config::default_count(t) == 0);
    }
}

proof fn lemma_with_default(agents: Seq<config::AgentView>)
    requires
        agents.len() > 0,
        config::default_count(agents) <= 1,
    ensures
        config::default_count(config::with_default(agents)) == 1,
{
    if config::default_count(agents) == 0 {
        lemma_count_none(agents);
        lemma_count_first(config::with_default(agents));
    }
}

proof fn lemma_bot(done: Seq<config::BotView>, url: Option<Seq<char>>, bot: config::BotView)
    requires
        config::normal_bot(done, url, bot) is Ok,
    ensures
        ({
            let b = config::normal_bot(done, url, bot)->Ok_0;
            &&& is_kept_name(b.name)
            &&& b.name == config::kept_name(bot.name)
            &&& !text::blank(b.token)
            &&& agents_in_order(b.agents)
            &&& b.mode == bot.mode
            &&& b.mode == config::Mode::Webhook ==> url is Some
            &&& !config::has_bot(done, b.name)
        }),
{
    let name = config::kept_name(bot.name);
    lemma_kept(bot.name);
    lemma_agents(name, bot.agents, bot.agents.len());
    let agents = config::normal_agents(name, bot.agents, bot.agents.len())->Ok_0;
    lemma_with_default(agents);
    let b = config::normal_bot(done, url, bot)->Ok_0;
    assert forall|i: int, j: int| 0 <= i < j < b.agents.len() implies (#[trigger] b.agents[i]).name
        != (#[trigger] b.agents[j]).name by {
        assert(agents[i].name != agents[j].name);
    }
    assert forall|i: int| 0 <= i < b.agents.len() implies is_kept_name(
        (#[trigger] b.agents[i]).name,
    ) && !text::blank(b.agents[i].api_key) by {
        assert(is_kept_name(agents[i].name));
    }
}

proof fn lemma_bots(bots: Seq<config::BotView>, url: Option<Seq<char>>, n: nat)
    requires
        n <= bots.len(),
        config::normal_bots(bots, url, n) is Ok,
    ensures
        ({
            let list = config::normal_bots(bots, url, n)->Ok_0;
            &&& list.len() == n
            &&& bots_in_order(list)
            &&& forall|i: int|
                0 <= i < n ==> (#[trigger] list[i]).mode == bots[i].mode && (list[i].mode
                    == config::Mode::Webhook ==> url is Some)
        }),
    decreases n,
{
    if n > 0 {
        let m = (n - 1) as nat;
        lemma_bots(bots, url, m);
        let done = config::normal_bots(bots, url, m)->Ok_0;
        lemma_bot(done, url, bots[n - 1]);
        let list = config::normal_bots(bots, url, n)->Ok_0;
        assert forall|i: int, j: int| 0 <= i < j < n implies (#[trigger] list[i]).name != (
        #[trigger] list[j]).name by {
            if j == n - 1 {
                assert(done[i].name != list[j].name);
            }
        }
    }
}

proof fn lemma_drop_back(s: Seq<char>, c: char)
    ensures
        text::drop_back(s, c).len() > 0 ==> text::drop_back(s, c).last() != c,
        text::drop_back(text::drop_back(s, c), c) == text::drop_back(s, c),
    decreases s.len(),
{
    if s.len() > 0 && s.last() == c {
        lemma_drop_back(s.drop_last(), c);
    }
}

/// A configuration that was put in order has bots, each with a name of its own,
/// a token and agents of which exactly one is the default; a bot with webhooks
/// finds the server on and its address known; and the base address ends in no
/// slash.
pub proof fn normal_is_in_order(cfg: config::ConfigView)
    requires
        config::normalized(cfg) is Ok,
    ensures
        ({
            let c = config::normalized(cfg)->Ok_0;
            &&& c.bots.len() > 0
            &&& bots_in_order(c.bots)
            &&& forall|i: int|
                0 <= i < c.bots.len() && (#[trigger] c.bots[i]).mode == config::Mode::Webhook
                    ==> c.server.enabled && c.server.public_url is Some
            &&& c.storage.backend == config::Backend::Mongodb ==> c.storage.uri is Some
                && !text::blank(c.storage.uri->0)
            &&& c.api_base.len() > 0 ==> c.api_base.last() != '/'
        }),
{
    let c = config::normalized(cfg)->Ok_0;
    lemma_bots(cfg.bots, cfg.server.public_url, cfg.bots.len());
    lemma_drop_back(cfg.api_base, '/');
    assert forall|i: int|
        0 <= i < c.bots.len() && (#[trigger] c.bots[i]).mode == config::Mode::Webhook implies
    c.server.enabled && c.server.public_url is Some by {
        assert(cfg.bots[i].mode == config::Mode::Webhook);
        assert(config::any_webhook(cfg.bots));
    }
}

proof fn lemma_agents_fixed(bot: Seq<char>, agents: Seq<config::AgentView>, n: nat)
    requires
        n <= agents.len(),
        agents_in_order(agents),
    ensures
        config::normal_agents(bot, agents, n) == Ok::<
            Seq<config::AgentView>,
            config::ConfigErrorView,
        >(agents.take(n as int)),
    decreases n,
{
    if n > 0 {
        let m = (n - 1) as nat;
        lemma_agents_fixed(bot, agents, m);
        let done = agents.take(m as int);
        let a = agents[n - 1];
        assert(is_kept_name(a.name));
        assert(!config::has_agent(done, a.name)) by {
            if config::has_agent(done, a.name) {
                let k = choose|k: int| 0 <= k < done.len() && (#[trigger] done[k]).name == a.name;
                assert(agents[k].name != agents[n - 1].name);
            }
        }
        assert(done.push(a) =~= agents.take(n as int));
    } else {
        assert(agents.take(0) =~= Seq::<config::AgentView>::empty());
    }
}

proof fn lemma_bots_fixed(bots: Seq<config::BotView>, url: Option<Seq<char>>, n: nat)
    requires
        n <= bots.len(),
        bots_in_order(bots),
        forall|i: int|
            0 <= i < bots.len() && (#[trigger] bots[i]).mode == config::Mode::Webhook
                ==> url is Some,
    ensures
        config::normal_bots(bots, url, n) == Ok::<Seq<config::BotView>, config::ConfigErrorView>(
            bots.take(n as int),
        ),
    decreases n,
{
    if n > 0 {
        let m = (n - 1) as nat;
        lemma_bots_fixed(bots, url, m);
        let done = bots.take(m as int);
        let b = bots[n - 1];
        assert(is_kept_name(b.name));
        assert(agents_in_order(b.agents));
        lemma_agents_fixed(b.name, b.agents, b.agents.len());
        assert(b.agents.take(b.agents.len() as int) =~= b.agents);
        assert(!config::has_bot(done, b.name)) by {
            if config::has_bot(done, b.name) {
                let k = choose|k: int| 0 <= k < done.len() && (#[trigger] done[k]).name == b.name;
                assert(bots[k].name != bots[n - 1].name);
            }
        }
        assert(done.push(b) =~= bots.take(n as int));
    } else {
        assert(bots.take(0) =~= Seq::<config::BotView>::empty());
    }
}

/// Putting a configuration in order a second time changes nothing.
pub proof fn normalizing_is_idempotent(cfg: config::ConfigView)
    requires
        config::normalized(cfg) is Ok,
    ensures
        config::normalized(config::normalized(cfg)->Ok_0) == config::normalized(cfg),
{
    normal_is_in_order(cfg);
    let c = config::normalized(cfg)->Ok_0;
    lemma_bots_fixed(c.bots, c.server.public_url, c.bots.len());
    assert(c.bots.take(c.bots.len() as int) =~= c.bots);
    lemma_drop_back(cfg.api_base, '/');
    lemma_bots(cfg.bots, cfg.server.public_url, cfg.bots.len());
    if config::any_webhook(c.bots) {
        let k = choose|k: int| 0 <= k < c.bots.len() && (#[trigger] c.bots[k]).mode
            == config::Mode::Webhook;
        assert(c.server.enabled);
    }
}

proof fn lemma_default_found(agents: Seq<config::AgentView>, i: int)
    requires
        0 <= i <= agents.len(),
        forall|k: int| 0 <= k < i ==> !(#[trigger] agents[k]).default,
    ensures
        config::default_from(agents, i) is None ==> forall|k: int|
            0 <= k < agents.len() ==> !(#[trigger] agents[k]).default,
        config::default_from(agents, i) matches Some(k) ==> 0 <= k < agents.len()
            && agents[k].default,
    decreases agents.len() - i,
{
    if i < agents.len() && !agents[i].default {
        lemma_default_found(agents, i + 1);
    }
}

proof fn lemma_none_counts_zero(agents: Seq<config::AgentView>)
    requires
        forall|k: int| 0 <= k < agents.len() ==> !(#[trigger] agents[k]).default,
    ensures
        config::default_count(agents) == 0,
    decreases agents.len(),
{
    if agents.len() > 0 {
        let t = agents.drop_last();
        assert forall|k: int| 0 <= k < t.len() implies !(#[trigger] t[k]).default by {
            assert(!agents[k].default);
        }
        assert(!agents[agents.len() - 1].default);
        lemma_none_counts_zero(t);
    }
}

/// Among agents in order, the one that answers where none was chosen is marked
/// as the default.
pub proof fn default_agent_is_marked(agents: Seq<config::AgentView>)
    requires
        agents_in_order(agents),
    ensures
        0 <= config::default_index(agents) < agents.len(),
        agents[config::default_index(agents)].default,
{
    lemma_default_found(agents, 0);
    if config::default_from(agents, 0) is None {
        lemma_none_counts_zero(agents);
    }
}

proof fn lemma_lex_total(a: Seq<char>, b: Seq<char>)
    ensures
        config::lex_le(a, b) || config::lex_le(b, a),
    decreases a.len(),
{
    if a.len() > 0 && b.len() > 0 && a[0] == b[0] {
        lemma_lex_total(a.skip(1), b.skip(1));
    }
}

proof fn lemma_lex_trans(a: Seq<char>, b: Seq<char>, c: Seq<char>)
    requires
        config::lex_le(a, b),
        config::lex_le(b, c),
    ensures
        config::lex_le(a, c),
    decreases a.len(),
{
    if a.len() > 0 && a[0] == b[0] && b[0] == c[0] {
        lemma_lex_trans(a.skip(1), b.skip(1), c.skip(1));
    }
}

proof fn lemma_lex_antisym(a: Seq<char>, b: Seq<char>)
    requires
        config::lex_le(a, b),
        config::lex_le(b, a),
    ensures
        a == b,
    decreases a.len(),
{
    if a.len() > 0 {
        lemma_lex_antisym(a.skip(1), b.skip(1));
        assert(a =~= seq![a[0]] + a.skip(1));
        assert(b =~= seq![b[0]] + b.skip(1));
    } else {
        assert(a =~= b);
    }
}

proof fn lemma_pair_order(
    p: (Seq<char>, Seq<char>),
    q: (Seq<char>, Seq<char>),
    r: (Seq<char>, Seq<char>),
)
    ensures
        config::pair_le(p, q) || config::pair_le(q, p),
        config::pair_le(p, q) && config::pair_le(q, r) ==> config::pair_le(p, r),
{
    lemma_lex_total(p.0, q.0);
    lemma_lex_total(p.1, q.1);
    if config::pair_le(p, q) && config::pair_le(q, r) {
        if p.0 == q.0 && q.0 == r.0 {
            lemma_lex_trans(p.1, q.1, r.1);
        } else if p.0 != q.0 && q.0 != r.0 {
            lemma_lex_trans(p.0, q.0, r.0);
            if p.0 == r.0 {
                lemma_lex_antisym(p.0, q.0);
            }
        }
    }
}

/// Whether a list of pairs is in order.
pub open spec fn in_order(list: Seq<(Seq<char>, Seq<char>)>) -> bool {
    forall|i: int, j: int|
        0 <= i < j < list.len() ==> config::pair_le(#[trigger] list[i], #[trigger] list[j])
}

proof fn lemma_insert_in_order(list: Seq<(Seq<char>, Seq<char>)>, p: (Seq<char>, Seq<char>))
    requires
        in_order(list),
    ensures
        in_order(config::insert_pair(list, p)),
        config::insert_pair(list, p).to_multiset() == list.to_multiset().insert(p),
    decreases list.len(),
{
    broadcast use vstd::seq_lib::group_to_multiset_ensures;

    let r = config::insert_pair(list, p);
    if list.len() == 0 || config::pair_le(p, list[0]) {
        assert forall|i: int, j: int| 0 <= i < j < r.len() implies config::pair_le(
            #[trigger] r[i],
            #[trigger] r[j],
        ) by {
            assert(r[j] == list[j - 1]);
            if i == 0 {
                if j > 1 {
                    assert(config::pair_le(list[0], list[j - 1]));
                    lemma_pair_order(p, list[0], list[j - 1]);
                }
            } else {
                assert(r[i] == list[i - 1]);
            }
        }
        assert(r =~= seq![p] + list);
        vstd::seq_lib::lemma_multiset_commutative(seq![p], list);
        assert(seq![p].to_multiset() =~= vstd::multiset::Multiset::empty().insert(p)) by {
            assert(seq![p] =~= Seq::<(Seq<char>, Seq<char>)>::empty().push(p));
        }
        assert(r.to_multiset() =~= list.to_multiset().insert(p));
    } else {
        let t = list.skip(1);
        assert forall|i: int, j: int| 0 <= i < j < t.len() implies config::pair_le(
            #[trigger] t[i],
            #[trigger] t[j],
        ) by {
            assert(config::pair_le(list[i + 1], list[j + 1]));
        }
        lemma_insert_in_order(t, p);
        let u = config::insert_pair(t, p);
        lemma_pair_order(p, list[0], list[0]);
        assert forall|j: int| 0 <= j < u.len() implies config::pair_le(list[0], #[trigger] u[j]) by {
            assert(u.contains(u[j]));
            assert(u.to_multiset().count(u[j]) > 0);
            if u[j] != p {
                assert(t.to_multiset().count(u[j]) > 0);
                assert(t.contains(u[j]));
                let k = choose|k: int| 0 <= k < t.len() && t[k] == u[j];
                assert(config::pair_le(list[0], list[k + 1]));
            }
        }
        assert forall|i: int, j: int| 0 <= i < j < r.len() implies config::pair_le(
            #[trigger] r[i],
            #[trigger] r[j],
        ) by {
            assert(r[j] == u[j - 1]);
            if i > 0 {
                assert(r[i] == u[i - 1]);
            }
        }
        vstd::seq_lib::lemma_multiset_commutative(seq![list[0]], u);
        vstd::seq_lib::lemma_multiset_commutative(seq![list[0]], t);
        assert(list =~= seq![list[0]] + t);
        assert(r.to_multiset() =~= list.to_multiset().insert(p));
    }
}

/// The agents that variables name come in alphabetical order.
pub proof fn named_agents_in_order(env: Seq<(Seq<char>, Seq<char>)>, n: nat)
    requires
        n <= env.len(),
    ensures
        in_order(config::named_agents(env, n)),
    decreases n,
{
    if n > 0 {
        named_agents_in_order(env, (n - 1) as nat);
        let e = env[n - 1];
        lemma_insert_in_order(
            config::named_agents(env, (n - 1) as nat),
            (text::lower(e.0.skip(8)), e.1),
        );
    }
}

/// A variable that names an agent adds exactly that agent.
pub proof fn named_agents_grow(env: Seq<(Seq<char>, Seq<char>)>, n: nat)
    requires
        0 < n <= env.len(),
        config::names_agent(env[n - 1].0),
    ensures
        config::named_agents(env, n).to_multiset() == config::named_agents(
            env,
            (n - 1) as nat,
        ).to_multiset().insert((text::lower(env[n - 1].0.skip(8)), env[n - 1].1)),
{
    named_agents_in_order(env, (n - 1) as nat);
    let e = env[n - 1];
    lemma_insert_in_order(
        config::named_agents(env, (n - 1) as nat),
        (text::lower(e.0.skip(8)), e.1),
    );
}

}
