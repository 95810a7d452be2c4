//! Slash commands.

use crate::config;
use crate::config::BotConfig;
use crate::handlers::{groups, message};
use crate::storage;
use crate::storage::ChatState;
use crate::telegram::api;
use crate::telegram::api::Target;
use crate::telegram::raw::{Button, EphemeralMessageParameters};
use crate::telegram::render;
use crate::telegram::render::escape_v2;
use crate::telegram::types::Message;
use crate::telegram::v2;
use crate::text;
use vstd::prelude::*;

verus! {

/// The command at the start of a text, in small letters, and its arguments;
/// none where there is no command, or it is meant for another bot.
pub open spec fn command_of(s: Seq<char>, username: Seq<char>) -> Option<(Seq<char>, Seq<char>)> {
    let i = text::space_at(s);
    let head = s.take(i).skip(1);
    let args = text::trim(s.skip(i));
    if !"/"@.is_prefix_of(s) {
        None
    } else {
        match text::cut_at(head, '@') {
            Some((name, target)) => if text::lower(target) == text::lower(username) {
                Some((text::lower(name), args))
            } else {
                None
            },
            None => Some((text::lower(head), args)),
        }
    }
}

/// The command that a message is.
pub open spec fn command_in(msg: Message, username: Seq<char>) -> Option<(Seq<char>, Seq<char>)> {
    match msg.text {
        Some(t) => command_of(t@, username),
        None => None,
    }
}

/// The text up to its first white space, and from there on.
pub fn split_at_space(s: &str) -> (r: (String, String))
    ensures
        0 <= text::space_at(s@) <= s@.len(),
        r.0@ == s@.take(text::space_at(s@)),
        r.1@ == s@.skip(text::space_at(s@)),
{
    let v = text::chars_of(s);
    let mut i: usize = 0;
    while i < v.len() && !text::space(v[i])
        invariant
            i <= v@.len(),
            v@ == s@,
            forall|j: int| 0 <= j < i ==> !text::is_space(#[trigger] v@[j]),
        decreases v@.len() - i,
    {
        i = i + 1;
    }
    proof {
        text::lemma_space_at(s@, i as int);
    }
    let a = text::string_between(&v, 0, i);
    let b = text::string_between(&v, i, v.len());
    assert(a@ =~= s@.take(i as int));
    assert(b@ =~= s@.skip(i as int));
    (a, b)
}

/// Extract `(command, args)` when the message starts with a command for this bot.
pub fn parse(msg: &Message, username: &str) -> (r: Option<(String, String)>)
    ensures
        (match r {
            Some(p) => Some((p.0@, p.1@)),
            None => None,
        }) == command_in(*msg, username@),
{
    match &msg.text {
        Some(t) => {
            let s = t.as_str();
            if !text::starts_with(s, "/") {
                return None;
            }
            proof {
                reveal_strlit("/");
                assert(s@.subrange(0, 1)[0] == s@[0]);
                text::lemma_space_at_bounds(s@);
            }
            let (head, rest) = split_at_space(s);
            let args = text::trimmed(rest.as_str());
            assert(!text::is_space(s@[0]));
            let head = text::skip_chars(head.as_str(), 1);
            match text::split_once(head.as_str(), '@') {
                Some((name, target)) => {
                    if text::same(
                        text::lowered(target.as_str()).as_str(),
                        text::lowered(username).as_str(),
                    ) {
                        Some((text::lowered(name.as_str()), args))
                    } else {
                        None
                    }
                },
                None => Some((text::lowered(head.as_str()), args)),
            }
        },
        None => None,
    }
}

/// One agent in the list of agents; the active one has a mark.
pub open spec fn agent_line(a: config::AgentView, active: Seq<char>) -> Seq<char> {
    (if a.name == active {
        "✓ "@
    } else {
        Seq::empty()
    }) + a.name + (match a.description {
        Some(d) => " — "@ + d,
        None => Seq::empty(),
    })
}

/// The list of agents, one on a line.
pub open spec fn agents_text(agents: Seq<config::AgentView>, active: Seq<char>) -> Seq<char> {
    text::join(agents.map_values(|a: config::AgentView| agent_line(a, active)), "\n"@)
}

/// The list of agents, one on a line.
pub fn agents_list(cfg: &BotConfig, active: &str) -> (r: String)
    ensures
        r@ == agents_text(cfg@.agents, active@),
{
    let ghost want = cfg@.agents.map_values(|a: config::AgentView| agent_line(a, active@));
    let mut lines: Vec<String> = Vec::new();
    let mut i: usize = 0;
    while i < cfg.agents.len()
        invariant
            i <= cfg.agents@.len(),
            cfg@.agents.len() == cfg.agents@.len(),
            want == cfg@.agents.map_values(|a: config::AgentView| agent_line(a, active@)),
            text::views(lines@) == want.take(i as int),
        decreases cfg.agents@.len() - i,
    {
        let a = &cfg.agents[i];
        assert(cfg@.agents[i as int] == a@);
        let mut line: String = String::new();
        if text::same(a.name.as_str(), active) {
            line.append("✓ ");
            assert(line@ =~= "✓ "@);
        } else {
            assert(line@ =~= Seq::<char>::empty());
        }
        line.append(a.name.as_str());
        match &a.description {
            Some(d) => {
                let ghost before = line@;
                line.append(" — ");
                line.append(d.as_str());
                assert(line@ =~= before + (" — "@ + d@));
            },
            None => {
                assert(line@ =~= line@ + Seq::<char>::empty());
            },
        }
        proof {
            assert(line@ == want[i as int]);
            text::lemma_views_push(lines@, line);
            assert(want.take(i + 1) =~= want.take(i as int).push(line@));
        }
        lines.push(line);
        i = i + 1;
    }
    assert(want.take(i as int) =~= want);
    text::join_list(&lines, "\n")
}

/// The label of an agent's button.
pub open spec fn button_label(a: config::AgentView, active: Seq<char>) -> Seq<char> {
    if a.name == active {
        "✓ "@ + a.name
    } else {
        a.name
    }
}

/// Whether rows of buttons are those of the agents: one row for each, with its
/// label and what it sends.
pub open spec fn agent_rows(
    rows: Seq<Vec<Button>>,
    agents: Seq<config::AgentView>,
    active: Seq<char>,
) -> bool {
    &&& rows.len() == agents.len()
    &&& forall|i: int|
        0 <= i < rows.len() ==> (#[trigger] rows[i])@.len() == 1 && rows[i]@[0].text@
            == button_label(agents[i], active) && rows[i]@[0].callback_data@ == "agent:"@
            + agents[i].name
}

/// The buttons that choose an agent.
pub fn agents_keyboard(cfg: &BotConfig, active: &str) -> (r: Vec<Vec<Button>>)
    ensures
        agent_rows(r@, cfg@.agents, active@),
{
    let mut rows: Vec<Vec<Button>> = Vec::new();
    let mut i: usize = 0;
    while i < cfg.agents.len()
        invariant
            i <= cfg.agents@.len(),
            cfg@.agents.len() == cfg.agents@.len(),
            rows@.len() == i,
            forall|k: int|
                0 <= k < i ==> (#[trigger] rows@[k])@.len() == 1 && rows@[k]@[0].text@
                    == button_label(cfg@.agents[k], active@) && rows@[k]@[0].callback_data@
                    == "agent:"@ + cfg@.agents[k].name,
        decreases cfg.agents@.len() - i,
    {
        let a = &cfg.agents[i];
        assert(cfg@.agents[i as int] == a@);
        let label: String = if text::same(a.name.as_str(), active) {
            let mut l: String = "✓ ".to_string();
            l.append(a.name.as_str());
            l
        } else {
            a.name.as_str().to_string()
        };
        let mut data: String = "agent:".to_string();
        data.append(a.name.as_str());
        let mut row: Vec<Button> = Vec::new();
        row.push(Button { text: label, callback_data: data });
        rows.push(row);
        i = i + 1;
    }
    rows
}

/// The agent that answers in a chat: the one chosen there, where it still
/// exists, else the default.
pub open spec fn active_name(agents: Seq<config::AgentView>, chosen: Option<Seq<char>>) -> Seq<
    char,
> {
    match chosen {
        Some(n) => if config::agent_from(agents, text::lower(n), 0) is Some {
            n
        } else {
            agents[config::default_index(agents)].name
        },
        None => agents[config::default_index(agents)].name,
    }
}

/// The agent that answers in a chat.
pub fn active_agent_name(cfg: &BotConfig, state: &ChatState) -> (r: String)
    requires
        cfg@.agents.len() > 0,
    ensures
        r@ == active_name(cfg@.agents, state@.active_agent),
{
    match &state.active_agent {
        Some(n) => {
            if cfg.agent(n.as_str()).is_some() {
                return n.as_str().to_string();
            }
        },
        None => {},
    }
    cfg.default_agent().name.as_str().to_string()
}

/// The text of `/help`, line by line.
pub open spec fn help_lines(title: Seq<char>, username: Seq<char>, multi: bool) -> Seq<Seq<char>> {
    seq![
        "*"@ + v2::escaped(title) + "*"@,
        Seq::empty(),
        v2::escaped("Send a question and I'll answer from the connected knowledge base."@),
        v2::escaped(
            "You can also send photos, documents or voice notes — I'll read or listen to them."@,
        ),
        Seq::empty(),
        "*Commands*"@,
        v2::escaped("/new — start a new conversation"@),
        v2::escaped("/help — this message"@),
    ] + (if multi {
        seq![
            v2::escaped("/agents — choose which agent answers"@),
            v2::escaped("/agent <name> — switch agent"@),
            v2::escaped("#name question — ask one agent just once"@),
        ]
    } else {
        Seq::empty()
    }) + (if username.len() > 0 {
        seq![
            Seq::empty(),
            v2::escaped(
                "In groups, mention @"@ + username + " or reply to one of my messages."@,
            ),
        ]
    } else {
        Seq::empty()
    })
}

/// The text of `/help`.
pub fn help_text(cfg: &BotConfig, title: &str, username: &str) -> (r: String)
    ensures
        r@ == text::join(help_lines(title@, username@, cfg@.agents.len() > 1), "\n"@),
{
    let mut lines: Vec<String> = Vec::new();
    let mut first: String = "*".to_string();
    first.append(escape_v2(title).as_str());
    first.append("*");
    lines.push(first);
    lines.push(String::new());
    lines.push(escape_v2("Send a question and I'll answer from the connected knowledge base."));
    lines.push(
        escape_v2(
            "You can also send photos, documents or voice notes — I'll read or listen to them.",
        ),
    );
    lines.push(String::new());
    lines.push("*Commands*".to_string());
    lines.push(escape_v2("/new — start a new conversation"));
    lines.push(escape_v2("/help — this message"));
    if cfg.agents.len() > 1 {
        lines.push(escape_v2("/agents — choose which agent answers"));
        lines.push(escape_v2("/agent <name> — switch agent"));
        lines.push(escape_v2("#name question — ask one agent just once"));
    }
    if text::char_count(username) > 0 {
        lines.push(String::new());
        let mut hint: String = "In groups, mention @".to_string();
        hint.append(username);
        hint.append(" or reply to one of my messages.");
        lines.push(escape_v2(hint.as_str()));
    }
    assert(text::views(lines@) =~= help_lines(title@, username@, cfg@.agents.len() > 1));
    text::join_list(&lines, "\n")
}

/// A command, understood.
#[derive(Debug)]
pub enum Command {
    /// Greet; a deep link may name the agent to switch to.
    Start(Option<String>),
    Help,
    /// List the agents.
    Agents,
    /// Tell which agent answers.
    ShowAgent,
    SwitchAgent(String),
    UnknownAgent(String),
    /// Forget the conversation.
    New,
    /// Ask the last question again.
    Regenerate,
    /// Not a command of this bot.
    Other,
}

/// A command as mathematical values.
pub ghost enum CommandView {
    Start(Option<Seq<char>>),
    Help,
    Agents,
    ShowAgent,
    SwitchAgent(Seq<char>),
    UnknownAgent(Seq<char>),
    New,
    Regenerate,
    Other,
}

impl View for Command {
    type V = CommandView;

    open spec fn view(&self) -> CommandView {
        match self {
            Command::Start(a) => CommandView::Start(text::opt_view(*a)),
            Command::Help => CommandView::Help,
            Command::Agents => CommandView::Agents,
            Command::ShowAgent => CommandView::ShowAgent,
            Command::SwitchAgent(a) => CommandView::SwitchAgent(a@),
            Command::UnknownAgent(a) => CommandView::UnknownAgent(a@),
            Command::New => CommandView::New,
            Command::Regenerate => CommandView::Regenerate,
            Command::Other => CommandView::Other,
        }
    }
}

/// The agent that a deep link names, where there is one of that name.
pub open spec fn linked_agent(agents: Seq<config::AgentView>, args: Seq<char>) -> Option<Seq<char>> {
    let name = if "agent_"@.is_prefix_of(args) || "agent-"@.is_prefix_of(args) {
        Some(text::lower(args.skip(6)))
    } else {
        None
    };
    match name {
        Some(n) => if config::agent_from(agents, n, 0) is Some {
            Some(n)
        } else {
            None
        },
        None => None,
    }
}

/// The name that the arguments of `/agent` give.
pub open spec fn agent_argument(args: Seq<char>) -> Seq<char> {
    text::lower(text::drop_front(text::trim(args), '#'))
}

/// What a command with its arguments means.
pub open spec fn meaning(agents: Seq<config::AgentView>, cmd: Seq<char>, args: Seq<char>) -> CommandView {
    if cmd == "start"@ {
        CommandView::Start(linked_agent(agents, args))
    } else if cmd == "help"@ {
        CommandView::Help
    } else if cmd == "agents"@ {
        CommandView::Agents
    } else if cmd == "agent"@ {
        let name = agent_argument(args);
        if name.len() == 0 {
            CommandView::ShowAgent
        } else if config::agent_from(agents, text::lower(name), 0) is Some {
            CommandView::SwitchAgent(agents[config::agent_from(agents, text::lower(name), 0)->0].name)
        } else {
            CommandView::UnknownAgent(name)
        }
    } else if cmd == "new"@ || cmd == "reset"@ || cmd == "clear"@ {
        CommandView::New
    } else if cmd == "regen"@ || cmd == "regenerate"@ {
        CommandView::Regenerate
    } else {
        CommandView::Other
    }
}

fn deep_link(cfg: &BotConfig, args: &str) -> (r: Option<String>)
    ensures
        text::opt_view(r) == linked_agent(cfg@.agents, args@),
{
    proof {
        reveal_strlit("agent_");
        reveal_strlit("agent-");
    }
    if text::starts_with(args, "agent_") || text::starts_with(args, "agent-") {
        let rest = text::skip_chars(args, 6);
        let name = text::lowered(rest.as_str());
        if cfg.agent(rest.as_str()).is_some() {
            Some(name)
        } else {
            None
        }
    } else {
        None
    }
}

/// Understands a command.
pub fn interpret(cfg: &BotConfig, cmd: &str, args: &str) -> (r: Command)
    ensures
        r@ == meaning(cfg@.agents, cmd@, args@),
{
    if text::same(cmd, "start") {
        Command::Start(deep_link(cfg, args))
    } else if text::same(cmd, "help") {
        Command::Help
    } else if text::same(cmd, "agents") {
        Command::Agents
    } else if text::same(cmd, "agent") {
        let inner = text::trimmed(args);
        let bare = text::dropped_front(inner.as_str(), '#');
        let name = text::lowered(bare.as_str());
        if text::char_count(name.as_str()) == 0 {
            Command::ShowAgent
        } else {
            match cfg.agent(name.as_str()) {
                Some(a) => Command::SwitchAgent(a.name.as_str().to_string()),
                None => Command::UnknownAgent(name),
            }
        }
    } else if text::same(cmd, "new") || text::same(cmd, "reset") || text::same(cmd, "clear") {
        Command::New
    } else if text::same(cmd, "regen") || text::same(cmd, "regenerate") {
        Command::Regenerate
    } else {
        Command::Other
    }
}

/// The agent that a command switches to.
pub open spec fn switch_of(cmd: CommandView) -> Option<Seq<char>> {
    match cmd {
        CommandView::Start(a) => a,
        CommandView::SwitchAgent(a) => Some(a),
        _ => None,
    }
}

/// The agent that a command switches to, to be stored before it is answered.
pub fn switched_agent(cmd: &Command) -> (r: Option<String>)
    ensures
        text::opt_view(r) == switch_of(cmd@),
{
    match cmd {
        Command::Start(a) => text::copy_opt(a),
        Command::SwitchAgent(a) => Some(a.as_str().to_string()),
        _ => None,
    }
}

/// Whether the answer to a command depends on the chat's state.
pub fn needs_state(cmd: &Command) -> (r: bool)
    ensures
        r == (match cmd@ {
            CommandView::Start(_) => true,
            CommandView::Agents => true,
            CommandView::ShowAgent => true,
            CommandView::New => true,
            CommandView::Regenerate => true,
            _ => false,
        }),
{
    match cmd {
        Command::Start(_) => true,
        Command::Agents => true,
        Command::ShowAgent => true,
        Command::New => true,
        Command::Regenerate => true,
        _ => false,
    }
}

/// What a command leads to.
#[derive(Debug)]
pub struct Response {
    /// The reply, in MarkdownV2.
    pub reply: Option<String>,
    /// The buttons under it.
    pub keyboard: Option<Vec<Vec<Button>>>,
    /// The agent whose conversation is forgotten first.
    pub clear: Option<String>,
    /// The question that is asked again.
    pub ask: Option<String>,
}

/// A response as mathematical values.
pub ghost struct ResponseView {
    pub reply: Option<Seq<char>>,
    pub clear: Option<Seq<char>>,
    pub ask: Option<Seq<char>>,
}

impl View for Response {
    type V = ResponseView;

    open spec fn view(&self) -> ResponseView {
        ResponseView {
            reply: text::opt_view(self.reply),
            clear: text::opt_view(self.clear),
            ask: text::opt_view(self.ask),
        }
    }
}

/// A reply and nothing more.
pub open spec fn just_reply(s: Seq<char>) -> ResponseView {
    ResponseView { reply: Some(s), clear: None, ask: None }
}

/// The greeting.
pub open spec fn greeting(
    agents: Seq<config::AgentView>,
    welcome: Option<Seq<char>>,
    first: Seq<char>,
    active: Seq<char>,
) -> Seq<char> {
    match welcome {
        Some(w) => v2::escaped(
            text::replace_text(
                text::replace_text(w, "{name}"@, first),
                "{agents}"@,
                agents_text(agents, active),
            ),
        ),
        None => "Hi "@ + v2::escaped(first) + "\\! Ask me anything\\."@ + (if agents.len() > 1 {
            "\n\n*Agents*\n"@ + v2::escaped(agents_text(agents, active))
                + "\n\nUse /agents to switch\\."@
        } else {
            Seq::empty()
        }),
    }
}

/// The names of the agents.
pub open spec fn names_text(agents: Seq<config::AgentView>) -> Seq<char> {
    text::join(agents.map_values(|a: config::AgentView| a.name), ", "@)
}

/// The name by which someone is greeted.
pub open spec fn greeted(first_name: Option<Seq<char>>) -> Seq<char> {
    match first_name {
        Some(n) => n,
        None => "there"@,
    }
}

/// What a command leads to, given the chat's state.
pub open spec fn response_to(
    bot: config::BotView,
    title: Seq<char>,
    username: Seq<char>,
    first_name: Option<Seq<char>>,
    cmd: CommandView,
    state: storage::StateView,
) -> ResponseView {
    let agents = bot.agents;
    let active = active_name(agents, state.active_agent);
    match cmd {
        CommandView::Start(_) => just_reply(
            greeting(agents, bot.welcome, greeted(first_name), active),
        ),
        CommandView::Help => just_reply(
            text::join(help_lines(title, username, agents.len() > 1), "\n"@),
        ),
        CommandView::Agents => if agents.len() <= 1 {
            just_reply(v2::escaped("Only one agent is configured here."@))
        } else {
            just_reply(
                "*Agents*\n"@ + v2::escaped(agents_text(agents, active)) + "\n\nTap to switch\\."@,
            )
        },
        CommandView::ShowAgent => just_reply(
            v2::escaped("Current agent: "@ + active + ". Use /agent <name> to switch."@),
        ),
        CommandView::SwitchAgent(n) => just_reply(v2::escaped("Switched to "@ + n + "."@)),
        CommandView::UnknownAgent(n) => just_reply(
            v2::escaped(
                "Unknown agent "@ + config::debug_text(n) + ". Available: "@ + names_text(agents),
            ),
        ),
        CommandView::New => ResponseView {
            reply: Some(
                v2::escaped(
                    if agents.len() > 1 {
                        "Started a new conversation with "@ + active + "."@
                    } else {
                        "Started a new conversation."@
                    },
                ),
            ),
            clear: Some(active),
            ask: None,
        },
        CommandView::Regenerate => match state.last_question {
            Some(q) => ResponseView { reply: None, clear: None, ask: Some(q) },
            None => just_reply(v2::escaped("Nothing to regenerate yet."@)),
        },
        CommandView::Other => ResponseView { reply: None, clear: None, ask: None },
    }
}

fn greet(cfg: &BotConfig, first: &str, active: &str) -> (r: String)
    ensures
        r@ == greeting(cfg@.agents, cfg@.welcome, first@, active@),
{
    proof {
        reveal_strlit("{name}");
        reveal_strlit("{agents}");
    }
    match &cfg.welcome {
        Some(w) => {
            let named = text::replaced_text(w.as_str(), "{name}", first);
            let list = agents_list(cfg, active);
            let full = text::replaced_text(named.as_str(), "{agents}", list.as_str());
            escape_v2(full.as_str())
        },
        None => {
            let mut t: String = "Hi ".to_string();
            t.append(escape_v2(first).as_str());
            t.append("\\! Ask me anything\\.");
            if cfg.agents.len() > 1 {
                let ghost before = t@;
                t.append("\n\n*Agents*\n");
                t.append(escape_v2(agents_list(cfg, active).as_str()).as_str());
                t.append("\n\nUse /agents to switch\\.");
                assert(t@ =~= before + ("\n\n*Agents*\n"@ + v2::escaped(
                    agents_text(cfg@.agents, active@),
                ) + "\n\nUse /agents to switch\\."@));
            } else {
                assert(t@ =~= t@ + Seq::<char>::empty());
            }
            t
        },
    }
}

/// The names of the agents, with commas.
pub fn agent_names(cfg: &BotConfig) -> (r: String)
    ensures
        r@ == names_text(cfg@.agents),
{
    let ghost want = cfg@.agents.map_values(|a: config::AgentView| a.name);
    let mut names: Vec<String> = Vec::new();
    let mut i: usize = 0;
    while i < cfg.agents.len()
        invariant
            i <= cfg.agents@.len(),
            cfg@.agents.len() == cfg.agents@.len(),
            want == cfg@.agents.map_values(|a: config::AgentView| a.name),
            text::views(names@) == want.take(i as int),
        decreases cfg.agents@.len() - i,
    {
        assert(cfg@.agents[i as int] == cfg.agents@[i as int]@);
        let n = cfg.agents[i].name.as_str().to_string();
        proof {
            text::lemma_views_push(names@, n);
            assert(want.take(i + 1) =~= want.take(i as int).push(n@));
        }
        names.push(n);
        i = i + 1;
    }
    assert(want.take(i as int) =~= want);
    text::join_list(&names, ", ")
}

fn only(reply: String) -> (r: Response)
    ensures
        r@ == just_reply(reply@),
        r.keyboard is None,
{
    Response { reply: Some(reply), keyboard: None, clear: None, ask: None }
}

/// Whether the answer to a command has to do with the agent who answers in the chat.
pub open spec fn names_active(cmd: CommandView) -> bool {
    cmd is Start || cmd is Agents || cmd is ShowAgent || cmd is New
}

/// Answers a command, given the chat's state.
pub fn handle(
    cfg: &BotConfig,
    title: &str,
    username: &str,
    first_name: Option<&str>,
    cmd: &Command,
    state: &ChatState,
) -> (r: Response)
    requires
        names_active(cmd@) ==> cfg@.agents.len() > 0,
    ensures
        r@ == response_to(
            cfg@,
            title@,
            username@,
            match first_name {
                Some(n) => Some(n@),
                None => None,
            },
            cmd@,
            state@,
        ),
        r.keyboard is Some == (cmd@ is Agents && cfg@.agents.len() > 1),
        r.keyboard matches Some(rows) ==> agent_rows(
            rows@,
            cfg@.agents,
            active_name(cfg@.agents, state@.active_agent),
        ),
{
    match cmd {
        Command::Start(_) => {
            let active = active_agent_name(cfg, state);
            let first: &str = match first_name {
                Some(n) => n,
                None => "there",
            };
            only(greet(cfg, first, active.as_str()))
        },
        Command::Help => only(help_text(cfg, title, username)),
        Command::Agents => {
            let active = active_agent_name(cfg, state);
            if cfg.agents.len() <= 1 {
                return only(escape_v2("Only one agent is configured here."));
            }
            let mut t: String = "*Agents*\n".to_string();
            t.append(escape_v2(agents_list(cfg, active.as_str()).as_str()).as_str());
            t.append("\n\nTap to switch\\.");
            Response {
                reply: Some(t),
                keyboard: Some(agents_keyboard(cfg, active.as_str())),
                clear: None,
                ask: None,
            }
        },
        Command::ShowAgent => {
            let active = active_agent_name(cfg, state);
            let mut t: String = "Current agent: ".to_string();
            t.append(active.as_str());
            t.append(". Use /agent <name> to switch.");
            only(escape_v2(t.as_str()))
        },
        Command::SwitchAgent(n) => {
            let mut t: String = "Switched to ".to_string();
            t.append(n.as_str());
            t.append(".");
            only(escape_v2(t.as_str()))
        },
        Command::UnknownAgent(n) => {
            let mut t: String = "Unknown agent ".to_string();
            t.append(config::debug_of(n.as_str()).as_str());
            t.append(". Available: ");
            t.append(agent_names(cfg).as_str());
            only(escape_v2(t.as_str()))
        },
        Command::New => {
            let active = active_agent_name(cfg, state);
            let t: String = if cfg.agents.len() > 1 {
                let mut t: String = "Started a new conversation with ".to_string();
                t.append(active.as_str());
                t.append(".");
                t
            } else {
                "Started a new conversation.".to_string()
            };
            Response {
                reply: Some(escape_v2(t.as_str())),
                keyboard: None,
                clear: Some(active),
                ask: None,
            }
        },
        Command::Regenerate => match &state.last_question {
            Some(q) => Response {
                reply: None,
                keyboard: None,
                clear: None,
                ask: Some(q.as_str().to_string()),
            },
            None => only(escape_v2("Nothing to regenerate yet.")),
        },
        Command::Other => Response { reply: None, keyboard: None, clear: None, ask: None },
    }
}

/// Where a reply to a command is tried, in MarkdownV2: in a group first for the
/// sender's eyes only, then for all.
pub open spec fn reply_places(msg: Message) -> Seq<api::TargetView> {
    let open = message::reply_target(msg);
    if groups::in_group(msg.chat) && msg.from is Some {
        let private = api::EphemeralView {
            receiver_user_id: msg.from->0.id,
            callback_query_id: None,
            replace_callback_query_message: None,
        };
        seq![api::TargetView { only_for: Some(private), ..open }, open]
    } else {
        seq![open]
    }
}

/// Reply privately in groups when possible, otherwise normally: the targets to
/// try, in order.
pub fn reply_targets(msg: &Message) -> (r: Vec<Target>)
    ensures
        r@.map_values(|t: Target| t@) == reply_places(*msg),
{
    let mut out: Vec<Target> = Vec::new();
    if groups::is_group(&msg.chat) {
        match &msg.from {
            Some(user) => {
                let mut private = message::target_for(msg);
                private.ephemeral = Some(
                    EphemeralMessageParameters {
                        receiver_user_id: user.id,
                        callback_query_id: None,
                        replace_callback_query_message: None,
                    },
                );
                out.push(private);
            },
            None => {},
        }
    }
    out.push(message::target_for(msg));
    assert(out@.map_values(|t: Target| t@) =~= reply_places(*msg));
    out
}

/// A reply without its markup.
pub open spec fn plain_words(reply: Seq<char>) -> Seq<char> {
    render::plain_of(text::replace_char(reply, '\\', Seq::empty()))
}

/// A reply without its markup, for where MarkdownV2 was refused.
pub fn plain_reply(reply: &str) -> (r: String)
    ensures
        r@ == plain_words(reply@),
{
    proof {
        reveal_strlit("");
        assert(""@ =~= Seq::<char>::empty());
    }
    let bare = text::replaced_char(reply, '\\', "");
    render::markdown_to_plain(bare.as_str())
}

/// Forgetting a conversation forgets that with the agent who answers in the
/// chat, whichever way it is asked for.
pub proof fn new_clears_the_active_conversation(
    bot: config::BotView,
    title: Seq<char>,
    username: Seq<char>,
    first_name: Option<Seq<char>>,
    args: Seq<char>,
    state: storage::StateView,
)
    ensures
        response_to(
            bot,
            title,
            username,
            first_name,
            meaning(bot.agents, "new"@, args),
            state,
        ).clear == Some(active_name(bot.agents, state.active_agent)),
        meaning(bot.agents, "reset"@, args) == meaning(bot.agents, "new"@, args),
        meaning(bot.agents, "clear"@, args) == meaning(bot.agents, "new"@, args),
{
    reveal_strlit("new");
    reveal_strlit("reset");
    reveal_strlit("clear");
    reveal_strlit("start");
    reveal_strlit("help");
    reveal_strlit("agents");
    reveal_strlit("agent");
    assert("new"@[0] == 'n');
    assert("reset"@[0] == 'r');
    assert("clear"@[0] == 'c');
    assert("start"@[0] == 's');
    assert("help"@[0] == 'h');
    assert("agents"@[0] == 'a');
    assert("agent"@[0] == 'a');
}

}
