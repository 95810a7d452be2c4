//! Inline keyboard callbacks.

use crate::config;
use crate::config::BotConfig;
use crate::handlers::commands;
use crate::telegram::render::escape_v2;
use crate::telegram::v2;
use crate::text;
use vstd::prelude::*;

verus! {

/// A button press, understood.
#[derive(Debug)]
pub enum Press {
    /// The message with the button cannot be seen any more.
    NoMessage,
    /// Switch to this agent.
    SwitchAgent(String),
    /// The agent does not exist any more.
    UnknownAgent,
    /// Forget the conversation.
    New,
    /// Ask the last question again.
    Regenerate,
    /// Nothing the bot offers.
    Other,
}

/// A button press as mathematical values.
pub ghost enum PressView {
    NoMessage,
    SwitchAgent(Seq<char>),
    UnknownAgent,
    New,
    Regenerate,
    Other,
}

impl View for Press {
    type V = PressView;

    open spec fn view(&self) -> PressView {
        match self {
            Press::NoMessage => PressView::NoMessage,
            Press::SwitchAgent(a) => PressView::SwitchAgent(a@),
            Press::UnknownAgent => PressView::UnknownAgent,
            Press::New => PressView::New,
            Press::Regenerate => PressView::Regenerate,
            Press::Other => PressView::Other,
        }
    }
}

/// What a button press means; `data` is what the button sent, if anything.
pub open spec fn press_meaning(
    agents: Seq<config::AgentView>,
    has_message: bool,
    data: Option<Seq<char>>,
) -> PressView {
    let d = match data {
        Some(x) => x,
        None => Seq::empty(),
    };
    if !has_message {
        PressView::NoMessage
    } else if "agent:"@.is_prefix_of(d) {
        match config::agent_from(agents, text::lower(d.skip(6)), 0) {
            Some(i) => PressView::SwitchAgent(agents[i].name),
            None => PressView::UnknownAgent,
        }
    } else if d == "new"@ {
        PressView::New
    } else if d == "regen"@ {
        PressView::Regenerate
    } else {
        PressView::Other
    }
}

/// Understands a button press.
pub fn handle(cfg: &BotConfig, has_message: bool, data: Option<String>) -> (r: Press)
    ensures
        r@ == press_meaning(cfg@.agents, has_message, text::opt_view(data)),
{
    if !has_message {
        return Press::NoMessage;
    }
    let d: String = match data {
        Some(x) => x,
        None => String::new(),
    };
    proof {
        reveal_strlit("agent:");
    }
    if text::starts_with(d.as_str(), "agent:") {
        let name = text::skip_chars(d.as_str(), 6);
        match cfg.agent(name.as_str()) {
            Some(a) => Press::SwitchAgent(a.name.as_str().to_string()),
            None => Press::UnknownAgent,
        }
    } else if text::same(d.as_str(), "new") {
        Press::New
    } else if text::same(d.as_str(), "regen") {
        Press::Regenerate
    } else {
        Press::Other
    }
}

/// The notice that a button press is answered with.
pub open spec fn notice_for(press: PressView) -> Option<Seq<char>> {
    match press {
        PressView::SwitchAgent(a) => Some("Switched to "@ + a),
        PressView::UnknownAgent => Some("That agent is no longer configured"@),
        PressView::New => Some("Started a new conversation"@),
        _ => None,
    }
}

/// The notice that a button press is answered with.
pub fn notice(press: &Press) -> (r: Option<String>)
    ensures
        text::opt_view(r) == notice_for(press@),
{
    match press {
        Press::SwitchAgent(a) => {
            let mut t: String = "Switched to ".to_string();
            t.append(a.as_str());
            Some(t)
        },
        Press::UnknownAgent => Some("That agent is no longer configured".to_string()),
        Press::New => Some("Started a new conversation".to_string()),
        _ => None,
    }
}

/// The list of agents after a switch, in MarkdownV2.
pub open spec fn picker_text(agents: Seq<config::AgentView>, active: Seq<char>) -> Seq<char> {
    "*Agents*\n"@ + v2::escaped(commands::agents_text(agents, active))
        + "\n\nNow answering as *"@ + v2::escaped(active) + "*\\."@
}

/// The list of agents after a switch, in MarkdownV2.
pub fn agents_list_for(cfg: &BotConfig, active: &str) -> (r: String)
    ensures
        r@ == picker_text(cfg@.agents, active@),
{
    let mut t: String = "*Agents*\n".to_string();
    t.append(escape_v2(commands::agents_list(cfg, active).as_str()).as_str());
    t.append("\n\nNow answering as *");
    t.append(escape_v2(active).as_str());
    t.append("*\\.");
    t
}

/// The buttons that choose an agent are understood: each switches to its own,
/// where the names are kept in small letters and differ.
pub proof fn agent_buttons_are_understood(agents: Seq<config::AgentView>, i: int)
    requires
        0 <= i < agents.len(),
        text::lower(agents[i].name) == agents[i].name,
        forall|k: int| 0 <= k < i ==> (#[trigger] agents[k]).name != agents[i].name,
    ensures
        press_meaning(agents, true, Some("agent:"@ + agents[i].name)) == PressView::SwitchAgent(
            agents[i].name,
        ),
{
    reveal_strlit("agent:");
    let d = "agent:"@ + agents[i].name;
    assert("agent:"@ =~= d.subrange(0, 6));
    assert(d.skip(6) =~= agents[i].name);
    lemma_found(agents, agents[i].name, 0, i);
}

proof fn lemma_found(agents: Seq<config::AgentView>, name: Seq<char>, from: int, i: int)
    requires
        0 <= from <= i < agents.len(),
        agents[i].name == name,
        forall|k: int| from <= k < i ==> (#[trigger] agents[k]).name != name,
    ensures
        config::agent_from(agents, name, from) == Some(i),
    decreases i - from,
{
    if from < i {
        lemma_found(agents, name, from + 1, i);
    }
}

}
