//! What a bot tells Telegram about itself at startup.

use crate::text;
use vstd::prelude::*;

verus! {

/// A command in the bot's menu.
#[derive(Debug)]
pub struct MenuCommand {
    pub command: String,
    pub description: String,
    /// Whether its replies are shown to the sender only.
    pub ephemeral: bool,
}

/// A menu command as mathematical values.
pub ghost struct MenuView {
    pub command: Seq<char>,
    pub description: Seq<char>,
    pub ephemeral: bool,
}

impl View for MenuCommand {
    type V = MenuView;

    open spec fn view(&self) -> MenuView {
        MenuView {
            command: self.command@,
            description: self.description@,
            ephemeral: self.ephemeral,
        }
    }
}

/// The values of a menu.
pub open spec fn menu_views(list: Seq<MenuCommand>) -> Seq<MenuView> {
    list.map_values(|c: MenuCommand| c@)
}

/// A menu entry.
pub open spec fn entry(command: Seq<char>, description: Seq<char>, ephemeral: bool) -> MenuView {
    MenuView { command, description, ephemeral }
}

/// The menu in private chats; the agents are in it where there are several.
pub open spec fn private_menu(multi: bool) -> Seq<MenuView> {
    let base = seq![
        entry("start"@, "Start a conversation"@, false),
        entry("new"@, "Start a new conversation"@, false),
        entry("help"@, "How to use this bot"@, false),
    ];
    if multi {
        base.push(entry("agents"@, "Choose which agent answers"@, false)).push(
            entry("agent"@, "Switch agent: /agent <name>"@, false),
        )
    } else {
        base
    }
}

/// The menu in groups; the agents are in it where there are several.
pub open spec fn group_menu(multi: bool) -> Seq<MenuView> {
    let base = seq![
        entry("new"@, "Start a new conversation here"@, false),
        entry("help"@, "How to use this bot"@, true),
    ];
    if multi {
        base.push(entry("agents"@, "Choose which agent answers"@, true)).push(
            entry("agent"@, "Switch agent: /agent <name>"@, false),
        )
    } else {
        base
    }
}

fn cmd(command: &str, description: &str, ephemeral: bool) -> (r: MenuCommand)
    ensures
        r@ == entry(command@, description@, ephemeral),
{
    MenuCommand { command: command.to_string(), description: description.to_string(), ephemeral }
}

/// The menu in private chats.
pub fn private_commands(multi: bool) -> (r: Vec<MenuCommand>)
    ensures
        menu_views(r@) == private_menu(multi),
{
    let mut r: Vec<MenuCommand> = Vec::new();
    r.push(cmd("start", "Start a conversation", false));
    r.push(cmd("new", "Start a new conversation", false));
    r.push(cmd("help", "How to use this bot", false));
    if multi {
        r.push(cmd("agents", "Choose which agent answers", false));
        r.push(cmd("agent", "Switch agent: /agent <name>", false));
    }
    assert(menu_views(r@) =~= private_menu(multi));
    r
}

/// The menu in groups.
pub fn group_commands(multi: bool) -> (r: Vec<MenuCommand>)
    ensures
        menu_views(r@) == group_menu(multi),
{
    let mut r: Vec<MenuCommand> = Vec::new();
    r.push(cmd("new", "Start a new conversation here", false));
    r.push(cmd("help", "How to use this bot", true));
    if multi {
        r.push(cmd("agents", "Choose which agent answers", true));
        r.push(cmd("agent", "Switch agent: /agent <name>", false));
    }
    assert(menu_views(r@) =~= group_menu(multi));
    r
}

/// The line that a bot gets when the configuration is only checked.
pub fn check_line(name: &str, username: &str, agents: usize) -> (r: String)
    ensures
        r@ == "ok: "@ + name@ + " → @"@ + username@ + " ("@ + text::decimal(agents as nat)
            + " agent(s))"@,
{
    let mut r: String = "ok: ".to_string();
    r.append(name);
    r.append(" → @");
    r.append(username);
    r.append(" (");
    r.append(text::decimal_of(agents as u64).as_str());
    r.append(" agent(s))");
    r
}

}
