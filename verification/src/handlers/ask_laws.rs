//! What becomes of words, commands and button presses, as laws over the texts and the
//! configured agents.

use crate::config;
use crate::handlers::{business, callbacks, chat, commands, groups, guest, message};
use crate::storage;
use crate::telegram::render;
use crate::telegram::types::{BusinessConnection, ChatKind, Message};
use crate::telegram::v2;
use crate::text;
use crate::text_laws;
use vstd::prelude::*;

verus! {

/// Whether agent `i` is the first of a name.
pub open spec fn first_named(agents: Seq<config::AgentView>, i: int, name: Seq<char>) -> bool {
    &&& 0 <= i < agents.len()
    &&& agents[i].name == name
    &&& forall|j: int| 0 <= j < i ==> (#[trigger] agents[j]).name != name
}

/// Whether no agent has a name.
pub open spec fn unnamed(agents: Seq<config::AgentView>, name: Seq<char>) -> bool {
    forall|j: int| 0 <= j < agents.len() ==> (#[trigger] agents[j]).name != name
}

proof fn lemma_named_from(agents: Seq<config::AgentView>, name: Seq<char>, k: int, i: int)
    requires
        0 <= k,
    ensures
        first_named(agents, i, name) && k <= i ==> config::agent_from(agents, name, k) == Some(i),
        unnamed(agents, name) ==> config::agent_from(agents, name, k) is None,
    decreases agents.len() - k,
{
    if k < agents.len() {
        lemma_named_from(agents, name, k + 1, i);
    }
}

/// An agent is found by its name, the first of that name where there are several, and
/// only by a name that an agent has.
pub proof fn agents_are_found_by_name(agents: Seq<config::AgentView>, name: Seq<char>, i: int)
    ensures
        first_named(agents, i, name) ==> config::agent_from(agents, name, 0) == Some(i),
        unnamed(agents, name) ==> config::agent_from(agents, name, 0) is None,
{
    lemma_named_from(agents, name, 0, i);
}

proof fn lemma_default_from(agents: Seq<config::AgentView>, k: int, i: int)
    requires
        0 <= k,
    ensures
        0 <= i < agents.len() && agents[i].default && (forall|j: int|
            0 <= j < i ==> !(#[trigger] agents[j]).default) && k <= i ==> config::default_from(
            agents,
            k,
        ) == Some(i),
        (forall|j: int| 0 <= j < agents.len() ==> !(#[trigger] agents[j]).default)
            ==> config::default_from(agents, k) is None,
    decreases agents.len() - k,
{
    if k < agents.len() {
        lemma_default_from(agents, k + 1, i);
    }
}

/// Where none was chosen the default agent answers, or the first where none is the
/// default; a chosen one answers as long as it exists, in whatever letter case.
pub proof fn chosen_agents_stand(
    agents: Seq<config::AgentView>,
    chosen: Seq<char>,
    i: int,
    d: int,
)
    ensures
        0 <= d < agents.len() && agents[d].default && (forall|j: int|
            0 <= j < d ==> !(#[trigger] agents[j]).default) ==> chat::standing_agent(agents, None)
            == d && (unnamed(agents, text::lower(chosen)) ==> chat::standing_agent(
            agents,
            Some(chosen),
        ) == d),
        (forall|j: int| 0 <= j < agents.len() ==> !(#[trigger] agents[j]).default)
            ==> chat::standing_agent(agents, None) == 0,
        first_named(agents, i, text::lower(chosen)) ==> chat::standing_agent(agents, Some(chosen))
            == i,
{
    lemma_default_from(agents, 0, d);
    agents_are_found_by_name(agents, text::lower(chosen), i);
}

proof fn lemma_tag(tag: Seq<char>, words: Seq<char>)
    requires
        forall|k: int| 0 <= k < tag.len() ==> !text::is_space(#[trigger] tag[k]),
        words.len() > 0,
        !text::is_space(words[0]),
        !text::is_space(words.last()),
    ensures
        chat::tag_of(seq!['#'] + tag + seq![' '] + words) == Some((tag, words)),
{
    reveal_strlit("#");
    let s = seq!['#'] + tag + seq![' '] + words;
    let none = Seq::<char>::empty();
    assert(s.last() == words.last());
    assert(s[0] == '#');
    text_laws::trimming_takes_outer_space(none, s, none);
    assert(none + s + none =~= s);
    assert("#"@ =~= s.subrange(0, 1));
    let rest = tag + seq![' '] + words;
    assert(s.skip(1) =~= rest);
    assert forall|j: int| 0 <= j < tag.len() implies !text::is_space(#[trigger] rest[j]) by {
        assert(rest[j] == tag[j]);
    }
    assert(rest[tag.len() as int] == ' ');
    text::lemma_space_at(rest, tag.len() as int);
    assert(rest.take(tag.len() as int) =~= tag);
    let tail = seq![' '] + words;
    assert(rest.skip(tag.len() as int) =~= tail);
    text_laws::trimming_takes_outer_space(seq![' '], words, none);
    assert(tail =~= seq![' '] + words + none);
}

/// A question behind `#name` goes to the agent of that name, in whatever letter case,
/// without the tag.
pub proof fn tags_name_agents(
    agents: Seq<config::AgentView>,
    chosen: Option<Seq<char>>,
    tag: Seq<char>,
    words: Seq<char>,
    i: int,
)
    requires
        forall|k: int| 0 <= k < tag.len() ==> !text::is_space(#[trigger] tag[k]),
        words.len() > 0,
        !text::is_space(words[0]),
        !text::is_space(words.last()),
    ensures
        first_named(agents, i, text::lower(tag)) ==> chat::resolution(
            agents,
            chosen,
            seq!['#'] + tag + seq![' '] + words,
        ) == Ok::<(int, Seq<char>), Seq<char>>((i, words)),
        unnamed(agents, text::lower(tag)) && agents.len() > 1 && tag.len() > 0 ==> chat::resolution(
            agents,
            chosen,
            seq!['#'] + tag + seq![' '] + words,
        ) == Err::<(int, Seq<char>), Seq<char>>(
            "Unknown agent #"@ + tag + ". Available: "@ + text::join(
                agents.map_values(|a: config::AgentView| "#"@ + a.name),
                ", "@,
            ),
        ),
        unnamed(agents, text::lower(tag)) && agents.len() <= 1 ==> chat::resolution(
            agents,
            chosen,
            seq!['#'] + tag + seq![' '] + words,
        ) == Ok::<(int, Seq<char>), Seq<char>>(
            (chat::standing_agent(agents, chosen), seq!['#'] + tag + seq![' '] + words),
        ),
{
    lemma_tag(tag, words);
    agents_are_found_by_name(agents, text::lower(tag), i);
    let s = seq!['#'] + tag + seq![' '] + words;
    let none = Seq::<char>::empty();
    assert(s.last() == words.last());
    assert(s[0] == '#');
    text_laws::trimming_takes_outer_space(none, s, none);
    assert(none + s + none =~= s);
}

/// Words without a tag are asked as they stand, of the agent of the chat.
pub proof fn plain_words_are_asked(
    agents: Seq<config::AgentView>,
    chosen: Option<Seq<char>>,
    words: Seq<char>,
)
    requires
        words.len() > 0,
        words[0] != '#',
        !text::is_space(words[0]),
        !text::is_space(words.last()),
    ensures
        chat::resolution(agents, chosen, words) == Ok::<(int, Seq<char>), Seq<char>>(
            (chat::standing_agent(agents, chosen), words),
        ),
{
    reveal_strlit("#");
    let none = Seq::<char>::empty();
    text_laws::trimming_takes_outer_space(none, words, none);
    assert(none + words + none =~= words);
    if "#"@.is_prefix_of(words) {
        assert("#"@[0] == words.subrange(0, 1)[0]);
    }
}

/// A question carries everything that its message gives it: the words, the files, the
/// author, the chat and the place of the answer.
pub proof fn asks_carry_the_message(
    bot: config::BotView,
    msg: Message,
    chosen: Option<Seq<char>>,
    s: Seq<char>,
    files: Seq<Seq<char>>,
    user: Option<storage::UserView>,
    i: int,
    question: Seq<char>,
)
    requires
        chat::resolution(bot.agents, chosen, s) == Ok::<(int, Seq<char>), Seq<char>>((i, question)),
    ensures
        question.len() > 0 || files.len() > 0 ==> (chat::step_for_message(
            bot,
            msg,
            chosen,
            s,
            files,
            user,
        ) matches chat::AskStepView::Ask(a) && a.question == question && a.attachments == files
            && a.agent == bot.agents[i] && a.scope == message::message_scope(bot.name, msg)
            && a.target == message::reply_target(msg) && a.source_message_id == Some(
            msg.message_id,
        ) && !a.voice_reply && (user is Some ==> a.user == user) && (user is None ==> a.user
            == message::author_of(msg))),
        question.len() == 0 && files.len() == 0 ==> chat::step_for_message(
            bot,
            msg,
            chosen,
            s,
            files,
            user,
        ) == chat::AskStepView::Nothing,
{
}

/// Answers are drafted live in private chats where streaming is on, and nowhere else.
pub proof fn drafts_are_for_private_chats(msg: Message, streaming: bool)
    ensures
        chat::usual_delivery(msg, streaming) == chat::DeliveryView::Draft <==> (msg.chat.kind
            == ChatKind::Private && msg.business_connection_id is None && streaming),
        chat::usual_delivery(msg, streaming) == chat::DeliveryView::Draft || chat::usual_delivery(
            msg,
            streaming,
        ) == chat::DeliveryView::Final,
{
}

/// What a chat remembers of a question is the question and who asked; the reaction goes
/// to the message that asked, except in business chats and guest replies and where
/// reactions are off.
pub proof fn questions_are_remembered(a: chat::AskView, state: storage::StateView, m: i32)
    ensures
        a.memory().apply(state).last_question == Some(a.question),
        a.user is Some ==> a.memory().apply(state).user == a.user,
        a.user is None ==> a.memory().apply(state).user == state.user,
        a.source_message_id == Some(m) && !(a.delivery is Guest)
            && a.target.business_connection_id is None ==> a.reacts_to(true) == Some(m),
        a.reacts_to(false) is None,
        a.delivery is Guest || a.target.business_connection_id is Some ==> a.reacts_to(
            true,
        ) is None,
{
}

proof fn lemma_command(name: Seq<char>, args: Seq<char>)
    requires
        forall|k: int| 0 <= k < name.len() ==> !text::is_space(#[trigger] name[k]),
        args.len() == 0 || text::is_space(args[0]),
    ensures
        ({
            let s = seq!['/'] + name + args;
            &&& "/"@.is_prefix_of(s)
            &&& s.take(text::space_at(s)).skip(1) == name
            &&& s.skip(text::space_at(s)) == args
        }),
{
    reveal_strlit("/");
    let s = seq!['/'] + name + args;
    assert("/"@ =~= s.subrange(0, 1));
    let n = name.len() + 1;
    assert forall|j: int| 0 <= j < n implies !text::is_space(#[trigger] s[j]) by {
        if j > 0 {
            assert(s[j] == name[j - 1]);
        }
    }
    if args.len() > 0 {
        assert(s[n as int] == args[0]);
    }
    text::lemma_space_at(s, n as int);
    assert(s.take(n as int).skip(1) =~= name);
    assert(s.skip(n as int) =~= args);
}

/// A command is the word behind a slash, in small letters, and its arguments are what
/// follows; one that is addressed to a bot is for that bot alone.
pub proof fn commands_are_parsed(
    name: Seq<char>,
    target: Seq<char>,
    args: Seq<char>,
    username: Seq<char>,
)
    requires
        forall|k: int| 0 <= k < name.len() ==> !text::is_space(#[trigger] name[k]),
        forall|k: int| 0 <= k < target.len() ==> !text::is_space(#[trigger] target[k]),
        args.len() == 0 || text::is_space(args[0]),
        !name.contains('@'),
    ensures
        commands::command_of(seq!['/'] + name + args, username) == Some(
            (text::lower(name), text::trim(args)),
        ),
        text::lower(target) == text::lower(username) ==> commands::command_of(
            seq!['/'] + (name + seq!['@'] + target) + args,
            username,
        ) == Some((text::lower(name), text::trim(args))),
        text::lower(target) != text::lower(username) ==> commands::command_of(
            seq!['/'] + (name + seq!['@'] + target) + args,
            username,
        ) is None,
{
    lemma_command(name, args);
    text_laws::cutting_parts(name, '@', target);
    let head = name + seq!['@'] + target;
    assert forall|k: int| 0 <= k < head.len() implies !text::is_space(#[trigger] head[k]) by {
        if k < name.len() {
            assert(head[k] == name[k]);
        } else if k > name.len() {
            assert(head[k] == target[k - name.len() - 1]);
        }
    }
    lemma_command(head, args);
}

/// Words that do not begin with a slash are no command.
pub proof fn words_are_no_command(s: Seq<char>, username: Seq<char>)
    requires
        s.len() == 0 || s[0] != '/',
    ensures
        commands::command_of(s, username) is None,
{
    reveal_strlit("/");
    if "/"@.is_prefix_of(s) {
        assert("/"@[0] == s.subrange(0, 1)[0]);
    }
}

proof fn lemma_names_differ()
    ensures
        "start"@.len() == 5 && "start"@[0] == 's',
        "help"@.len() == 4,
        "agents"@.len() == 6,
        "agent"@.len() == 5 && "agent"@[0] == 'a',
        "new"@.len() == 3,
        "reset"@.len() == 5 && "reset"@[0] == 'r' && "reset"@[2] == 's',
        "clear"@.len() == 5 && "clear"@[0] == 'c',
        "regen"@.len() == 5 && "regen"@[0] == 'r' && "regen"@[2] == 'g',
        "regenerate"@.len() == 10,
{
    reveal_strlit("start");
    reveal_strlit("help");
    reveal_strlit("agents");
    reveal_strlit("agent");
    reveal_strlit("new");
    reveal_strlit("reset");
    reveal_strlit("clear");
    reveal_strlit("regen");
    reveal_strlit("regenerate");
}

/// Each command has its meaning, under each of its names, and no other word has one.
pub proof fn commands_have_meanings(
    agents: Seq<config::AgentView>,
    args: Seq<char>,
    other: Seq<char>,
)
    ensures
        commands::meaning(agents, "start"@, args) is Start,
        commands::meaning(agents, "help"@, args) == commands::CommandView::Help,
        commands::meaning(agents, "agents"@, args) == commands::CommandView::Agents,
        text::blank(args) ==> commands::meaning(agents, "agent"@, args)
            == commands::CommandView::ShowAgent,
        commands::meaning(agents, "new"@, args) == commands::CommandView::New,
        commands::meaning(agents, "reset"@, args) == commands::CommandView::New,
        commands::meaning(agents, "clear"@, args) == commands::CommandView::New,
        commands::meaning(agents, "regen"@, args) == commands::CommandView::Regenerate,
        commands::meaning(agents, "regenerate"@, args) == commands::CommandView::Regenerate,
        other != "start"@ && other != "help"@ && other != "agents"@ && other != "agent"@ && other
            != "new"@ && other != "reset"@ && other != "clear"@ && other != "regen"@ && other
            != "regenerate"@ ==> commands::meaning(agents, other, args)
            == commands::CommandView::Other,
{
    lemma_names_differ();
    text::lemma_blank(args);
}

/// `/agent name` switches to the agent of that name, with or without a `#`, in whatever
/// letter case, and tells of a name that no agent has.
pub proof fn agents_are_switched_by_name(agents: Seq<config::AgentView>, name: Seq<char>, i: int)
    requires
        name.len() > 0,
        name[0] != '#',
        !text::is_space(name[0]),
        !text::is_space(name.last()),
    ensures
        first_named(agents, i, text::lower(name)) ==> commands::meaning(agents, "agent"@, name)
            == commands::CommandView::SwitchAgent(text::lower(name)) && commands::meaning(
            agents,
            "agent"@,
            seq!['#'] + name,
        ) == commands::CommandView::SwitchAgent(text::lower(name)),
        unnamed(agents, text::lower(name)) ==> commands::meaning(agents, "agent"@, name)
            == commands::CommandView::UnknownAgent(text::lower(name)),
{
    lemma_names_differ();
    let none = Seq::<char>::empty();
    let tagged = seq!['#'] + name;
    text_laws::trimming_takes_outer_space(none, name, none);
    assert(none + name + none =~= name);
    assert(tagged.last() == name.last());
    assert(tagged[0] == '#');
    text_laws::trimming_takes_outer_space(none, tagged, none);
    assert(none + tagged + none =~= tagged);
    assert(tagged.skip(1) =~= name);
    reveal_with_fuel(text::drop_front, 2);
    assert(text::drop_front(tagged, '#') == name);
    text_laws::capitals_become_small(name, 0);
    agents_are_found_by_name(agents, text::lower(name), i);
    assert(text::lower(name).len() == name.len());
}

/// A deep link to an agent switches to it, and one to no agent just starts.
pub proof fn deep_links_switch(agents: Seq<config::AgentView>, name: Seq<char>, i: int)
    ensures
        first_named(agents, i, text::lower(name)) ==> commands::meaning(
            agents,
            "start"@,
            "agent_"@ + name,
        ) == commands::CommandView::Start(Some(text::lower(name))) && commands::meaning(
            agents,
            "start"@,
            "agent-"@ + name,
        ) == commands::CommandView::Start(Some(text::lower(name))),
        unnamed(agents, text::lower(name)) ==> commands::meaning(
            agents,
            "start"@,
            "agent_"@ + name,
        ) == commands::CommandView::Start(None),
        commands::meaning(agents, "start"@, Seq::empty()) == commands::CommandView::Start(None),
{
    reveal_strlit("agent_");
    reveal_strlit("agent-");
    let a = "agent_"@ + name;
    let b = "agent-"@ + name;
    assert("agent_"@ =~= a.subrange(0, 6));
    assert("agent-"@ =~= b.subrange(0, 6));
    assert(a.skip(6) =~= name);
    assert(b.skip(6) =~= name);
    agents_are_found_by_name(agents, text::lower(name), i);
}

/// What a command switches to is the agent that it names.
pub proof fn switches_are_taken(a: Seq<char>)
    ensures
        commands::switch_of(commands::CommandView::SwitchAgent(a)) == Some(a),
        commands::switch_of(commands::CommandView::Start(Some(a))) == Some(a),
        commands::switch_of(commands::CommandView::Start(None)) is None,
        commands::switch_of(commands::CommandView::Help) is None,
        commands::switch_of(commands::CommandView::New) is None,
        commands::switch_of(commands::CommandView::UnknownAgent(a)) is None,
{
}

/// What commands are answered: a new conversation clears that of the agent who answers
/// and nothing else does; asking again asks the last question; a switch and an unknown
/// name are told.
pub proof fn commands_are_answered(
    bot: config::BotView,
    title: Seq<char>,
    username: Seq<char>,
    first: Option<Seq<char>>,
    state: storage::StateView,
    q: Seq<char>,
    a: Seq<char>,
    cmd: commands::CommandView,
)
    ensures
        state.last_question == Some(q) ==> commands::response_to(
            bot,
            title,
            username,
            first,
            commands::CommandView::Regenerate,
            state,
        ) == (commands::ResponseView { reply: None, clear: None, ask: Some(q) }),
        state.last_question is None ==> commands::response_to(
            bot,
            title,
            username,
            first,
            commands::CommandView::Regenerate,
            state,
        ).reply == Some(v2::escaped("Nothing to regenerate yet."@)),
        commands::response_to(
            bot,
            title,
            username,
            first,
            commands::CommandView::SwitchAgent(a),
            state,
        ).reply == Some(v2::escaped("Switched to "@ + a + "."@)),
        commands::response_to(
            bot,
            title,
            username,
            first,
            commands::CommandView::New,
            state,
        ).clear == Some(commands::active_name(bot.agents, state.active_agent)),
        !(cmd is New) ==> commands::response_to(bot, title, username, first, cmd, state).clear
            is None,
        !(cmd is Regenerate) ==> commands::response_to(bot, title, username, first, cmd, state).ask
            is None,
        !(cmd is Regenerate) && !(cmd is Other) ==> commands::response_to(
            bot,
            title,
            username,
            first,
            cmd,
            state,
        ).reply is Some,
        bot.welcome is None && bot.agents.len() == 1 && first == Some(a) ==> commands::response_to(
            bot,
            title,
            username,
            first,
            commands::CommandView::Start(None),
            state,
        ).reply == Some("Hi "@ + v2::escaped(a) + "\\! Ask me anything\\."@),
        bot.welcome == Some(q) && text::find(q, "{name}"@) is None && text::find(
            q,
            "{agents}"@,
        ) is None ==> commands::response_to(
            bot,
            title,
            username,
            first,
            commands::CommandView::Start(None),
            state,
        ).reply == Some(v2::escaped(q)),
{
    reveal_strlit("{name}");
    reveal_strlit("{agents}");
    text_laws::texts_are_replaced(q, "{name}"@, Seq::empty(), commands::greeted(first));
    text_laws::texts_are_replaced(
        q,
        "{agents}"@,
        Seq::empty(),
        commands::agents_text(
            bot.agents,
            commands::active_name(bot.agents, state.active_agent),
        ),
    );
    let hi = "Hi "@ + v2::escaped(a) + "\\! Ask me anything\\."@;
    assert(hi + Seq::<char>::empty() =~= hi);
}

/// The agent who answers is the chosen one where it exists, and else the default.
pub proof fn active_agents_are_named(
    agents: Seq<config::AgentView>,
    chosen: Seq<char>,
    i: int,
)
    ensures
        first_named(agents, i, text::lower(chosen)) ==> commands::active_name(agents, Some(chosen))
            == chosen,
        unnamed(agents, text::lower(chosen)) ==> commands::active_name(agents, Some(chosen))
            == agents[config::default_index(agents)].name,
        commands::active_name(agents, None) == agents[config::default_index(agents)].name,
{
    agents_are_found_by_name(agents, text::lower(chosen), i);
}

/// The list of agents has a line for each, with its description, and marks the one who
/// answers.
pub proof fn agent_lists_mark_the_active(
    a: config::AgentView,
    b: config::AgentView,
    active: Seq<char>,
    d: Seq<char>,
)
    ensures
        a.name == active && a.description is None ==> commands::agent_line(a, active) == "✓ "@
            + a.name,
        a.name != active && a.description == Some(d) ==> commands::agent_line(a, active) == a.name
            + " — "@ + d,
        a.name != active && a.description is None ==> commands::agent_line(a, active) == a.name,
        a.name == active ==> commands::button_label(a, active) == "✓ "@ + a.name,
        a.name != active ==> commands::button_label(a, active) == a.name,
        commands::agents_text(seq![a, b], active) == commands::agent_line(a, active) + seq!['\n']
            + commands::agent_line(b, active),
{
    reveal_strlit("\n");
    assert("\n"@ =~= seq!['\n']);
    let none = Seq::<char>::empty();
    assert("✓ "@ + a.name + none =~= "✓ "@ + a.name);
    assert(none + a.name + none =~= a.name);
    assert(none + a.name + (" — "@ + d) =~= a.name + " — "@ + d);
    let x = commands::agent_line(a, active);
    let y = commands::agent_line(b, active);
    assert(seq![a, b].map_values(|z: config::AgentView| commands::agent_line(z, active))
        =~= seq![x, y]);
    text_laws::joining_separates(Seq::empty(), x, y, "\n"@);
}

/// In a group the answer to a command is first tried for the sender's eyes only, and
/// then for all; elsewhere it just follows.
pub proof fn command_replies_are_private_first(msg: Message)
    ensures
        (msg.chat.kind == ChatKind::Group || msg.chat.kind == ChatKind::Supergroup) && msg.from
            is Some ==> commands::reply_places(msg).len() == 2 && (commands::reply_places(
            msg,
        )[0].only_for matches Some(p) && p.receiver_user_id == msg.from->0.id)
            && commands::reply_places(msg)[1] == message::reply_target(msg)
            && commands::reply_places(msg)[0].chat_id == msg.chat.id,
        msg.chat.kind == ChatKind::Private ==> commands::reply_places(msg) == seq![
            message::reply_target(msg),
        ],
{
}

/// Buttons mean what they say: a new conversation, the last question again, an agent,
/// or an agent that is gone; and each but the second is confirmed.
pub proof fn buttons_have_meanings(agents: Seq<config::AgentView>, name: Seq<char>, i: int)
    ensures
        callbacks::press_meaning(agents, true, Some("new"@)) == callbacks::PressView::New,
        callbacks::press_meaning(agents, true, Some("regen"@)) == callbacks::PressView::Regenerate,
        callbacks::press_meaning(agents, true, None) == callbacks::PressView::Other,
        callbacks::press_meaning(agents, false, Some(name)) == callbacks::PressView::NoMessage,
        first_named(agents, i, text::lower(name)) ==> callbacks::press_meaning(
            agents,
            true,
            Some("agent:"@ + name),
        ) == callbacks::PressView::SwitchAgent(agents[i].name),
        unnamed(agents, text::lower(name)) ==> callbacks::press_meaning(
            agents,
            true,
            Some("agent:"@ + name),
        ) == callbacks::PressView::UnknownAgent,
        callbacks::notice_for(callbacks::PressView::SwitchAgent(name)) == Some(
            "Switched to "@ + name,
        ),
        callbacks::notice_for(callbacks::PressView::UnknownAgent) == Some(
            "That agent is no longer configured"@,
        ),
        callbacks::notice_for(callbacks::PressView::New) == Some("Started a new conversation"@),
        callbacks::notice_for(callbacks::PressView::Regenerate) is None,
{
    reveal_strlit("agent:");
    lemma_names_differ();
    assert("agent:"@.len() == 6);
    let d = "agent:"@ + name;
    assert("agent:"@ =~= d.subrange(0, 6));
    assert(d.skip(6) =~= name);
    agents_are_found_by_name(agents, text::lower(name), i);
}

/// A business connection is kept as it was reported; without a word on it the bot may
/// not reply.
pub proof fn connections_are_kept(c: BusinessConnection)
    ensures
        business::link_of(c).id == c.id@,
        business::link_of(c).user_id == c.user_id,
        business::link_of(c).is_enabled == c.is_enabled,
        business::link_of(c).can_reply <==> c.can_reply == Some(true),
        c.user_chat_id <= i64::MAX ==> business::link_of(c).user_chat_id == c.user_chat_id,
{
}

/// A customer's words through an open connection are asked as they stand, without outer
/// white space, and commands are not.
pub proof fn customers_are_answered(
    msg: Message,
    allowed: Seq<i64>,
    link: storage::LinkView,
    words: Seq<char>,
)
    requires
        msg.business_connection_id is Some,
        msg.from is Some,
        !msg.from->0.is_bot,
        msg.from->0.id != link.user_id,
        link.is_enabled,
        link.can_reply,
        allowed.len() == 0 || allowed.contains(msg.chat.id),
        text::opt_view(msg.text) == Some(words),
        words.len() > 0,
        !text::is_space(words[0]),
        !text::is_space(words.last()),
        !crate::handlers::attachments::carries_media(msg),
    ensures
        words[0] != '/' ==> business::business_route(msg, true, allowed, Some(link))
            == message::RouteView::Ask(words),
        words[0] == '/' ==> business::business_route(msg, true, allowed, Some(link))
            == message::RouteView::Ignore,
        business::business_route(msg, false, allowed, Some(link)) == message::RouteView::Ignore,
        business::business_route(msg, true, allowed, None) == message::RouteView::Ignore,
{
    reveal_strlit("/");
    let none = Seq::<char>::empty();
    text_laws::trimming_takes_outer_space(none, words, none);
    assert(none + words + none =~= words);
    assert("/"@.is_prefix_of(words) <==> words[0] == '/') by {
        if "/"@.is_prefix_of(words) {
            assert("/"@[0] == words.subrange(0, 1)[0]);
        }
        if words[0] == '/' {
            assert("/"@ =~= words.subrange(0, 1));
        }
    }
}

/// A guest's words are a question of that guest's own: it goes to one reply, in a
/// conversation of that guest in that chat.
pub proof fn guests_have_their_own_conversation(
    bot: config::BotView,
    msg: Message,
    id: Seq<char>,
    user: u64,
    chosen: Option<Seq<char>>,
    words: Seq<char>,
    i: int,
    question: Seq<char>,
)
    requires
        chat::resolution(bot.agents, chosen, words) == Ok::<(int, Seq<char>), Seq<char>>(
            (i, question),
        ),
    ensures
        question.len() > 0 ==> (guest::step_for_guest(
            bot,
            msg,
            id,
            user,
            chosen,
            words,
        ) matches chat::AskStepView::Ask(a) && a.question == question && a.agent == bot.agents[i]
            && a.delivery == chat::DeliveryView::Guest(id) && a.scope.chat_id == msg.chat.id
            && a.scope.namespace == Some("guest:"@ + text::decimal(user as nat))
            && a.attachments.len() == 0 && a.user == message::author_of(msg) && a.source_message_id
            is None && a.scope.bot == bot.name && a.scope.thread_id == 0),
        question.len() == 0 ==> guest::step_for_guest(bot, msg, id, user, chosen, words)
            == chat::AskStepView::Nothing,
{
}

/// What a guest's message comes to: nothing where guests are not served, a hint where
/// no words are left beside the bot's name, and else a question.
pub proof fn guest_words_are_questions(msg: Message, username: Seq<char>, q: Seq<char>)
    requires
        text::opt_view(msg.guest_query_id) == Some(q),
        msg.from is Some,
    ensures
        guest::guest_route(msg, false, username) == guest::GuestRouteView::Ignore,
        groups::unmentioned(groups::words_or_empty(msg), username).len() == 0
            ==> guest::guest_route(msg, true, username) == guest::GuestRouteView::Hint(q),
        groups::unmentioned(groups::words_or_empty(msg), username).len() > 0
            ==> guest::guest_route(msg, true, username) == guest::GuestRouteView::Question(
            q,
            msg.from->0.id,
            groups::unmentioned(groups::words_or_empty(msg), username),
        ),
{
}

/// An inline query is answered once it ends in a question mark, and until then gets a
/// hint that repeats it.
pub proof fn inline_questions_end_in_a_mark(query: Seq<char>)
    ensures
        query.len() >= 2 ==> crate::handlers::inline::is_finished(query + seq!['?']),
        query.len() == 0 || query.last() != '?' ==> !crate::handlers::inline::is_finished(query),
        crate::handlers::inline::hint_for(query).text == query,
        crate::handlers::inline::hint_for(query).description == Some(query),
        !crate::handlers::inline::hint_for(query).markdown,
        crate::handlers::inline::failure_article(query).text == query,
{
}

/// An inline question behind `#name` goes to that agent without the tag; any other goes
/// as it stands to the default one.
pub proof fn inline_tags_name_agents(
    agents: Seq<config::AgentView>,
    tag: Seq<char>,
    words: Seq<char>,
    i: int,
)
    requires
        forall|k: int| 0 <= k < tag.len() ==> !text::is_space(#[trigger] tag[k]),
        words.len() > 0,
        !text::is_space(words[0]),
        !text::is_space(words.last()),
    ensures
        first_named(agents, i, text::lower(tag)) ==> crate::handlers::inline::inline_question(
            agents,
            seq!['#'] + tag + seq![' '] + words,
        ) == (i, words),
        unnamed(agents, text::lower(tag)) ==> crate::handlers::inline::inline_question(
            agents,
            seq!['#'] + tag + seq![' '] + words,
        ) == (config::default_index(agents), seq!['#'] + tag + seq![' '] + words),
        words[0] != '#' ==> crate::handlers::inline::inline_question(agents, words) == (
            config::default_index(agents),
            words,
        ),
{
    reveal_strlit("#");
    let s = seq!['#'] + tag + seq![' '] + words;
    let none = Seq::<char>::empty();
    assert("#"@ =~= s.subrange(0, 1));
    let rest = tag + seq![' '] + words;
    assert(s.skip(1) =~= rest);
    assert forall|j: int| 0 <= j < tag.len() implies !text::is_space(#[trigger] rest[j]) by {
        assert(rest[j] == tag[j]);
    }
    assert(rest[tag.len() as int] == ' ');
    text::lemma_space_at(rest, tag.len() as int);
    assert(rest.take(tag.len() as int) =~= tag);
    assert(rest.skip((tag.len() + 1) as int) =~= words);
    text_laws::trimming_takes_outer_space(none, words, none);
    assert(none + words + none =~= words);
    agents_are_found_by_name(agents, text::lower(tag), i);
    if "#"@.is_prefix_of(words) {
        assert("#"@[0] == words.subrange(0, 1)[0]);
    }
}

/// An inline answer is offered twice: once with markup and once as plain text that
/// holds the question and the answer.
pub proof fn inline_answers_come_twice(question: Seq<char>, body: Seq<char>)
    ensures
        crate::handlers::inline::answer_articles(question, body).len() == 2,
        crate::handlers::inline::answer_articles(question, body)[0].markdown,
        !crate::handlers::inline::answer_articles(question, body)[1].markdown,
        crate::handlers::inline::answer_articles(question, body)[0].id != crate::handlers::inline::answer_articles(
            question,
            body,
        )[1].id,
        ("Q: "@ + question + "\n\n"@ + render::plain_of(body)).len() <= 4096
            ==> crate::handlers::inline::answer_articles(question, body)[1].text == "Q: "@ + question + "\n\n"@
            + render::plain_of(body),
        render::packed(render::v2_blocks("*Q:* "@ + question + "\n\n"@ + body), 4096).len() > 0
            ==> crate::handlers::inline::answer_articles(question, body)[0].text == render::packed(
            render::v2_blocks("*Q:* "@ + question + "\n\n"@ + body),
            4096,
        )[0],
{
    reveal_strlit("answer");
    reveal_strlit("answer_plain");
    assert("answer"@.len() == 6);
    assert("answer_plain"@.len() == 12);
}

/// The help has a line for every command, and lines on the agents where there are
/// several and on groups where the bot has a name.
pub proof fn help_names_the_commands(title: Seq<char>, username: Seq<char>)
    ensures
        commands::help_lines(title, username, false)[0] == seq!['*'] + v2::escaped(title) + seq![
            '*',
        ],
        commands::help_lines(title, username, false)[6] == v2::escaped(
            "/new — start a new conversation"@,
        ),
        commands::help_lines(title, username, false)[7] == v2::escaped("/help — this message"@),
        commands::help_lines(title, username, true)[8] == v2::escaped(
            "/agents — choose which agent answers"@,
        ),
        commands::help_lines(title, username, true)[9] == v2::escaped(
            "/agent <name> — switch agent"@,
        ),
        commands::help_lines(title, username, true)[10] == v2::escaped(
            "#name question — ask one agent just once"@,
        ),
        commands::help_lines(title, Seq::empty(), false).len() == 8,
        commands::help_lines(title, Seq::empty(), true).len() == 11,
        username.len() > 0 ==> commands::help_lines(title, username, false).len() == 10
            && commands::help_lines(title, username, false)[9] == v2::escaped(
            "In groups, mention @"@ + username + " or reply to one of my messages."@,
        ),
{
    reveal_strlit("*");
    assert("*"@ =~= seq!['*']);
}

/// Once an agent was picked the list of agents is shown with the new one marked, and it
/// is said who answers.
pub proof fn picked_agents_are_shown(agents: Seq<config::AgentView>, active: Seq<char>)
    ensures
        callbacks::picker_text(agents, active) == "*Agents*\n"@ + v2::escaped(
            commands::agents_text(agents, active),
        ) + "\n\nNow answering as *"@ + v2::escaped(active) + "*\\."@,
{
}

} // verus!
