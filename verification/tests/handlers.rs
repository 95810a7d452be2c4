use docsgpt_telegram::app::{check_line, group_commands, private_commands};
use docsgpt_telegram::config::{AgentConfig, BotConfig, GroupMode, Mode};
use docsgpt_telegram::docsgpt::types::{Event, Source, ToolCall, ToolOutputs};
use docsgpt_telegram::handlers::albums::Albums;
use docsgpt_telegram::handlers::attachments::{
    album_caption, describe, ensure_extension, max_bytes, normalize_audio_name, pick_file,
    MediaRoute,
};
use docsgpt_telegram::handlers::chat::{ask_from_message, resolve_agent, AskStep, Delivery};
use docsgpt_telegram::handlers::delivery::{deliver_guest, Action, Courier, Report};
use docsgpt_telegram::handlers::draft::{draft_key, DraftState, Outcome, Showing};
use docsgpt_telegram::handlers::files::FilesIntake;
use docsgpt_telegram::handlers::groups::{addressed_to_bot, gate, strip_mention};
use docsgpt_telegram::handlers::guest::GuestRoute;
use docsgpt_telegram::handlers::inline::InlineStep;
use docsgpt_telegram::handlers::intake::{Gain, VoiceIntake, Work};
use docsgpt_telegram::handlers::process::Intake;
use docsgpt_telegram::handlers::reply::Reply;
use docsgpt_telegram::handlers::message::{allowed, target_for, Route};
use docsgpt_telegram::handlers::turn::{Ending, Heard, Turn};
use docsgpt_telegram::handlers::{
    attachments, business, callbacks, chat, commands, guest, message,
};
use docsgpt_telegram::storage::{BusinessLink, ChatState};
use docsgpt_telegram::telegram::types::{
    Audio, BusinessConnection, Chat, ChatKind, Document, Entity, EntityKind, Message, PhotoSize,
    User,
};

fn agent(name: &str, default: bool) -> AgentConfig {
    AgentConfig {
        name: name.to_string(),
        api_key: format!("key-{name}"),
        description: None,
        default,
    }
}

fn bot(agents: Vec<AgentConfig>) -> BotConfig {
    BotConfig {
        name: "bot".to_string(),
        token: "1:t".to_string(),
        mode: Mode::Polling,
        groups: GroupMode::Mention,
        streaming: true,
        reactions: true,
        attachments: true,
        voice_replies: false,
        business: true,
        guest: true,
        inline: true,
        allowed_chats: vec![],
        welcome: None,
        description: None,
        short_description: None,
        menu_button_url: None,
        max_file_mb: 20,
        api_base: None,
        agents,
    }
}

fn two_agents() -> BotConfig {
    bot(vec![agent("support", true), agent("sales", false)])
}

fn user(id: u64) -> User {
    User {
        id,
        is_bot: false,
        first_name: "Alice".to_string(),
        last_name: None,
        username: None,
        language_code: None,
    }
}

fn note(kind: ChatKind, text: &str) -> Message {
    Message {
        message_id: 11,
        chat: Chat { id: 5, kind },
        from: Some(user(1)),
        message_thread_id: None,
        is_topic_message: false,
        business_connection_id: None,
        guest_query_id: None,
        reply_author: None,
        text: Some(text.to_string()),
        entities: vec![],
        caption: None,
        caption_entities: vec![],
        media_group_id: None,
        photo: None,
        document: None,
        voice: None,
        audio: None,
        video: false,
        video_note: false,
        animation: false,
    }
}

fn fresh() -> ChatState {
    ChatState::default()
}

#[test]
fn audio_names() {
    assert_eq!(normalize_audio_name("voice.oga", None), "voice.ogg");
    assert_eq!(normalize_audio_name("clip", Some("audio/mpeg")), "clip.mp3");
    assert_eq!(normalize_audio_name("a.m4a", None), "a.m4a");
}

#[test]
fn audio_without_extension_gets_one() {
    assert_eq!(normalize_audio_name("A.B.OPUS", None), "A.B.ogg");
    assert_eq!(normalize_audio_name("clip", Some("audio/x-m4a")), "clip.m4a");
    assert_eq!(normalize_audio_name("clip", Some("audio/wav")), "clip.wav");
    assert_eq!(normalize_audio_name("clip", Some("video/webm")), "clip.webm");
    assert_eq!(normalize_audio_name("clip", None), "clip.ogg");
}

#[test]
fn extension_from_path() {
    assert_eq!(
        ensure_extension("photo_x", "photos/file_1.jpg"),
        "photo_x.jpg"
    );
    assert_eq!(
        ensure_extension("report.pdf", "documents/file_2.pdf"),
        "report.pdf"
    );
}

#[test]
fn odd_extensions_are_not_taken_over() {
    assert_eq!(ensure_extension("a", "x.toolong"), "a");
    assert_eq!(ensure_extension("a", "x."), "a");
    assert_eq!(ensure_extension("a", "x.p-g"), "a");
    assert_eq!(ensure_extension("a", "noext"), "a");
}

#[test]
fn strips_mentions() {
    assert_eq!(
        strip_mention("@MyBot hello  there @mybot", "MyBot"),
        "hello there"
    );
    assert_eq!(strip_mention("@mybotx stays", "mybot"), "@mybotx stays");
    assert_eq!(strip_mention("plain", ""), "plain");
}

#[test]
fn tags_choose_the_agent() {
    let cfg = two_agents();
    let (i, q) = resolve_agent(&cfg, &fresh(), "#Sales hello").unwrap();
    assert_eq!((cfg.agents[i].name.as_str(), q.as_str()), ("sales", "hello"));
    let (i, q) = resolve_agent(&cfg, &fresh(), " hi support ").unwrap();
    assert_eq!((cfg.agents[i].name.as_str(), q.as_str()), ("support", "hi support"));
    let mut st = fresh();
    st.active_agent = Some("sales".to_string());
    assert_eq!(resolve_agent(&cfg, &st, "x").unwrap().0, 1);
    assert_eq!(resolve_agent(&cfg, &st, "#support x").unwrap().0, 0);
    assert_eq!(
        resolve_agent(&cfg, &st, "#nobody x").err().unwrap(),
        "Unknown agent #nobody. Available: #support, #sales"
    );
    let one = bot(vec![agent("only", true)]);
    assert_eq!(resolve_agent(&one, &fresh(), "#nobody x").unwrap().1, "#nobody x");
    assert_eq!(resolve_agent(&cfg, &fresh(), "# x").unwrap().1, "# x");
}

#[test]
fn questions_from_messages() {
    let cfg = two_agents();
    match ask_from_message(&cfg, &note(ChatKind::Private, ""), &fresh(), "#sales hi", vec![], None) {
        AskStep::Ask(a) => {
            assert_eq!(a.question, "hi");
            assert_eq!(a.agent.api_key, "key-sales");
            assert!(matches!(a.delivery, Delivery::Draft));
            assert_eq!(a.source_message_id, Some(11));
            assert_eq!(a.target.reply_to, None);
            assert_eq!(a.user.as_ref().unwrap().first_name, "Alice");
            assert_eq!(a.reaction_target(true), Some(11));
            assert_eq!(a.reaction_target(false), None);
            assert_eq!(a.remembered().last_question.as_deref(), Some("hi"));
            let (req, turn) = chat::ask(&a, Some("conv-1".to_string()));
            assert_eq!(req.question, "hi");
            assert_eq!(req.api_key, "key-sales");
            assert_eq!(req.conversation_id.as_deref(), Some("conv-1"));
            assert_eq!(turn.conversation.as_deref(), Some("conv-1"));
            assert_eq!(a.spoken("**x**"), None);
        }
        other => panic!("{other:?}"),
    }
    match ask_from_message(&cfg, &note(ChatKind::Group, ""), &fresh(), "hi", vec![], None) {
        AskStep::Ask(a) => {
            assert!(matches!(a.delivery, Delivery::Final));
            assert_eq!(a.target.reply_to, Some(11));
        }
        other => panic!("{other:?}"),
    }
    let m = note(ChatKind::Private, "");
    assert!(matches!(ask_from_message(&cfg, &m, &fresh(), " ", vec![], None), AskStep::Nothing));
    assert!(matches!(
        ask_from_message(&cfg, &m, &fresh(), "#sales", vec![], None),
        AskStep::Nothing
    ));
    assert!(matches!(
        ask_from_message(&cfg, &m, &fresh(), "#x y", vec![], None),
        AskStep::Reply(_)
    ));
}

#[test]
fn voice_replies_are_short_and_plain() {
    let cfg = bot(vec![agent("a", true)]);
    let m = note(ChatKind::Private, "");
    let a = chat::ask_about(&cfg, &m, 0, "q".to_string(), vec![], None, true);
    assert_eq!(a.spoken("**x**").as_deref(), Some("x"));
    assert_eq!(a.spoken(&"y".repeat(2000)).unwrap().chars().count(), 1500);
}

#[test]
fn messages_are_routed() {
    let mut cfg = two_agents();
    let route = |m: &Message, c: &BotConfig| message::handle(m, c, 99, "mockbot");
    match route(&note(ChatKind::Private, " hello "), &cfg) {
        Route::Ask(t) => assert_eq!(t, "hello"),
        other => panic!("{other:?}"),
    }
    assert!(matches!(route(&note(ChatKind::Private, "/start"), &cfg), Route::Command(_, _)));
    assert!(matches!(route(&note(ChatKind::Private, "/help@otherbot"), &cfg), Route::Ignore));
    assert!(matches!(route(&note(ChatKind::Channel, "hello"), &cfg), Route::Ignore));
    assert!(matches!(route(&note(ChatKind::Group, "just chatting"), &cfg), Route::Ignore));
    let mut from_bot = note(ChatKind::Private, "hello");
    from_bot.from.as_mut().unwrap().is_bot = true;
    assert!(matches!(route(&from_bot, &cfg), Route::Ignore));
    let mut photo = note(ChatKind::Private, "");
    photo.text = None;
    photo.caption = Some("look".to_string());
    photo.photo = Some(vec![]);
    match route(&photo, &cfg) {
        Route::Media(t) => assert_eq!(t, "look"),
        other => panic!("{other:?}"),
    }
    cfg.allowed_chats = vec![2002];
    assert!(matches!(route(&note(ChatKind::Private, "let me in"), &cfg), Route::Restricted));
    assert!(matches!(route(&note(ChatKind::Group, "let me in"), &cfg), Route::Ignore));
    assert_eq!(message::restricted_text(), "This bot is restricted to specific chats.");
    assert!(allowed(&cfg.allowed_chats, 2002));
    assert!(!allowed(&cfg.allowed_chats, 5));
}

fn mention(text: &str, offset: u16, length: u16) -> Message {
    let mut m = note(ChatKind::Supergroup, text);
    m.entities = vec![Entity { kind: EntityKind::Mention, offset, length, user_id: None }];
    m
}

#[test]
fn stripping_leaves_no_mention() {
    let once = strip_mention(" @MyBot a @mybot@MYBOT  @mybotx\u{a0}@mybot", "MyBot");
    assert_eq!(once, "a @mybotx");
    assert_eq!(strip_mention(&once, "MyBot"), once);
    assert_eq!(strip_mention("@my@mybotbot", "mybot"), "@my@mybotbot");
    assert_eq!(strip_mention("@@mybot mybot", "mybot"), "@ mybot");
}

#[test]
fn groups_answer_when_asked() {
    let m = mention("😀 @MockBot what is up?", 3, 8);
    assert!(addressed_to_bot(&m, 99, "mockbot"));
    assert_eq!(gate(&m, GroupMode::Mention, 99, "mockbot").as_deref(), Some("😀 what is up?"));
    let other = mention("😀 @someone what is up?", 3, 8);
    assert!(!addressed_to_bot(&other, 99, "mockbot"));
    assert_eq!(gate(&other, GroupMode::Mention, 99, "mockbot"), None);
    assert!(gate(&other, GroupMode::All, 99, "mockbot").is_some());
    assert_eq!(gate(&m, GroupMode::Off, 99, "mockbot"), None);
    let mut reply = note(ChatKind::Supergroup, "and this?");
    reply.reply_author = Some(99);
    assert_eq!(gate(&reply, GroupMode::Mention, 99, "mockbot").as_deref(), Some("and this?"));
    assert_eq!(target_for(&reply).reply_to, Some(11));
}

#[test]
fn commands_are_understood() {
    let cfg = two_agents();
    let m = note(ChatKind::Private, "/agent@mockbot  sales now");
    let (cmd, args) = commands::parse(&m, "MockBot").unwrap();
    assert_eq!(cmd, "agent");
    let c = commands::interpret(&cfg, &cmd, args.trim());
    assert!(matches!(c, commands::Command::UnknownAgent(ref name) if name == "sales now"));
    let c = commands::interpret(&cfg, "agent", "#Sales");
    assert!(matches!(c, commands::Command::SwitchAgent(ref name) if name == "sales"));
    assert!(matches!(commands::interpret(&cfg, "agent", ""), commands::Command::ShowAgent));
    assert!(matches!(commands::interpret(&cfg, "reset", ""), commands::Command::New));
    assert!(matches!(commands::interpret(&cfg, "other", ""), commands::Command::Other));
    assert!(commands::parse(&note(ChatKind::Private, "hello"), "mockbot").is_none());
    assert!(commands::help_text(&cfg, "Title", "mockbot").contains("/new"));
    assert_eq!(commands::agents_keyboard(&cfg, "sales").len(), 2);
    assert!(commands::agents_list(&cfg, "sales").contains("sales"));
    assert_eq!(commands::active_agent_name(&cfg, &fresh()), "support");
    assert_eq!(private_commands(false).len(), 3);
    assert_eq!(private_commands(true).len(), 5);
    assert_eq!(group_commands(true).len(), 4);
    assert!(check_line("b", "u", 2).contains("@u"));
}

#[test]
fn buttons_switch_agents() {
    let cfg = two_agents();
    let data = commands::agents_keyboard(&cfg, "support")[1][0].callback_data.clone();
    let p = callbacks::handle(&cfg, true, Some(data));
    assert!(format!("{p:?}").contains("sales"));
    assert!(callbacks::notice(&p).is_some());
}

#[test]
fn business_customers_are_answered() {
    let cfg = bot(vec![agent("a", true)]);
    let c = BusinessConnection {
        id: "bc1".to_string(),
        user_id: 777,
        user_chat_id: 20,
        is_enabled: true,
        can_reply: Some(true),
    };
    let link = || business::link_from(&c);
    assert_eq!(link().user_id, 777);
    assert!(link().can_reply);
    let mut m = note(ChatKind::Private, "Do you ship abroad?");
    m.business_connection_id = Some("bc1".to_string());
    assert_eq!(business::needed_connection(&cfg, &m).as_deref(), Some("bc1"));
    match business::message(&m, &cfg, Some(link())) {
        Route::Ask(t) => assert_eq!(t, "Do you ship abroad?"),
        other => panic!("{other:?}"),
    }
    assert!(matches!(business::message(&m, &cfg, None), Route::Ignore));
    m.from = Some(user(777));
    assert!(matches!(business::message(&m, &cfg, Some(link())), Route::Ignore));
    m.from = Some(user(1));
    let closed = BusinessLink { can_reply: false, ..link() };
    assert!(matches!(business::message(&m, &cfg, Some(closed)), Route::Ignore));
    m.text = Some("/start".to_string());
    assert!(matches!(business::message(&m, &cfg, Some(link())), Route::Ignore));
}

#[test]
fn guests_are_answered_once() {
    let cfg = bot(vec![agent("a", true)]);
    let mut m = note(ChatKind::Supergroup, "@mockbot what is X?");
    assert!(matches!(guest::handle(&m, &cfg, "mockbot"), GuestRoute::Ignore));
    m.guest_query_id = Some("gq1".to_string());
    match guest::handle(&m, &cfg, "mockbot") {
        GuestRoute::Question(id, user, words) => {
            assert_eq!((id.as_str(), user, words.as_str()), ("gq1", 1, "what is X?"));
            match guest::question(&cfg, &m, &id, user, &fresh(), &words) {
                AskStep::Ask(a) => {
                    assert_eq!(a.scope.key(), "bot:guest:1:5:0");
                    assert!(matches!(a.delivery, Delivery::Guest { .. }));
                    assert_eq!(a.reaction_target(true), None);
                }
                other => panic!("{other:?}"),
            }
        }
        other => panic!("{other:?}"),
    }
    m.text = Some("@mockbot".to_string());
    assert!(matches!(guest::handle(&m, &cfg, "mockbot"), GuestRoute::Hint(_)));
    assert_eq!(guest::hint_text(), "Mention me with a question and I'll answer it.");
    let (v2, plain) = deliver_guest("X is the unknown.", &vec![]);
    assert_eq!(v2, "X is the unknown\\.");
    assert_eq!(plain, "X is the unknown.");
}

#[test]
fn inline_queries_are_answered() {
    let cfg = two_agents();
    match docsgpt_telegram::handlers::inline::handle(&cfg, "what is x?") {
        InlineStep::Ask(i, q) => assert_eq!((i, q.as_str()), (0, "what is x?")),
        other => panic!("{other:?}"),
    }
    match docsgpt_telegram::handlers::inline::handle(&cfg, "#sales what is x?") {
        InlineStep::Ask(i, q) => assert_eq!((i, q.as_str()), (1, "what is x?")),
        other => panic!("{other:?}"),
    }
    match docsgpt_telegram::handlers::inline::handle(&cfg, "what is x") {
        InlineStep::Show(list) => {
            assert_eq!(list.len(), 1);
            assert_eq!(list[0].id, "hint");
        }
        other => panic!("{other:?}"),
    }
    match docsgpt_telegram::handlers::inline::handle(&cfg, " a? ") {
        InlineStep::Show(list) => assert!(list.is_empty()),
        other => panic!("{other:?}"),
    }
    let r = docsgpt_telegram::handlers::inline::results("what is x?", "X is **y**");
    assert_eq!(r.len(), 2);
    assert!(r[0].text.contains("X is *y*"));
    assert!(r[0].markdown);
    assert_eq!(r[1].text, "Q: what is x?\n\nX is y");
    assert_eq!(r[1].description.as_deref(), Some("X is y"));
    assert_eq!(docsgpt_telegram::handlers::inline::failure(" q? ").text, "q?");
}

fn heard(text: &str) -> Heard {
    Heard::Event(Event::parse(text).unwrap())
}

#[test]
fn a_turn_gathers_its_answer() {
    let mut t = Turn::new(None);
    assert!(t.hear(heard(r#"{"type":"thought","thought":"hm"}"#)).thinking);
    assert!(!t.hear(heard(r#"{"type":"answer","answer":"The "}"#)).done);
    assert!(!t.hear(heard(r#"{"type":"thought","thought":"hm"}"#)).thinking);
    t.hear(heard(r#"{"type":"answer","answer":"end. "}"#));
    t.hear(heard(r#"{"type":"id","id":"conv-1"}"#));
    assert!(t.dirty);
    t.shown();
    assert!(!t.dirty);
    assert!(t.hear(heard(r#"{"type":"end"}"#)).done);
    match t.ending() {
        Ending::Deliver(a) => assert_eq!(a, "The end."),
        other => panic!("{other:?}"),
    }
    assert_eq!(t.conversation_to_keep(&None).as_deref(), Some("conv-1"));
    assert_eq!(t.conversation_to_keep(&Some("conv-1".to_string())), None);
}

#[test]
fn a_stopped_turn_keeps_what_it_has() {
    let mut t = Turn::new(None);
    t.hear(heard(r#"{"type":"answer","answer":"Partial answer"}"#));
    assert!(t.hear(Heard::Cancelled).done);
    match t.ending() {
        Ending::Deliver(a) => assert_eq!(a, "Partial answer"),
        other => panic!("{other:?}"),
    }
    let mut t = Turn::new(None);
    t.hear(Heard::Cancelled);
    match t.ending() {
        Ending::Say(a) => assert_eq!(a, "Stopped."),
        other => panic!("{other:?}"),
    }
}

#[test]
fn a_failed_turn_apologises() {
    let says = |list: Vec<Heard>| {
        let mut t = Turn::new(None);
        for h in list {
            t.hear(h);
        }
        match t.ending() {
            Ending::Say(s) => s,
            other => panic!("{other:?}"),
        }
    };
    let sorry = "Sorry, I couldn't get an answer right now.\n\n";
    assert_eq!(says(vec![Heard::Closed]), format!("{sorry}No answer was produced."));
    assert_eq!(
        says(vec![Heard::Silence]),
        format!("{sorry}Timed out waiting for the assistant.")
    );
    assert_eq!(
        says(vec![Heard::Broken]),
        format!("{sorry}The connection to the assistant dropped.")
    );
    assert_eq!(
        says(vec![heard(r#"{"type":"error","error":"boom"}"#)]),
        format!("{sorry}boom")
    );
}

#[test]
fn tool_calls_show_progress_and_leave_outputs() {
    let mut t = Turn::new(None);
    let n = t.hear(heard(
        r#"{"type":"tool_call","data":{"tool_name":"code_executor","status":"pending"}}"#,
    ));
    assert!(n.at_once);
    assert_eq!(t.status.as_deref(), Some("Running code"));
    t.hear(heard(
        r#"{"type":"tool_call","data":{"tool_name":"code_executor","status":"completed","artifacts":[{"id":"a","filename":"f.txt"}]}}"#,
    ));
    assert_eq!(t.status, None);
    assert_eq!(t.outputs.artifacts.len(), 1);
    t.hear(heard(r#"{"type":"structured_answer","answer":"S"}"#));
    t.hear(Heard::Event(Event::ToolCalls(vec![ToolCall::empty()])));
    assert_eq!(t.outputs.artifacts.len(), 1);
    assert!(matches!(t.ending(), Ending::Deliver(_)));
}

#[test]
fn drafts_fall_back_to_plain_text() {
    let mut d = DraftState::new(7);
    assert!(d.wants_flush(true, false, 0));
    assert!(!d.wants_flush(false, true, 0));
    let s = d.flush("", None);
    assert!(matches!(s, Showing::Thinking));
    assert!(!d.on_reply(&s, Outcome::Sent, 10));
    assert!(d.shown);
    assert!(matches!(d.flush("", None), Showing::Nothing));
    let s = d.flush("**a** ![i](https://x/i.png)", Some("Running code"));
    match &s {
        Showing::Rich(t) => assert_eq!(t, "**a**\n\n_⚙️ Running code…_"),
        other => panic!("{other:?}"),
    }
    assert!(d.on_reply(&s, Outcome::Refused, 20));
    let s = d.flush("**a**", None);
    match &s {
        Showing::Plain(t) => assert_eq!(t, "a"),
        other => panic!("{other:?}"),
    }
    assert!(!d.on_reply(&s, Outcome::Failed, 30));
    assert!(!d.wants_flush(true, false, 529));
    assert!(d.wants_flush(true, false, 530));
    assert!(d.wants_flush(true, true, 31));
    assert_eq!(draft_key(5, None, 7), (5, 0, 7));
    assert_eq!(draft_key(5, Some(3), 7), (5, 3, 7));
}

fn sources() -> Vec<Source> {
    vec![Source {
        title: "Doc A".to_string(),
        url: Some("https://example.com/a".to_string()),
    }]
}

fn reply(o: Outcome) -> Report {
    Report::Reply(o)
}

#[test]
fn rich_answers_are_sent_once() {
    let mut c = Courier::new("The answer is **42**.", &sources(), ToolOutputs::none(), None);
    match c.action() {
        Action::SendRich(s) => {
            assert!(s.starts_with("The answer is **42**."));
            assert!(s.contains("[Doc A](https://example.com/a)"));
        }
        other => panic!("{other:?}"),
    }
    c.on_report(&reply(Outcome::Sent));
    assert!(matches!(c.action(), Action::Finished));
}

#[test]
fn answers_fall_back_to_markdown_and_plain() {
    let mut c = Courier::new("**Hi**", &sources(), ToolOutputs::none(), None);
    c.on_report(&reply(Outcome::Refused));
    match c.action() {
        Action::SendV2(s) => assert!(s.starts_with("*Hi*\n\n*Sources*")),
        other => panic!("{other:?}"),
    }
    c.on_report(&reply(Outcome::Refused));
    match c.action() {
        Action::SendPlain(s) => assert!(s.starts_with("Hi\n\nSources:")),
        other => panic!("{other:?}"),
    }
    c.on_report(&reply(Outcome::Sent));
    assert!(matches!(c.action(), Action::Finished));
    let mut c = Courier::new("**Hi**", &vec![], ToolOutputs::none(), None);
    c.on_report(&reply(Outcome::Refused));
    c.on_report(&reply(Outcome::Failed));
    assert!(matches!(c.action(), Action::Finished));
}

#[test]
fn images_follow_an_answer_without_them() {
    let answer = "Here is your cat:\n\n![cat](https://x/cat.png)";
    let mut c = Courier::new(answer, &vec![], ToolOutputs::none(), None);
    c.on_report(&reply(Outcome::Refused));
    match c.action() {
        Action::SendRich(s) => assert_eq!(s, "Here is your cat:"),
        other => panic!("{other:?}"),
    }
    c.on_report(&reply(Outcome::Refused));
    assert!(matches!(c.action(), Action::SendV2(_)));
    c.on_report(&reply(Outcome::Sent));
    match c.action() {
        Action::SendPhotoUrl(u) => assert_eq!(u, "https://x/cat.png"),
        other => panic!("{other:?}"),
    }
    c.on_report(&reply(Outcome::Failed));
    assert!(matches!(c.action(), Action::FetchUrl(_)));
    c.on_report(&Report::Fetched("..".to_string(), None));
    match c.action() {
        Action::SendPhoto(name, None) => assert_eq!(name, "image.png"),
        other => panic!("{other:?}"),
    }
    c.on_report(&reply(Outcome::Failed));
    assert!(matches!(c.action(), Action::SendDocument(_)));
    c.on_report(&reply(Outcome::Failed));
    assert!(matches!(c.action(), Action::Finished));
}

fn made() -> ToolOutputs {
    ToolCall::from_json(
        &docsgpt_telegram::json::parse_json(
            r#"{"artifacts": [{"id": "art-1", "filename": "hello.txt"}, {"id": "art-2", "filename": "pic"}]}"#,
        )
        .unwrap(),
    )
    .unwrap()
    .outputs()
}

#[test]
fn files_follow_the_answer() {
    let mut c = Courier::new("I wrote the file.", &vec![], made(), Some("conv-1".to_string()));
    c.on_report(&reply(Outcome::Sent));
    match c.action() {
        Action::Download(conv, id, name) => {
            assert_eq!((conv.as_str(), id.as_str(), name.as_str()), ("conv-1", "art-1", "hello.txt"))
        }
        other => panic!("{other:?}"),
    }
    c.on_report(&Report::Fetched("".to_string(), Some("text/plain".to_string())));
    match c.action() {
        Action::SendDocument(name) => assert_eq!(name, "hello.txt"),
        other => panic!("{other:?}"),
    }
    c.on_report(&reply(Outcome::Failed));
    match c.action() {
        Action::SendPlain(s) => assert_eq!(s, "I created hello.txt but couldn't send it here."),
        other => panic!("{other:?}"),
    }
    c.on_report(&reply(Outcome::Sent));
    c.on_report(&Report::Fetched("p.png".to_string(), Some("image/png".to_string())));
    match c.action() {
        Action::SendPhoto(name, Some(caption)) => assert_eq!((name.as_str(), caption.as_str()), ("p.png", "p.png")),
        other => panic!("{other:?}"),
    }
    c.on_report(&reply(Outcome::Sent));
    assert!(matches!(c.action(), Action::Finished));
}

#[test]
fn lost_files_are_mentioned() {
    let mut c = Courier::new("x", &vec![], made(), Some("c".to_string()));
    c.on_report(&reply(Outcome::Sent));
    c.on_report(&Report::NotFetched("gone".to_string()));
    match c.action() {
        Action::SendPlain(s) => assert_eq!(s, "I created hello.txt but couldn't fetch it: gone"),
        other => panic!("{other:?}"),
    }
    let mut c = Courier::new("x", &vec![], made(), None);
    c.on_report(&reply(Outcome::Sent));
    assert!(matches!(c.action(), Action::Finished));
}

fn photo(id: &str, unique: &str, width: u32, size: Option<u64>) -> PhotoSize {
    PhotoSize {
        file_id: id.to_string(),
        file_unique_id: unique.to_string(),
        width,
        file_size: size,
    }
}

fn document(name: Option<&str>, mime: Option<&str>) -> Message {
    let mut m = note(ChatKind::Private, "");
    m.text = None;
    m.document = Some(Document {
        file_id: "file-doc-1".to_string(),
        file_unique_id: "u1".to_string(),
        file_name: name.map(|n| n.to_string()),
        mime_type: mime.map(|t| t.to_string()),
    });
    m
}

#[test]
fn the_largest_photo_is_picked() {
    let mut m = note(ChatKind::Private, "");
    m.photo = Some(vec![
        photo("small", "ps", 90, Some(1000)),
        photo("big", "pb", 800, Some(50000)),
        photo("wide", "pw", 900, Some(50000)),
        photo("unknown", "pu", 9000, None),
    ]);
    let f = pick_file(&m).unwrap();
    assert_eq!(f.file_id, "wide");
    assert_eq!(f.filename, "photo_pw.jpg");
    assert_eq!(f.mime.as_deref(), Some("image/jpeg"));
    m.photo = Some(vec![]);
    assert!(pick_file(&m).is_none());
    assert_eq!(describe(&m), "unsupported media");
    m.video = true;
    assert_eq!(describe(&m), "video (not supported)");
    assert_eq!(pick_file(&document(None, None)).unwrap().filename, "document_u1");
    assert_eq!(max_bytes(20), 20 * 1024 * 1024);
}

#[test]
fn media_is_refused_where_it_is_off() {
    let mut cfg = bot(vec![agent("a", true)]);
    let m = document(Some("r.pdf"), None);
    assert!(matches!(attachments::handle(&m, &cfg), MediaRoute::Single));
    let mut album = document(Some("r.pdf"), None);
    album.media_group_id = Some("g1".to_string());
    assert!(matches!(attachments::handle(&album, &cfg), MediaRoute::Album(_)));
    cfg.attachments = false;
    match attachments::handle(&m, &cfg) {
        MediaRoute::Refuse(s) => assert_eq!(s, "Attachments are disabled for this bot."),
        other => panic!("{other:?}"),
    }
    let mut g = document(Some("r.pdf"), None);
    g.chat.kind = ChatKind::Group;
    assert!(matches!(attachments::handle(&g, &cfg), MediaRoute::Ignore));
}

#[test]
fn albums_make_one_question() {
    let mut a = Albums::new();
    assert!(a.put("g1", document(Some("1"), None)));
    let mut second = document(Some("2"), None);
    second.caption = Some("@mockbot look".to_string());
    assert!(!a.put("g1", second));
    assert!(a.put("g2", document(Some("3"), None)));
    let batch = a.take("g1");
    assert_eq!(batch.len(), 2);
    assert_eq!(album_caption(&batch, "x", "mockbot"), "look");
    assert!(a.take("g1").is_empty());
    assert_eq!(a.take("g2").len(), 1);
    assert_eq!(album_caption(&vec![], "x", "mockbot"), "x");
}

#[test]
fn documents_are_stored_and_asked_about() {
    let batch = vec![document(Some("report"), None)];
    let mut f = FilesIntake::new("".to_string(), &batch);
    match f.work() {
        Work::Download(id) => assert_eq!(id, "file-doc-1"),
        other => panic!("{other:?}"),
    }
    f.on_gain(&Gain::Downloaded("documents/file_1.pdf".to_string()));
    match f.work() {
        Work::Store(name, mime) => {
            assert_eq!(name, "report.pdf");
            assert_eq!(mime.as_deref(), Some("application/pdf"));
        }
        other => panic!("{other:?}"),
    }
    f.on_gain(&Gain::Stored("att-1".to_string(), Some("task-1".to_string())));
    match f.work() {
        Work::WaitFor(task, secs) => assert_eq!((task.as_str(), secs), ("task-1", 120)),
        other => panic!("{other:?}"),
    }
    f.on_gain(&Gain::Done);
    match f.work() {
        Work::Ask(q, ids) => {
            assert_eq!(
                q,
                "I've attached report.pdf. Please review it and summarize the key points."
            );
            assert_eq!(ids, vec!["att-1"]);
        }
        other => panic!("{other:?}"),
    }
    f.on_gain(&Gain::Done);
    assert!(matches!(f.work(), Work::Finished));
}

#[test]
fn unknown_extensions_have_no_media_type() {
    let batch = vec![document(Some("report.zzzz"), None)];
    let mut f = FilesIntake::new("sum".to_string(), &batch);
    f.on_gain(&Gain::Downloaded("documents/file_1".to_string()));
    assert!(matches!(f.work(), Work::Store(_, None)));
}

#[test]
fn files_that_fail_are_left_out() {
    let mut clip = note(ChatKind::Private, "");
    clip.animation = true;
    let batch = vec![
        clip,
        document(Some("a.txt"), None),
        document(Some("b.txt"), Some("text/x")),
        document(Some("c.txt"), None),
    ];
    let mut f = FilesIntake::new("Summarize this".to_string(), &batch);
    f.on_gain(&Gain::Failed("too big".to_string()));
    f.on_gain(&Gain::Downloaded("p".to_string()));
    match f.work() {
        Work::Store(name, mime) => assert_eq!((name.as_str(), mime.as_deref()), ("b.txt", Some("text/x"))),
        other => panic!("{other:?}"),
    }
    f.on_gain(&Gain::Failed("no".to_string()));
    f.on_gain(&Gain::Downloaded("p".to_string()));
    f.on_gain(&Gain::Stored("i".to_string(), None));
    match f.work() {
        Work::Say(s) => assert_eq!(
            s,
            "Skipped: animation (not supported), a.txt (too big), b.txt (upload failed)"
        ),
        other => panic!("{other:?}"),
    }
    f.on_gain(&Gain::Done);
    match f.work() {
        Work::Ask(q, _) => assert_eq!(q, "Summarize this"),
        other => panic!("{other:?}"),
    }
    let f = FilesIntake::new("".to_string(), &vec![]);
    match f.work() {
        Work::Say(s) => assert_eq!(s, "I couldn't use that attachment: no supported file found"),
        other => panic!("{other:?}"),
    }
}

#[test]
fn several_files_are_counted() {
    let batch = vec![document(Some("a.txt"), None), document(Some("b.txt"), None)];
    let mut f = FilesIntake::new("".to_string(), &batch);
    for _ in 0..2 {
        f.on_gain(&Gain::Downloaded("p".to_string()));
        f.on_gain(&Gain::Stored("i".to_string(), None));
    }
    match f.work() {
        Work::Ask(q, ids) => {
            assert_eq!(
                q,
                "I've attached 2 files: a.txt, b.txt. Please review them and summarize the key points."
            );
            assert_eq!(ids.len(), 2);
        }
        other => panic!("{other:?}"),
    }
}

#[test]
fn voice_notes_are_transcribed() {
    let mut m = note(ChatKind::Private, "");
    m.voice = Some("file-voice-1".to_string());
    assert!(attachments::is_audio(&m));
    let mut v = VoiceIntake::new("".to_string(), attachments::audio_file(&m).unwrap());
    assert!(matches!(v.work(), Work::Download(_)));
    v.on_gain(&Gain::Downloaded("voice/file_4.oga".to_string()));
    match v.work() {
        Work::Transcribe(name, mime) => {
            assert_eq!((name.as_str(), mime.as_deref()), ("voice.ogg", Some("audio/ogg")))
        }
        other => panic!("{other:?}"),
    }
    v.on_gain(&Gain::Transcript("what is the weather like".to_string()));
    match v.work() {
        Work::Ask(q, ids) => {
            assert_eq!(q, "what is the weather like");
            assert!(ids.is_empty());
        }
        other => panic!("{other:?}"),
    }
}

#[test]
fn audio_goes_along_where_it_is_not_understood() {
    let mut m = note(ChatKind::Private, "");
    m.audio = Some(Audio {
        file_id: "f".to_string(),
        file_name: None,
        mime_type: None,
    });
    let file = || attachments::audio_file(&m).unwrap();
    let mut v = VoiceIntake::new("listen".to_string(), file());
    v.on_gain(&Gain::Downloaded("p".to_string()));
    v.on_gain(&Gain::Failed("no".to_string()));
    assert!(matches!(v.work(), Work::Store(_, _)));
    v.on_gain(&Gain::Stored("i".to_string(), Some("t".to_string())));
    match v.work() {
        Work::WaitFor(task, secs) => assert_eq!((task.as_str(), secs), ("t", 60)),
        other => panic!("{other:?}"),
    }
    v.on_gain(&Gain::Done);
    match v.work() {
        Work::Ask(q, ids) => {
            assert_eq!(q, "listen\n\n(See the attached voice message.)");
            assert_eq!(ids, vec!["i"]);
        }
        other => panic!("{other:?}"),
    }
    let mut v = VoiceIntake::new("".to_string(), file());
    v.on_gain(&Gain::Failed("too big".to_string()));
    match v.work() {
        Work::Say(s) => assert_eq!(s, "I couldn't download that audio: too big"),
        other => panic!("{other:?}"),
    }
    let mut v = VoiceIntake::new("".to_string(), file());
    v.on_gain(&Gain::Downloaded("p".to_string()));
    v.on_gain(&Gain::Failed("no".to_string()));
    v.on_gain(&Gain::Failed("no".to_string()));
    match v.work() {
        Work::Say(s) => {
            assert_eq!(s, "I couldn't understand that audio. Could you type it instead?")
        }
        other => panic!("{other:?}"),
    }
}

#[test]
fn lone_audio_is_transcribed_and_answered_aloud() {
    let mut cfg = two_agents();
    cfg.voice_replies = true;
    let mut voice = note(ChatKind::Private, "");
    voice.voice = Some("v1".to_string());
    let alone = Intake::new("".to_string(), &vec![voice]);
    assert!(alone.voice_reply(&cfg));
    assert!(!alone.shows_upload());
    assert!(matches!(alone.work(), Work::Download(ref id) if id == "v1"));
    cfg.voice_replies = false;
    assert!(!alone.voice_reply(&cfg));
    let mut first = note(ChatKind::Private, "");
    first.voice = Some("v1".to_string());
    let mut pair = Intake::new("".to_string(), &vec![first, note(ChatKind::Private, "")]);
    cfg.voice_replies = true;
    assert!(!pair.voice_reply(&cfg));
    assert!(pair.shows_upload());
    assert!(matches!(pair.work(), Work::Say(_)));
    pair.on_gain(&Gain::Done);
    assert!(matches!(pair.work(), Work::Finished));
}

#[test]
fn replies_are_tried_privately_then_openly_then_plain() {
    let msg = note(ChatKind::Supergroup, "/help");
    let mut r = Reply::new(&msg, "*Hi* there\\.".to_string());
    let a = r.attempt().unwrap();
    assert_eq!(a.target.ephemeral.as_ref().unwrap().receiver_user_id, 1);
    assert!(a.target.ephemeral.as_ref().unwrap().callback_query_id.is_none());
    assert!(a.mode.is_some() && !a.last);
    r.on_report(false);
    let a = r.attempt().unwrap();
    assert!(a.target.ephemeral.is_none());
    assert_eq!(a.words, "*Hi* there\\.");
    r.on_report(false);
    let a = r.attempt().unwrap();
    assert!(a.mode.is_none() && a.last);
    assert_eq!(a.words, "Hi there.");
    r.on_report(false);
    assert!(r.attempt().is_none());
    let mut once = Reply::new(&note(ChatKind::Private, "/help"), "x".to_string());
    assert!(once.attempt().unwrap().target.ephemeral.is_none());
    once.on_report(true);
    assert!(once.attempt().is_none());
}
