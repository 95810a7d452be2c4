use docsgpt_telegram::docsgpt::types::Source;
use docsgpt_telegram::json::{parse_json, Json};
use docsgpt_telegram::telegram::api::{
    announced_size, api_root, bot_url, caption_of, draft_params, file_url, is_bad_request,
    received_size, retry_pause, CallFailure, Target,
};
use docsgpt_telegram::telegram::ratelimit::{disabled, gap, ChatSlots, Kind};
use docsgpt_telegram::telegram::raw::{
    allowed_updates, parse_update, read_update, Incoming, MessageGenerationStopped, ParseMode,
    SendMessageDraftRaw,
};
use docsgpt_telegram::telegram::render::{
    clamp_rich, close_open_fence, escape_v2, markdown_to_plain, markdown_v2_blocks,
    markdown_v2_messages, pack_blocks, plain_messages, plain_sources, render_table_monospace,
    rich_sources, split_block, split_plain, strip_images, unescape_v2, v2_sources,
    TG_TEXT_LIMIT,
};
use docsgpt_telegram::telegram::runtime::PollState;
use docsgpt_telegram::telegram::types::{Chat, ChatKind};
use docsgpt_telegram::telegram::webhook::{health_text, judge, webhook_url, Verdict};

#[test]
fn strips_images() {
    let (text, urls) = strip_images("Look:\n\n![cat](https://x.test/a.png)\n\nDone.");
    assert_eq!(text, "Look:\n\nDone.");
    assert_eq!(urls, vec!["https://x.test/a.png"]);
    let (t2, u2) = strip_images("![a](https://x/1.png \"cap\") and ![b](https://x/2.png)");
    assert_eq!(t2, "and");
    assert_eq!(u2.len(), 2);
}

#[test]
fn escapes_markdown_v2() {
    assert_eq!(escape_v2("a.b-c!"), "a\\.b\\-c\\!");
    let blocks = markdown_v2_blocks("Hello **world** and _it_ with `x.y` [link](https://e.com/a)");
    assert_eq!(
        blocks,
        vec!["Hello *world* and _it_ with `x.y` [link](https://e.com/a)"]
    );
}

#[test]
fn renders_headings_lists_code() {
    let md = "# Title\n\n- one\n- two\n\n1. a\n2. b\n\n```python\nprint('x')\n```\n\n> quote";
    let blocks = markdown_v2_blocks(md);
    assert_eq!(blocks[0], "*Title*");
    assert_eq!(blocks[1], "• one\n• two");
    assert_eq!(blocks[2], "1\\. a\n2\\. b");
    assert_eq!(blocks[3], "```python\nprint('x')\n```");
    assert_eq!(blocks[4], ">quote");
}

#[test]
fn renders_table_as_monospace() {
    let md = "| Cat | Trait |\n|---|---|\n| Tom | Curious |";
    let blocks = markdown_v2_blocks(md);
    assert_eq!(blocks.len(), 1);
    assert!(blocks[0].starts_with("```\nCat | Trait"));
    assert!(blocks[0].contains("Tom | Curious"));
}

#[test]
fn tables_are_padded() {
    let rows = vec![
        vec!["a".to_string(), "bb".to_string()],
        vec!["ccc".to_string(), "d".to_string()],
    ];
    let t = render_table_monospace(&rows);
    assert!(t.contains("a   | bb"));
    assert!(t.contains("ccc | d"));
}

#[test]
fn packs_and_splits() {
    let blocks = vec!["a".repeat(10), "b".repeat(10), "c".repeat(30)];
    let msgs = pack_blocks(&blocks, 25);
    assert_eq!(msgs[0], format!("{}\n\n{}", "a".repeat(10), "b".repeat(10)));
    assert_eq!(msgs.len(), 3);
    let code = format!(
        "```py\n{}\n```",
        (0..50)
            .map(|i| format!("line {i}"))
            .collect::<Vec<_>>()
            .join("\n")
    );
    let pieces = split_block(&code, 120);
    assert!(pieces.len() > 1);
    for p in &pieces {
        assert!(p.starts_with("```py\n") && p.ends_with("\n```"));
        assert!(p.chars().count() <= 120);
    }
}

#[test]
fn split_plain_prefers_newlines() {
    let text = "one two three\nfour five six\nseven";
    let parts = split_plain(text, 16);
    assert_eq!(parts, vec!["one two three", "four five six", "seven"]);
    let long = "x".repeat(50);
    assert_eq!(split_plain(&long, 20).len(), 3);
}

#[test]
fn sources_blocks() {
    let s = vec![
        Source {
            title: "Doc [1]".into(),
            url: Some("https://a.b/c".into()),
        },
        Source {
            title: "".into(),
            url: None,
        },
    ];
    let rich = rich_sources(&s);
    assert!(rich.contains("<details><summary>Sources (2)</summary>"));
    assert!(rich.contains("- [Doc 1](https://a.b/c)"));
    assert!(rich.contains("- Source\n"));
    let v2 = v2_sources(&s).unwrap();
    assert!(v2.starts_with("*Sources*\n• [Doc 1](https://a.b/c)"));
    assert!(v2_sources(&vec![]).is_none());
    assert!(plain_sources(&s).unwrap().starts_with("Sources:\n"));
    assert!(plain_sources(&vec![]).is_none());
    assert_eq!(rich_sources(&vec![]), "");
}

#[test]
fn plain_rendering() {
    assert_eq!(
        markdown_to_plain("**Bold** and [x](https://y.z)"),
        "Bold and x (https://y.z)"
    );
}

#[test]
fn closes_fence() {
    assert_eq!(close_open_fence("```py\nx"), "```py\nx\n```");
    assert_eq!(close_open_fence("```py\nx\n```"), "```py\nx\n```");
}

#[test]
fn clamps_rich() {
    let md = format!("{}\n\n{}", "a".repeat(10), "b".repeat(10));
    let c = clamp_rich(&md, 18);
    assert_eq!(c, format!("{}\n\n…", "a".repeat(10)));
}

#[test]
fn long_answers_are_split_without_loss() {
    let md = (0..40)
        .map(|i| format!("Paragraph {i}: {}", "lorem ipsum dolor sit amet ".repeat(10)))
        .collect::<Vec<_>>()
        .join("\n\n");
    let messages = markdown_v2_messages(&md, TG_TEXT_LIMIT);
    assert!(messages.len() > 1);
    assert!(messages.iter().all(|m| m.chars().count() <= TG_TEXT_LIMIT));
    let all = messages.join("\n");
    for i in 0..40 {
        assert!(all.contains(&format!("Paragraph {i}:")));
    }
    let plain = plain_messages(&markdown_to_plain(&md), TG_TEXT_LIMIT);
    assert!(plain.iter().all(|m| m.chars().count() <= TG_TEXT_LIMIT));
}

#[test]
fn closing_a_fence_twice_is_closing_it_once() {
    let once = close_open_fence("text\n```\ncode");
    assert_eq!(close_open_fence(&once), once);
    assert_eq!(clamp_rich("short", 100), "short");
}

#[test]
fn packed_messages_never_exceed_the_limit() {
    let block = format!("```\n{}\n```", "a".repeat(13));
    assert_eq!(block.chars().count(), 21);
    for limit in 1..40 {
        for m in pack_blocks(&vec![block.clone()], limit) {
            assert!(m.chars().count() <= limit);
        }
    }
    let m = pack_blocks(&vec![block.clone()], 20);
    assert_eq!(m, vec![format!("```\n{}\n```", "a".repeat(12)), "```\na\n```".to_string()]);
    assert_eq!(pack_blocks(&vec![block.clone()], 8), vec!["aaaaaaaa", "aaaaa"]);
    let long = format!("```{}\nx y\n```", "l".repeat(30));
    assert_eq!(pack_blocks(&vec![long], 20), vec!["```\nx y\n```"]);
    let wide = format!("```py\n{}\n```", "b".repeat(200));
    let m = pack_blocks(&vec![wide], 100);
    assert_eq!(m[0], format!("```py\n{}\n```", "b".repeat(87)));
}

#[test]
fn clamped_text_never_exceeds_the_limit() {
    assert_eq!(clamp_rich("abcde", 3), "\n\n…");
    assert_eq!(clamp_rich("abcde", 2), "ab");
    assert_eq!(clamp_rich("abcde", 0), "");
    assert_eq!(clamp_rich("abcdefgh", 6), "a…\n\n…");
    for limit in 0..30 {
        let md = "one\n\ntwo words\n\nthree more words";
        assert!(clamp_rich(md, limit).chars().count() <= limit);
    }
}

#[test]
fn plain_text_keeps_code_and_destinations() {
    assert_eq!(markdown_to_plain("`foo_bar`"), "foo_bar");
    assert_eq!(markdown_to_plain("[x](https://y.z/a_b)"), "x (https://y.z/a_b)");
    assert_eq!(markdown_to_plain("`a[i](x)` and _so_ \\_on\\_"), "a[i](x) and so _on_");
    assert_eq!(markdown_to_plain("```\nx * y ~ `z`\n```"), "\nx * y ~ `z`\n");
    assert_eq!(markdown_to_plain("[`a]b`](https://y.z/q_(r))"), "a]b (https://y.z/q_(r))");
    assert_eq!(markdown_to_plain("~~gone~~ **bold**"), "gone bold");
    let text = "a_b *c* [d](e) `f` \\ ~g~ (h).";
    assert_eq!(unescape_v2(&escape_v2(text)), text);
}

fn stopped_in(v: &Json) -> Option<MessageGenerationStopped> {
    let s = v.get("stopped_message_generation")?;
    let chat = s.get("chat")?;
    Some(MessageGenerationStopped {
        chat: Chat {
            id: chat.int_at("id")?,
            kind: ChatKind::Private,
        },
        message_thread_id: s.int_at("message_thread_id").map(|t| t as i32),
        draft_id: s.int_at("draft_id")?,
    })
}

fn sort_update(text: &str) -> (i64, Incoming) {
    let v = parse_json(text).unwrap();
    let stopped = stopped_in(&v);
    read_update(text, stopped).unwrap()
}

#[test]
fn updates_that_are_not_json_are_not_sorted() {
    assert!(read_update("{", None).is_none());
    let (id, inc) = read_update("[]", None).unwrap();
    assert_eq!(id, 0);
    assert!(matches!(inc, Incoming::Unknown(_)));
    let v = parse_json(r#"{"update_id": 4}"#).unwrap();
    let (id, inc) = parse_update(v, None, true);
    assert_eq!(id, 4);
    assert!(matches!(inc, Incoming::Update(_)));
}

#[test]
fn parses_stop_update() {
    let v = r#"{"update_id": 7, "stopped_message_generation": {"chat": {"id": 5, "type": "private"}, "draft_id": 99}}"#;
    let (id, inc) = sort_update(v);
    assert_eq!(id, 7);
    match inc {
        Incoming::StoppedGeneration(s) => {
            assert_eq!(s.draft_id, 99);
            assert_eq!(s.chat.id, 5);
        }
        other => panic!("{other:?}"),
    }
}

#[test]
fn parses_message_update() {
    let v = r#"{"update_id": 1, "message": {"message_id": 3, "date": 1, "chat": {"id": 5, "type": "private"}, "text": "hi"}}"#;
    let (_, inc) = sort_update(v);
    assert!(matches!(inc, Incoming::Update(_)));
}

#[test]
fn unknown_update_is_tolerated() {
    let v = r#"{"update_id": 2, "some_future_update": {"x": 1}}"#;
    let (id, inc) = sort_update(v);
    assert_eq!(id, 2);
    assert!(matches!(inc, Incoming::Unknown(_)));
}

#[test]
fn draft_params_serialize_new_fields() {
    let p = SendMessageDraftRaw {
        chat_id: 1,
        message_thread_id: None,
        draft_id: 2,
        text: "".into(),
        parse_mode: None,
        can_stop: Some(true),
        keep_on_stop: None,
    };
    let s = p.to_json();
    assert_eq!(s.get("can_stop"), Some(&Json::Bool(true)));
    assert!(s.get("keep_on_stop").is_none());
}

#[test]
fn replies_carry_where_they_go() {
    let mut t = Target::chat(5);
    let p = t.message_params("hi", None, None);
    assert_eq!(p.int_at("chat_id"), Some(5));
    assert!(p.get("reply_parameters").is_none());
    assert!(p.get("parse_mode").is_none());
    t.reply_to = Some(9);
    t.thread_id = Some(3);
    let p = t.message_params("hi", Some(ParseMode::MarkdownV2), None);
    assert_eq!(p.get("parse_mode").unwrap().as_str(), Some("MarkdownV2"));
    assert_eq!(p.int_at("message_thread_id"), Some(3));
    assert_eq!(p.get("reply_parameters").unwrap().int_at("message_id"), Some(9));
    let r = t.rich_params("**x**", None);
    assert_eq!(r.get("rich_message").unwrap().get("markdown").unwrap().as_str(), Some("**x**"));
    let d = draft_params(5, None, 7, "", true);
    assert_eq!(d.int_at("draft_id"), Some(7));
    assert_eq!(d.get("can_stop"), Some(&Json::Bool(true)));
}

#[test]
fn failed_calls_are_tried_again() {
    let busy = CallFailure::Api { code: 429, retry_after: Some(2) };
    assert!(retry_pause(busy, 1).is_some());
    assert!(retry_pause(CallFailure::Api { code: 400, retry_after: None }, 1).is_none());
    assert!(retry_pause(CallFailure::Other, 1).is_none());
    assert!(retry_pause(busy, 100).is_none());
    assert!(is_bad_request(Some(400)));
    assert!(!is_bad_request(Some(500)));
    assert!(!is_bad_request(None));
}

#[test]
fn files_have_a_largest_size() {
    assert!(announced_size(Some(10), 10).is_ok());
    assert!(announced_size(Some(11), 10).is_err());
    assert!(announced_size(None, 10).is_ok());
    assert!(received_size(11, 10).is_err());
    assert_eq!(caption_of(None), None);
    assert_eq!(caption_of(Some("c")).as_deref(), Some("c"));
    assert_eq!(caption_of(Some(&"x".repeat(2000))).unwrap().chars().count(), 1000);
}

#[test]
fn api_addresses() {
    assert_eq!(api_root(&None), "https://api.telegram.org");
    assert_eq!(api_root(&Some("http://localhost:8081/".to_string())), "http://localhost:8081");
    assert_eq!(bot_url("http://r", "T"), "http://r/botT");
    assert_eq!(file_url("http://r", "T", "p/f"), "http://r/file/botT/p/f");
    assert!(allowed_updates().contains(&"stopped_message_generation".to_string()));
}

#[test]
fn calls_to_one_chat_are_spaced() {
    let mut s = ChatSlots::new();
    assert_eq!(s.reserve(1, Kind::Message, false, 100), 0);
    assert_eq!(s.reserve(1, Kind::Message, false, 100), 1_000_000_000);
    assert_eq!(s.reserve(2, Kind::Message, false, 100), 0);
    assert_eq!(s.reserve(1, Kind::Light, false, 100), 0);
    assert_eq!(gap(Kind::Draft, false), 450_000_000);
    assert_eq!(gap(Kind::Message, true), 0);
    assert!(disabled(Some("off")));
    assert!(disabled(Some("0")));
    assert!(!disabled(Some("on")));
    assert!(!disabled(None));
}

#[test]
fn polling_backs_off_and_recovers() {
    let mut p = PollState::new();
    p.on_update(7);
    assert_eq!(p.offset, Some(8));
    let first = p.on_failure();
    let second = p.on_failure();
    assert!(second >= first);
    for _ in 0..20 {
        assert!(p.on_failure() <= 30);
    }
    p.on_batch();
    assert_eq!(p.on_failure(), first);
}

#[test]
fn webhook_calls_are_judged() {
    assert_eq!(judge(Some("s"), "s", true), Verdict::Accepted);
    assert_eq!(judge(Some("x"), "s", true), Verdict::Unauthorized);
    assert_eq!(judge(None, "s", true), Verdict::Unauthorized);
    assert_eq!(judge(Some("s"), "s", false), Verdict::NotFound);
    assert_eq!(Verdict::NotFound.code(), 404);
    assert_eq!(health_text(3), "ok bots=3\n");
    assert_eq!(webhook_url("https://p/", "b"), "https://p/webhook/b");
}
