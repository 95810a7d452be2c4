use docsgpt_telegram::docsgpt::client::{
    audio, chunk_fits, encoded_audio, name_download, name_from_url, next_pause, on_task_reply,
    parse_content_disposition_filename, percent_decoded_bytes, read_media_type, refusal_message,
    stored_attachment, too_large_message, transcript, DocsGpt, ReadStep, ReplyError, StreamReader,
    StreamRequest, TaskReply, TaskStep, FIRST_PAUSE, LONGEST_PAUSE, MAX_DOWNLOAD,
};
use docsgpt_telegram::docsgpt::sse::SseParser;
use docsgpt_telegram::docsgpt::types::{Event, Source, ToolCall, ToolOutputs};
use docsgpt_telegram::json::{parse_json, Json};

#[test]
fn a_trailing_event_is_not_lost() {
    let mut p = SseParser::default();
    assert!(p.push(b"data: a\r\n\r").is_empty());
    assert_eq!(p.finish().as_deref(), Some("a"));
    assert_eq!(p.finish(), None);
    let mut q = SseParser::default();
    assert!(q.push(b"data: a\ndata: b").is_empty());
    assert_eq!(q.finish().as_deref(), Some("a\nb"));
}

#[test]
fn content_disposition() {
    assert_eq!(
        parse_content_disposition_filename("attachment; filename=\"a b.txt\"").as_deref(),
        Some("a b.txt")
    );
    assert_eq!(
        parse_content_disposition_filename("attachment; filename*=UTF-8''r%C3%A9sum%C3%A9.pdf")
            .as_deref(),
        Some("résumé.pdf")
    );
    assert_eq!(parse_content_disposition_filename("inline"), None);
}

#[test]
fn percent_signs_that_encode_nothing_stay() {
    assert_eq!(percent_decoded_bytes("a%20b%zz%4"), b"a b%zz%4".to_vec());
    assert_eq!(percent_decoded_bytes("%e4"), vec![0xe4]);
    assert_eq!(
        parse_content_disposition_filename("attachment; filename*=UTF-8''%FFx").as_deref(),
        Some("\u{fffd}x")
    );
}

fn request(attachments: Vec<String>) -> StreamRequest {
    StreamRequest {
        question: "q".into(),
        api_key: "k".into(),
        conversation_id: None,
        attachments,
    }
}

#[test]
fn body_shape() {
    let req = request(vec!["a".into()]);
    let b = DocsGpt::body(&req);
    assert_eq!(b.get("question"), Some(&Json::Str("q".to_string())));
    assert_eq!(b.get("conversation_id"), Some(&Json::Null));
    assert_eq!(b.get("attachments").unwrap().as_array().unwrap()[0], Json::Str("a".to_string()));
    let req2 = request(vec![]);
    assert!(DocsGpt::body(&req2).get("attachments").is_none());
    assert_eq!(b.get("history").unwrap().as_str(), Some("[]"));
}

#[test]
fn addresses() {
    let d = DocsGpt::new("https://host///");
    assert_eq!(d.base(), "https://host");
    assert_eq!(d.endpoint("/stream"), "https://host/stream");
    assert_eq!(d.artifact_url("a1"), "https://host/api/artifacts/a1/download");
}

#[test]
fn parses_events_across_chunks() {
    let mut p = SseParser::default();
    let mut got = p.push(b"id: 0\ndata: {\"a\":1}\n\n: keepalive\nid: 1\ndata: {\"b\"");
    assert_eq!(got, vec!["{\"a\":1}"]);
    got = p.push(b":2}\n\ndata: tail");
    assert_eq!(got, vec!["{\"b\":2}"]);
    assert_eq!(p.finish().as_deref(), Some("tail"));
}

#[test]
fn joins_multiline_data() {
    let mut p = SseParser::default();
    let got = p.push(b"data: a\r\ndata: b\r\n\r\n");
    assert_eq!(got, vec!["a\nb"]);
}

#[test]
fn chunk_borders_do_not_matter() {
    let stream = b"data: one\ndata: two\n\nevent: x\ndata:three\n\n";
    let mut whole = SseParser::default();
    let all = whole.push(stream);
    for cut in 0..stream.len() {
        let mut p = SseParser::default();
        let mut got = p.push(&stream[..cut]);
        got.extend(p.push(&stream[cut..]));
        assert_eq!(got, all);
    }
    assert_eq!(all, vec!["one\ntwo", "three"]);
}

#[test]
fn parses_core_events() {
    assert_eq!(
        Event::parse(r#"{"type": "answer", "answer": "Hi"}"#),
        Some(Event::Answer("Hi".into()))
    );
    assert_eq!(Event::parse(r#"{"type": "end"}"#), Some(Event::End));
    assert_eq!(
        Event::parse(r#"{"type": "id", "id": "c1"}"#),
        Some(Event::ConversationId("c1".into()))
    );
    assert_eq!(
        Event::parse(r#"{"type": "message_id", "message_id": "m", "conversation_id": "c"}"#),
        Some(Event::MessageId {
            message_id: "m".into(),
            conversation_id: Some("c".into())
        })
    );
    match Event::parse(
        r#"{"type": "source", "source": [{"title": "Doc", "link": "https://x"}, {"title": ""}]}"#,
    ) {
        Some(Event::Source(s)) => {
            assert_eq!(
                s[0],
                Source {
                    title: "Doc".into(),
                    url: Some("https://x".into())
                }
            );
            assert_eq!(s[1].title, "Source");
        }
        other => panic!("{other:?}"),
    }
}

#[test]
fn extracts_artifacts_from_tool_call() {
    let raw = r#"{"type": "tool_call", "data": {"tool_name": "code_executor", "call_id": "c", "action_name": "run_code", "arguments": {"code": "x"}, "artifact_id": "dfb9", "artifacts": [{"id": "dfb9", "filename": "hello.txt", "ref": "A1"}], "result": "{'status': 'ok', 'stdout_tail': '', 'artifacts': [{'artifact_id': 'dfb9', 'version': 1, 'filename': 'hello.txt', 'mime_type': 'text/plain', 'size': 18, 'ref': 'A1'}]}", "status": "completed"}}"#;
    let Some(Event::ToolCall(tc)) = Event::parse(raw) else {
        panic!()
    };
    assert!(tc.is_completed());
    let out = tc.outputs();
    assert_eq!(out.artifacts.len(), 1);
    assert_eq!(out.artifacts[0].filename, "hello.txt");
    assert_eq!(out.artifacts[0].mime_type.as_deref(), Some("text/plain"));
    assert_eq!(tc.label(), "Running code");
}

#[test]
fn extracts_image_urls() {
    let raw = r#"{"type": "tool_call", "data": {"tool_name": "imagegen", "call_id": "c", "action_name": "imagegen_generate", "arguments": {"prompt": "cat"}, "result": "{'status_code': 200, 'image_urls': ['https://artefacts.docsgpt.cloud/images/a.png'], 'message': 'respond like this: ![image]({image_url})'}", "status": "completed"}}"#;
    let Some(Event::ToolCall(tc)) = Event::parse(raw) else {
        panic!()
    };
    let out = tc.outputs();
    assert_eq!(
        out.image_urls,
        vec!["https://artefacts.docsgpt.cloud/images/a.png".to_string()]
    );
    assert_eq!(tc.label(), "Generating image");
}

#[test]
fn unknown_event_is_other() {
    match Event::parse(r#"{"type": "guardrail", "guardrail": {"x": 1}}"#) {
        Some(Event::Other(t, _)) => assert_eq!(t, "guardrail"),
        other => panic!("{other:?}"),
    }
}

#[test]
fn events_that_are_no_json_are_dropped() {
    assert_eq!(Event::parse("not json"), None);
    assert_eq!(Event::parse(r#"{"type": "error", "error": "boom"}"#), Some(Event::Error("boom".into())));
    match Event::parse(r#"{"type": "tool_calls", "tool_calls": [{"tool_name": "a_b", "status": "pending"}]}"#) {
        Some(Event::ToolCalls(list)) => {
            assert_eq!(list.len(), 1);
            assert_eq!(list[0].label(), "Using a b");
            assert!(!list[0].is_completed());
        }
        other => panic!("{other:?}"),
    }
}

#[test]
fn structured_answers_are_printed() {
    match Event::parse(r#"{"type": "structured_answer", "answer": {"b": 1}}"#) {
        Some(Event::StructuredAnswer(s)) => assert_eq!(s, "{\"b\":1}"),
        other => panic!("{other:?}"),
    }
}

#[test]
fn outputs_are_merged_once() {
    let call = ToolCall::from_json(
        &parse_json(r#"{"tool_name": "t", "artifacts": [{"id": "a", "filename": "x.txt"}]}"#).unwrap(),
    )
    .unwrap();
    let mut all = ToolOutputs::none();
    assert!(all.is_empty());
    all.merge(call.outputs());
    all.merge(call.outputs());
    assert_eq!(all.artifacts.len(), 1);
    assert_eq!(all.artifacts[0].filename, "x.txt");
    assert!(!all.is_empty());
}

#[test]
fn events_are_handed_out_in_order() {
    let mut r = StreamReader::new();
    assert!(matches!(r.next(), ReadStep::Read));
    r.on_chunk(b"data: {\"type\":\"answer\",\"answer\":\"a\"}\n\ndata: {\"type\":\"end\"}\n\n");
    match r.next() {
        ReadStep::Event(Event::Answer(s)) => assert_eq!(s, "a"),
        other => panic!("{other:?}"),
    }
    assert!(matches!(r.next(), ReadStep::Event(Event::End)));
    assert!(matches!(r.next(), ReadStep::Read));
    r.on_end();
    assert!(matches!(r.next(), ReadStep::Over));
}

#[test]
fn stream_that_breaks_off_is_over() {
    let mut r = StreamReader::new();
    r.on_chunk(b"data: {\"type\":\"answer\",\"answer\":\"a\"}");
    r.on_end();
    assert!(matches!(r.next(), ReadStep::Event(Event::Answer(_))));
    assert!(matches!(r.next(), ReadStep::Over));
    let mut r = StreamReader::new();
    r.on_error();
    assert!(matches!(r.next(), ReadStep::Over));
}

#[test]
fn replies_are_read() {
    let s = stored_attachment(r#"{"attachment_id": "a1", "task_id": "t1"}"#).unwrap();
    assert_eq!(s.attachment_id, "a1");
    assert_eq!(s.task_id.as_deref(), Some("t1"));
    let none = stored_attachment("{}").err().unwrap();
    assert!(matches!(none, ReplyError::NoAttachmentId(_)));
    assert!(matches!(stored_attachment("<html>").err().unwrap(), ReplyError::NotJson(_)));
    assert_eq!(transcript(r#"{"text": " hi "}"#).unwrap().trim(), "hi");
    assert!(matches!(transcript(r#"{"text": " "}"#).err().unwrap(), ReplyError::NoText));
    assert_eq!(audio(r#"{"success": true, "audio_base64": "aGk="}"#).unwrap(), b"hi".to_vec());
    assert!(matches!(audio(r#"{"success": true}"#).err().unwrap(), ReplyError::NoAudio));
    assert!(matches!(
        audio(r#"{"success": true, "audio_base64": "!!"}"#).err().unwrap(),
        ReplyError::BadAudio
    ));
    assert!(encoded_audio(None).is_err());
    assert!(!none.message().is_empty());
}

#[test]
fn downloads_are_named() {
    assert_eq!(name_from_url("https://x/y/cat.png?size=1"), "cat.png");
    assert_eq!(name_download(Some("attachment; filename=\"a.txt\"".to_string()), "hint"), "a.txt");
    assert_eq!(name_download(None, "hint"), "hint");
    assert_eq!(read_media_type("image/png; charset=x"), "image/png");
    assert!(chunk_fits(0, MAX_DOWNLOAD));
    assert!(!chunk_fits(1, MAX_DOWNLOAD));
    assert_eq!(too_large_message(), "download exceeds 50 MB");
}

#[test]
fn refusals_show_what_came() {
    let m = refusal_message("DocsGPT /stream", "500", &"x".repeat(400), 300);
    assert!(m.contains("500"));
    assert!(m.chars().filter(|c| *c == 'x').count() <= 300);
}

#[test]
fn tasks_are_asked_about_until_they_end() {
    let ask = |body: &str, late: bool| on_task_reply(TaskReply::Body(body.to_string()), late, 5);
    assert!(matches!(ask(r#"{"status": "success"}"#, false), TaskStep::Proceed));
    assert!(matches!(ask(r#"{"status": "PENDING"}"#, false), TaskStep::Again(5)));
    assert!(matches!(ask(r#"{"status": "PENDING"}"#, true), TaskStep::Proceed));
    match ask(r#"{"status": "FAILURE"}"#, false) {
        TaskStep::Fail(why) => {
            assert_eq!(why, "attachment processing failed: {\"status\":\"FAILURE\"}")
        }
        other => panic!("{other:?}"),
    }
    assert!(matches!(on_task_reply(TaskReply::Refused, false, 5), TaskStep::PauseThenProceed));
    assert!(matches!(on_task_reply(TaskReply::Failed, false, 5), TaskStep::Proceed));
    assert_eq!(next_pause(FIRST_PAUSE), 1_050_000_000);
    assert_eq!(next_pause(LONGEST_PAUSE), LONGEST_PAUSE);
}
