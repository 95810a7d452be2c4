use docsgpt_telegram::json::Json;
use docsgpt_telegram::text;
use docsgpt_telegram::util::{
    draft_id_of, new_draft_id, python_repr_to_json, random_token, repr_to_json_text, safe_filename,
    token_of, truncate_chars,
};

fn at<'a>(v: &'a Json, key: &str) -> &'a Json {
    v.get(key).unwrap()
}

#[test]
fn converts_python_repr() {
    let v = python_repr_to_json("{'status': 'ok', 'stdout_tail': '1\\n', 'artifacts': [{'artifact_id': 'a', 'size': 18, 'ok': True, 'x': None}]}").unwrap();
    assert_eq!(at(&v, "status").as_str(), Some("ok"));
    let artifacts = at(&v, "artifacts").as_array().unwrap();
    assert_eq!(at(&artifacts[0], "artifact_id").as_str(), Some("a"));
    assert_eq!(*at(&artifacts[0], "ok"), Json::Bool(true));
    assert_eq!(*at(&artifacts[0], "x"), Json::Null);
}

#[test]
fn handles_quotes_inside() {
    let v = python_repr_to_json(r#"{'msg': "it's fine", 'q': 'say "hi"'}"#).unwrap();
    assert_eq!(at(&v, "msg").as_str(), Some("it's fine"));
    assert_eq!(at(&v, "q").as_str(), Some("say \"hi\""));
}

#[test]
fn truncates() {
    assert_eq!(truncate_chars("hello", 10), "hello");
    assert_eq!(truncate_chars("hello world", 6), "hello…");
}

#[test]
fn truncation_counts_characters() {
    assert_eq!(truncate_chars("äöü", 3), "äöü");
    assert_eq!(truncate_chars("äöüß", 3), "äö…");
    assert_eq!(truncate_chars("abc", 1), "…");
    assert_eq!(truncate_chars("abc", 0), "");
    assert_eq!(truncate_chars("", 0), "");
}

#[test]
fn repr_words_become_json_words() {
    assert_eq!(repr_to_json_text("[True, False, None, Truely]"), "[true, false, null, Truely]");
    assert_eq!(repr_to_json_text("'a\\'b'"), "\"a'b\"");
    assert!(python_repr_to_json("{'a': }").is_none());
    assert_eq!(python_repr_to_json("{\"a\": 1}").unwrap().get("a"), Some(&Json::Number("1".to_string())));
}

#[test]
fn file_names_are_made_safe() {
    assert_eq!(safe_filename("../../etc/pass:wd", "x"), "etcpasswd");
    assert_eq!(safe_filename(" ..hidden ", "x"), "hidden");
    assert_eq!(safe_filename("///", "fallback"), "fallback");
    assert_eq!(safe_filename(&"a".repeat(130), "x").len(), 120);
    assert_eq!(safe_filename("report 1.pdf", "x"), "report 1.pdf");
}

#[test]
fn draft_ids_are_positive() {
    assert_eq!(draft_id_of(0), None);
    assert!(draft_id_of(17).is_some());
    for _ in 0..50 {
        assert!(new_draft_id() > 0);
    }
}

#[test]
fn tokens_have_their_length_and_alphabet() {
    let t = random_token(32);
    assert_eq!(t.len(), 32);
    assert!(t.chars().all(|c| c.is_ascii_alphanumeric() || c == '_' || c == '-'));
    assert_eq!(random_token(0), "");
    assert_eq!(token_of(&vec![0, 25, 26, 62, 63, 64]), "AZa_-A");
    assert_ne!(random_token(32), random_token(32));
}

#[test]
fn text_is_taken_apart() {
    assert_eq!(text::trimmed(" \u{a0}a b\n"), "a b");
    assert_eq!(text::split("a,b,,c", ','), vec!["a", "b", "", "c"]);
    assert_eq!(text::line_list("a\r\nb\n\nc\n"), vec!["a", "b", "", "c"]);
    assert_eq!(text::word_list("  a  b\tc "), vec!["a", "b", "c"]);
    assert_eq!(text::rsplit_once("a.b.c", '.'), Some(("a.b".to_string(), "c".to_string())));
    assert_eq!(text::split_once("abc", '.'), None);
    assert_eq!(text::lowered("ÄBC"), "Äbc");
    assert_eq!(text::decimal_of(18_446_744_073_709_551_615), "18446744073709551615");
    assert_eq!(text::signed_decimal_of(i64::MIN), "-9223372036854775808");
    assert_eq!(text::replaced_text("aXbXc", "X", "--"), "a--b--c");
    assert_eq!(text::copy_list(&vec!["a".to_string()]), vec!["a"]);
}
