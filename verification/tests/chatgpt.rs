use yi::chatgpt::Chatgpt;
use yi::output::TransError;

const COMPLETED_TWO_TEXTS: &str = "{\"status\":\"completed\",\"output\":[\
    {\"id\":\"m1\",\"type\":\"message\",\"role\":\"assistant\",\"content\":[\
        {\"type\":\"output_text\",\"text\":\"first\"},\
        {\"type\":\"reasoning\",\"text\":\"hidden\"},\
        {\"type\":\"output_text\",\"text\":\"second\"}]},\
    {\"id\":\"m2\",\"role\":\"system\",\"content\":[\
        {\"type\":\"output_text\",\"text\":\"ignored\"}]}]}";

#[test]
fn chat_completed_collects_assistant_texts_in_order() {
    let adapter = Chatgpt::new("hello", "token");
    let out = adapter.parse_response(COMPLETED_TWO_TEXTS).unwrap();
    assert_eq!(out.word, "hello");
    assert_eq!(
        out.meanings,
        Some(vec!["first".to_string(), "second".to_string()])
    );
    assert!(out.pos.is_none());
    assert!(out.phonetic_us.is_none());
}

#[test]
fn chat_two_assistant_items_concatenate_in_encounter_order() {
    let adapter = Chatgpt::new("w", "t");
    let body = "{\"status\":\"completed\",\"output\":[\
        {\"role\":\"assistant\",\"content\":[{\"type\":\"output_text\",\"text\":\"a\"}]},\
        {\"role\":\"assistant\",\"content\":[{\"type\":\"output_text\",\"text\":\"b\"}]}]}";
    let out = adapter.parse_response(body).unwrap();
    assert_eq!(out.meanings, Some(vec!["a".to_string(), "b".to_string()]));
}

#[test]
fn chat_status_other_than_completed_fails() {
    let adapter = Chatgpt::new("hello", "token");
    let body = "{\"status\":\"failed\",\"output\":[\
        {\"role\":\"assistant\",\"content\":[{\"type\":\"output_text\",\"text\":\"x\"}]}]}";
    let err = adapter.parse_response(body).unwrap_err();
    assert!(matches!(err, TransError::Status));
    assert_eq!(err.message(), "chat status error");
}

#[test]
fn chat_absent_status_fails() {
    let adapter = Chatgpt::new("hello", "token");
    let err = adapter.parse_response("{\"output\":[]}").unwrap_err();
    assert!(matches!(err, TransError::Status));
}

#[test]
fn chat_no_assistant_output_leaves_meanings_unset() {
    let adapter = Chatgpt::new("w", "t");
    let body = "{\"status\":\"completed\",\"output\":[\
        {\"role\":\"system\",\"content\":[{\"type\":\"output_text\",\"text\":\"x\"}]}]}";
    let out = adapter.parse_response(body).unwrap();
    assert!(out.meanings.is_none());
}

#[test]
fn chat_assistant_without_qualifying_text_sets_empty_meanings() {
    let adapter = Chatgpt::new("w", "t");
    let body = "{\"status\":\"completed\",\"output\":[\
        {\"role\":\"assistant\",\"content\":[{\"type\":\"reasoning\",\"text\":\"x\"}]}]}";
    let out = adapter.parse_response(body).unwrap();
    assert_eq!(out.meanings, Some(Vec::new()));
}

#[test]
fn chat_absent_output_leaves_meanings_unset() {
    let adapter = Chatgpt::new("w", "t");
    let out = adapter.parse_response("{\"status\":\"completed\"}").unwrap();
    assert!(out.meanings.is_none());
}

#[test]
fn chat_ill_typed_payload_fails_as_malformed() {
    let adapter = Chatgpt::new("w", "t");
    // A numeric status is neither absent, null nor a string.
    let err = adapter.parse_response("{\"status\":3}").unwrap_err();
    assert!(matches!(err, TransError::Json));
    let err = adapter.parse_response("not json at all").unwrap_err();
    assert!(matches!(err, TransError::Json));
}

#[test]
fn chat_request_body_is_json_with_model_and_input() {
    let adapter = Chatgpt::new("hello", "token");
    let body = adapter.request_body();
    // The request must be real JSON that any parser can read back.
    let v: serde_json::Value = serde_json::from_str(&body).unwrap();
    assert_eq!(
        v.get("model").and_then(|m| m.as_str()),
        Some("gpt-4o-mini")
    );
    let input = v.get("input").and_then(|m| m.as_str()).unwrap();
    assert!(input.ends_with(" hello"));
    assert!(input.contains("\u{8981}\u{7ffb}\u{8bd1}\u{7684}\u{5355}\u{8bcd}\u{662f}"));
}
