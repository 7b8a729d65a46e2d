use yi::audio::audio_url;
use yi::audio::Accent;
use yi::json::json_to_string;
use yi::output::output_from_json_str;
use yi::output::output_to_json;
use yi::output::render_lines;
use yi::output::Output;
use yi::output::TransError;
use yi::select::select_backend;
use yi::select::BackendKind;

fn sample_output() -> Output {
    let mut o = Output::new("hello");
    o.phonetic_uk = Some("h\u{259}'l\u{259}\u{28a}".to_string());
    o.phonetic_us = Some("h\u{259}'lo\u{28a}".to_string());
    o.pos = Some(vec!["int.".to_string()]);
    o.meanings = Some(vec!["\u{4f60}\u{597d}".to_string()]);
    o
}

#[test]
fn new_output_has_only_the_word() {
    let o = Output::new("cat");
    assert_eq!(o.word, "cat");
    assert!(o.phonetic_us.is_none());
    assert!(o.phonetic_uk.is_none());
    assert!(o.audio_us.is_none());
    assert!(o.audio_uk.is_none());
    assert!(o.pos.is_none());
    assert!(o.meanings.is_none());
    assert!(o.desc.is_none());
}

#[test]
fn render_pairs_pos_with_meanings_and_labels_phonetics() {
    let o = sample_output();
    let lines = render_lines(&o);
    assert_eq!(lines.len(), 3);
    assert_eq!(lines[0], "hello");
    assert_eq!(
        lines[1],
        "\u{82f1} /h\u{259}'l\u{259}\u{28a}/ \u{7f8e} /h\u{259}'lo\u{28a}/"
    );
    assert_eq!(lines[2], "int. \u{4f60}\u{597d}");
}

#[test]
fn render_lone_us_phonetic_is_unlabelled() {
    let mut o = Output::new("hi");
    o.phonetic_us = Some("haI".to_string());
    let lines = render_lines(&o);
    assert_eq!(lines, vec!["hi".to_string(), "/haI/".to_string()]);
}

#[test]
fn render_lone_uk_phonetic_is_unlabelled() {
    let mut o = Output::new("hi");
    o.phonetic_uk = Some("haI".to_string());
    let lines = render_lines(&o);
    assert_eq!(lines, vec!["hi".to_string(), "/haI/".to_string()]);
}

#[test]
fn render_no_phonetics_omits_the_line() {
    let mut o = Output::new("hi");
    o.meanings = Some(vec!["m".to_string()]);
    let lines = render_lines(&o);
    assert_eq!(lines, vec!["hi".to_string(), "m".to_string()]);
}

#[test]
fn render_excess_meanings_have_no_label() {
    let mut o = Output::new("run");
    o.pos = Some(vec!["n.".to_string()]);
    o.meanings = Some(vec!["one".to_string(), "two".to_string()]);
    let lines = render_lines(&o);
    assert_eq!(lines, vec!["run", "n. one", "two"]);
}

#[test]
fn json_rendering_matches_the_expected_text() {
    let mut o = Output::new("hi");
    o.phonetic_us = Some("haI".to_string());
    o.meanings = Some(vec!["a\"b".to_string()]);
    let text = json_to_string(&output_to_json(&o));
    assert_eq!(
        text,
        "{\"word\":\"hi\",\"phonetic_us\":\"haI\",\"phonetic_uk\":null,\
         \"audio_us\":null,\"audio_uk\":null,\"pos\":null,\
         \"meanings\":[\"a\\\"b\"],\"desc\":null}"
    );
    // The rendered text is real JSON.
    assert!(serde_json::from_str::<serde_json::Value>(&text).is_ok());
}

#[test]
fn json_round_trip_preserves_every_field() {
    let o = sample_output();
    let text = json_to_string(&output_to_json(&o));
    let back = output_from_json_str(&text).unwrap();
    assert_eq!(back.word, o.word);
    assert_eq!(back.phonetic_us, o.phonetic_us);
    assert_eq!(back.phonetic_uk, o.phonetic_uk);
    assert_eq!(back.audio_us, o.audio_us);
    assert_eq!(back.audio_uk, o.audio_uk);
    assert_eq!(back.pos, o.pos);
    assert_eq!(back.meanings, o.meanings);
    assert_eq!(back.desc, o.desc);
}

#[test]
fn json_round_trip_keeps_absent_fields_absent() {
    let o = Output::new("bare");
    let text = json_to_string(&output_to_json(&o));
    let back = output_from_json_str(&text).unwrap();
    assert_eq!(back.word, "bare");
    assert!(back.phonetic_us.is_none());
    assert!(back.pos.is_none());
    assert!(back.meanings.is_none());
    assert!(back.desc.is_none());
}

#[test]
fn json_escapes_control_characters() {
    let mut o = Output::new("x");
    o.desc = Some("a\nb\t\u{1}c\\d".to_string());
    let text = json_to_string(&output_to_json(&o));
    assert!(text.contains("a\\nb\\t\\u0001c\\\\d"));
    let back = output_from_json_str(&text).unwrap();
    assert_eq!(back.desc.as_deref(), Some("a\nb\t\u{1}c\\d"));
}

#[test]
fn unknown_backend_name_selects_iciba() {
    assert_eq!(select_backend(Some("nonsense")), BackendKind::Iciba);
    assert_eq!(select_backend(None), BackendKind::Iciba);
    assert_eq!(select_backend(Some("")), BackendKind::Iciba);
}

#[test]
fn known_backend_names_select_their_backends() {
    assert_eq!(select_backend(Some("baidu")), BackendKind::Baidu);
    assert_eq!(select_backend(Some("chatgpt")), BackendKind::Chatgpt);
    assert_eq!(select_backend(Some("iciba")), BackendKind::Iciba);
}

#[test]
fn audio_url_carries_word_and_accent_code() {
    assert_eq!(
        audio_url("hello", Accent::Us),
        "https://dict.youdao.com/dictvoice?audio=hello&type=2"
    );
    assert_eq!(
        audio_url("hello", Accent::Uk),
        "https://dict.youdao.com/dictvoice?audio=hello&type=1"
    );
}

#[test]
fn error_messages_name_their_causes() {
    assert_eq!(TransError::Http(404).message(), "HTTP error: 404");
    assert_eq!(
        TransError::Xml(17).message(),
        "XML error at position 17"
    );
    assert_eq!(TransError::Json.message(), "JSON decode error");
    assert_eq!(
        TransError::Shape.message(),
        "unrecognized response shape"
    );
    assert_eq!(
        TransError::Provider {
            code: "54001".to_string(),
            msg: "Invalid Sign".to_string()
        }
        .message(),
        "Response error: 54001: Invalid Sign"
    );
    assert_eq!(TransError::Status.message(), "chat status error");
}
