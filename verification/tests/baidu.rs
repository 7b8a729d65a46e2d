use yi::baidu::Baidu;
use yi::output::TransError;

#[test]
fn baidu_success_keeps_ordered_dst_values() {
    let adapter = Baidu::new("hello", "appid", "key");
    let body = "{\"from\":\"en\",\"to\":\"zh\",\"trans_result\":[\
        {\"src\":\"hello\",\"dst\":\"\u{4f60}\u{597d}\"},\
        {\"src\":\"world\",\"dst\":\"\u{4e16}\u{754c}\"}]}";
    let out = adapter.parse_response(body).unwrap();
    assert_eq!(out.word, "hello");
    assert_eq!(
        out.meanings,
        Some(vec![
            "\u{4f60}\u{597d}".to_string(),
            "\u{4e16}\u{754c}".to_string()
        ])
    );
    assert!(out.pos.is_none());
    assert!(out.phonetic_us.is_none());
    assert!(out.phonetic_uk.is_none());
}

#[test]
fn baidu_error_shape_fails_with_provider_message() {
    let adapter = Baidu::new("hello", "appid", "key");
    let body = "{\"error_code\":\"54001\",\"error_msg\":\"Invalid Sign\"}";
    let err = adapter.parse_response(body).unwrap_err();
    match &err {
        TransError::Provider { code, msg } => {
            assert_eq!(code, "54001");
            assert_eq!(msg, "Invalid Sign");
        }
        other => panic!("expected the provider's error, got {:?}", other),
    }
    assert!(err.message().contains("Invalid Sign"));
}

#[test]
fn baidu_success_wins_over_error_fields() {
    let adapter = Baidu::new("w", "a", "k");
    let body = "{\"from\":\"en\",\"to\":\"zh\",\"trans_result\":[],\
        \"error_code\":\"0\",\"error_msg\":\"none\"}";
    let out = adapter.parse_response(body).unwrap();
    assert_eq!(out.meanings, Some(Vec::new()));
}

#[test]
fn baidu_unknown_shape_fails() {
    let adapter = Baidu::new("w", "a", "k");
    let err = adapter.parse_response("{\"foo\":1}").unwrap_err();
    assert!(matches!(err, TransError::Shape));
    // A unit in the list that is not an object with string src and dst fields
    // refuses the success shape too.
    let body = "{\"from\":\"en\",\"to\":\"zh\",\"trans_result\":[{\"src\":\"x\"}]}";
    let err = adapter.parse_response(body).unwrap_err();
    assert!(matches!(err, TransError::Shape));
}

#[test]
fn baidu_malformed_json_fails() {
    let adapter = Baidu::new("w", "a", "k");
    let err = adapter.parse_response("{not json").unwrap_err();
    assert!(matches!(err, TransError::Json));
    assert_eq!(err.message(), "JSON decode error");
}

#[test]
fn baidu_sign_is_md5_hex_of_concatenation() {
    // md5("abc"), a fixed test vector: the signing input is
    // appid + word + salt + key with no separators.
    let adapter = Baidu::new("b", "a", "");
    assert_eq!(adapter.sign("c"), "900150983cd24fb0d6963f7d28e17f72");
    let adapter2 = Baidu::new("", "abc", "");
    assert_eq!(adapter2.sign(""), "900150983cd24fb0d6963f7d28e17f72");
}

#[test]
fn baidu_form_params_in_protocol_order() {
    let adapter = Baidu::new("hello", "myapp", "secret");
    let params = adapter.form_params("42", "deadbeef");
    let expect = vec![
        ("q", "hello"),
        ("from", "auto"),
        ("to", "zh"),
        ("appid", "myapp"),
        ("salt", "42"),
        ("sign", "deadbeef"),
    ];
    assert_eq!(params.len(), expect.len());
    for (got, want) in params.iter().zip(expect.iter()) {
        assert_eq!(got.0, want.0);
        assert_eq!(got.1, want.1);
    }
}

#[test]
fn baidu_salt_is_decimal_digits() {
    let salt = Baidu::gen_salt();
    assert!(!salt.is_empty());
    assert!(salt.chars().all(|c| c.is_ascii_digit()));
    assert!(salt.parse::<u32>().is_ok());
}
