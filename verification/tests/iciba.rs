use yi::iciba::Iciba;
use yi::output::TransError;

const XML_TWO_PS: &str = "<?xml version=\"1.0\" encoding=\"utf-8\"?>\
<dict>\
<key>hello</key>\
<ps>h\u{259}'l\u{259}\u{28a}</ps>\
<ps>h\u{259}'lo\u{28a}</ps>\
<pos>int.</pos>\
<acceptation>\u{4f60}\u{597d}</acceptation>\
<pron>x</pron>\
</dict>";

#[test]
fn iciba_two_ps_sets_uk_then_us() {
    let adapter = Iciba::new("hello");
    let out = adapter.parse_response(XML_TWO_PS).unwrap();
    assert_eq!(out.word, "hello");
    assert_eq!(out.phonetic_uk.as_deref(), Some("h\u{259}'l\u{259}\u{28a}"));
    assert_eq!(out.phonetic_us.as_deref(), Some("h\u{259}'lo\u{28a}"));
    assert_eq!(out.pos, Some(vec!["int.".to_string()]));
    assert_eq!(out.meanings, Some(vec!["\u{4f60}\u{597d}".to_string()]));
    assert!(out.audio_us.is_none());
    assert!(out.audio_uk.is_none());
    assert!(out.desc.is_none());
}

#[test]
fn iciba_one_ps_sets_us_only() {
    let adapter = Iciba::new("hi");
    let xml = "<dict><key>hi</key><ps>haI</ps><acceptation>m</acceptation></dict>";
    let out = adapter.parse_response(xml).unwrap();
    assert_eq!(out.phonetic_us.as_deref(), Some("haI"));
    assert!(out.phonetic_uk.is_none());
}

#[test]
fn iciba_zero_ps_leaves_both_absent() {
    let adapter = Iciba::new("hi");
    let xml = "<dict><key>hi</key><acceptation>m</acceptation></dict>";
    let out = adapter.parse_response(xml).unwrap();
    assert!(out.phonetic_us.is_none());
    assert!(out.phonetic_uk.is_none());
}

#[test]
fn iciba_three_ps_leaves_both_absent() {
    let adapter = Iciba::new("hi");
    let xml = "<dict><ps>a</ps><ps>b</ps><ps>c</ps></dict>";
    let out = adapter.parse_response(xml).unwrap();
    assert!(out.phonetic_us.is_none());
    assert!(out.phonetic_uk.is_none());
}

#[test]
fn iciba_collects_ordered_lists() {
    let adapter = Iciba::new("run");
    let xml = "<d><pos>n.</pos><acceptation>one</acceptation>\
               <pos>v.</pos><acceptation>two</acceptation></d>";
    let out = adapter.parse_response(xml).unwrap();
    assert_eq!(out.pos, Some(vec!["n.".to_string(), "v.".to_string()]));
    assert_eq!(out.meanings, Some(vec!["one".to_string(), "two".to_string()]));
}

#[test]
fn iciba_ignores_unrecognized_tags_and_stray_text() {
    let adapter = Iciba::new("x");
    // The unknown <sent> element does not change the open tag, so its text is
    // still charged to the enclosing recognized element; text after a closing
    // tag is dropped.
    let xml = "<d><acceptation>kept</acceptation><other>dropped</other></d>";
    let out = adapter.parse_response(xml).unwrap();
    assert_eq!(out.meanings, Some(vec!["kept".to_string()]));
}

#[test]
fn iciba_malformed_xml_fails_with_position() {
    let adapter = Iciba::new("x");
    let err = adapter.parse_response("<dict><ps>oops</dict>").unwrap_err();
    match err {
        TransError::Xml(_) => {
            assert!(err.message().starts_with("XML error at position "));
        }
        other => panic!("expected an XML failure, got {:?}", other),
    }
}
