use ytt::error::TranscriptError;
use ytt::parser::{find_attribute, TimeUnit, TimeValue, TranscriptParser};
use ytt::xml::{read_events, Attribute, XmlEvent};

fn seconds(time: &TimeValue) -> f64 {
    let value = time
        .raw
        .as_ref()
        .and_then(|bytes| std::str::from_utf8(bytes).ok())
        .and_then(|s| s.parse::<f64>().ok())
        .filter(|v| v.is_finite() && *v >= 0.0);
    match (value, &time.unit) {
        (Some(v), TimeUnit::Seconds) => v,
        (Some(v), TimeUnit::Milliseconds) => v / 1000.0,
        (None, _) => 0.0,
    }
}

#[test]
fn test_parse_text_format() {
    let xml = r#"<transcript>
            <text start="0.0" dur="2.5">Hello world</text>
            <text start="2.5" dur="3.0">This is a test</text>
        </transcript>"#;

    let parser = TranscriptParser::new(false);
    let items = parser.parse(xml).unwrap();

    assert_eq!(items.len(), 2);
    assert_eq!(items[0].text, "Hello world");
    assert_eq!(seconds(&items[0].start), 0.0);
    assert_eq!(seconds(&items[0].duration), 2.5);
    assert_eq!(items[1].text, "This is a test");
    assert_eq!(seconds(&items[1].start), 2.5);
}

#[test]
fn test_parse_p_format() {
    let xml = r#"<transcript>
            <p t="0" d="2500">Hello world</p>
            <p t="2500" d="3000">This is a test</p>
        </transcript>"#;

    let parser = TranscriptParser::new(false);
    let items = parser.parse(xml).unwrap();

    assert_eq!(items.len(), 2);
    assert_eq!(items[0].text, "Hello world");
    assert_eq!(seconds(&items[0].start), 0.0);
    assert_eq!(seconds(&items[0].duration), 2.5);
    assert_eq!(items[1].text, "This is a test");
    assert_eq!(seconds(&items[1].start), 2.5);
}

#[test]
fn test_parse_with_html_entities() {
    let xml = r#"<transcript>
            <text start="0.0" dur="2.5">Hello &amp; world</text>
        </transcript>"#;

    let parser = TranscriptParser::new(false);
    let items = parser.parse(xml).unwrap();

    assert_eq!(items.len(), 1);
    assert!(items[0].text.contains("Hello"));
    assert!(items[0].text.contains("world"));
}

#[test]
fn test_parse_empty_text() {
    let xml = r#"<transcript>
            <text start="0.0" dur="2.5"></text>
        </transcript>"#;

    let parser = TranscriptParser::new(false);
    let items = parser.parse(xml).unwrap();

    assert_eq!(items.len(), 0);
}

#[test]
fn test_parse_invalid_xml() {
    let xml = "<transcript><text>Unclosed tag";

    let parser = TranscriptParser::new(false);
    assert!(parser.parse(xml).is_err());
}

#[test]
fn both_dialects_give_the_same_times() {
    let parser = TranscriptParser::new(false);
    let a = parser
        .parse(r#"<transcript><text start="2.5" dur="3.0">x</text></transcript>"#)
        .unwrap();
    let b = parser
        .parse(r#"<timedtext><body><p t="2500" d="3000">x</p></body></timedtext>"#)
        .unwrap();
    assert_eq!(a.len(), 1);
    assert_eq!(b.len(), 1);
    assert_eq!(seconds(&a[0].start), 2.5);
    assert_eq!(seconds(&a[0].duration), 3.0);
    assert_eq!(seconds(&b[0].start), 2.5);
    assert_eq!(seconds(&b[0].duration), 3.0);
    assert_eq!(a[0].start.raw.as_deref(), Some(&b"2.5"[..]));
    assert_eq!(b[0].start.raw.as_deref(), Some(&b"2500"[..]));
    assert!(matches!(a[0].start.unit, TimeUnit::Seconds));
    assert!(matches!(b[0].duration.unit, TimeUnit::Milliseconds));
}

#[test]
fn missing_or_unreadable_times_are_zero() {
    let parser = TranscriptParser::new(true);
    let items = parser
        .parse(r#"<transcript><text dur="soon">late</text></transcript>"#)
        .unwrap();
    assert_eq!(items.len(), 1);
    assert!(items[0].start.raw.is_none());
    assert_eq!(seconds(&items[0].start), 0.0);
    assert_eq!(seconds(&items[0].duration), 0.0);
}

#[test]
fn whitespace_only_elements_give_no_item() {
    let parser = TranscriptParser::new(false);
    let items = parser
        .parse("<transcript><text start=\"1\">   </text><text start=\"2\">a</text><p t=\"3\"> \n </p><p t=\"4\">b</p><text>&#32;</text></transcript>")
        .unwrap();
    assert_eq!(items.len(), 2);
    assert_eq!(items[0].text, "a");
    assert_eq!(items[1].text, "b");
    assert_eq!(seconds(&items[0].start), 2.0);
    assert_eq!(seconds(&items[1].start), 0.004);
}

#[test]
fn document_order_is_kept_without_sorting() {
    let parser = TranscriptParser::new(false);
    let items = parser
        .parse(r#"<transcript><text start="9">late</text><text start="1">early</text></transcript>"#)
        .unwrap();
    assert_eq!(items.len(), 2);
    assert_eq!(items[0].text, "late");
    assert_eq!(items[1].text, "early");
}

#[test]
fn breaks_inside_p_become_single_spaces() {
    let parser = TranscriptParser::new(false);
    let items = parser
        .parse(r#"<timedtext><p t="0" d="10"><s>Hello</s><s>big</s><br></br><s>world</s></p></timedtext>"#)
        .unwrap();
    assert_eq!(items.len(), 1);
    assert_eq!(items[0].text, "Hello big world");
}

#[test]
fn breaks_inside_text_elements_add_nothing() {
    let parser = TranscriptParser::new(false);
    let items = parser
        .parse(r#"<transcript><text start="0"><s>Hello</s><s>world</s></text></transcript>"#)
        .unwrap();
    assert_eq!(items.len(), 1);
    assert_eq!(items[0].text, "Helloworld");
}

#[test]
fn second_decoding_pass_runs_after_unescaping() {
    let parser = TranscriptParser::new(false);
    let items = parser
        .parse(r#"<transcript><text start="0">I&amp;#39;m &amp;quot;here&amp;quot;</text></transcript>"#)
        .unwrap();
    assert_eq!(items.len(), 1);
    assert_eq!(items[0].text, "I'm \"here\"");
}

#[test]
fn eof_inside_an_element_is_an_error() {
    let parser = TranscriptParser::new(false);
    let events = vec![
        XmlEvent::Start { name: b"p".to_vec(), attributes: Vec::new() },
        XmlEvent::Text { raw: "x".to_string() },
        XmlEvent::Eof,
    ];
    assert_eq!(parser.parse_events(&events), Err("Unexpected EOF in p element".to_string()));
    let events = vec![
        XmlEvent::Start { name: b"text".to_vec(), attributes: Vec::new() },
        XmlEvent::Text { raw: "x".to_string() },
    ];
    assert_eq!(parser.parse_events(&events), Err("Unexpected EOF in text element".to_string()));
}

#[test]
fn reader_failure_is_reported_with_its_words() {
    let parser = TranscriptParser::new(false);
    let events = vec![
        XmlEvent::Start { name: b"transcript".to_vec(), attributes: Vec::new() },
        XmlEvent::Failed { message: "bad".to_string() },
    ];
    assert_eq!(parser.parse_events(&events), Err("XML parse error: bad".to_string()));
    let events = vec![
        XmlEvent::Start { name: b"text".to_vec(), attributes: Vec::new() },
        XmlEvent::Failed { message: "worse".to_string() },
    ];
    assert_eq!(parser.parse_events(&events), Err("XML parse error: worse".to_string()));
}

#[test]
fn unknown_xml_entity_fails_unescaping() {
    let parser = TranscriptParser::new(false);
    let r = parser.parse(r#"<transcript><text start="0">a &nbsp; b</text></transcript>"#);
    match r {
        Err(message) => assert!(message.starts_with("Failed to unescape: ")),
        Ok(_) => panic!("an entity that XML does not know must fail"),
    }
}

#[test]
fn events_carry_names_attributes_and_raw_text() {
    let events = read_events(r#"<a k="v" broken><b x="1"/>t &amp; u<!-- c --></a>"#);
    assert_eq!(
        events,
        vec![
            XmlEvent::Start { name: b"a".to_vec(), attributes: b" k=\"v\" broken".to_vec() },
            XmlEvent::Empty { name: b"b".to_vec(), attributes: b" x=\"1\"".to_vec() },
            XmlEvent::Text { raw: "t &amp; u".to_string() },
            XmlEvent::Other,
            XmlEvent::End { name: b"a".to_vec() },
            XmlEvent::Eof,
        ]
    );
}

#[test]
fn first_matching_attribute_wins() {
    let parser = TranscriptParser::new(false);
    let events = vec![
        XmlEvent::Start {
            name: b"text".to_vec(),
            attributes: b" broken dur=\"1\" start=\"7\" start=\"8\"".to_vec(),
        },
        XmlEvent::Text { raw: "x".to_string() },
        XmlEvent::End { name: b"text".to_vec() },
        XmlEvent::Eof,
    ];
    let items = parser.parse_events(&events).unwrap();
    assert_eq!(items.len(), 1);
    assert_eq!(items[0].start.raw.as_deref(), Some(&b"7"[..]));
    assert_eq!(items[0].duration.raw.as_deref(), Some(&b"1"[..]));
}

#[test]
fn failure_comes_as_xml_parse_error() {
    let parser = TranscriptParser::new(false);
    assert_eq!(
        parser.parse_captions("<transcript><text>Unclosed tag"),
        Err(TranscriptError::XmlParseError("Unexpected EOF in text element".to_string()))
    );
    assert_eq!(
        parser.parse_captions("<transcript><p t=\"1\">Unclosed tag</transcript>"),
        Err(TranscriptError::XmlParseError(format!(
            "XML parse error: {}",
            malformed_words("<transcript><p t=\"1\">Unclosed tag</transcript>")
        )))
    );
    let items = parser.parse_captions("<transcript><p t=\"1\">fine</p></transcript>").unwrap();
    assert_eq!(items.len(), 1);
    assert_eq!(items[0].text, "fine");
}

fn malformed_words(xml: &str) -> String {
    match read_events(xml).pop() {
        Some(XmlEvent::Failed { message }) => message,
        other => panic!("the reader should have failed, it gave {:?}", other),
    }
}

#[test]
fn no_partial_transcript_after_a_failure() {
    let parser = TranscriptParser::new(false);
    let r = parser.parse("<transcript><text start=\"0\">good</text><text>bad</wrong></transcript>");
    assert!(r.is_err());
    let r = parser.parse("<transcript><text start=\"0\">good</text><p>never closed");
    assert_eq!(r, Err("Unexpected EOF in p element".to_string()));
}

#[test]
fn preserve_formatting_changes_nothing() {
    let xml = r#"<timedtext><p t="10" d="20">a<s>b</s><br/>c</p><text start="1">  d </text></timedtext>"#;
    let plain = TranscriptParser::new(false).parse(xml);
    let preserved = TranscriptParser::new(true).parse(xml);
    assert_eq!(plain, preserved);
    let items = plain.unwrap();
    assert_eq!(items.len(), 2);
    assert_eq!(items[0].text, "a b c");
    assert_eq!(items[1].text, "d");
}

#[test]
fn empty_element_break_becomes_one_space() {
    let parser = TranscriptParser::new(false);
    let items = parser.parse(r#"<p t="0" d="1000">Hello<br/>world</p>"#).unwrap();
    assert_eq!(items.len(), 1);
    assert_eq!(items[0].text, "Hello world");
    assert_eq!(seconds(&items[0].start), 0.0);
    assert_eq!(seconds(&items[0].duration), 1.0);
    let items = parser.parse(r#"<p t="0">Hello <s/><br/><br></br>world<br/></p>"#).unwrap();
    assert_eq!(items[0].text, "Hello world");
    let items = parser.parse(r#"<p t="0">a<i/>b<p/>c</p>"#).unwrap();
    assert_eq!(items[0].text, "abc");
}

#[test]
fn empty_element_break_adds_nothing_in_a_text_element() {
    let parser = TranscriptParser::new(false);
    let items = parser.parse(r#"<text start="0">Hello<br/>world</text>"#).unwrap();
    assert_eq!(items[0].text, "Helloworld");
}

#[test]
fn empty_cue_element_gives_no_item() {
    let parser = TranscriptParser::new(false);
    let items = parser
        .parse(r#"<transcript><text start="0"/><p t="1"/><text start="2">x</text></transcript>"#)
        .unwrap();
    assert_eq!(items.len(), 1);
    assert_eq!(items[0].text, "x");
}

#[test]
fn ampersand_in_a_caption_comes_out_once() {
    let parser = TranscriptParser::new(false);
    let items = parser
        .parse(r#"<text start="0.0" dur="2.5">Hello &amp; world</text>"#)
        .unwrap();
    assert_eq!(items.len(), 1);
    assert_eq!(items[0].text, "Hello & world");
    assert_eq!(seconds(&items[0].start), 0.0);
    assert_eq!(seconds(&items[0].duration), 2.5);
}

#[test]
fn unclosed_root_is_an_error() {
    let parser = TranscriptParser::new(false);
    let xml = r#"<transcript><text start="0.0" dur="1.0">Hi</text>"#;
    assert_eq!(
        parser.parse(xml),
        Err("XML parse error: the document ends inside an element".to_string())
    );
    assert_eq!(
        parser.parse_captions(xml),
        Err(TranscriptError::XmlParseError(
            "XML parse error: the document ends inside an element".to_string()
        ))
    );
    assert!(parser.parse(r#"<a><b><text start="0">Hi</text></b>"#).is_err());
    assert!(parser.parse(r#"<a><text start="0">Hi</text><b></b>"#).is_err());
    assert!(parser.parse("<transcript>").is_err());
}

#[test]
fn closed_documents_are_accepted() {
    let parser = TranscriptParser::new(false);
    assert_eq!(parser.parse("").unwrap().len(), 0);
    assert_eq!(parser.parse("<transcript></transcript>").unwrap().len(), 0);
    assert_eq!(parser.parse("<transcript/>").unwrap().len(), 0);
    assert_eq!(parser.parse(r#"<text start="0">Hi</text>"#).unwrap().len(), 1);
    assert_eq!(
        parser.parse(r#"<?xml version="1.0"?><a><b><text start="0">Hi</text></b><c/></a>"#).unwrap().len(),
        1
    );
}

#[test]
fn events_that_end_with_an_element_open_are_refused() {
    let parser = TranscriptParser::new(false);
    let open = XmlEvent::Start { name: b"transcript".to_vec(), attributes: Vec::new() };
    let close = XmlEvent::End { name: b"transcript".to_vec() };
    let unclosed = "XML parse error: the document ends inside an element".to_string();
    assert_eq!(parser.parse_events(&[open.clone(), XmlEvent::Eof]), Err(unclosed.clone()));
    assert_eq!(parser.parse_events(&[open.clone()]), Err(unclosed.clone()));
    assert_eq!(parser.parse_events(&[open.clone(), open.clone(), close.clone(), XmlEvent::Eof]), Err(unclosed));
    assert_eq!(parser.parse_events(&[open.clone(), close.clone(), XmlEvent::Eof]), Ok(Vec::new()));
    assert_eq!(parser.parse_events(&[open, close]), Ok(Vec::new()));
    assert_eq!(parser.parse_events(&[]), Ok(Vec::new()));
}

#[test]
fn attribute_is_looked_up_by_its_key() {
    let list = vec![
        None,
        Some(Attribute { key: b"dur".to_vec(), value: b"1".to_vec() }),
        Some(Attribute { key: b"start".to_vec(), value: b"7".to_vec() }),
        None,
        Some(Attribute { key: b"start".to_vec(), value: b"8".to_vec() }),
    ];
    assert_eq!(find_attribute(&list, b"start"), Some(b"7".to_vec()));
    assert_eq!(find_attribute(&list, b"dur"), Some(b"1".to_vec()));
    assert_eq!(find_attribute(&list, b"d"), None);
    assert_eq!(find_attribute(&list, b""), None);
    assert_eq!(find_attribute(&Vec::new(), b"start"), None);
}

#[test]
fn attributes_that_are_not_well_formed_are_passed_over() {
    let parser = TranscriptParser::new(false);
    let items = parser
        .parse(r#"<text lonely start="3" start="4" dur=5>x</text>"#)
        .unwrap();
    assert_eq!(items.len(), 1);
    assert_eq!(items[0].start.raw.as_deref(), Some(&b"3"[..]));
    assert!(items[0].duration.raw.is_none());
}

#[test]
fn times_that_are_no_times_read_as_zero() {
    let parser = TranscriptParser::new(false);
    let items = parser
        .parse(r#"<transcript><text start="-1" dur="NaN">a</text><p t="inf" d="1500">b</p></transcript>"#)
        .unwrap();
    assert_eq!(items.len(), 2);
    assert_eq!(items[0].start.raw.as_deref(), Some(&b"-1"[..]));
    assert_eq!(seconds(&items[0].start), 0.0);
    assert_eq!(seconds(&items[0].duration), 0.0);
    assert_eq!(seconds(&items[1].start), 0.0);
    assert_eq!(seconds(&items[1].duration), 1.5);
}
