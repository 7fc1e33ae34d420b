use mzdata::pump::XmlEventPump;
use mzdata::tokenizer::{element_from, tokenize};
use mzdata::xml::{SourceEvent, XmlError, XmlEvent};

fn events(pump: &XmlEventPump) -> Vec<&SourceEvent> {
    (0..pump.event_count()).map(|i| pump.event(i)).collect()
}

fn attributes(event: &XmlEvent) -> Vec<(&str, &str)> {
    match event {
        XmlEvent::Start(e) | XmlEvent::Empty(e) => {
            e.attributes.iter().map(|a| (a.key.as_str(), a.value.as_str())).collect()
        }
        _ => panic!("no element"),
    }
}

#[test]
fn an_empty_document_has_no_events() {
    let pump = tokenize(Vec::new());
    assert_eq!(pump.event_count(), 0);
    assert_eq!(pump.stream_position(), 0);
    let pump = tokenize(b"   \n  ".to_vec());
    assert_eq!(pump.event_count(), 0);
}

#[test]
fn tags_and_text_become_events() {
    let doc = b"<a x=\"1\"><b/>some text</a>";
    let pump = tokenize(doc.to_vec());
    let events = events(&pump);
    assert_eq!(events.len(), 4);
    match &events[0].event {
        XmlEvent::Start(e) => {
            assert_eq!(e.name, "a");
            assert!(!e.malformed);
        }
        other => panic!("unexpected event {:?}", other),
    }
    assert_eq!(attributes(&events[0].event), vec![("x", "1")]);
    assert!(matches!(&events[1].event, XmlEvent::Empty(e) if e.name == "b" && e.attributes.is_empty()));
    assert!(matches!(&events[2].event, XmlEvent::Text(t) if t.content == "some text"));
    assert!(matches!(&events[3].event, XmlEvent::End(e) if e.name == "a"));
}

#[test]
fn every_event_spans_its_bytes() {
    let doc = b"<?xml version=\"1.0\"?>\n<a x=\"1\">\n  <b  y='2' />\n  text \n  <c>t</c>\n</a >\n";
    let pump = tokenize(doc.to_vec());
    let spans: Vec<&[u8]> =
        events(&pump).iter().map(|e| &doc[e.start as usize..e.end as usize]).collect();
    assert_eq!(spans[0], b"<?xml version=\"1.0\"?>");
    assert_eq!(spans[1], b"<a x=\"1\">");
    assert_eq!(spans[2], b"<b  y='2' />");
    assert_eq!(spans[3], b"\n  text \n  ");
    assert_eq!(spans[4], b"<c>");
    assert_eq!(spans[5], b"t");
    assert_eq!(spans[6], b"</c>");
    assert_eq!(spans.len(), 8);
    assert_eq!(spans[7], b"</a >");
    assert_eq!(events(&pump)[7].end, doc.len() as u64 - 1);
    assert!(matches!(&events(&pump)[3].event, XmlEvent::Text(t) if t.content == "text"));
    assert!(matches!(&events(&pump)[7].event, XmlEvent::End(e) if e.name == "a"));
}

#[test]
fn spans_are_ordered_and_within_the_document() {
    let doc = b"<r><s i=\"0\">a</s> <s i=\"1\">b</s><!-- c --><t/></r>";
    let pump = tokenize(doc.to_vec());
    let mut floor = 0;
    for event in events(&pump) {
        assert!(floor <= event.start);
        assert!(event.start < event.end);
        assert!(event.end <= doc.len() as u64);
        floor = event.end;
    }
    assert_eq!(floor, doc.len() as u64);
}

#[test]
fn an_element_starts_at_its_angle_bracket() {
    let doc = b"<list>\n      <spectrum index=\"0\">\n</spectrum>\n   <spectrum index=\"1\"/></list>";
    let pump = tokenize(doc.to_vec());
    let events = events(&pump);
    let first = doc.windows(9).position(|w| w == b"<spectrum").unwrap() as u64;
    assert_eq!(events[1].start, first);
    let second = doc.windows(9).rposition(|w| w == b"<spectrum").unwrap() as u64;
    assert_eq!(events[3].start, second);
    assert!(matches!(&events[3].event, XmlEvent::Empty(e) if e.name == "spectrum"));
}

#[test]
fn attribute_values_stay_as_written() {
    let pump = tokenize(b"<a id=\"x &amp; y\" n = '&#49;' e=\"\"/>".to_vec());
    assert_eq!(
        attributes(&pump.event(0).event),
        vec![("id", "x &amp; y"), ("n", "&#49;"), ("e", "")]
    );
    let pump = tokenize(b"<a>1 &lt; 2</a>".to_vec());
    assert!(matches!(&pump.event(1).event, XmlEvent::Text(t) if t.content == "1 &lt; 2"));
}

#[test]
fn attributes_are_read_up_to_the_first_malformed_one() {
    let element = element_from(b"offset idRef=\"a\" broken other=\"b\"");
    assert_eq!(element.name, "offset");
    assert!(element.malformed);
    assert_eq!(element.attributes.len(), 1);
    assert_eq!(element.attributes[0].key, "idRef");
    assert_eq!(element.attributes[0].value, "a");

    let element = element_from(b"offset idRef=a");
    assert!(element.malformed);
    assert!(element.attributes.is_empty());

    let element = element_from(b"offset a=\"1\" a=\"2\"");
    assert!(element.malformed);
    assert_eq!(element.attributes.len(), 1);
}

#[test]
fn the_name_of_a_tag_ends_at_the_first_whitespace() {
    for (content, name, count) in [
        (&b"spectrum"[..], "spectrum", 0),
        (b"spectrum ", "spectrum", 0),
        (b"spectrum index=\"1\"", "spectrum", 1),
        (b"spectrum\tindex=\"1\"", "spectrum", 1),
        (b"spectrum\r\nindex=\"1\"  id='2'", "spectrum", 2),
        (b"ns:tag\nx=\"1\"", "ns:tag", 1),
        (b"", "", 0),
        (b" x=\"1\"", "", 1),
    ] {
        let element = element_from(content);
        assert_eq!(element.name, name);
        assert_eq!(element.attributes.len(), count);
        assert!(!element.malformed);
    }
    let element = element_from("é\u{a0}x y=\"ü\"".as_bytes());
    assert_eq!(element.name, "é\u{a0}x");
    assert_eq!(element.attributes[0].value, "ü");
}

#[test]
fn closing_tags_with_blanks_start_at_their_angle_bracket() {
    let doc = b"<a><b>t</b  ></a\n\t>";
    let pump = tokenize(doc.to_vec());
    let spans: Vec<&[u8]> =
        events(&pump).iter().map(|e| &doc[e.start as usize..e.end as usize]).collect();
    assert_eq!(spans, vec![&b"<a>"[..], b"<b>", b"t", b"</b  >", b"</a\n\t>"]);
    assert!(matches!(&pump.event(3).event, XmlEvent::End(e) if e.name == "b"));
}

#[test]
fn every_error_becomes_an_error_event() {
    for error in [
        XmlError::MalformedAttribute,
        XmlError::Escape,
        XmlError::Syntax("broken".to_string()),
        XmlError::EndEventMismatch { expected: "a".to_string(), found: "b".to_string() },
    ] {
        let copy = error.duplicate();
        match mzdata::tokenizer::event_from(Err(error), b"some bytes") {
            XmlEvent::Error(failure) => {
                assert_eq!(format!("{:?}", failure.error), format!("{:?}", copy));
                assert_eq!(failure.excerpt, "some bytes");
            }
            other => panic!("unexpected event {:?}", other),
        }
    }
    use_kinds();
}

fn use_kinds() {
    let event = mzdata::tokenizer::event_from(
        Ok((mzdata::tokenizer::TokenKind::End, b"name".to_vec())),
        b"/name ",
    );
    assert!(matches!(event, XmlEvent::End(e) if e.name == "name"));
    let event = mzdata::tokenizer::event_from(
        Ok((mzdata::tokenizer::TokenKind::Text, b"a &amp; b".to_vec())),
        b"",
    );
    assert!(matches!(event, XmlEvent::Text(t) if t.content == "a &amp; b"));
    assert!(matches!(
        mzdata::tokenizer::event_from(Ok((mzdata::tokenizer::TokenKind::Eof, Vec::new())), b""),
        XmlEvent::Eof
    ));
    assert!(matches!(
        mzdata::tokenizer::event_from(Ok((mzdata::tokenizer::TokenKind::Other, Vec::new())), b""),
        XmlEvent::Other
    ));
}

#[test]
fn a_mismatched_closing_tag_is_an_error_event() {
    let pump = tokenize(b"<a><b></a></b>".to_vec());
    let events = events(&pump);
    let errors: Vec<(&str, &str)> = events
        .iter()
        .filter_map(|e| match &e.event {
            XmlEvent::Error(failure) => match &failure.error {
                XmlError::EndEventMismatch { expected, found } => {
                    Some((expected.as_str(), found.as_str()))
                }
                _ => None,
            },
            _ => None,
        })
        .collect();
    assert_eq!(errors[0], ("b", "a"));
    assert!(matches!(&events[0].event, XmlEvent::Start(e) if e.name == "a"));
    assert!(matches!(&events[1].event, XmlEvent::Start(e) if e.name == "b"));
}

fn outline(doc: &[u8]) -> Vec<String> {
    let pump = tokenize(doc.to_vec());
    events(&pump)
        .iter()
        .map(|e| {
            let span = String::from_utf8_lossy(&doc[e.start as usize..e.end as usize]).into_owned();
            match &e.event {
                XmlEvent::Start(t) => format!("start {} {:?}", t.name, span),
                XmlEvent::Empty(t) => format!("empty {} {:?}", t.name, span),
                XmlEvent::End(t) => format!("end {} {:?}", t.name, span),
                XmlEvent::Text(t) => format!("text {} {:?}", t.content, span),
                XmlEvent::Error(f) => match &f.error {
                    XmlError::EndEventMismatch { expected, found } => {
                        format!("mismatch {:?} {:?} {:?} {:?}", expected, found, f.excerpt, span)
                    }
                    _ => format!("error {:?}", span),
                },
                XmlEvent::Eof => "eof".to_string(),
                XmlEvent::Other => format!("other {:?}", span),
            }
        })
        .collect()
}

#[test]
fn a_closing_tag_without_opening_expects_nothing() {
    assert_eq!(
        outline(b"</a><b/>"),
        vec![r#"mismatch "" "a" "/a" "</a>""#, r#"empty b "<b/>""#]
    );
}

#[test]
fn reading_goes_on_behind_a_mismatched_closing_tag() {
    assert_eq!(
        outline(b"<a><b></a></b><c/>"),
        vec![
            r#"start a "<a>""#,
            r#"start b "<b>""#,
            r#"mismatch "b" "a" "/a" "</a>""#,
            r#"mismatch "" "b" "/b" "</b>""#,
            r#"empty c "<c/>""#,
        ]
    );
    assert_eq!(
        outline(b"<a>\n <b>text</c  >\n <d/>\n</a>"),
        vec![
            r#"start a "<a>""#,
            r#"start b "<b>""#,
            r#"text text "text""#,
            r#"mismatch "b" "c" "/c  " "</c  >""#,
            r#"empty d "<d/>""#,
            r#"mismatch "" "a" "/a" "\n</a>""#,
        ]
    );
}

#[test]
fn reading_goes_on_behind_a_syntax_error() {
    let doc = b"<a><!-- c --x><b/><c>t</c>";
    let pump = tokenize(doc.to_vec());
    let events = events(&pump);
    assert!(matches!(&events[0].event, XmlEvent::Start(e) if e.name == "a"));
    assert!(matches!(
        &events[1].event,
        XmlEvent::Error(failure) if matches!(failure.error, XmlError::Syntax(_))
    ));
    assert!(events.iter().any(|e| matches!(&e.event, XmlEvent::Empty(b) if b.name == "b")));
    let c = events
        .iter()
        .position(|e| matches!(&e.event, XmlEvent::Start(c) if c.name == "c"))
        .unwrap();
    assert_eq!(&doc[events[c].start as usize..events[c].end as usize], b"<c>");
    assert!(matches!(&events[c + 2].event, XmlEvent::End(e) if e.name == "c"));
    let mut floor = 0;
    for event in events {
        assert!(floor <= event.start && event.start < event.end);
        floor = event.end;
    }
}

#[test]
fn the_tail_holds_the_last_bytes() {
    let mut doc = b"<a>".to_vec();
    doc.extend(std::iter::repeat(b'x').take(500));
    doc.extend_from_slice(b"</a>");
    let mut pump = tokenize(doc.clone());
    pump.seek(mzdata::seek::SeekFrom::End(-200)).unwrap();
    assert_eq!(pump.read_to_end(), Some(doc[doc.len() - 200..].to_vec()));
    let mut short = tokenize(b"<a/>".to_vec());
    assert_eq!(short.read_to_end(), Some(b"<a/>".to_vec()));
}

#[test]
fn comments_and_declarations_are_other_events() {
    let pump = tokenize(b"<?xml version=\"1.0\"?><!-- note --><a><![CDATA[x]]></a>".to_vec());
    let events = events(&pump);
    assert!(matches!(&events[0].event, XmlEvent::Other));
    assert!(matches!(&events[1].event, XmlEvent::Other));
    assert!(matches!(&events[2].event, XmlEvent::Start(_)));
    assert!(matches!(&events[3].event, XmlEvent::Other));
    assert!(matches!(&events[4].event, XmlEvent::End(_)));
}
