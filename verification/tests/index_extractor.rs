use mzdata::mzml::index::{find_offset, IndexedMzMLIndexExtractor};
use mzdata::mzml::state::IndexParserState;
use mzdata::pump::XmlEventPump;
use mzdata::xml::{Attribute, EndElement, StartElement, TextContent, XmlError};

fn start(name: &str, attributes: &[(&str, &str)]) -> StartElement {
    StartElement {
        name: name.to_string(),
        attributes: attributes
            .iter()
            .map(|(key, value)| Attribute { key: key.to_string(), value: value.to_string() })
            .collect(),
        malformed: false,
    }
}

fn text(content: &str) -> TextContent {
    TextContent { content: content.to_string() }
}

fn end(name: &str) -> EndElement {
    EndElement { name: name.to_string() }
}

#[test]
fn a_new_extractor_is_empty() {
    let extractor = IndexedMzMLIndexExtractor::new();
    assert_eq!(extractor.spectrum_index().len(), 0);
    assert_eq!(extractor.spectrum_index().name(), "spectrum");
    assert_eq!(extractor.chromatogram_index().len(), 0);
    assert_eq!(extractor.chromatogram_index().name(), "chromatogram");
    assert!(!extractor.spectrum_index().is_initialized());
    assert!(!extractor.chromatogram_index().is_initialized());
    let index = extractor.into_spectrum_index();
    assert_eq!(index.name(), "spectrum");
    assert!(!index.is_initialized());
    assert!(index.is_empty());
}

#[test]
fn an_index_element_enters_its_list() {
    let mut extractor = IndexedMzMLIndexExtractor::new();
    let state = extractor
        .start_element(&start("index", &[("name", "spectrum")]), IndexParserState::Start)
        .unwrap();
    assert_eq!(state, IndexParserState::SpectrumIndexList);
    let state = extractor.start_element(&start("index", &[("name", "chromatogram")]), state).unwrap();
    assert_eq!(state, IndexParserState::ChromatogramIndexList);
    let state = extractor.start_element(&start("index", &[("name", "other")]), state).unwrap();
    assert_eq!(state, IndexParserState::ChromatogramIndexList);
    let state = extractor.start_element(&start("index", &[]), IndexParserState::Start).unwrap();
    assert_eq!(state, IndexParserState::Start);
    let state = extractor
        .start_element(
            &start("index", &[("count", "2"), ("name", "spectrum")]),
            IndexParserState::Done,
        )
        .unwrap();
    assert_eq!(state, IndexParserState::SpectrumIndexList);
    assert_eq!(
        IndexedMzMLIndexExtractor::index_list("spectrum"),
        Some(IndexParserState::SpectrumIndexList)
    );
    assert_eq!(IndexedMzMLIndexExtractor::index_list("Spectrum"), None);
}

#[test]
fn other_elements_change_nothing() {
    let mut extractor = IndexedMzMLIndexExtractor::new();
    for state in [
        IndexParserState::Start,
        IndexParserState::SpectrumIndexList,
        IndexParserState::ChromatogramIndexList,
        IndexParserState::Done,
    ] {
        assert_eq!(
            extractor.start_element(&start("indexList", &[("count", "2")]), state).unwrap(),
            state
        );
        assert_eq!(
            extractor.start_element(&start("spectrum", &[("name", "spectrum")]), state).unwrap(),
            state
        );
        assert_eq!(extractor.end_element(&end("offset"), state).unwrap(), state);
        assert_eq!(extractor.end_element(&end("index"), state).unwrap(), state);
        assert_eq!(extractor.end_element(&end("indexList"), state).unwrap(), IndexParserState::Done);
    }
    assert_eq!(extractor.spectrum_index().len(), 0);
}

#[test]
fn offsets_are_filed_under_the_pending_identifier() {
    let mut extractor = IndexedMzMLIndexExtractor::new();
    let state = IndexParserState::SpectrumIndexList;
    assert_eq!(extractor.start_element(&start("offset", &[("idRef", "scan=1")]), state).unwrap(), state);
    assert_eq!(extractor.text(&text("4826"), state).unwrap(), state);
    extractor.start_element(&start("offset", &[("idRef", "scan=2")]), state).unwrap();
    extractor.text(&text("9120"), state).unwrap();
    assert_eq!(extractor.spectrum_index().len(), 2);
    assert_eq!(extractor.spectrum_index().get_index(0), Some(("scan=1", 4826)));
    assert_eq!(extractor.spectrum_index().get("scan=2"), Some(9120));
    assert_eq!(extractor.chromatogram_index().len(), 0);

    let state = IndexParserState::ChromatogramIndexList;
    extractor.start_element(&start("offset", &[("idRef", "TIC")]), state).unwrap();
    extractor.text(&text("77"), state).unwrap();
    assert_eq!(extractor.chromatogram_index().get("TIC"), Some(77));
    assert_eq!(extractor.spectrum_index().len(), 2);
    let index = extractor.into_spectrum_index();
    assert_eq!(index.len(), 2);
    assert_eq!(index.get("scan=1"), Some(4826));
}

#[test]
fn text_without_pending_identifier_is_dropped() {
    let mut extractor = IndexedMzMLIndexExtractor::new();
    let state = IndexParserState::SpectrumIndexList;
    extractor.text(&text("100"), state).unwrap();
    assert_eq!(extractor.spectrum_index().len(), 0);
    extractor.start_element(&start("offset", &[("idRef", "a")]), state).unwrap();
    extractor.text(&text("1"), state).unwrap();
    extractor.text(&text("2"), state).unwrap();
    assert_eq!(extractor.spectrum_index().len(), 1);
    assert_eq!(extractor.spectrum_index().get("a"), Some(1));
}

#[test]
fn text_that_is_no_number_keeps_the_identifier_pending() {
    let mut extractor = IndexedMzMLIndexExtractor::new();
    let state = IndexParserState::SpectrumIndexList;
    extractor.start_element(&start("offset", &[("idRef", "a")]), state).unwrap();
    extractor.text(&text("12x"), state).unwrap();
    extractor.text(&text("-3"), state).unwrap();
    extractor.text(&text("18446744073709551616"), state).unwrap();
    assert_eq!(extractor.spectrum_index().len(), 0);
    extractor.text(&text("18446744073709551615"), state).unwrap();
    assert_eq!(extractor.spectrum_index().get("a"), Some(u64::MAX));
}

#[test]
fn text_outside_the_lists_is_passed_over() {
    let mut extractor = IndexedMzMLIndexExtractor::new();
    extractor
        .start_element(&start("offset", &[("idRef", "a")]), IndexParserState::Start)
        .unwrap();
    assert_eq!(extractor.text(&text("5"), IndexParserState::Start).unwrap(), IndexParserState::Start);
    assert_eq!(extractor.text(&text("5"), IndexParserState::Done).unwrap(), IndexParserState::Done);
    assert_eq!(extractor.text(&text("&bogus;"), IndexParserState::Done).unwrap(), IndexParserState::Done);
    assert_eq!(extractor.spectrum_index().len(), 0);
    extractor.text(&text("6"), IndexParserState::SpectrumIndexList).unwrap();
    assert_eq!(extractor.spectrum_index().get("a"), Some(6));
}

#[test]
fn identifiers_and_offsets_are_unescaped() {
    let mut extractor = IndexedMzMLIndexExtractor::new();
    let state = IndexParserState::SpectrumIndexList;
    extractor
        .start_element(&start("offset", &[("idRef", "scan=1 &amp; controller=&#49;")]), state)
        .unwrap();
    extractor.text(&text("&#52;2"), state).unwrap();
    assert_eq!(extractor.spectrum_index().get_index(0), Some(("scan=1 & controller=1", 42)));
    let entered = extractor
        .start_element(&start("index", &[("name", "spectr&#117;m")]), IndexParserState::Start)
        .unwrap();
    assert_eq!(entered, IndexParserState::SpectrumIndexList);
}

#[test]
fn what_cannot_be_unescaped_is_an_error() {
    let mut extractor = IndexedMzMLIndexExtractor::new();
    let state = IndexParserState::SpectrumIndexList;
    assert!(matches!(
        extractor.start_element(&start("offset", &[("idRef", "a&bogus;")]), state),
        Err(XmlError::Escape)
    ));
    assert!(matches!(
        extractor.start_element(&start("index", &[("name", "&unterminated")]), state),
        Err(XmlError::Escape)
    ));
    assert!(matches!(extractor.text(&text("1&2"), state), Err(XmlError::Escape)));
    assert_eq!(extractor.spectrum_index().len(), 0);
}

#[test]
fn a_malformed_attribute_is_an_error() {
    let mut extractor = IndexedMzMLIndexExtractor::new();
    let state = IndexParserState::SpectrumIndexList;
    let mut offset = start("offset", &[("idRef", "a")]);
    offset.malformed = true;
    assert!(matches!(extractor.start_element(&offset, state), Err(XmlError::MalformedAttribute)));
    extractor.text(&text("8"), state).unwrap();
    assert_eq!(extractor.spectrum_index().get("a"), Some(8));

    let mut index = start("index", &[("count", "3")]);
    index.malformed = true;
    assert!(matches!(
        extractor.start_element(&index, IndexParserState::Start),
        Err(XmlError::MalformedAttribute)
    ));
    let mut index = start("index", &[("name", "chromatogram")]);
    index.malformed = true;
    assert_eq!(
        extractor.start_element(&index, IndexParserState::Start).unwrap(),
        IndexParserState::ChromatogramIndexList
    );
    let mut other = start("indexListOffset", &[]);
    other.malformed = true;
    assert_eq!(
        extractor.start_element(&other, IndexParserState::Done).unwrap(),
        IndexParserState::Done
    );
}

#[test]
fn record_offset_files_and_clears() {
    let mut extractor = IndexedMzMLIndexExtractor::new();
    extractor
        .start_element(&start("offset", &[("idRef", "a")]), IndexParserState::SpectrumIndexList)
        .unwrap();
    extractor.record_offset(3, IndexParserState::Start);
    assert_eq!(extractor.spectrum_index().len(), 0);
    extractor.record_offset(4, IndexParserState::ChromatogramIndexList);
    assert_eq!(extractor.chromatogram_index().get("a"), Some(4));
    extractor.record_offset(5, IndexParserState::SpectrumIndexList);
    assert_eq!(extractor.spectrum_index().len(), 0);
}

#[test]
fn the_offset_of_the_index_list_is_found_in_the_tail() {
    assert_eq!(
        find_offset(b"</indexList>\n<indexListOffset>5982</indexListOffset>\n</indexedmzML>"),
        Some(5982)
    );
    assert_eq!(find_offset(b"<indexListOffset>0</indexListOffset>"), Some(0));
    assert_eq!(
        find_offset(b"<indexListOffset>1</indexListOffset><indexListOffset>2</indexListOffset>"),
        Some(1)
    );
    assert_eq!(
        find_offset(b"<indexListOffset>18446744073709551615</indexListOffset>"),
        Some(u64::MAX)
    );
}

#[test]
fn a_tail_without_offset_gives_none() {
    assert_eq!(find_offset(b""), None);
    assert_eq!(find_offset(b"</mzML>"), None);
    assert_eq!(find_offset(b"<indexListOffset></indexListOffset>"), None);
    assert_eq!(find_offset(b"<indexListOffset> 12</indexListOffset>"), None);
    assert_eq!(find_offset(b"<indexListOffset>12</indexlistoffset>"), None);
    assert_eq!(find_offset(b"<indexListOffset>18446744073709551616</indexListOffset>"), None);
    assert_eq!(find_offset(b"<indexListOffset>-1</indexListOffset>"), None);
    assert_eq!(
        find_offset("<indexListOffset>\u{0663}</indexListOffset>".as_bytes()),
        None
    );
    assert_eq!(find_offset(b"\xff\xfe<indexListOffset>7</indexListOffset>\xff"), Some(7));
}

#[test]
fn the_tail_of_a_source_is_searched() {
    let mut tail = vec![b' '; 150];
    tail.extend_from_slice(b"<indexListOffset>123456</indexListOffset>          ");
    assert_eq!(tail.len(), 201);
    let mut pump = XmlEventPump::new(Vec::new(), 1000, tail[1..].to_vec()).unwrap();
    let extractor = IndexedMzMLIndexExtractor::new();
    assert_eq!(extractor.find_offset_from_reader(&mut pump), Ok(Some(123456)));
    assert_eq!(pump.stream_position(), 1000);

    let mut pump = XmlEventPump::new(Vec::new(), 200, vec![b'x'; 200]).unwrap();
    assert_eq!(extractor.find_offset_from_reader(&mut pump), Ok(None));
    assert_eq!(pump.stream_position(), 200);

    let mut pump = XmlEventPump::new(Vec::new(), 199, vec![b'x'; 199]).unwrap();
    assert!(extractor.find_offset_from_reader(&mut pump).is_err());
    assert_eq!(pump.stream_position(), 0);
}
