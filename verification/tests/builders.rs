use mzdata::mzml::builder::MzMLSpectrumBuilder;
use mzdata::mzml::meta::FileMetadataBuilder;
use mzdata::mzml::params::{read_attribute, Param};
use mzdata::mzml::state::MzMLParserState::{
    Activation, Binary, BinaryDataArray, BinaryDataArrayList, DataProcessing, DataProcessingList,
    FileContents, FileDescription, InstrumentConfiguration, InstrumentConfigurationList,
    IsolationWindow, ParserError, Precursor, PrecursorList, ReferenceParamGroup,
    ReferenceParamGroupList, Resume, Run, Scan, ScanList, SelectedIon, SelectedIonList, Software,
    SoftwareList, SourceFile, SourceFileList, Spectrum, SpectrumDone, SpectrumList,
    SpectrumListDone, Start,
};
use mzdata::mzml::state::{MzMLParserError, MzMLParserState};
use mzdata::xml::{Attribute, EndElement, StartElement, TextContent, XmlError};

fn element(name: &str, attributes: &[(&str, &str)]) -> StartElement {
    StartElement {
        name: name.to_string(),
        attributes: attributes
            .iter()
            .map(|(key, value)| Attribute { key: key.to_string(), value: value.to_string() })
            .collect(),
        malformed: false,
    }
}

fn end(name: &str) -> EndElement {
    EndElement { name: name.to_string() }
}

fn cv(accession: &str, name: &str, value: &str) -> StartElement {
    element("cvParam", &[("cvRef", "MS"), ("accession", accession), ("name", name), ("value", value)])
}

#[test]
fn attributes_are_read_by_key() {
    let e = element("a", &[("x", "1"), ("y", "a &lt; b"), ("x", "2"), ("bad", "&nope;")]);
    assert_eq!(read_attribute(&e.attributes, "x"), Some("1".to_string()));
    assert_eq!(read_attribute(&e.attributes, "y"), Some("a < b".to_string()));
    assert_eq!(read_attribute(&e.attributes, "z"), Some(String::new()));
    assert_eq!(read_attribute(&e.attributes, "bad"), None);
    assert_eq!(read_attribute(&e.attributes, "X"), Some(String::new()));
}

#[test]
fn a_param_is_read_from_its_attributes() {
    let e = element(
        "cvParam",
        &[
            ("cvRef", "MS"),
            ("accession", "MS:1000016"),
            ("name", "scan start time"),
            ("value", "0.25"),
            ("unitAccession", "UO:0000031"),
            ("unitName", "minute"),
        ],
    );
    let param = Param::from_element(&e).unwrap();
    assert_eq!(param.name, "scan start time");
    assert_eq!(param.value, "0.25");
    assert_eq!(param.accession, "MS:1000016");
    assert_eq!(param.unit_accession, "UO:0000031");

    let param = Param::from_element(&element("userParam", &[("name", "note")])).unwrap();
    assert_eq!(param.name, "note");
    assert_eq!(param.value, "");
    assert_eq!(param.accession, "");
    assert_eq!(param.unit_accession, "");

    assert!(matches!(
        Param::from_element(&element("cvParam", &[("value", "&x;")])),
        Err(XmlError::Escape)
    ));
    let mut broken = cv("MS:1", "n", "v");
    broken.malformed = true;
    assert!(matches!(Param::from_element(&broken), Err(XmlError::MalformedAttribute)));
    assert!(Param::is_param("cvParam"));
    assert!(Param::is_param("userParam"));
    assert!(!Param::is_param("cvparam"));
    assert!(!Param::is_param("referenceableParamGroupRef"));
}

#[test]
fn the_builder_follows_the_grammar_of_a_spectrum() {
    let mut b = MzMLSpectrumBuilder::new();
    let mut state = Resume;
    let opens = [
        ("spectrumList", SpectrumList),
        ("spectrum", Spectrum),
        ("scanList", ScanList),
        ("scan", Scan),
        ("scanWindowList", Scan),
        ("scanWindow", Scan),
    ];
    for (name, expected) in opens {
        state = b.start_element(&element(name, &[]), state).unwrap();
        assert_eq!(state, expected, "after <{}>", name);
    }
    let closes = [
        ("scanWindow", Scan),
        ("scanWindowList", Scan),
        ("scan", ScanList),
        ("scanList", Spectrum),
    ];
    for (name, expected) in closes {
        state = b.end_element(&end(name), state).unwrap();
        assert_eq!(state, expected, "after </{}>", name);
    }
    let steps: [(&str, bool, MzMLParserState); 20] = [
        ("precursorList", true, PrecursorList),
        ("precursor", true, Precursor),
        ("isolationWindow", true, IsolationWindow),
        ("isolationWindow", false, Precursor),
        ("selectedIonList", true, SelectedIonList),
        ("selectedIon", true, SelectedIon),
        ("selectedIon", false, SelectedIonList),
        ("selectedIonList", false, Precursor),
        ("activation", true, Activation),
        ("activation", false, Precursor),
        ("precursor", false, PrecursorList),
        ("precursorList", false, Spectrum),
        ("binaryDataArrayList", true, BinaryDataArrayList),
        ("binaryDataArray", true, BinaryDataArray),
        ("binary", true, Binary),
        ("binary", false, BinaryDataArray),
        ("binaryDataArray", false, BinaryDataArrayList),
        ("binaryDataArrayList", false, Spectrum),
        ("spectrum", false, SpectrumDone),
        ("spectrumList", false, SpectrumListDone),
    ];
    for (name, opening, expected) in steps {
        state = if opening {
            b.start_element(&element(name, &[]), state).unwrap()
        } else {
            b.end_element(&end(name), state).unwrap()
        };
        assert_eq!(state, expected, "after {}{}", if opening { "<" } else { "</" }, name);
    }
    assert_eq!(b.spectrum.scans.len(), 1);
    assert_eq!(b.spectrum.precursors.len(), 1);
    assert_eq!(b.spectrum.arrays.len(), 1);
    assert_eq!(MzMLSpectrumBuilder::state_on_open("unknown", Scan), Scan);
    assert_eq!(MzMLSpectrumBuilder::state_on_close("unknown", Scan), Scan);
    assert_eq!(MzMLSpectrumBuilder::state_on_open("binary", Start), Binary);
    assert_eq!(MzMLSpectrumBuilder::state_on_close("spectrum", Start), SpectrumDone);
}

#[test]
fn params_are_filed_where_the_state_stands() {
    let mut b = MzMLSpectrumBuilder::new();
    for (state, accession) in [
        (Spectrum, "A"),
        (Scan, "B"),
        (IsolationWindow, "C"),
        (SelectedIon, "D"),
        (Activation, "E"),
        (BinaryDataArray, "F"),
        (ScanList, "G"),
        (Resume, "H"),
        (Precursor, "I"),
    ] {
        assert_eq!(b.empty_element(&cv(accession, "n", "v"), state).unwrap(), state);
    }
    let accessions = |params: &Vec<Param>| -> Vec<String> {
        params.iter().map(|p| p.accession.clone()).collect()
    };
    assert_eq!(accessions(&b.spectrum.params), vec!["A"]);
    assert_eq!(accessions(&b.scan.params), vec!["B"]);
    assert_eq!(accessions(&b.precursor.isolation_window), vec!["C"]);
    assert_eq!(accessions(&b.precursor.ion), vec!["D"]);
    assert_eq!(accessions(&b.precursor.activation), vec!["E"]);
    assert_eq!(accessions(&b.array.params), vec!["F"]);
}

#[test]
fn ms_level_and_start_time_come_from_their_params() {
    let mut b = MzMLSpectrumBuilder::new();
    b.empty_element(&cv("MS:1000511", "ms level", "2"), Spectrum).unwrap();
    assert_eq!(b.spectrum.ms_level, 2);
    b.empty_element(&cv("MS:1000511", "ms level", "256"), Spectrum).unwrap();
    assert_eq!(b.spectrum.ms_level, 2);
    b.empty_element(&cv("MS:1000511", "ms level", "two"), Spectrum).unwrap();
    assert_eq!(b.spectrum.ms_level, 2);
    b.empty_element(&cv("MS:1000511", "ms level", "255"), Spectrum).unwrap();
    assert_eq!(b.spectrum.ms_level, 255);
    b.empty_element(&cv("MS:1000511", "ms level", "1"), Scan).unwrap();
    assert_eq!(b.spectrum.ms_level, 255);
    assert_eq!(MzMLSpectrumBuilder::level("7", 1), 7);
    assert_eq!(MzMLSpectrumBuilder::level("", 1), 1);

    b.empty_element(&cv("MS:1000016", "scan start time", "12.5"), Scan).unwrap();
    assert_eq!(b.scan.start_time, "12.5");
    b.empty_element(&cv("MS:1000016", "scan start time", "13"), Spectrum).unwrap();
    assert_eq!(b.scan.start_time, "12.5");
    assert_eq!(b.spectrum.params.len(), 5);
}

#[test]
fn a_spectrum_takes_identifier_and_ordinal_from_its_tag() {
    let mut b = MzMLSpectrumBuilder::new();
    let tag = element("spectrum", &[("index", "17"), ("id", "scan=18"), ("defaultArrayLength", "3")]);
    assert_eq!(b.start_element(&tag, Resume).unwrap(), Spectrum);
    assert_eq!(b.spectrum.index, 17);
    assert_eq!(b.spectrum.id, "scan=18");
    let tag = element("spectrum", &[("index", "x"), ("id", "")]);
    b.start_element(&tag, Resume).unwrap();
    assert_eq!(b.spectrum.index, 0);
    assert_eq!(b.spectrum.id, "");
    assert_eq!(MzMLSpectrumBuilder::ordinal("41"), 41);
    assert_eq!(MzMLSpectrumBuilder::ordinal("-1"), 0);
    assert_eq!(MzMLSpectrumBuilder::ordinal(""), 0);
}

#[test]
fn scans_are_numbered_by_their_configuration() {
    let mut b = MzMLSpectrumBuilder::new();
    b.instrument_id_map.get("IC1");
    b.instrument_id_map.get("IC2");
    for (reference, expected) in [("IC2", 1), ("IC1", 0), ("IC9", 2), ("IC9", 2)] {
        let tag = element("scan", &[("instrumentConfigurationRef", reference)]);
        assert_eq!(b.start_element(&tag, ScanList).unwrap(), Scan);
        assert_eq!(b.scan.instrument_configuration_id, expected);
        assert_eq!(b.end_element(&end("scan"), Scan).unwrap(), ScanList);
    }
    b.start_element(&element("scan", &[]), ScanList).unwrap();
    assert_eq!(b.scan.instrument_configuration_id, 0);
    assert_eq!(b.instrument_id_map.len(), 3);
    assert_eq!(b.empty_element(&element("scan", &[("instrumentConfigurationRef", "IC2")]), ScanList).unwrap(), ScanList);
    let ids: Vec<u32> = b.spectrum.scans.iter().map(|s| s.instrument_configuration_id).collect();
    assert_eq!(ids, vec![1, 0, 2, 2, 1]);
}

#[test]
fn text_is_kept_inside_binary_only() {
    let mut b = MzMLSpectrumBuilder::new();
    let content = TextContent { content: "AAAA".to_string() };
    assert_eq!(b.text(&content, Spectrum).unwrap(), Spectrum);
    assert_eq!(b.array.encoded, "");
    assert_eq!(b.text(&content, Binary).unwrap(), Binary);
    assert_eq!(b.array.encoded, "AAAA");
    assert_eq!(b.end_element(&end("binaryDataArray"), BinaryDataArray).unwrap(), BinaryDataArrayList);
    assert_eq!(b.spectrum.arrays[0].encoded, "AAAA");
    assert_eq!(b.array.encoded, "");
}

#[test]
fn an_empty_spectrum_element_is_a_whole_spectrum() {
    let mut b = MzMLSpectrumBuilder::new();
    let tag = element("spectrum", &[("index", "3"), ("id", "s")]);
    assert_eq!(
        b.empty_element(&tag, Resume).unwrap(),
        SpectrumDone
    );
    let mut slot = mzdata::mzml::spectrum::Spectrum::new();
    b.into_spectrum(&mut slot);
    assert_eq!((slot.index(), slot.id()), (3, "s"));
}

#[test]
fn unreadable_elements_are_errors_in_their_state() {
    let mut b = MzMLSpectrumBuilder::new();
    let mut tag = element("anything", &[]);
    tag.malformed = true;
    assert!(matches!(
        b.start_element(&tag, Scan),
        Err(MzMLParserError::XMLError(Scan, XmlError::MalformedAttribute))
    ));
    assert!(matches!(
        b.empty_element(&tag, Binary),
        Err(MzMLParserError::XMLError(Binary, XmlError::MalformedAttribute))
    ));
    for (name, key) in [("spectrum", "id"), ("spectrum", "index"), ("scan", "instrumentConfigurationRef"), ("precursor", "spectrumRef")] {
        let tag = element(name, &[(key, "&broken")]);
        assert!(matches!(
            b.start_element(&tag, Resume),
            Err(MzMLParserError::XMLError(Resume, XmlError::Escape))
        ));
    }
    assert!(matches!(
        b.empty_element(&cv("MS:1", "&broken", ""), Spectrum),
        Err(MzMLParserError::XMLError(Spectrum, XmlError::Escape))
    ));
    assert_eq!(b.spectrum.params.len(), 0);
}

#[test]
fn the_metadata_builder_follows_the_header() {
    let mut b = FileMetadataBuilder::new();
    let mut state = Start;
    let steps: [(&str, bool, MzMLParserState); 22] = [
        ("fileDescription", true, FileDescription),
        ("fileContent", true, FileContents),
        ("fileContent", false, FileDescription),
        ("sourceFileList", true, SourceFileList),
        ("sourceFile", true, SourceFile),
        ("sourceFile", false, SourceFileList),
        ("sourceFileList", false, FileDescription),
        ("fileDescription", false, Start),
        ("referenceableParamGroupList", true, ReferenceParamGroupList),
        ("referenceableParamGroup", true, ReferenceParamGroup),
        ("referenceableParamGroup", false, ReferenceParamGroupList),
        ("referenceableParamGroupList", false, Start),
        ("softwareList", true, SoftwareList),
        ("software", true, Software),
        ("software", false, SoftwareList),
        ("softwareList", false, Start),
        ("instrumentConfigurationList", true, InstrumentConfigurationList),
        ("instrumentConfiguration", true, InstrumentConfiguration),
        ("componentList", true, InstrumentConfiguration),
        ("componentList", false, InstrumentConfiguration),
        ("instrumentConfiguration", false, InstrumentConfigurationList),
        ("instrumentConfigurationList", false, Start),
    ];
    for (name, opening, expected) in steps {
        state = if opening {
            b.start_element(&element(name, &[("id", name)]), state).unwrap()
        } else {
            b.end_element(&end(name), state).unwrap()
        };
        assert_eq!(state, expected, "after {}{}", if opening { "<" } else { "</" }, name);
    }
    for (name, expected) in [("run", Run), ("spectrumList", SpectrumList), ("spectrum", Spectrum)] {
        assert_eq!(b.start_element(&element(name, &[]), Start).unwrap(), expected);
    }
    assert!(mzdata::mzml::reader::MzMLReaderType::metadata_is_complete(Run));
    assert!(mzdata::mzml::reader::MzMLReaderType::metadata_is_complete(Spectrum));
    assert!(!mzdata::mzml::reader::MzMLReaderType::metadata_is_complete(Start));
    assert!(mzdata::mzml::reader::MzMLReaderType::metadata_stops(ParserError));
    assert!(!mzdata::mzml::reader::MzMLReaderType::metadata_stops(SoftwareList));
    assert_eq!(b.file_description.source_files.len(), 1);
    assert_eq!(b.file_description.source_files[0].id, "sourceFile");
    assert_eq!(b.reference_param_groups[0].id, "referenceableParamGroup");
    assert_eq!(b.softwares[0].id, "software");
    assert_eq!(b.instrument_configurations[0].name, "instrumentConfiguration");
    assert_eq!(b.instrument_configurations[0].id, 0);
}

#[test]
fn metadata_params_are_filed_where_the_state_stands() {
    let mut b = FileMetadataBuilder::new();
    for (state, accession) in [
        (FileContents, "A"),
        (SourceFile, "B"),
        (ReferenceParamGroup, "C"),
        (Software, "D"),
        (InstrumentConfiguration, "E"),
        (DataProcessing, "F"),
        (Start, "G"),
        (Run, "H"),
    ] {
        assert_eq!(b.empty_element(&cv(accession, "n", "v"), state).unwrap(), state);
    }
    assert_eq!(b.file_description.contents[0].accession, "A");
    assert_eq!(b.source_file.params[0].accession, "B");
    assert_eq!(b.group.params[0].accession, "C");
    assert_eq!(b.software.params[0].accession, "D");
    assert_eq!(b.configuration.params[0].accession, "E");
    assert_eq!(b.processing.params[0].accession, "F");
    assert_eq!(b.file_description.contents.len(), 1);
    assert_eq!(
        b.text(&TextContent { content: "ignored".to_string() }, Software).unwrap(),
        Software
    );
}

#[test]
fn a_later_configuration_takes_the_place_of_one_with_its_number() {
    let mut b = FileMetadataBuilder::new();
    for (id, accession) in [("IC1", "A"), ("IC2", "B"), ("IC1", "C"), ("IC3", "D"), ("IC2", "E")] {
        b.start_element(&element("instrumentConfiguration", &[("id", id)]), Start).unwrap();
        b.empty_element(&cv(accession, "n", "v"), InstrumentConfiguration).unwrap();
        b.close_element("instrumentConfiguration", InstrumentConfiguration).unwrap();
    }
    let seen: Vec<(u32, &str, &str)> = b
        .instrument_configurations
        .iter()
        .map(|c| (c.id, c.name.as_str(), c.params[0].accession.as_str()))
        .collect();
    assert_eq!(seen, vec![(0, "IC1", "C"), (1, "IC2", "E"), (2, "IC3", "D")]);
}

#[test]
fn a_later_group_takes_the_place_of_one_with_its_identifier() {
    let mut b = FileMetadataBuilder::new();
    for (id, accession) in [("g1", "A"), ("g2", "B"), ("g1", "C")] {
        b.start_element(&element("referenceableParamGroup", &[("id", id)]), Start).unwrap();
        b.empty_element(&cv(accession, "n", "v"), ReferenceParamGroup).unwrap();
        b.close_element("referenceableParamGroup", ReferenceParamGroup).unwrap();
    }
    let seen: Vec<(&str, &str)> = b
        .reference_param_groups
        .iter()
        .map(|g| (g.id.as_str(), g.params[0].accession.as_str()))
        .collect();
    assert_eq!(seen, vec![("g1", "C"), ("g2", "B")]);
    let mut softwares = FileMetadataBuilder::new();
    for id in ["s", "s"] {
        softwares.start_element(&element("software", &[("id", id)]), Start).unwrap();
        softwares.close_element("software", Software).unwrap();
    }
    assert_eq!(softwares.softwares.len(), 2);
}

#[test]
fn metadata_elements_take_their_attributes() {
    let mut b = FileMetadataBuilder::new();
    b.start_element(&element("software", &[("id", "pwiz"), ("version", "3.0")]), SoftwareList)
        .unwrap();
    assert_eq!((b.software.id.as_str(), b.software.version.as_str()), ("pwiz", "3.0"));
    b.start_element(
        &element("sourceFile", &[("id", "RAW1"), ("name", "a.raw"), ("location", "file:///x")]),
        SourceFileList,
    )
    .unwrap();
    assert_eq!(b.source_file.location, "file:///x");
    b.start_element(&element("instrumentConfiguration", &[("id", "IC1")]), Start).unwrap();
    b.close_element("instrumentConfiguration", InstrumentConfiguration).unwrap();
    b.start_element(&element("instrumentConfiguration", &[("id", "IC2")]), Start).unwrap();
    assert_eq!(b.configuration.id, 1);
    assert_eq!(
        b.empty_element(&element("softwareRef", &[("ref", "Xcalibur")]), InstrumentConfiguration)
            .unwrap(),
        InstrumentConfiguration
    );
    assert_eq!(b.configuration.software_reference, "Xcalibur");
    b.start_element(&element("dataProcessing", &[("id", "dp")]), DataProcessingList).unwrap();
    assert_eq!(b.processing.id, "dp");
    assert_eq!(b.end_element(&end("dataProcessing"), DataProcessing).unwrap(), DataProcessingList);
    assert_eq!(b.data_processings[0].id, "dp");
    assert_eq!(b.end_element(&end("dataProcessingList"), DataProcessingList).unwrap(), Start);
    assert!(matches!(
        b.start_element(&element("software", &[("id", "&x")]), SoftwareList),
        Err(MzMLParserError::XMLError(SoftwareList, XmlError::Escape))
    ));
}
