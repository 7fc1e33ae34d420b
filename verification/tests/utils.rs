use mzdata::utils::{FileSource, FileWrapper};
use std::io;
use std::io::Read;

type ByteBuffer = io::Cursor<Vec<u8>>;

#[test]
fn test_from_buffer() {
    let mut buff: Vec<u8> = Vec::new();
    buff.extend(b"foobar");
    let stream = ByteBuffer::new(buff);
    let mut out: Vec<u8> = Vec::new();
    let desc = FileSource::<ByteBuffer>::from_stream(stream);
    assert!(matches!(desc.file_name(), None));
    if let FileWrapper::Stream(mut buff) = desc.source {
        buff.read_to_end(&mut out).unwrap();
        assert_eq!(out, b"foobar");
    }
}

#[test]
fn from_path_keeps_the_path() {
    let desc = FileSource::<ByteBuffer>::from_path("/data/run1.mzML".to_string());
    assert_eq!(desc.file_name(), Some("/data/run1.mzML"));
    assert!(matches!(desc.source, FileWrapper::FileSystem(_)));
}

#[test]
fn from_string_is_from_path() {
    let desc: FileSource<ByteBuffer> = FileSource::from("a/b.mzML".to_string());
    assert_eq!(desc.file_name(), Some("a/b.mzML"));
}

#[test]
fn default_source_is_empty() {
    let desc = FileSource::<ByteBuffer>::default();
    assert!(matches!(desc.source, FileWrapper::Empty));
    assert_eq!(desc.file_name(), None);
    assert_eq!(desc.index_file_name(), None);
    assert!(!desc.has_index_file(|_: &str| true));
    assert!(matches!(FileWrapper::<ByteBuffer>::default(), FileWrapper::Empty));
}

#[test]
fn index_file_name_replaces_the_extension() {
    let desc = FileSource::<ByteBuffer>::from_path("/data/run1.mzML".to_string());
    assert_eq!(desc.index_file_name(), Some("/data/run1.index.json".to_string()));
    let desc = FileSource::<ByteBuffer>::from_path("run1.mzML".to_string());
    assert_eq!(desc.index_file_name(), Some("run1.index.json".to_string()));
    let desc = FileSource::<ByteBuffer>::from_path("/data/run1".to_string());
    assert_eq!(desc.index_file_name(), Some("/data/run1.index.json".to_string()));
    let desc = FileSource::<ByteBuffer>::from_path("data/set/run1.mzML".to_string());
    assert_eq!(desc.index_file_name(), Some("data/set/run1.index.json".to_string()));
    let desc = FileSource::<ByteBuffer>::from_path("data/set/run1.mzML.gz".to_string());
    assert_eq!(desc.index_file_name(), Some("data/set/run1.mzML.index.json".to_string()));
    let desc = FileSource::<ByteBuffer>::from_path("data/set/".to_string());
    assert_eq!(desc.index_file_name(), Some("data/set.index.json".to_string()));
}

#[test]
fn index_file_name_needs_a_file_name() {
    let desc = FileSource::<ByteBuffer>::from_path("/".to_string());
    assert_eq!(desc.index_file_name(), None);
    let desc = FileSource::<ByteBuffer>::from_path("/data/..".to_string());
    assert_eq!(desc.index_file_name(), None);
    let stream = FileSource::<ByteBuffer>::from_stream(ByteBuffer::new(Vec::new()));
    assert_eq!(stream.index_file_name(), None);
    assert!(!stream.has_index_file(|_: &str| true));
}

#[test]
fn has_index_file_asks_for_the_index_file_name() {
    let desc = FileSource::<ByteBuffer>::from_path("data/set/run1.mzML".to_string());
    assert!(desc.has_index_file(|name: &str| name == "data/set/run1.index.json"));
    assert!(!desc.has_index_file(|name: &str| name != "data/set/run1.index.json"));
    assert!(!desc.has_index_file(|name: &str| std::path::Path::new(name).exists()));
    let rootless = FileSource::<ByteBuffer>::from_path("/".to_string());
    assert!(!rootless.has_index_file(|_: &str| true));
}
