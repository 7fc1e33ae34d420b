use mzdata::offset_index::OffsetIndex;

#[test]
fn new_index_is_empty_and_uninitialised() {
    let index = OffsetIndex::new("spectrum".to_string());
    assert_eq!(index.name(), "spectrum");
    assert_eq!(index.len(), 0);
    assert!(index.is_empty());
    assert!(!index.is_initialized());
    assert_eq!(index.get("scan=1"), None);
    assert_eq!(index.get_index(0), None);
    assert!(!index.contains_key("scan=1"));
}

#[test]
fn entries_keep_insertion_order() {
    let mut index = OffsetIndex::new("spectrum".to_string());
    assert_eq!(index.insert("scan=3".to_string(), 300), None);
    assert_eq!(index.insert("scan=1".to_string(), 100), None);
    assert_eq!(index.insert("scan=2".to_string(), 200), None);
    assert_eq!(index.len(), 3);
    assert!(!index.is_empty());
    assert_eq!(index.get_index(0), Some(("scan=3", 300)));
    assert_eq!(index.get_index(1), Some(("scan=1", 100)));
    assert_eq!(index.get_index(2), Some(("scan=2", 200)));
    assert_eq!(index.get_index(3), None);
    assert_eq!(index.get("scan=1"), Some(100));
    assert_eq!(index.get("scan=2"), Some(200));
    assert_eq!(index.get("scan=3"), Some(300));
    assert_eq!(index.get("scan=4"), None);
    assert!(index.contains_key("scan=2"));
}

#[test]
fn inserting_again_replaces_the_offset_and_keeps_the_ordinal() {
    let mut index = OffsetIndex::new("spectrum".to_string());
    index.insert("a".to_string(), 1);
    index.insert("b".to_string(), 2);
    index.insert("c".to_string(), 3);
    assert_eq!(index.insert("b".to_string(), 20), Some(2));
    assert_eq!(index.len(), 3);
    assert_eq!(index.get_index(0), Some(("a", 1)));
    assert_eq!(index.get_index(1), Some(("b", 20)));
    assert_eq!(index.get_index(2), Some(("c", 3)));
    assert_eq!(index.get("b"), Some(20));
    assert_eq!(index.get("a"), Some(1));
}

#[test]
fn every_ordinal_agrees_with_its_identifier() {
    let mut index = OffsetIndex::new("spectrum".to_string());
    for i in 0..50u64 {
        index.insert(format!("scan={}", i + 1), 1000 + 17 * i);
    }
    for i in 0..50usize {
        let (id, offset) = index.get_index(i).unwrap();
        assert_eq!(id, format!("scan={}", i + 1));
        assert_eq!(offset, 1000 + 17 * i as u64);
        assert_eq!(index.get(id), Some(offset));
    }
}

#[test]
fn the_initialised_flag_can_be_set() {
    let mut index = OffsetIndex::new("chromatogram".to_string());
    index.insert("TIC".to_string(), 5);
    index.set_initialized(true);
    assert!(index.is_initialized());
    assert_eq!(index.get("TIC"), Some(5));
    assert_eq!(index.name(), "chromatogram");
    index.set_initialized(false);
    assert!(!index.is_initialized());
}

#[test]
fn identifiers_are_compared_exactly() {
    let mut index = OffsetIndex::new("spectrum".to_string());
    index.insert("controllerType=0 controllerNumber=1 scan=1".to_string(), 4000);
    assert_eq!(index.get("controllerType=0 controllerNumber=1 scan=1"), Some(4000));
    assert_eq!(index.get("controllerType=0 controllerNumber=1 scan=10"), None);
    assert_eq!(index.get("controllerType=0 controllerNumber=1 scan="), None);
    assert_eq!(index.get(""), None);
    index.insert(String::new(), 9);
    assert_eq!(index.get(""), Some(9));
}
