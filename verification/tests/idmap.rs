use mzdata::mzml::idmap::IncrementingIdMap;

#[test]
fn numbers_are_dense_and_follow_first_sight() {
    let mut map = IncrementingIdMap::new();
    assert_eq!(map.len(), 0);
    assert_eq!(map.get("IC1"), 0);
    assert_eq!(map.get("IC2"), 1);
    assert_eq!(map.get("IC3"), 2);
    assert_eq!(map.len(), 3);
}

#[test]
fn asking_again_gives_the_same_number() {
    let mut map = IncrementingIdMap::new();
    assert_eq!(map.get("b"), 0);
    assert_eq!(map.get("a"), 1);
    assert_eq!(map.get("b"), 0);
    assert_eq!(map.get("a"), 1);
    assert_eq!(map.get(""), 2);
    assert_eq!(map.get(""), 2);
    assert_eq!(map.len(), 3);
}

#[test]
fn a_copy_numbers_like_its_source() {
    let mut map = IncrementingIdMap::new();
    map.get("IC1");
    map.get("IC2");
    let mut copy = IncrementingIdMap::new();
    copy.get("other");
    copy.copy_from(&map);
    assert_eq!(copy.len(), 2);
    assert_eq!(copy.get("IC2"), 1);
    assert_eq!(copy.get("IC1"), 0);
    assert_eq!(copy.get("other"), 2);
    assert_eq!(map.len(), 2);
    assert_eq!(map.get("IC3"), 2);
}
