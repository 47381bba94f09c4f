use monotools::keyed::KeyedVec;

#[test]
fn read_after_write() {
    let mut m: KeyedVec<u32> = KeyedVec::new();
    assert_eq!(m.get("a"), None);
    m.insert("a", 1);
    m.insert("b", 2);
    m.insert("a", 3);
    assert_eq!(m.get("a"), Some(3));
    assert_eq!(m.get("b"), Some(2));
    assert_eq!(m.get("c"), None);
}
