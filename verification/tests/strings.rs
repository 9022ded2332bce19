use credstore::strutil::str_eq;

#[test]
fn str_eq_agrees_with_equality() {
    assert!(str_eq("", ""));
    assert!(str_eq("alice", "alice"));
    assert!(!str_eq("alice", "alicf"));
    assert!(!str_eq("alice", "alic"));
    assert!(str_eq("caf\u{e9}", "caf\u{e9}"));
    assert!(!str_eq("caf\u{e9}", "cafe"));
}
