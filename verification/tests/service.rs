use credstore::hashing::hash;
use credstore::store::{empty, AddressUsage, ErrorKind, Login, Store};

fn login(u: &str, p: &str) -> Login {
    Login { username: u.to_string(), password: p.to_string() }
}

#[test]
fn empty_checks_both_fields() {
    assert!(empty(&login("", "pw")));
    assert!(empty(&login("alice", "")));
    assert!(empty(&login("", "")));
    assert!(!empty(&login("alice", "pw")));
}

#[test]
fn register_then_authenticate_succeeds_once() {
    let mut st = Store::new();
    assert_eq!(st.register(&login("alice", "secret1")), Ok(()));
    assert_eq!(st.authenticate(&login("alice", "secret1")), Ok(()));
    // same username again: rejected as a duplicate, store unchanged
    assert_eq!(st.register(&login("alice", "secret1")), Err(ErrorKind::Duplicate));
    assert_eq!(st.register(&login("alice", "other")), Err(ErrorKind::Duplicate));
    assert_eq!(st.accounts.len(), 1);
}

#[test]
fn authenticate_rejects_wrong_password_and_unknown_user() {
    let mut st = Store::new();
    assert_eq!(st.register(&login("alice", "secret1")), Ok(()));
    assert_eq!(st.authenticate(&login("alice", "wrong")), Err(ErrorKind::NoMatch));
    assert_eq!(st.authenticate(&login("bob", "secret1")), Err(ErrorKind::NoMatch));
}

#[test]
fn register_and_authenticate_reject_blank_fields() {
    let mut st = Store::new();
    assert_eq!(st.register(&login("", "pw")), Err(ErrorKind::EmptyField));
    assert_eq!(st.register(&login("alice", "")), Err(ErrorKind::EmptyField));
    assert_eq!(st.authenticate(&login("", "pw")), Err(ErrorKind::EmptyField));
    assert_eq!(st.authenticate(&login("alice", "")), Err(ErrorKind::EmptyField));
    assert_eq!(st.accounts.len(), 0);
}

#[test]
fn hash_is_deterministic_and_not_identity() {
    let d1 = hash("secret1").unwrap();
    let d2 = hash("secret1").unwrap();
    let d3 = hash("secret2").unwrap();
    assert_eq!(d1, d2);
    assert_ne!(d1, d3);
    assert_ne!(d1, "secret1");
    // SHA-512 crypt under the fixed salt "10"
    assert!(d1.starts_with("$6$10$"));
}

#[test]
fn record_usage_counts_one_row_per_address() {
    let mut st = Store::new();
    assert_eq!(st.record_usage("alice", "1 Main St"), Ok(()));
    assert_eq!(st.record_usage("bob", "1 Main St"), Ok(()));
    assert_eq!(st.record_usage("alice", "1 Main St"), Ok(()));
    assert_eq!(st.usages.len(), 1);
    assert_eq!(st.usages[0].address, "1 Main St");
    assert_eq!(st.usages[0].count, 3);
    // the owner stays whoever first recorded the address
    assert_eq!(st.usages[0].username, "alice");
}

#[test]
fn record_usage_rejects_blank_fields_and_leaves_store_unchanged() {
    let mut st = Store::new();
    assert_eq!(st.record_usage("", "x"), Err(ErrorKind::EmptyField));
    assert_eq!(st.record_usage("x", ""), Err(ErrorKind::EmptyField));
    assert_eq!(st.usages.len(), 0);
    assert_eq!(st.accounts.len(), 0);
}

#[test]
fn record_usage_refuses_saturated_counter() {
    let mut st = Store {
        accounts: Vec::new(),
        usages: vec![AddressUsage {
            address: "a".to_string(),
            username: "u".to_string(),
            count: u64::MAX,
        }],
    };
    assert_eq!(st.record_usage("u", "a"), Err(ErrorKind::StoreError));
    assert_eq!(st.usages.len(), 1);
    assert_eq!(st.usages[0].count, u64::MAX);
}

#[test]
fn top_addresses_empty_username_yields_empty() {
    let mut st = Store::new();
    assert_eq!(st.record_usage("alice", "somewhere"), Ok(()));
    let r = st.top_addresses("");
    assert!(r.is_empty());
}

#[test]
fn top_addresses_unknown_user_yields_empty() {
    let mut st = Store::new();
    assert_eq!(st.record_usage("alice", "somewhere"), Ok(()));
    let r = st.top_addresses("bob");
    assert!(r.is_empty());
}

#[test]
fn top_addresses_ascending_by_count() {
    let mut st = Store::new();
    for _ in 0..3 {
        assert_eq!(st.record_usage("alice", "a1"), Ok(()));
    }
    assert_eq!(st.record_usage("alice", "a2"), Ok(()));
    for _ in 0..5 {
        assert_eq!(st.record_usage("alice", "a3"), Ok(()));
    }
    let r = st.top_addresses("alice");
    assert_eq!(r, vec!["a2".to_string(), "a1".to_string(), "a3".to_string()]);
}

#[test]
fn top_addresses_returns_at_most_five() {
    let mut st = Store::new();
    let addrs = ["p", "q", "r", "s", "t", "u"];
    for (i, a) in addrs.iter().enumerate() {
        for _ in 0..=i {
            assert_eq!(st.record_usage("alice", a), Ok(()));
        }
    }
    // counts are p:1, q:2, r:3, s:4, t:5, u:6; the five least-used come
    // back in ascending order and the most-used one is cut off
    let r = st.top_addresses("alice");
    assert_eq!(
        r,
        vec![
            "p".to_string(),
            "q".to_string(),
            "r".to_string(),
            "s".to_string(),
            "t".to_string()
        ]
    );
}

#[test]
fn top_addresses_attributes_shared_address_to_first_recorder() {
    let mut st = Store::new();
    assert_eq!(st.record_usage("alice", "shared"), Ok(()));
    assert_eq!(st.record_usage("bob", "shared"), Ok(()));
    // one global row, owned by the first recorder: the second user does
    // not see it among their own addresses
    assert_eq!(st.top_addresses("alice"), vec!["shared".to_string()]);
    assert!(st.top_addresses("bob").is_empty());
}

#[test]
fn scenario_register_authenticate_record() {
    let mut st = Store::new();
    assert_eq!(st.register(&login("alice", "secret1")), Ok(()));
    assert_eq!(st.authenticate(&login("alice", "secret1")), Ok(()));
    assert_eq!(st.authenticate(&login("alice", "wrong")), Err(ErrorKind::NoMatch));
    for _ in 0..3 {
        assert_eq!(st.record_usage("alice", "1 Main St"), Ok(()));
    }
    assert_eq!(st.usages.len(), 1);
    assert_eq!(st.usages[0].address, "1 Main St");
    assert_eq!(st.usages[0].username, "alice");
    assert_eq!(st.usages[0].count, 3);
}
