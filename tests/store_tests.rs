use room_relay::state::{
    Message, MessageStore, Nonce, NonceStore, User, UserStore, UtcInstant, HISTORY_CAP,
};

fn at(secs: i64) -> UtcInstant {
    UtcInstant { secs, nanos: 0 }
}

fn msg(text: &str, user: &str, secs: i64) -> Message {
    Message { text: text.to_string(), user: user.to_string(), date: at(secs) }
}

fn user(id: &str, name: &str, room: &str) -> User {
    User { id: id.to_string(), name: name.to_string(), room: room.to_string() }
}

fn texts(ms: &[Message]) -> Vec<String> {
    ms.iter().map(|m| m.text.clone()).collect()
}

#[test]
fn user_store_insert_get_remove() {
    let mut users = UserStore::new();
    assert!(users.get("c1").is_none());
    assert!(users.get_room("c1").is_none());
    users.insert("c1".to_string(), user("c1", "alice", "r1"));
    let u = users.get("c1").unwrap();
    assert_eq!(u.name, "alice");
    assert_eq!(u.room, "r1");
    assert_eq!(users.get_room("c1").unwrap(), "r1");
    assert!(users.get("c2").is_none());
    users.remove("c1");
    assert!(users.get("c1").is_none());
    users.remove("c1");
    assert!(users.get_room("c1").is_none());
}

#[test]
fn user_store_insert_overwrites() {
    let mut users = UserStore::default();
    users.insert("c1".to_string(), user("c1", "alice", "r1"));
    users.insert("c2".to_string(), user("c2", "bob", "r1"));
    users.insert("c1".to_string(), user("c1", "alicia", "r2"));
    assert_eq!(users.get("c1").unwrap().name, "alicia");
    assert_eq!(users.get_room("c1").unwrap(), "r2");
    assert_eq!(users.get("c2").unwrap().name, "bob");
}

#[test]
fn snapshot_is_oldest_first() {
    let mut store = MessageStore::new();
    store.insert("r1", msg("one", "alice", 1));
    store.insert("r1", msg("two", "bob", 2));
    store.insert("r1", msg("three", "alice", 3));
    store.insert("r2", msg("elsewhere", "carol", 4));
    assert_eq!(texts(&store.get("r1")), vec!["one", "two", "three"]);
    assert_eq!(texts(&store.get("r2")), vec!["elsewhere"]);
    assert!(store.get("r3").is_empty());
}

#[test]
fn history_cap_keeps_latest_256() {
    let mut store = MessageStore::default();
    for i in 0..300 {
        store.insert("r1", msg(&format!("m{}", i), "alice", i));
    }
    let snap = store.get("r1");
    assert_eq!(snap.len(), 256);
    assert_eq!(HISTORY_CAP, 256);
    let expected: Vec<String> = (44..300).map(|i| format!("m{}", i)).collect();
    assert_eq!(texts(&snap), expected);
}

#[test]
fn history_at_exactly_cap_keeps_all() {
    let mut store = MessageStore::new();
    for i in 0..256 {
        store.insert("r1", msg(&format!("m{}", i), "alice", i));
    }
    let snap = store.get("r1");
    assert_eq!(snap.len(), 256);
    assert_eq!(snap[0].text, "m0");
    store.insert("r1", msg("m256", "alice", 256));
    let snap = store.get("r1");
    assert_eq!(snap.len(), 256);
    assert_eq!(snap[0].text, "m1");
    assert_eq!(snap[255].text, "m256");
}

#[test]
fn remove_user_messages_removes_only_author() {
    let mut store = MessageStore::new();
    store.insert("r1", msg("a1", "alice", 1));
    store.insert("r1", msg("b1", "bob", 2));
    store.insert("r1", msg("a2", "alice", 3));
    store.insert("r1", msg("b2", "bob", 4));
    store.insert("r2", msg("b3", "bob", 5));
    store.remove_user_messages("r1", "bob");
    assert_eq!(texts(&store.get("r1")), vec!["a1", "a2"]);
    assert_eq!(texts(&store.get("r2")), vec!["b3"]);
    store.remove_user_messages("r1", "bob");
    assert_eq!(texts(&store.get("r1")), vec!["a1", "a2"]);
}

#[test]
fn remove_user_messages_unknown_room_is_noop() {
    let mut store = MessageStore::new();
    store.insert("r1", msg("a1", "alice", 1));
    store.remove_user_messages("nowhere", "alice");
    assert!(store.get("nowhere").is_empty());
    assert_eq!(texts(&store.get("r1")), vec!["a1"]);
}

#[test]
fn challenge_accepted_once() {
    let mut nonces = NonceStore::new();
    let n = Nonce([7u8; 32]);
    nonces.add_nonce_at("c1".to_string(), n, at(1000));
    assert!(nonces.verify_and_remove_at("c1", &[7u8; 32], at(1010)));
    assert!(!nonces.verify_and_remove_at("c1", &[7u8; 32], at(1011)));
}

#[test]
fn challenge_wrong_bytes_fail_and_consume() {
    let mut nonces = NonceStore::new();
    nonces.add_nonce_at("c1".to_string(), Nonce([7u8; 32]), at(1000));
    let mut wrong = [7u8; 32];
    wrong[31] = 8;
    assert!(!nonces.verify_and_remove_at("c1", &wrong, at(1001)));
    assert!(!nonces.verify_and_remove_at("c1", &[7u8; 32], at(1002)));
}

#[test]
fn challenge_wrong_length_fails() {
    let mut nonces = NonceStore::new();
    nonces.add_nonce_at("c1".to_string(), Nonce([7u8; 32]), at(1000));
    assert!(!nonces.verify_and_remove_at("c1", &[7u8; 31], at(1001)));
    nonces.add_nonce_at("c2".to_string(), Nonce([0u8; 32]), at(1000));
    assert!(!nonces.verify_and_remove_at("c2", &[], at(1001)));
}

#[test]
fn challenge_expires_after_300_seconds() {
    let mut nonces = NonceStore::new();
    nonces.add_nonce_at("c1".to_string(), Nonce([1u8; 32]), at(1000));
    assert!(nonces.verify_and_remove_at("c1", &[1u8; 32], at(1300)));
    nonces.add_nonce_at("c2".to_string(), Nonce([1u8; 32]), at(1000));
    let late = UtcInstant { secs: 1300, nanos: 1 };
    assert!(!nonces.verify_and_remove_at("c2", &[1u8; 32], late));
    assert!(!nonces.verify_and_remove_at("c2", &[1u8; 32], at(1000)));
}

#[test]
fn challenge_unknown_connection_fails() {
    let mut nonces = NonceStore::new();
    nonces.add_nonce_at("c1".to_string(), Nonce([1u8; 32]), at(1000));
    assert!(!nonces.verify_and_remove_at("c2", &[1u8; 32], at(1000)));
    assert!(nonces.verify_and_remove_at("c1", &[1u8; 32], at(1000)));
}

#[test]
fn challenge_reissue_replaces_old() {
    let mut nonces = NonceStore::new();
    nonces.add_nonce_at("c1".to_string(), Nonce([1u8; 32]), at(1000));
    nonces.add_nonce_at("c1".to_string(), Nonce([2u8; 32]), at(1001));
    assert!(!nonces.verify_and_remove_at("c1", &[1u8; 32], at(1002)));
    nonces.add_nonce_at("c1".to_string(), Nonce([1u8; 32]), at(1000));
    nonces.add_nonce_at("c1".to_string(), Nonce([2u8; 32]), at(1001));
    assert!(nonces.verify_and_remove_at("c1", &[2u8; 32], at(1002)));
}

#[test]
fn challenge_with_live_clock() {
    let mut nonces = NonceStore::default();
    let n = nonces.add_nonce("c1".to_string());
    assert!(nonces.verify_and_remove("c1", &n.0));
    assert!(!nonces.verify_and_remove("c1", &n.0));
    let a = Nonce::new();
    let b = Nonce::new();
    assert_ne!(a.0, b.0);
}
