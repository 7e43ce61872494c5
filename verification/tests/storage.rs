use shorty::database::{Database, QUOTA_WINDOW};
use shorty::memory::MemoryDB;

#[test]
fn a_new_storage_is_empty() {
    let db = MemoryDB::new();
    assert_eq!(db.len(), 0);
    assert!(db.peek_long_url("abc").is_err());
    assert!(!db.is_password("secret"));
    assert_eq!(db.urls_stored_last_7_days(1), 0);
    assert!(db.record("abc").is_none());
}

#[test]
fn store_then_peek_gives_the_long_url() {
    let mut db = MemoryDB::new();
    db.set_time(1000);
    assert_eq!(db.store_shortened("https://example.com", "abc", 7), Ok(()));
    assert_eq!(db.peek_long_url("abc"), Ok("https://example.com".to_string()));
    assert_eq!(db.len(), 1);
    let r = db.record("abc").unwrap();
    assert_eq!(r.short, "abc");
    assert_eq!(r.long, "https://example.com");
    assert_eq!(r.owner, 7);
    assert_eq!(r.created, 1000);
    assert_eq!(r.redirects, 0);
    assert_eq!(r.last_redirect, 1000);
    assert!(db.peek_long_url("ABC").is_err());
    assert!(db.peek_long_url("ab").is_err());
}

#[test]
fn peek_counts_nothing() {
    let mut db = MemoryDB::new();
    db.store_shortened("https://example.com", "abc", 7).unwrap();
    for _ in 0..5 {
        db.peek_long_url("abc").unwrap();
    }
    assert_eq!(db.record("abc").unwrap().redirects, 0);
}

#[test]
fn a_code_is_stored_once() {
    let mut db = MemoryDB::new();
    db.store_shortened("https://a.example", "abc", 1).unwrap();
    assert!(db.store_shortened("https://b.example", "abc", 2).is_err());
    assert_eq!(db.len(), 1);
    assert_eq!(db.peek_long_url("abc"), Ok("https://a.example".to_string()));
    assert_eq!(db.record("abc").unwrap().owner, 1);
}

#[test]
fn forward_counts_each_call() {
    let mut db = MemoryDB::new();
    db.set_time(10);
    db.store_shortened("https://example.com", "abc", 7).unwrap();
    db.store_shortened("https://other.example", "xyz", 7).unwrap();
    db.set_time(20);
    for n in 1..=25u64 {
        assert_eq!(db.forward("abc"), Ok("https://example.com".to_string()));
        assert_eq!(db.record("abc").unwrap().redirects, n);
        assert_eq!(db.peek_long_url("abc"), Ok("https://example.com".to_string()));
    }
    let r = db.record("abc").unwrap();
    assert_eq!(r.created, 10);
    assert_eq!(r.last_redirect, 20);
    let other = db.record("xyz").unwrap();
    assert_eq!(other.redirects, 0);
    assert_eq!(other.last_redirect, 10);
}

#[test]
fn forward_of_an_unknown_code_changes_nothing() {
    let mut db = MemoryDB::new();
    db.store_shortened("https://example.com", "abc", 7).unwrap();
    assert_eq!(db.forward("nope"), Err(()));
    assert_eq!(db.len(), 1);
    assert_eq!(db.record("abc").unwrap().redirects, 0);
}

#[test]
fn passwords_are_a_set() {
    let mut db = MemoryDB::new();
    db.add_password("secret");
    db.add_password("other");
    assert!(db.is_password("secret"));
    assert!(db.is_password("other"));
    assert!(!db.is_password("Secret"));
    assert!(!db.is_password(""));
    assert!(!db.is_password("secret "));
}

#[test]
fn submissions_are_counted_by_fingerprint() {
    let mut db = MemoryDB::new();
    db.set_time(QUOTA_WINDOW + 100);
    db.store_shortened("https://a.example", "aaa", 1).unwrap();
    db.store_shortened("https://b.example", "bbb", 1).unwrap();
    db.store_shortened("https://c.example", "ccc", 2).unwrap();
    assert_eq!(db.urls_stored_last_7_days(1), 2);
    assert_eq!(db.urls_stored_last_7_days(2), 1);
    assert_eq!(db.urls_stored_last_7_days(3), 0);
}

#[test]
fn submissions_leave_the_window() {
    let mut db = MemoryDB::new();
    db.set_time(1000);
    db.store_shortened("https://a.example", "aaa", 1).unwrap();
    db.set_time(2000);
    db.store_shortened("https://b.example", "bbb", 1).unwrap();
    assert_eq!(db.urls_stored_last_7_days(1), 2);
    db.set_time(1000 + QUOTA_WINDOW - 1);
    assert_eq!(db.urls_stored_last_7_days(1), 2);
    db.set_time(1000 + QUOTA_WINDOW);
    assert_eq!(db.urls_stored_last_7_days(1), 1);
    db.set_time(2000 + QUOTA_WINDOW);
    assert_eq!(db.urls_stored_last_7_days(1), 0);
}

#[test]
fn the_window_is_seven_days() {
    assert_eq!(QUOTA_WINDOW, 7 * 24 * 60 * 60);
}
