use std::collections::HashSet;

use notes_api::db::Database;
use notes_api::session::{
    CookieJar, Session, SESSION_COOKIE_NAME, SESSION_EXPIRY_MILLIS, SESSION_PUBLIC_NAME,
    SESSION_PUBLIC_VALUE,
};

#[test]
fn generated_keys_are_distinct_and_carry_32_bytes() {
    let mut seen = HashSet::new();
    for _ in 0..100_000 {
        let key = Session::generate_key().expect("random source");
        assert_eq!(key.len(), 43);
        assert!(!key.contains('='));
        assert!(!key.contains('+') && !key.contains('/'));
        assert!(seen.insert(key));
    }
}

#[test]
fn attach_writes_both_cookies() {
    let session = Session::new(7, "abc".to_string());
    let mut jar = CookieJar::new();
    session.attach(&mut jar, 1_000);
    let private = jar.session.as_ref().expect("private cookie");
    assert_eq!(private.name, SESSION_COOKIE_NAME);
    assert_eq!(private.name, "session");
    assert_eq!(private.value, "abc");
    assert_eq!(private.expires, Some(1_000 + 4 * 7 * 24 * 60 * 60 * 1000));
    assert_eq!(SESSION_EXPIRY_MILLIS, 2_419_200_000);
    assert!(private.http_only);
    let marker = jar.marker.as_ref().expect("marker cookie");
    assert_eq!(marker.name, SESSION_PUBLIC_NAME);
    assert_eq!(marker.name, "session_pub");
    assert_eq!(marker.value, SESSION_PUBLIC_VALUE);
    assert_eq!(marker.value, "authenticated");
    assert!(!marker.http_only);
    assert!(marker.same_site_strict);
    assert_eq!(marker.expires, None);
}

#[test]
fn attach_expiry_saturates() {
    let session = Session::new(7, "abc".to_string());
    let mut jar = CookieJar::new();
    session.attach(&mut jar, i64::MAX - 5);
    assert_eq!(jar.session.as_ref().unwrap().expires, Some(i64::MAX));
}

#[test]
fn init_stores_the_session_and_delete_removes_it() {
    let mut db = Database::new();
    let mut jar = CookieJar::new();
    let session = Session::init(3, &mut jar, &mut db).expect("session");
    assert_eq!(session.user_id, 3);
    assert_eq!(jar.session.as_ref().unwrap().value, session.key());
    let found = db.sessions.find(session.key()).expect("stored");
    assert_eq!(found.user_id, 3);
    assert!(session.delete(&mut jar, &mut db));
    assert!(jar.session.is_none() && jar.marker.is_none());
    assert!(db.sessions.find(session.key()).is_none());
    let mut jar2 = CookieJar::new();
    assert!(!session.delete(&mut jar2, &mut db));
}

#[test]
fn session_table_refuses_a_duplicate_key() {
    let mut db = Database::new();
    assert!(db.sessions.insert(&Session::new(1, "k".to_string())));
    assert!(!db.sessions.insert(&Session::new(2, "k".to_string())));
    assert_eq!(db.sessions.find("k").unwrap().user_id, 1);
    assert!(db.sessions.remove("k"));
    assert!(!db.sessions.remove("k"));
}

#[test]
fn open_refuses_a_key_in_use() {
    let mut db = Database::new();
    let mut jar = CookieJar::new();
    let s = Session::open(1, "k1".to_string(), 10, &mut jar, &mut db).expect("opened");
    assert_eq!(s.key(), "k1");
    assert_eq!(jar.session.as_ref().unwrap().expires, Some(10 + SESSION_EXPIRY_MILLIS));
    let mut jar2 = CookieJar::new();
    assert!(Session::open(2, "k1".to_string(), 10, &mut jar2, &mut db).is_none());
    assert!(jar2.session.is_none() && jar2.marker.is_none());
    assert_eq!(db.sessions.find("k1").unwrap().user_id, 1);
}
