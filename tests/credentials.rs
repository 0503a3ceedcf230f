use notes_api::db::user::{HashedPassword, User};
use notes_api::db::Database;

#[test]
fn hashed_password_verifies_only_its_password() {
    let hashed = User::hash_password("correct horse").ok().expect("hash");
    assert!(hashed.as_str().starts_with("$argon2"));
    assert!(!hashed.as_str().contains("correct horse"));
    let user = User::new(1, "a@example.com".to_string(), hashed);
    assert!(user.verify_password("correct horse"));
    assert!(!user.verify_password("correct horsf"));
    assert!(!user.verify_password(""));
}

#[test]
fn corrupt_hash_refuses_like_a_wrong_password() {
    let user = User::new(1, "a@example.com".to_string(), HashedPassword::from_phc("not a phc string".to_string()));
    assert!(!user.verify_password("anything"));
    let empty = User::new(2, "b@example.com".to_string(), HashedPassword::from_phc(String::new()));
    assert!(!empty.verify_password(""));
}

#[test]
fn create_assigns_ids_and_refuses_duplicates() {
    let mut db = Database::new();
    assert!(!User::email_taken(&db, "x@example.com"));
    assert!(User::create(&mut db, "x@example.com", "one"));
    assert!(User::create(&mut db, "y@example.com", "two"));
    assert!(!User::create(&mut db, "x@example.com", "three"));
    assert!(User::email_taken(&db, "x@example.com"));
    let x = User::get_by_email(&db, "x@example.com").expect("x");
    let y = User::get_by_email(&db, "y@example.com").expect("y");
    assert_eq!(x.id, 1);
    assert_eq!(y.id, 2);
    assert!(x.verify_password("one"));
    assert!(!x.verify_password("three"));
    let by_id = User::get_by_id(&db, 2).expect("by id");
    assert_eq!(by_id.email, "y@example.com");
    assert!(User::get_by_id(&db, 3).is_none());
    assert!(User::get_by_email(&db, "z@example.com").is_none());
}

#[test]
fn salted_hash_is_argon2id_and_owed() {
    let salt = vec![7u8; 16];
    let hashed = User::hash_password_salted("pw", &salt).ok().expect("hash");
    assert!(hashed.as_str().starts_with("$argon2id$"));
    let user = User::new(1, "a@example.com".to_string(), hashed);
    assert!(user.verify_password("pw"));
    assert!(!user.verify_password("pw2"));
    let salt2 = User::new_salt().expect("salt");
    assert_eq!(salt2.len(), 16);
}

#[test]
fn create_with_salt_refuses_only_taken_emails() {
    let mut db = Database::new();
    let salt = vec![1u8; 16];
    assert!(User::create_with_salt(&mut db, "p@example.com", "one", &salt));
    assert!(!User::create_with_salt(&mut db, "p@example.com", "two", &salt));
    assert!(User::create_with_salt(&mut db, "q@example.com", "", &salt));
    assert!(User::get_by_email(&db, "q@example.com").unwrap().verify_password(""));
}
