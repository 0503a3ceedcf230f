use notes_api::db::user::User;
use notes_api::db::Database;
use notes_api::routes::account::{signup, SignupForm};
use notes_api::routes::auth::{check, login, logout, LoginForm};
use notes_api::routes::Status;
use notes_api::session::{CookieJar, Session, SessionError};

fn signup_form(email: &str, password: &str) -> SignupForm {
    SignupForm { email: email.to_string(), password: password.to_string() }
}

fn login_form(email: &str, password: &str) -> LoginForm {
    LoginForm { email: email.to_string(), password: password.to_string() }
}

fn session_key(jar: &CookieJar) -> String {
    jar.session.as_ref().expect("session cookie").value.clone()
}

fn resolve(jar: &CookieJar, db: &Database) -> Option<Session> {
    Session::from_request(jar, db).ok()
}

#[test]
fn alice_signs_up_logs_in_checks_and_logs_out() {
    let mut db = Database::new();
    let mut signup_jar = CookieJar::new();
    let r = signup(&signup_form("alice@example.com", "hunter2"), &mut signup_jar, None, &mut db);
    assert_eq!(r, Ok(Status::Created));
    assert_eq!(r.unwrap().code(), 201);
    assert!(signup_jar.session.is_some());
    assert!(signup_jar.marker.is_some());

    let mut jar = CookieJar::new();
    let r = login(&login_form("alice@example.com", "hunter2"), &mut db, &mut jar, None);
    assert_eq!(r, Ok(Status::Success));
    assert_eq!(r.unwrap().code(), 200);
    let cookie_a = session_key(&jar);

    let user = User::from_request(&jar, &db).ok();
    assert_eq!(check(user), Ok(Status::Success));

    let stale = CookieJar { session: jar.session.as_ref().map(|c| notes_api::session::Cookie {
        name: c.name.clone(),
        value: c.value.clone(),
        expires: c.expires,
        http_only: c.http_only,
        same_site_strict: c.same_site_strict,
    }), marker: None };

    let session = resolve(&jar, &db);
    assert!(session.is_some());
    assert_eq!(logout(session, &mut jar, &mut db), Ok(Status::Success));
    assert!(jar.session.is_none());
    assert!(jar.marker.is_none());

    assert_eq!(session_key(&stale), cookie_a);
    let user = User::from_request(&stale, &db).ok();
    let r = check(user);
    assert_eq!(r, Err(Status::Unauthorized));
    assert_eq!(r.unwrap_err().code(), 401);
}

#[test]
fn login_session_maps_to_the_account() {
    let mut db = Database::new();
    let mut first = CookieJar::new();
    assert_eq!(signup(&signup_form("bob@example.com", "pw-bob"), &mut first, None, &mut db), Ok(Status::Created));
    let mut jar = CookieJar::new();
    assert_eq!(login(&login_form("bob@example.com", "pw-bob"), &mut db, &mut jar, None), Ok(Status::Success));
    let account = User::get_by_email(&db, "bob@example.com").expect("account");
    let stored = db.sessions.find(&session_key(&jar)).expect("stored session");
    assert_eq!(stored.user_id, account.id);
    let user = User::from_request(&jar, &db).ok().expect("resolves");
    assert_eq!(user.id, account.id);
    assert_eq!(user.email, "bob@example.com");
}

#[test]
fn signup_with_taken_email_is_a_conflict_and_changes_nothing() {
    let mut db = Database::new();
    let mut jar = CookieJar::new();
    assert_eq!(signup(&signup_form("carol@example.com", "first"), &mut jar, None, &mut db), Ok(Status::Created));
    let before = User::get_by_email(&db, "carol@example.com").expect("account");
    let before_hash = before.password.as_str().to_string();
    let sessions_before = db.sessions.find(&session_key(&jar)).is_some();

    let mut jar2 = CookieJar::new();
    let r = signup(&signup_form("carol@example.com", "second"), &mut jar2, None, &mut db);
    assert_eq!(r, Err(Status::Conflict));
    assert_eq!(r.unwrap_err().code(), 409);
    assert!(jar2.session.is_none());
    assert!(jar2.marker.is_none());
    let after = User::get_by_email(&db, "carol@example.com").expect("account");
    assert_eq!(after.id, before.id);
    assert_eq!(after.password.as_str(), before_hash);
    assert!(after.verify_password("first"));
    assert!(!after.verify_password("second"));
    assert_eq!(db.sessions.find(&session_key(&jar)).is_some(), sessions_before);
}

#[test]
fn signup_while_signed_in_is_refused() {
    let mut db = Database::new();
    let mut jar = CookieJar::new();
    assert_eq!(signup(&signup_form("dan@example.com", "pw"), &mut jar, None, &mut db), Ok(Status::Created));
    let session = resolve(&jar, &db);
    assert!(session.is_some());
    let r = signup(&signup_form("dan2@example.com", "pw"), &mut jar, session, &mut db);
    assert_eq!(r, Err(Status::BadRequest));
    assert_eq!(r.unwrap_err().code(), 400);
    assert!(!User::email_taken(&db, "dan2@example.com"));
}

#[test]
fn login_unknown_email_and_wrong_password_look_alike() {
    let mut db = Database::new();
    let mut jar = CookieJar::new();
    assert_eq!(signup(&signup_form("erin@example.com", "right"), &mut jar, None, &mut db), Ok(Status::Created));

    let mut jar_a = CookieJar::new();
    let a = login(&login_form("nobody@example.com", "right"), &mut db, &mut jar_a, None);
    let mut jar_b = CookieJar::new();
    let b = login(&login_form("erin@example.com", "wrong"), &mut db, &mut jar_b, None);
    assert_eq!(a, Err(Status::Unauthorized));
    assert_eq!(a, b);
    assert!(jar_a.session.is_none() && jar_a.marker.is_none());
    assert!(jar_b.session.is_none() && jar_b.marker.is_none());
}

#[test]
fn login_email_match_is_exact() {
    let mut db = Database::new();
    let mut jar = CookieJar::new();
    assert_eq!(signup(&signup_form("frank@example.com", "pw"), &mut jar, None, &mut db), Ok(Status::Created));
    let mut jar2 = CookieJar::new();
    assert_eq!(login(&login_form("Frank@example.com", "pw"), &mut db, &mut jar2, None), Err(Status::Unauthorized));
}

#[test]
fn login_while_signed_in_is_refused() {
    let mut db = Database::new();
    let mut jar = CookieJar::new();
    assert_eq!(signup(&signup_form("gina@example.com", "pw"), &mut jar, None, &mut db), Ok(Status::Created));
    let session = resolve(&jar, &db);
    let r = login(&login_form("gina@example.com", "pw"), &mut db, &mut jar, session);
    assert_eq!(r, Err(Status::BadRequest));
}

#[test]
fn logout_twice_is_a_bad_request_not_a_fault() {
    let mut db = Database::new();
    let mut jar = CookieJar::new();
    assert_eq!(signup(&signup_form("hank@example.com", "pw"), &mut jar, None, &mut db), Ok(Status::Created));
    let key = session_key(&jar);
    let kept = CookieJar { session: Some(notes_api::session::Cookie {
        name: "session".to_string(),
        value: key.clone(),
        expires: None,
        http_only: true,
        same_site_strict: true,
    }), marker: None };

    let session = resolve(&jar, &db);
    assert_eq!(logout(session, &mut jar, &mut db), Ok(Status::Success));
    assert!(db.sessions.find(&key).is_none());
    assert!(matches!(Session::from_request(&kept, &db), Err(SessionError::NotFound)));

    let mut jar2 = CookieJar { session: kept.session, marker: None };
    let again = resolve(&jar2, &db);
    assert!(again.is_none());
    assert_eq!(logout(again, &mut jar2, &mut db), Err(Status::BadRequest));
}

#[test]
fn no_cookie_is_no_session() {
    let db = Database::new();
    let jar = CookieJar::new();
    assert!(matches!(Session::from_request(&jar, &db), Err(SessionError::NoCookie)));
    assert!(matches!(User::from_request(&jar, &db), Err(notes_api::db::user::UserError::NotFound)));
    assert_eq!(check(None), Err(Status::Unauthorized));
}

#[test]
fn orphaned_session_does_not_resolve_a_user() {
    let mut db = Database::new();
    let session = Session::new(42, "orphan-key".to_string());
    assert!(db.sessions.insert(&session));
    let mut jar = CookieJar::new();
    session.attach(&mut jar, 0);
    assert!(Session::from_request(&jar, &db).is_ok());
    assert!(matches!(User::from_request(&jar, &db), Err(notes_api::db::user::UserError::NotFound)));
}

#[test]
fn salted_signup_on_an_empty_store_is_created() {
    let mut db = Database::new();
    let mut jar = CookieJar::new();
    let salt = User::new_salt().expect("salt");
    let r = notes_api::routes::account::signup_salted(
        &signup_form("alice@example.com", "hunter2"),
        &mut jar,
        None,
        &mut db,
        &salt,
    );
    assert_eq!(r, Ok(Status::Created));
    let account = User::get_by_email(&db, "alice@example.com").expect("account");
    assert!(account.verify_password("hunter2"));
    assert_ne!(account.password.as_str(), "hunter2");
}

#[test]
fn login_with_key_opens_that_session() {
    let mut db = Database::new();
    let mut first = CookieJar::new();
    assert_eq!(signup(&signup_form("kim@example.com", "pw"), &mut first, None, &mut db), Ok(Status::Created));
    let mut jar = CookieJar::new();
    let r = notes_api::routes::auth::login_with_key(
        &login_form("kim@example.com", "pw"),
        &mut db,
        &mut jar,
        None,
        "chosen-key".to_string(),
        5_000,
    );
    assert_eq!(r, Ok(Status::Success));
    assert_eq!(session_key(&jar), "chosen-key");
    assert_eq!(jar.session.as_ref().unwrap().expires, Some(5_000 + 2_419_200_000));
    assert_eq!(jar.marker.as_ref().unwrap().value, "authenticated");
    let account = User::get_by_email(&db, "kim@example.com").unwrap();
    assert_eq!(db.sessions.find("chosen-key").unwrap().user_id, account.id);

    let mut jar2 = CookieJar::new();
    let again = notes_api::routes::auth::login_with_key(
        &login_form("kim@example.com", "pw"),
        &mut db,
        &mut jar2,
        None,
        "chosen-key".to_string(),
        6_000,
    );
    assert_eq!(again, Err(Status::InternalServerError));
    assert!(jar2.session.is_none());
    let wrong = notes_api::routes::auth::login_with_key(
        &login_form("kim@example.com", "nope"),
        &mut db,
        &mut jar2,
        None,
        "other-key".to_string(),
        6_000,
    );
    assert_eq!(wrong, Err(Status::Unauthorized));
}
