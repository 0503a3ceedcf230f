use vstd::prelude::*;

use crate::db::user::{argon2_accepts, hash_of, HashedPassword, User, UserError};
use crate::db::Database;
use crate::routes::account::signup_post;
use crate::routes::auth::{login_post, login_with_key_post, logout_post};
use crate::routes::Status;
use crate::session::{carries_session, CookieJar, SessionError};

verus! {

/// After a signup that created the account, signing in with the same email and
/// password succeeds unless no session could be stored; the session it opens
/// is stored under the key of the new cookie, for the new account, and the
/// cookie then resolves to that account.
pub proof fn lemma_signup_then_login(
    db0: Database,
    db1: Database,
    db2: Database,
    jar0: CookieJar,
    jar1: CookieJar,
    jar2: CookieJar,
    jar3: CookieJar,
    email: Seq<char>,
    password: Seq<char>,
    r1: Result<Status, Status>,
    r2: Result<Status, Status>,
)
    requires
        db0.wf(),
        signup_post(db0, db1, jar0, jar1, false, email, password, r1),
        r1 == Ok::<Status, Status>(Status::Created),
        login_post(db1, db2, jar2, jar3, false, email, password, r2),
    ensures
        r2 == Ok::<Status, Status>(Status::Success) || r2 == Err::<Status, Status>(
            Status::InternalServerError,
        ),
        r2 is Ok ==> {
            let id = db2.users@[email].0;
            &&& db2.users@.contains_key(email)
            &&& jar3.session_key() is Some
            &&& db2.sessions@.contains_key(jar3.session_key()->Some_0)
            &&& db2.sessions@[jar3.session_key()->Some_0] == id
            &&& db2.identity(jar3) == Ok::<i32, UserError>(id)
        },
{
    if r2 is Ok {
        let (k, t) = choose|k: Seq<char>, t: i64|
            {
                &&& !db1.sessions@.contains_key(k)
                &&& db2.sessions@ == db1.sessions@.insert(k, db1.users@[email].0)
                &&& #[trigger] carries_session(jar3, k, t)
            };
        assert(db2.sessions@.contains_key(k));
        assert(db2.users@.contains_key(email));
    }
}

/// After a signup that created the account, signing in with the same email and
/// password under a session key that is free succeeds: the session is stored
/// under that key for the new account, the client's cookies carry it, and they
/// resolve to the new account.
pub proof fn lemma_signup_then_login_with_key(
    db0: Database,
    db1: Database,
    db2: Database,
    jar0: CookieJar,
    jar1: CookieJar,
    jar2: CookieJar,
    jar3: CookieJar,
    email: Seq<char>,
    password: Seq<char>,
    key: Seq<char>,
    now: i64,
    r1: Result<Status, Status>,
    r2: Result<Status, Status>,
)
    requires
        db0.wf(),
        signup_post(db0, db1, jar0, jar1, false, email, password, r1),
        r1 == Ok::<Status, Status>(Status::Created),
        !db1.sessions@.contains_key(key),
        login_with_key_post(db1, db2, jar2, jar3, false, email, password, key, now, r2),
    ensures
        r2 == Ok::<Status, Status>(Status::Success),
        db2.users@.contains_key(email),
        db2.sessions@.contains_key(key),
        db2.sessions@[key] == db2.users@[email].0,
        jar3.session_key() == Some(key),
        db2.identity(jar3) == Ok::<i32, UserError>(db2.users@[email].0),
{
    assert(db2.sessions@.contains_key(key));
    assert(db2.users@.contains_key(email));
}

/// Signing up, signed out, with an email that an account already has fails with
/// a conflict, and changes neither the accounts, nor the sessions, nor the
/// client's cookies.
pub proof fn lemma_signup_conflict(
    db0: Database,
    db1: Database,
    jar0: CookieJar,
    jar1: CookieJar,
    email: Seq<char>,
    password: Seq<char>,
    r: Result<Status, Status>,
)
    requires
        db0.wf(),
        db0.users@.contains_key(email),
        signup_post(db0, db1, jar0, jar1, false, email, password, r),
    ensures
        r == Err::<Status, Status>(Status::Conflict),
        db1.users@ == db0.users@,
        db1.sessions@ == db0.sessions@,
        jar1 == jar0,
{
}

/// Signing in with an email that no account has, and signing in to an account
/// with a wrong password, give the same outcome, `Unauthorized`, and change
/// nothing.
pub proof fn lemma_login_failures_alike(
    db: Database,
    db_a: Database,
    db_b: Database,
    jar: CookieJar,
    jar_a: CookieJar,
    jar_b: CookieJar,
    unknown: Seq<char>,
    known: Seq<char>,
    password_a: Seq<char>,
    password_b: Seq<char>,
    r_a: Result<Status, Status>,
    r_b: Result<Status, Status>,
)
    requires
        db.wf(),
        !db.users@.contains_key(unknown),
        db.users@.contains_key(known),
        !argon2_accepts(db.users@[known].1, password_b),
        login_post(db, db_a, jar, jar_a, false, unknown, password_a, r_a),
        login_post(db, db_b, jar, jar_b, false, known, password_b, r_b),
    ensures
        r_a == r_b,
        r_a == Err::<Status, Status>(Status::Unauthorized),
        db_a.sessions@ == db.sessions@ && jar_a == jar,
        db_b.sessions@ == db.sessions@ && jar_b == jar,
{
}

/// Signing out with a valid session succeeds; afterwards the old cookie no
/// longer resolves (its session is `NotFound`, and it signs in no account), and
/// signing out again, with no session to resolve, is a bad request and not a
/// fault.
pub proof fn lemma_logout_revokes(
    db0: Database,
    db1: Database,
    db2: Database,
    jar: CookieJar,
    jar1: CookieJar,
    jar2: CookieJar,
    key: Seq<char>,
    r1: Result<Status, Status>,
    r2: Result<Status, Status>,
)
    requires
        db0.wf(),
        jar.session_key() == Some(key),
        db0.session_of(jar) is Ok,
        logout_post(db0, db1, jar, jar1, Some(key), r1),
        logout_post(db1, db2, jar, jar2, None, r2),
    ensures
        r1 == Ok::<Status, Status>(Status::Success),
        db1.session_of(jar) == Err::<i32, SessionError>(SessionError::NotFound),
        db1.identity(jar) == Err::<i32, UserError>(UserError::NotFound),
        r2 == Err::<Status, Status>(Status::BadRequest),
{
}

/// A password hashed by `User::hash_password` (whose result satisfies
/// `hash_of`) is accepted by `User::verify_password` on the record that
/// `User::new` builds with that hash.
pub proof fn lemma_password_round_trip(
    password: Seq<char>,
    hashed: Result<HashedPassword, UserError>,
    user: User,
    verified: bool,
)
    requires
        hashed is Ok,
        hashed is Ok ==> hash_of(hashed->Ok_0@, password),
        user.hash() == hashed->Ok_0@,
        verified == argon2_accepts(user.hash(), password),
    ensures
        verified,
{
}

} // verus!
