use vstd::prelude::*;

use crate::db::user::{argon2_accepts, User};
use crate::db::Database;
use crate::routes::{session_opened, sessions_untouched, Status};
use crate::session::{carries_session, CookieJar, Session};

verus! {

/// What a client sends to sign in.
pub struct LoginForm {
    /// The account's email.
    pub email: String,
    /// The plaintext password, not yet checked.
    pub password: String,
}

/// Whether an account with `email` exists and accepts `password`.
pub open spec fn credentials_match(db: Database, email: Seq<char>, password: Seq<char>) -> bool {
    &&& db.users@.contains_key(email)
    &&& argon2_accepts(db.users@[email].1, password)
}

/// What `login` does: refuse a client that is signed in; refuse, alike, an
/// unknown email and a wrong password; else open a session for the account, or
/// fail as a whole when no session could be stored.
pub open spec fn login_post(
    db0: Database,
    db1: Database,
    jar0: CookieJar,
    jar1: CookieJar,
    signed_in: bool,
    email: Seq<char>,
    password: Seq<char>,
    r: Result<Status, Status>,
) -> bool {
    &&& db1.wf()
    &&& db1.users == db0.users
    &&& db1.notes == db0.notes
    &&& db1.images == db0.images
    &&& if signed_in {
        r == Err::<Status, Status>(Status::BadRequest) && sessions_untouched(db0, db1, jar0, jar1)
    } else if !credentials_match(db0, email, password) {
        r == Err::<Status, Status>(Status::Unauthorized) && sessions_untouched(db0, db1, jar0, jar1)
    } else {
        ||| r == Ok::<Status, Status>(Status::Success) && session_opened(db0, db1, jar1, db0.users@[email].0)
        ||| r == Err::<Status, Status>(Status::InternalServerError) && sessions_untouched(
            db0,
            db1,
            jar0,
            jar1,
        )
    }
}

/// What `login_with_key` does: the same refusals as `login`; then the session
/// is opened under `key`, issued at `now`, exactly when that key is free.
pub open spec fn login_with_key_post(
    db0: Database,
    db1: Database,
    jar0: CookieJar,
    jar1: CookieJar,
    signed_in: bool,
    email: Seq<char>,
    password: Seq<char>,
    key: Seq<char>,
    now: i64,
    r: Result<Status, Status>,
) -> bool {
    &&& db1.wf()
    &&& db1.users == db0.users
    &&& db1.notes == db0.notes
    &&& db1.images == db0.images
    &&& if signed_in {
        r == Err::<Status, Status>(Status::BadRequest) && sessions_untouched(db0, db1, jar0, jar1)
    } else if !credentials_match(db0, email, password) {
        r == Err::<Status, Status>(Status::Unauthorized) && sessions_untouched(db0, db1, jar0, jar1)
    } else if db0.sessions@.contains_key(key) {
        r == Err::<Status, Status>(Status::InternalServerError) && sessions_untouched(db0, db1, jar0, jar1)
    } else {
        &&& r == Ok::<Status, Status>(Status::Success)
        &&& db1.sessions@ == db0.sessions@.insert(key, db0.users@[email].0)
        &&& carries_session(jar1, key, now)
    }
}

/// What `logout` does: refuse a client without a session; else delete the
/// session's row, whether or not it was still there, and clear both cookies.
pub open spec fn logout_post(
    db0: Database,
    db1: Database,
    jar0: CookieJar,
    jar1: CookieJar,
    key: Option<Seq<char>>,
    r: Result<Status, Status>,
) -> bool {
    &&& db1.wf()
    &&& db1.users == db0.users
    &&& db1.notes == db0.notes
    &&& db1.images == db0.images
    &&& match key {
        None => r == Err::<Status, Status>(Status::BadRequest) && sessions_untouched(db0, db1, jar0, jar1),
        Some(k) => {
            &&& r == Ok::<Status, Status>(Status::Success)
            &&& db1.sessions@ == db0.sessions@.remove(k)
            &&& jar1.wf()
            &&& jar1.session is None
        },
    }
}

/// The account that `login_details` names, if the client is signed out and
/// the password matches; else the refusal.
fn authenticate(login_details: &LoginForm, conn: &Database, signed_in: bool) -> (r: Result<i32, Status>)
    requires
        conn.wf(),
    ensures
        signed_in ==> r == Err::<i32, Status>(Status::BadRequest),
        !signed_in && !credentials_match(*conn, login_details.email@, login_details.password@) ==> r
            == Err::<i32, Status>(Status::Unauthorized),
        !signed_in && credentials_match(*conn, login_details.email@, login_details.password@) ==> r
            == Ok::<i32, Status>(conn.users@[login_details.email@].0),
{
    if signed_in {
        return Err(Status::BadRequest);
    }
    let user = match User::get_by_email(conn, login_details.email.as_str()) {
        Some(user) => user,
        None => return Err(Status::Unauthorized),
    };
    if !user.verify_password(login_details.password.as_str()) {
        return Err(Status::Unauthorized);
    }
    Ok(user.id)
}

/// Signs in with an email and password, opening the session under `key` as
/// issued at `now`. Both an unknown email and a wrong password give
/// `Unauthorized`; a key already in use gives a server error.
pub fn login_with_key(
    login_details: &LoginForm,
    conn: &mut Database,
    jar: &mut CookieJar,
    session: Option<Session>,
    key: String,
    now: i64,
) -> (r: Result<Status, Status>)
    requires
        old(conn).wf(),
    ensures
        login_with_key_post(
            *old(conn),
            *final(conn),
            *old(jar),
            *final(jar),
            session is Some,
            login_details.email@,
            login_details.password@,
            key@,
            now,
            r,
        ),
{
    let user_id = match authenticate(login_details, conn, session.is_some()) {
        Ok(user_id) => user_id,
        Err(status) => return Err(status),
    };
    match Session::open(user_id, key, now, jar, conn) {
        Some(_) => Ok(Status::Success),
        None => Err(Status::InternalServerError),
    }
}

/// Signs in with an email and password, under a fresh random session key.
/// Both an unknown email and a wrong password give `Unauthorized`, so that
/// neither can be told from the other; a failure of the random source gives a
/// server error.
pub fn login(
    login_details: &LoginForm,
    conn: &mut Database,
    jar: &mut CookieJar,
    session: Option<Session>,
) -> (r: Result<Status, Status>)
    requires
        old(conn).wf(),
    ensures
        login_post(
            *old(conn),
            *final(conn),
            *old(jar),
            *final(jar),
            session is Some,
            login_details.email@,
            login_details.password@,
            r,
        ),
{
    let user_id = match authenticate(login_details, conn, session.is_some()) {
        Ok(user_id) => user_id,
        Err(status) => return Err(status),
    };
    let ghost db0 = *conn;
    match Session::init(user_id, jar, conn) {
        Some(opened) => {
            assert(!db0.sessions@.contains_key(opened.spec_key()));
            Ok(Status::Success)
        },
        None => Err(Status::InternalServerError),
    }
}

/// Signs out: deletes the client's session and clears its cookies. The cookies
/// are cleared only once the row is gone.
pub fn logout(session: Option<Session>, jar: &mut CookieJar, conn: &mut Database) -> (r: Result<
    Status,
    Status,
>)
    requires
        old(conn).wf(),
    ensures
        logout_post(
            *old(conn),
            *final(conn),
            *old(jar),
            *final(jar),
            match session {
                Some(s) => Some(s.spec_key()),
                None => None,
            },
            r,
        ),
{
    match session {
        Some(session) => {
            session.delete(jar, conn);
            Ok(Status::Success)
        },
        None => Err(Status::BadRequest),
    }
}

/// Whether the request signs in some account.
pub fn check(user: Option<User>) -> (r: Result<Status, Status>)
    ensures
        user is Some ==> r == Ok::<Status, Status>(Status::Success),
        user is None ==> r == Err::<Status, Status>(Status::Unauthorized),
{
    match user {
        Some(_) => Ok(Status::Success),
        None => Err(Status::Unauthorized),
    }
}

} // verus!
