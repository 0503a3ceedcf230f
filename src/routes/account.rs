use vstd::prelude::*;

use crate::db::user::{hash_of, User, MAX_PASSWORD_CHARS, SALT_LEN};
use crate::db::Database;
use crate::routes::{session_opened, sessions_untouched, Status};
use crate::session::{CookieJar, Session};

verus! {

/// What a client sends to open an account.
pub struct SignupForm {
    /// The email to sign in with.
    pub email: String,
    /// The plaintext password, hashed before it is stored.
    pub password: String,
}

/// A new account for `email` was added under a fresh id, with a hash that
/// accepts `password`; no other account moved.
pub open spec fn account_created(db0: Database, db1: Database, email: Seq<char>, password: Seq<char>) -> bool {
    &&& !db0.users@.contains_key(email)
    &&& db1.users@.contains_key(email)
    &&& db1.users@ == db0.users@.insert(email, db1.users@[email])
    &&& hash_of(db1.users@[email].1, password)
    &&& db0.users.id_is_fresh(db1.users@[email].0)
}

/// What `signup` does: refuse a client that is signed in, then an email that is
/// taken; else create the account (or fail as a whole when that cannot be
/// done) and sign the client in to it where a session can be stored.
pub open spec fn signup_post(
    db0: Database,
    db1: Database,
    jar0: CookieJar,
    jar1: CookieJar,
    signed_in: bool,
    email: Seq<char>,
    password: Seq<char>,
    r: Result<Status, Status>,
) -> bool {
    &&& db1.wf()
    &&& db1.notes == db0.notes
    &&& db1.images == db0.images
    &&& if signed_in {
        &&& r == Err::<Status, Status>(Status::BadRequest)
        &&& db1.users@ == db0.users@
        &&& sessions_untouched(db0, db1, jar0, jar1)
    } else if db0.users@.contains_key(email) {
        &&& r == Err::<Status, Status>(Status::Conflict)
        &&& db1.users@ == db0.users@
        &&& sessions_untouched(db0, db1, jar0, jar1)
    } else {
        ||| {
            &&& r == Err::<Status, Status>(Status::InternalServerError)
            &&& db1.users@ == db0.users@
            &&& sessions_untouched(db0, db1, jar0, jar1)
        }
        ||| {
            &&& r == Ok::<Status, Status>(Status::Created)
            &&& account_created(db0, db1, email, password)
            &&& (session_opened(db0, db1, jar1, db1.users@[email].0) || sessions_untouched(
                db0,
                db1,
                jar0,
                jar1,
            ))
        }
    }
}

/// Opens an account, its password hashed under `salt`, and signs the client
/// in to it. Past the refusals (signed in, email taken), the account is owed
/// whenever an id is left and the password is at most `MAX_PASSWORD_CHARS`
/// characters long.
pub fn signup_salted(
    user_info: &SignupForm,
    jar: &mut CookieJar,
    session: Option<Session>,
    conn: &mut Database,
    salt: &Vec<u8>,
) -> (r: Result<Status, Status>)
    requires
        old(conn).wf(),
        salt@.len() == SALT_LEN,
    ensures
        signup_post(
            *old(conn),
            *final(conn),
            *old(jar),
            *final(jar),
            session is Some,
            user_info.email@,
            user_info.password@,
            r,
        ),
        session is None && !old(conn).users@.contains_key(user_info.email@)
            && !old(conn).users.ids_exhausted() && user_info.password@.len() <= MAX_PASSWORD_CHARS
            ==> r == Ok::<Status, Status>(Status::Created),
{
    if session.is_some() {
        return Err(Status::BadRequest);
    }
    if User::email_taken(conn, user_info.email.as_str()) {
        return Err(Status::Conflict);
    }
    if !User::create_with_salt(conn, user_info.email.as_str(), user_info.password.as_str(), salt) {
        return Err(Status::InternalServerError);
    }
    let ghost created = *conn;
    if let Some(user) = User::get_by_email(conn, user_info.email.as_str()) {
        match Session::init(user.id, jar, conn) {
            Some(opened) => {
                assert(!created.sessions@.contains_key(opened.spec_key()));
            },
            None => {},
        }
    }
    Ok(Status::Created)
}

/// Opens an account and signs the client in to it, hashing the password under
/// a fresh random salt. A failure of the random source is a server error.
pub fn signup(
    user_info: &SignupForm,
    jar: &mut CookieJar,
    session: Option<Session>,
    conn: &mut Database,
) -> (r: Result<Status, Status>)
    requires
        old(conn).wf(),
    ensures
        signup_post(
            *old(conn),
            *final(conn),
            *old(jar),
            *final(jar),
            session is Some,
            user_info.email@,
            user_info.password@,
            r,
        ),
{
    if session.is_some() {
        return Err(Status::BadRequest);
    }
    if User::email_taken(conn, user_info.email.as_str()) {
        return Err(Status::Conflict);
    }
    match User::new_salt() {
        Some(salt) => signup_salted(user_info, jar, session, conn, &salt),
        None => Err(Status::InternalServerError),
    }
}

} // verus!
