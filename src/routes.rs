use vstd::prelude::*;

pub mod account;
pub mod auth;
pub mod images;
pub mod lifecycle;
pub mod notes;

use crate::db::Database;
use crate::session::{carries_session, CookieJar};

verus! {

/// The outcome of a request, as an HTTP status.
#[derive(Debug, Clone, Copy, PartialEq, Eq, Structural)]
pub enum Status {
    Success,
    Created,
    BadRequest,
    Unauthorized,
    NotFound,
    Conflict,
    InternalServerError,
}

impl Status {
    /// The numeric HTTP status code.
    pub open spec fn spec_code(&self) -> u16 {
        match self {
            Status::Success => 200,
            Status::Created => 201,
            Status::BadRequest => 400,
            Status::Unauthorized => 401,
            Status::NotFound => 404,
            Status::Conflict => 409,
            Status::InternalServerError => 500,
        }
    }

    /// The numeric HTTP status code.
    pub fn code(&self) -> (r: u16)
        ensures
            r == self.spec_code(),
    {
        match self {
            Status::Success => 200,
            Status::Created => 201,
            Status::BadRequest => 400,
            Status::Unauthorized => 401,
            Status::NotFound => 404,
            Status::Conflict => 409,
            Status::InternalServerError => 500,
        }
    }
}

/// Neither the session table nor the client's cookies moved.
pub open spec fn sessions_untouched(db0: Database, db1: Database, jar0: CookieJar, jar1: CookieJar) -> bool {
    &&& db1.sessions@ == db0.sessions@
    &&& jar1 == jar0
}

/// A new session for `user_id` was stored under a key that was free, and the
/// client's cookies now carry that key: the private cookie with its expiry and
/// flags, and the public marker.
pub open spec fn session_opened(db0: Database, db1: Database, jar1: CookieJar, user_id: i32) -> bool {
    exists|k: Seq<char>, t: i64|
        {
            &&& !db0.sessions@.contains_key(k)
            &&& db1.sessions@ == db0.sessions@.insert(k, user_id)
            &&& #[trigger] carries_session(jar1, k, t)
        }
}

} // verus!
