use vstd::prelude::*;

pub mod note;
pub mod user;

use crate::db::note::{NoteTable, NoteView};
use crate::db::user::{UserError, UserTable};
use crate::routes::images::{ImageRow, ImageTable};
use crate::session::{CookieJar, SessionError, SessionTable};

verus! {

/// The service's relational store: one table per kind of record.
pub struct Database {
    pub users: UserTable,
    pub sessions: SessionTable,
    pub notes: NoteTable,
    pub images: ImageTable,
}

impl Database {
    /// Every table keeps its own invariant.
    pub open spec fn wf(&self) -> bool {
        &&& self.users.wf()
        &&& self.sessions.wf()
        &&& self.notes.wf()
        &&& self.images.wf()
    }

    /// The user id that the session cookie of `jar` stands for, as the session
    /// table says.
    pub open spec fn session_of(&self, jar: CookieJar) -> Result<i32, SessionError> {
        match jar.session_key() {
            None => Err(SessionError::NoCookie),
            Some(k) => if self.sessions@.contains_key(k) {
                Ok(self.sessions@[k])
            } else {
                Err(SessionError::NotFound)
            },
        }
    }

    /// The account that `jar` signs in: its session must be stored, and the
    /// user it names must exist.
    pub open spec fn identity(&self, jar: CookieJar) -> Result<i32, UserError> {
        match self.session_of(jar) {
            Ok(id) => if self.users.has_id(id) {
                Ok(id)
            } else {
                Err(UserError::NotFound)
            },
            Err(_) => Err(UserError::NotFound),
        }
    }

    /// An empty store.
    pub fn new() -> (r: Database)
        ensures
            r.wf(),
            r.users@ == Map::<Seq<char>, (i32, Seq<char>)>::empty(),
            r.sessions@ == Map::<Seq<char>, i32>::empty(),
            r.notes@ == Seq::<(i32, NoteView)>::empty(),
            r.images@ == Seq::<ImageRow>::empty(),
            !r.users.ids_exhausted(),
            !r.notes.ids_exhausted(),
            !r.images.ids_exhausted(),
    {
        Database {
            users: UserTable::new(), sessions: SessionTable::new(), notes: NoteTable::new(),
            images: ImageTable::new(),
        }
    }
}

} // verus!
