use vstd::prelude::*;

use argon2::password_hash::rand_core::{OsRng, RngCore};
use argon2::password_hash::SaltString;
use argon2::{PasswordHasher, PasswordVerifier};

use crate::db::Database;
use crate::session::{CookieJar, Session, SessionError};

verus! {

/// Whether argon2 accepts `password` against the PHC string `phc`: the string
/// parses, and recomputing the digest with its algorithm, parameters and salt
/// gives the digest it holds.
pub uninterp spec fn argon2_accepts(phc: Seq<char>, password: Seq<char>) -> bool;

#[verifier::external_type_specification]
#[verifier::external_body]
pub struct ExPasswordHashError(argon2::password_hash::Error);

#[verifier::external_type_specification]
#[verifier::external_body]
pub struct ExRandError(argon2::password_hash::rand_core::Error);

/// Number of random bytes in each password salt.
pub const SALT_LEN: usize = 16;

/// Longest password, in characters, whose hashing is owed: argon2 refuses a
/// password only above `0xFFFF_FFFF` bytes, and a character takes at most four.
pub const MAX_PASSWORD_CHARS: usize = 0x3FFF_FFFF;

/// The text that every PHC string of `Argon2::default()` starts with.
pub const ARGON2ID_PREFIX: &'static str = "$argon2id$";

/// Relies on `argon2::PasswordHash::new`, to parse the stored PHC string, and on
/// `PasswordVerifier::verify_password` of `Argon2::default()`, which takes its
/// parameters from the parsed hash. A string that does not parse is refused:
/// in particular an empty one, and one that does not start with `$`.
#[verifier::external_body]
fn argon2_verify(phc: &str, password: &str) -> (r: bool)
    ensures
        r == argon2_accepts(phc@, password@),
        (phc@.len() == 0 || phc@[0] != '$') ==> !r,
{
    match argon2::PasswordHash::new(phc) {
        Ok(parsed) => argon2::Argon2::default().verify_password(password.as_bytes(), &parsed).is_ok(),
        Err(_) => false,
    }
}

/// Relies on `RngCore::try_fill_bytes` of `OsRng`: it fills the whole buffer
/// from the operating system's secure source, or reports that source's error.
#[verifier::external_body]
fn draw_salt(buf: &mut Vec<u8>) -> (r: Result<(), argon2::password_hash::rand_core::Error>)
    ensures
        final(buf)@.len() == old(buf)@.len(),
{
    OsRng.try_fill_bytes(buf.as_mut_slice())
}

/// Relies on `SaltString::encode_b64`, which takes any salt of up to 48 bytes,
/// and on `PasswordHasher::hash_password` of `Argon2::default()` (Argon2id),
/// rendered with `to_string`. Hashing refuses only a password above
/// `0xFFFF_FFFF` bytes; the PHC string it gives starts with `$argon2id$`, and
/// `argon2_verify` accepts it for the same password (the round trip that the
/// crate documents).
#[verifier::external_body]
fn argon2_hash(password: &str, salt: &Vec<u8>) -> (r: Result<String, argon2::password_hash::Error>)
    requires
        salt@.len() == SALT_LEN,
    ensures
        password@.len() <= MAX_PASSWORD_CHARS ==> r is Ok,
        r is Ok ==> argon2_accepts(r->Ok_0@, password@),
        r is Ok ==> r->Ok_0@.len() >= ARGON2ID_PREFIX@.len() && r->Ok_0@.subrange(
            0,
            ARGON2ID_PREFIX@.len() as int,
        ) == ARGON2ID_PREFIX@,
{
    let salt = match SaltString::encode_b64(salt.as_slice()) {
        Ok(salt) => salt,
        Err(e) => return Err(e),
    };
    match argon2::Argon2::default().hash_password(password.as_bytes(), &salt) {
        Ok(hash) => Ok(hash.to_string()),
        Err(e) => Err(e),
    }
}

/// What a successful hash of `password` is: a PHC string of Argon2id that
/// argon2 accepts for `password`.
pub open spec fn hash_of(phc: Seq<char>, password: Seq<char>) -> bool {
    &&& argon2_accepts(phc, password)
    &&& phc.len() >= ARGON2ID_PREFIX@.len()
    &&& phc.subrange(0, ARGON2ID_PREFIX@.len() as int) == ARGON2ID_PREFIX@
}

/// A hashed password: a PHC string naming the algorithm, its parameters, the
/// salt and the digest. Never the plaintext.
pub struct HashedPassword(String);

impl View for HashedPassword {
    type V = Seq<char>;

    closed spec fn view(&self) -> Seq<char> {
        self.0@
    }
}

impl HashedPassword {
    /// Wraps a PHC string as read back from storage.
    pub fn from_phc(phc: String) -> (r: HashedPassword)
        ensures
            r@ == phc@,
    {
        HashedPassword(phc)
    }

    /// The PHC string.
    pub fn as_str(&self) -> (r: &str)
        ensures
            r@ == self@,
    {
        self.0.as_str()
    }
}

/// Errors that can occur when resolving the user of a request.
#[derive(Debug, PartialEq, Eq, Structural)]
pub enum UserError {
    NotFound,
    ServerError,
}

/// Everything known about one account.
pub struct User {
    /// Stable identity of the account.
    pub id: i32,
    /// The address the account signs in with; unique over all accounts.
    pub email: String,
    /// The stored hash of the password.
    pub password: HashedPassword,
}

impl User {
    /// The stored PHC string of the account.
    pub open spec fn hash(&self) -> Seq<char> {
        self.password@
    }

    /// Builds a user record from its parts.
    pub fn new(id: i32, email: String, password: HashedPassword) -> (r: User)
        ensures
            r.id == id,
            r.email@ == email@,
            r.hash() == password@,
    {
        User { id, email, password }
    }

    /// Whether `password` matches the stored hash. A stored hash that does not
    /// parse refuses every password, exactly as a wrong password does.
    pub fn verify_password(&self, password: &str) -> (r: bool)
        ensures
            r == argon2_accepts(self.hash(), password@),
    {
        argon2_verify(self.password.as_str(), password)
    }

    /// A fresh salt of `SALT_LEN` bytes from the operating system's secure
    /// source; `None` when that source fails.
    pub fn new_salt() -> (r: Option<Vec<u8>>)
        ensures
            r is Some ==> r->Some_0@.len() == SALT_LEN,
    {
        let mut buf: Vec<u8> = Vec::new();
        let mut i: usize = 0;
        while i < SALT_LEN
            invariant
                i <= SALT_LEN,
                buf@.len() == i,
            decreases SALT_LEN - i,
        {
            buf.push(0u8);
            i += 1;
        }
        match draw_salt(&mut buf) {
            Ok(()) => Some(buf),
            Err(_) => None,
        }
    }

    /// Hashes `password` with Argon2id under `salt`. Owed for every password of
    /// at most `MAX_PASSWORD_CHARS` characters.
    pub fn hash_password_salted(password: &str, salt: &Vec<u8>) -> (r: Result<HashedPassword, UserError>)
        requires
            salt@.len() == SALT_LEN,
        ensures
            password@.len() <= MAX_PASSWORD_CHARS ==> r is Ok,
            r is Ok ==> hash_of(r->Ok_0@, password@),
            r is Err ==> r->Err_0 == UserError::ServerError,
    {
        match argon2_hash(password, salt) {
            Ok(phc) => Ok(HashedPassword(phc)),
            Err(_) => Err(UserError::ServerError),
        }
    }

    /// Hashes `password` under a fresh random salt. A failure of the random
    /// source is a `ServerError`, never a panic.
    pub fn hash_password(password: &str) -> (r: Result<HashedPassword, UserError>)
        ensures
            r is Ok ==> hash_of(r->Ok_0@, password@),
            r is Err ==> r->Err_0 == UserError::ServerError,
    {
        match Self::new_salt() {
            Some(salt) => Self::hash_password_salted(password, &salt),
            None => Err(UserError::ServerError),
        }
    }

    /// The user with the given id, if there is one.
    pub fn get_by_id(conn: &Database, id: i32) -> (r: Option<User>)
        requires
            conn.wf(),
        ensures
            r is Some <==> conn.users.has_id(id),
            r is Some ==> {
                let u = r->Some_0;
                &&& u.id == id
                &&& conn.users@.contains_key(u.email@)
                &&& conn.users@[u.email@] == (id, u.hash())
                &&& forall|e: Seq<char>|
                    #[trigger] conn.users@.contains_key(e) && conn.users@[e].0 == id ==> e == u.email@
            },
    {
        proof {
            conn.users.lemma_ids_distinct();
        }
        conn.users.find_by_id(id)
    }

    /// The user whose email is exactly `email`, if there is one.
    pub fn get_by_email(conn: &Database, email: &str) -> (r: Option<User>)
        requires
            conn.wf(),
        ensures
            r is Some <==> conn.users@.contains_key(email@),
            r is Some ==> {
                let u = r->Some_0;
                &&& u.email@ == email@
                &&& conn.users@[email@] == (u.id, u.hash())
            },
    {
        conn.users.find_by_email(email)
    }

    /// Whether an account with exactly this email exists.
    pub fn email_taken(conn: &Database, email: &str) -> (r: bool)
        requires
            conn.wf(),
        ensures
            r == conn.users@.contains_key(email@),
    {
        conn.users.find_by_email(email).is_some()
    }

    /// Hashes `password` under `salt` and inserts a new account. Refused, with
    /// the store unchanged, when the email is taken or no id is left; owed
    /// otherwise, for any password of at most `MAX_PASSWORD_CHARS` characters.
    pub fn create_with_salt(conn: &mut Database, email: &str, password: &str, salt: &Vec<u8>) -> (r: bool)
        requires
            old(conn).wf(),
            salt@.len() == SALT_LEN,
        ensures
            final(conn).wf(),
            !r ==> final(conn).users@ == old(conn).users@,
            r ==> account_added(old(conn).users, final(conn).users, email@, password@),
            old(conn).users@.contains_key(email@) || old(conn).users.ids_exhausted() ==> !r,
            !old(conn).users@.contains_key(email@) && !old(conn).users.ids_exhausted()
                && password@.len() <= MAX_PASSWORD_CHARS ==> r,
            final(conn).sessions == old(conn).sessions,
            final(conn).notes == old(conn).notes,
            final(conn).images == old(conn).images,
    {
        let hashed = match Self::hash_password_salted(password, salt) {
            Ok(hashed) => hashed,
            Err(_) => return false,
        };
        conn.users.insert(email, hashed).is_some()
    }

    /// Hashes `password` under a fresh random salt and inserts a new account.
    /// Returns false, and leaves the store as it was, when the random source
    /// fails or the insert is refused (the email is taken, or no id is left).
    pub fn create(conn: &mut Database, email: &str, password: &str) -> (r: bool)
        requires
            old(conn).wf(),
        ensures
            final(conn).wf(),
            !r ==> final(conn).users@ == old(conn).users@,
            r ==> account_added(old(conn).users, final(conn).users, email@, password@),
            old(conn).users@.contains_key(email@) || old(conn).users.ids_exhausted() ==> !r,
            final(conn).sessions == old(conn).sessions,
            final(conn).notes == old(conn).notes,
            final(conn).images == old(conn).images,
    {
        match Self::new_salt() {
            Some(salt) => Self::create_with_salt(conn, email, password, &salt),
            None => false,
        }
    }

    /// The user making a request: the session of its cookie, then the account
    /// that session names. A missing cookie, an unknown session and an orphaned
    /// session all give `NotFound`.
    pub fn from_request(jar: &CookieJar, conn: &Database) -> (r: Result<User, UserError>)
        requires
            conn.wf(),
        ensures
            r is Ok <==> conn.identity(*jar) is Ok,
            r is Ok ==> {
                let u = r->Ok_0;
                &&& u.id == conn.identity(*jar)->Ok_0
                &&& conn.users@.contains_key(u.email@)
                &&& conn.users@[u.email@] == (u.id, u.hash())
                &&& forall|e: Seq<char>|
                    #[trigger] conn.users@.contains_key(e) && conn.users@[e].0 == u.id ==> e == u.email@
            },
            r is Err ==> r->Err_0 == conn.identity(*jar)->Err_0,
    {
        let session = match Session::from_request(jar, conn) {
            Ok(session) => session,
            Err(SessionError::DBError) => return Err(UserError::ServerError),
            Err(_) => return Err(UserError::NotFound),
        };
        match User::get_by_id(conn, session.user_id) {
            Some(user) => Ok(user),
            None => Err(UserError::NotFound),
        }
    }
}

/// `users1` is `users0` with one more account, for `email`: under an id no
/// account had, with an Argon2id hash that accepts `password`.
pub open spec fn account_added(users0: UserTable, users1: UserTable, email: Seq<char>, password: Seq<char>) -> bool {
    &&& !users0@.contains_key(email)
    &&& users1@.contains_key(email)
    &&& users1@ == users0@.insert(email, users1@[email])
    &&& hash_of(users1@[email].1, password)
    &&& users0.id_is_fresh(users1@[email].0)
}

/// The users table: the account rows, with email and id each unique.
pub struct UserTable {
    rows: Vec<User>,
    next_id: i32,
    index: Ghost<Map<Seq<char>, (i32, Seq<char>)>>,
}

impl View for UserTable {
    /// Each account's email, mapped to its id and its PHC string.
    type V = Map<Seq<char>, (i32, Seq<char>)>;

    closed spec fn view(&self) -> Map<Seq<char>, (i32, Seq<char>)> {
        self.index@
    }
}

impl UserTable {
    /// Rows and index agree, and every id is below the next one to hand out
    /// and names one email.
    pub closed spec fn wf(&self) -> bool {
        &&& 1 <= self.next_id
        &&& forall|i: int|
            0 <= i < self.rows.len() ==> {
                &&& self.index@.contains_key(#[trigger] self.rows[i].email@)
                &&& self.index@[self.rows[i].email@] == (self.rows[i].id, self.rows[i].hash())
                &&& 1 <= self.rows[i].id < self.next_id
            }
        &&& forall|e: Seq<char>|
            #[trigger] self.index@.contains_key(e) ==> exists|i: int|
                0 <= i < self.rows.len() && #[trigger] self.rows[i].email@ == e
        &&& forall|i: int, j: int|
            0 <= i < self.rows.len() && 0 <= j < self.rows.len() && #[trigger] self.rows[i].id
                == #[trigger] self.rows[j].id ==> self.rows[i].email@ == self.rows[j].email@
    }

    /// Whether some account has this id.
    pub open spec fn has_id(&self, id: i32) -> bool {
        exists|e: Seq<char>| #[trigger] self@.contains_key(e) && self@[e].0 == id
    }

    /// Whether no account has `id`.
    pub open spec fn id_is_fresh(&self, id: i32) -> bool {
        !self.has_id(id)
    }

    /// No two accounts share an id.
    pub proof fn lemma_ids_distinct(&self)
        requires
            self.wf(),
        ensures
            forall|e1: Seq<char>, e2: Seq<char>|
                #[trigger] self@.contains_key(e1) && #[trigger] self@.contains_key(e2) && self@[e1].0
                    == self@[e2].0 ==> e1 == e2,
    {
        assert forall|e1: Seq<char>, e2: Seq<char>|
            #[trigger] self@.contains_key(e1) && #[trigger] self@.contains_key(e2) && self@[e1].0
                == self@[e2].0 implies e1 == e2 by {
            let k1 = choose|k: int| 0 <= k < self.rows.len() && #[trigger] self.rows[k].email@ == e1;
            let k2 = choose|k: int| 0 <= k < self.rows.len() && #[trigger] self.rows[k].email@ == e2;
            assert(self.rows[k1].id == self.rows[k2].id);
        }
    }

    /// Whether every id has been handed out.
    pub closed spec fn ids_exhausted(&self) -> bool {
        self.next_id == i32::MAX
    }

    /// An empty table.
    pub fn new() -> (r: UserTable)
        ensures
            r.wf(),
            r@ == Map::<Seq<char>, (i32, Seq<char>)>::empty(),
            !r.ids_exhausted(),
    {
        UserTable { rows: Vec::new(), next_id: 1, index: Ghost(Map::empty()) }
    }

    fn copy_row(&self, i: usize) -> (r: User)
        requires
            i < self.rows.len(),
        ensures
            r.id == self.rows[i as int].id,
            r.email@ == self.rows[i as int].email@,
            r.hash() == self.rows[i as int].hash(),
    {
        let row = &self.rows[i];
        User::new(row.id, row.email.clone(), HashedPassword(row.password.0.clone()))
    }

    /// The row with exactly this email.
    pub fn find_by_email(&self, email: &str) -> (r: Option<User>)
        requires
            self.wf(),
        ensures
            r is Some <==> self@.contains_key(email@),
            r is Some ==> {
                let u = r->Some_0;
                &&& u.email@ == email@
                &&& self@[email@] == (u.id, u.hash())
            },
    {
        let target = email.to_owned();
        let mut i: usize = 0;
        while i < self.rows.len()
            invariant
                self.wf(),
                target@ == email@,
                i <= self.rows.len(),
                forall|k: int| 0 <= k < i ==> #[trigger] self.rows[k].email@ != email@,
            decreases self.rows.len() - i,
        {
            if self.rows[i].email == target {
                return Some(self.copy_row(i));
            }
            i += 1;
        }
        None
    }

    /// The row with this id.
    pub fn find_by_id(&self, id: i32) -> (r: Option<User>)
        requires
            self.wf(),
        ensures
            r is Some <==> self.has_id(id),
            r is Some ==> {
                let u = r->Some_0;
                &&& u.id == id
                &&& self@.contains_key(u.email@)
                &&& self@[u.email@] == (id, u.hash())
            },
    {
        let mut i: usize = 0;
        while i < self.rows.len()
            invariant
                self.wf(),
                i <= self.rows.len(),
                forall|k: int| 0 <= k < i ==> #[trigger] self.rows[k].id != id,
            decreases self.rows.len() - i,
        {
            if self.rows[i].id == id {
                assert(self@.contains_key(self.rows[i as int].email@));
                return Some(self.copy_row(i));
            }
            i += 1;
        }
        proof {
            assert forall|e: Seq<char>| #[trigger] self@.contains_key(e) implies self@[e].0 != id by {
                let k = choose|k: int| 0 <= k < self.rows.len() && #[trigger] self.rows[k].email@ == e;
                assert(self.rows[k].id != id);
            }
        }
        None
    }

    /// Inserts a new account under the next free id. Refused, with the table
    /// unchanged, when the email is taken or no id is left.
    pub fn insert(&mut self, email: &str, password: HashedPassword) -> (r: Option<i32>)
        requires
            old(self).wf(),
        ensures
            final(self).wf(),
            r is None <==> (old(self)@.contains_key(email@) || old(self).ids_exhausted()),
            r is None ==> final(self)@ == old(self)@,
            r is Some ==> {
                &&& old(self).id_is_fresh(r->Some_0)
                &&& final(self)@ == old(self)@.insert(email@, (r->Some_0, password@))
            },
    {
        if self.find_by_email(email).is_some() || self.next_id == i32::MAX {
            return None;
        }
        let id = self.next_id;
        proof {
            assert forall|e: Seq<char>| #[trigger] self@.contains_key(e) implies self@[e].0 != id by {
                let k = choose|k: int| 0 <= k < self.rows.len() && #[trigger] self.rows[k].email@ == e;
                assert(self.rows[k].id < id);
            }
        }
        let ghost old_rows = self.rows@;
        self.rows.push(User::new(id, email.to_owned(), password));
        self.next_id = id + 1;
        self.index = Ghost(self.index@.insert(email@, (id, password@)));
        proof {
            let n = old_rows.len() as int;
            assert(self.rows[n].email@ == email@);
            assert forall|e: Seq<char>| #[trigger] self.index@.contains_key(e) implies exists|i: int|
                0 <= i < self.rows.len() && #[trigger] self.rows[i].email@ == e by {
                if e != email@ {
                    let k = choose|k: int| 0 <= k < old_rows.len() && #[trigger] old_rows[k].email@ == e;
                    assert(self.rows[k] == old_rows[k]);
                }
            }
        }
        Some(id)
    }
}

} // verus!
