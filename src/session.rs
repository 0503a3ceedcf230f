use vstd::prelude::*;

use base64::engine::general_purpose;
use base64::Engine;

use crate::db::note::now;
use crate::db::Database;

verus! {

/// Name of the private cookie that carries the session key.
pub const SESSION_COOKIE_NAME: &'static str = "session";
/// Number of random bytes behind each session key.
pub const SESSION_KEY_LEN: usize = 32;
/// Number of characters of an encoded session key.
pub const SESSION_KEY_CHARS: usize = 43;
/// How long the private cookie lives, in weeks.
pub const SESSION_DEFAULT_EXPIRY_WEEKS: i64 = 4;
/// Milliseconds in one week.
pub const WEEK_MILLIS: i64 = 604800000;
/// How long the private cookie lives, in milliseconds.
pub const SESSION_EXPIRY_MILLIS: i64 = SESSION_DEFAULT_EXPIRY_WEEKS * WEEK_MILLIS;
/// Name of the public cookie that tells client scripts a session is attached.
pub const SESSION_PUBLIC_NAME: &'static str = "session_pub";
/// The fixed value of the public cookie.
pub const SESSION_PUBLIC_VALUE: &'static str = "authenticated";

/// The text that base64's URL-safe alphabet, without padding, gives for `bytes`.
pub uninterp spec fn base64_unpadded(bytes: Seq<u8>) -> Seq<char>;

#[verifier::external_type_specification]
#[verifier::external_body]
pub struct ExErrorStack(openssl::error::ErrorStack);

/// Relies on `openssl::rand::rand_bytes`: it fills the whole buffer from
/// OpenSSL's secure generator, or reports an error. It asserts that the length
/// fits in a C `int`.
#[verifier::external_body]
fn fill_random(buf: &mut Vec<u8>) -> (r: Result<(), openssl::error::ErrorStack>)
    requires
        old(buf)@.len() <= i32::MAX,
    ensures
        final(buf)@.len() == old(buf)@.len(),
{
    openssl::rand::rand_bytes(buf.as_mut_slice())
}

/// Relies on `Engine::encode` of base64's `general_purpose::URL_SAFE_NO_PAD`:
/// the URL-safe alphabet, four characters for each three bytes, two or three
/// for a last partial group, no padding. It panics only when that length overflows `usize`.
#[verifier::external_body]
fn encode_unpadded(bytes: &Vec<u8>) -> (r: String)
    requires
        bytes@.len() <= i32::MAX,
    ensures
        r@ == base64_unpadded(bytes@),
        r@.len() == (4 * bytes@.len() + 2) / 3,
{
    general_purpose::URL_SAFE_NO_PAD.encode(bytes)
}

/// One attribute-carrying cookie, as the response writes it.
pub struct Cookie {
    pub name: String,
    pub value: String,
    /// Expiry instant in milliseconds since the epoch; `None` lasts the browser session.
    pub expires: Option<i64>,
    pub http_only: bool,
    pub same_site_strict: bool,
}

/// The two cookies of a session as the client holds them: the private one with
/// the key, and the public marker. They are set and cleared together.
pub struct CookieJar {
    pub session: Option<Cookie>,
    pub marker: Option<Cookie>,
}

impl CookieJar {
    /// Both cookies are present, or neither is.
    pub open spec fn wf(&self) -> bool {
        self.session is Some <==> self.marker is Some
    }

    /// The session key that the private cookie carries.
    pub open spec fn session_key(&self) -> Option<Seq<char>> {
        match self.session {
            Some(c) => Some(c.value@),
            None => None,
        }
    }

    /// A jar with no cookies.
    pub fn new() -> (r: CookieJar)
        ensures
            r.wf(),
            r.session is None,
            r.marker is None,
    {
        CookieJar { session: None, marker: None }
    }
}

/// The private cookie for `key`, issued at `now`.
pub open spec fn is_session_cookie(c: Cookie, key: Seq<char>, now: i64) -> bool {
    &&& c.name@ == SESSION_COOKIE_NAME@
    &&& c.value@ == key
    &&& c.expires == Some(expiry_after(now))
    &&& c.http_only
    &&& c.same_site_strict
}

/// The public marker cookie.
pub open spec fn is_marker_cookie(c: Cookie) -> bool {
    &&& c.name@ == SESSION_PUBLIC_NAME@
    &&& c.value@ == SESSION_PUBLIC_VALUE@
    &&& c.expires is None
    &&& !c.http_only
    &&& c.same_site_strict
}

/// The client's cookies carry session `key`: the private cookie issued at
/// `now`, and the public marker.
pub open spec fn carries_session(jar: CookieJar, key: Seq<char>, now: i64) -> bool {
    &&& jar.session is Some
    &&& is_session_cookie(jar.session->Some_0, key, now)
    &&& jar.marker is Some
    &&& is_marker_cookie(jar.marker->Some_0)
}

/// Expiry of a private cookie issued at `now`: the fixed horizon later, held at
/// the largest instant where that would overflow.
pub open spec fn expiry_after(now: i64) -> i64 {
    if now > i64::MAX - SESSION_EXPIRY_MILLIS {
        i64::MAX
    } else {
        (now + SESSION_EXPIRY_MILLIS) as i64
    }
}

/// Why no session could be had for a request.
#[derive(Debug, PartialEq, Eq, Structural)]
pub enum SessionError {
    NoCookie,
    DBError,
    NotFound,
}

/// One active session: a random key, and the user it signs in.
pub struct Session {
    pub key: String,
    pub user_id: i32,
}

impl Session {
    /// The session key.
    pub open spec fn spec_key(&self) -> Seq<char> {
        self.key@
    }

    /// Builds a session for `user_id` under `key`.
    pub fn new(user_id: i32, key: String) -> (r: Session)
        ensures
            r.user_id == user_id,
            r.spec_key() == key@,
    {
        Session { user_id, key }
    }

    /// The session key.
    pub fn key(&self) -> (r: &str)
        ensures
            r@ == self.spec_key(),
    {
        self.key.as_str()
    }

    /// A fresh session key: `SESSION_KEY_LEN` bytes from the secure random
    /// source, base64 encoded. `None` when the random source fails; never a
    /// weaker key.
    pub fn generate_key() -> (r: Option<String>)
        ensures
            r is Some ==> exists|b: Seq<u8>|
                b.len() == SESSION_KEY_LEN && r->Some_0@ == #[trigger] base64_unpadded(b),
            r is Some ==> r->Some_0@.len() == SESSION_KEY_CHARS,
    {
        let mut buf: Vec<u8> = Vec::new();
        let mut i: usize = 0;
        while i < SESSION_KEY_LEN
            invariant
                i <= SESSION_KEY_LEN,
                buf@.len() == i,
            decreases SESSION_KEY_LEN - i,
        {
            buf.push(0u8);
            i += 1;
        }
        match fill_random(&mut buf) {
            Ok(()) => {
                let key = encode_unpadded(&buf);
                Some(key)
            },
            Err(_) => None,
        }
    }

    /// Stores a session for `user_id` under `key` and attaches its cookies to
    /// `jar`, as issued at `now`. `None`, with store and jar unchanged, exactly
    /// when the key is already in use.
    pub fn open(user_id: i32, key: String, now: i64, jar: &mut CookieJar, conn: &mut Database) -> (r:
        Option<Session>)
        requires
            old(conn).wf(),
        ensures
            final(conn).wf(),
            final(conn).users == old(conn).users,
            final(conn).notes == old(conn).notes,
            final(conn).images == old(conn).images,
            r is None <==> old(conn).sessions@.contains_key(key@),
            r is None ==> final(conn).sessions@ == old(conn).sessions@ && *final(jar) == *old(jar),
            r is Some ==> {
                let s = r->Some_0;
                &&& s.user_id == user_id
                &&& s.spec_key() == key@
                &&& final(conn).sessions@ == old(conn).sessions@.insert(key@, user_id)
                &&& carries_session(*final(jar), key@, now)
            },
    {
        let session = Session::new(user_id, key);
        if !session.save(conn) {
            return None;
        }
        session.attach(jar, now);
        Some(session)
    }

    /// Mints a session for `user_id` under a fresh random key, stores it, and
    /// attaches its cookies to `jar`. `None`, with store and jar unchanged, when
    /// no key could be made or the store refused it.
    pub fn init(user_id: i32, jar: &mut CookieJar, conn: &mut Database) -> (r: Option<Session>)
        requires
            old(conn).wf(),
        ensures
            final(conn).wf(),
            final(conn).users == old(conn).users,
            final(conn).notes == old(conn).notes,
            final(conn).images == old(conn).images,
            r is None ==> final(conn).sessions@ == old(conn).sessions@ && *final(jar) == *old(jar),
            r is Some ==> {
                let s = r->Some_0;
                &&& s.user_id == user_id
                &&& !old(conn).sessions@.contains_key(s.spec_key())
                &&& final(conn).sessions@ == old(conn).sessions@.insert(s.spec_key(), user_id)
                &&& exists|t: i64| #[trigger] carries_session(*final(jar), s.spec_key(), t)
            },
    {
        let key = match Self::generate_key() {
            Some(key) => key,
            None => return None,
        };
        let issued = now();
        let r = Self::open(user_id, key, issued, jar, conn);
        if let Some(s) = &r {
            assert(carries_session(*jar, s.spec_key(), issued));
        }
        r
    }

    /// Stores this session; false, with the store unchanged, when its key is
    /// already in use.
    fn save(&self, conn: &mut Database) -> (r: bool)
        requires
            old(conn).wf(),
        ensures
            final(conn).wf(),
            final(conn).users == old(conn).users,
            final(conn).notes == old(conn).notes,
            final(conn).images == old(conn).images,
            r == !old(conn).sessions@.contains_key(self.spec_key()),
            r ==> final(conn).sessions@ == old(conn).sessions@.insert(self.spec_key(), self.user_id),
            !r ==> final(conn).sessions@ == old(conn).sessions@,
    {
        conn.sessions.insert(self)
    }

    /// Writes both cookies of this session into `jar`, as issued at `now`.
    pub fn attach(&self, jar: &mut CookieJar, now: i64)
        ensures
            final(jar).wf(),
            final(jar).session matches Some(c) && is_session_cookie(c, self.spec_key(), now),
            final(jar).marker matches Some(c) && is_marker_cookie(c),
    {
        let expires = if now > i64::MAX - SESSION_EXPIRY_MILLIS {
            i64::MAX
        } else {
            now + SESSION_EXPIRY_MILLIS
        };
        jar.session = Some(
            Cookie {
                name: SESSION_COOKIE_NAME.to_owned(),
                value: self.key.clone(),
                expires: Some(expires),
                http_only: true,
                same_site_strict: true,
            },
        );
        jar.marker = Some(
            Cookie {
                name: SESSION_PUBLIC_NAME.to_owned(),
                value: SESSION_PUBLIC_VALUE.to_owned(),
                expires: None,
                http_only: false,
                same_site_strict: true,
            },
        );
    }

    /// Clears both cookies from `jar`.
    pub fn remove(jar: &mut CookieJar)
        ensures
            final(jar).wf(),
            final(jar).session is None,
            final(jar).marker is None,
    {
        jar.session = None;
        jar.marker = None;
    }

    /// Deletes this session from the store, then clears its cookies. Returns
    /// whether a row was removed; a session already gone is no error.
    pub fn delete(&self, jar: &mut CookieJar, conn: &mut Database) -> (r: bool)
        requires
            old(conn).wf(),
        ensures
            final(conn).wf(),
            final(conn).users == old(conn).users,
            final(conn).notes == old(conn).notes,
            final(conn).images == old(conn).images,
            r == old(conn).sessions@.contains_key(self.spec_key()),
            final(conn).sessions@ == old(conn).sessions@.remove(self.spec_key()),
            final(jar).wf(),
            final(jar).session is None,
    {
        let removed = self.remove_from_db(conn);
        Self::remove(jar);
        removed
    }

    /// Deletes this session's row; returns whether there was one.
    fn remove_from_db(&self, conn: &mut Database) -> (r: bool)
        requires
            old(conn).wf(),
        ensures
            final(conn).wf(),
            final(conn).users == old(conn).users,
            final(conn).notes == old(conn).notes,
            final(conn).images == old(conn).images,
            r == old(conn).sessions@.contains_key(self.spec_key()),
            final(conn).sessions@ == old(conn).sessions@.remove(self.spec_key()),
    {
        conn.sessions.remove(self.key.as_str())
    }

    /// The session of a request: the key of its private cookie, checked
    /// against the store. A key that the store does not hold, whether it never
    /// existed or was deleted, gives `NotFound`.
    pub fn from_request(jar: &CookieJar, conn: &Database) -> (r: Result<Session, SessionError>)
        requires
            conn.wf(),
        ensures
            r is Ok <==> conn.session_of(*jar) is Ok,
            r is Ok ==> r->Ok_0.user_id == conn.session_of(*jar)->Ok_0 && jar.session_key() == Some(
                r->Ok_0.spec_key(),
            ),
            r is Err ==> r->Err_0 == conn.session_of(*jar)->Err_0,
    {
        let cookie = match &jar.session {
            Some(cookie) => cookie,
            None => return Err(SessionError::NoCookie),
        };
        match conn.sessions.find(cookie.value.as_str()) {
            Some(session) => Ok(session),
            None => Err(SessionError::NotFound),
        }
    }
}

/// The sessions table: each key, unique, with the user it signs in.
pub struct SessionTable {
    rows: Vec<Session>,
    index: Ghost<Map<Seq<char>, i32>>,
}

impl View for SessionTable {
    /// Each session key, mapped to its user id.
    type V = Map<Seq<char>, i32>;

    closed spec fn view(&self) -> Map<Seq<char>, i32> {
        self.index@
    }
}

impl SessionTable {
    /// Rows and index agree, and no two rows share a key.
    pub closed spec fn wf(&self) -> bool {
        &&& forall|i: int|
            0 <= i < self.rows.len() ==> {
                &&& self.index@.contains_key(#[trigger] self.rows[i].key@)
                &&& self.index@[self.rows[i].key@] == self.rows[i].user_id
            }
        &&& forall|k: Seq<char>|
            #[trigger] self.index@.contains_key(k) ==> exists|i: int|
                0 <= i < self.rows.len() && #[trigger] self.rows[i].key@ == k
        &&& forall|i: int, j: int|
            0 <= i < self.rows.len() && 0 <= j < self.rows.len() && i != j ==> #[trigger] self.rows[i].key@
                != #[trigger] self.rows[j].key@
    }

    /// An empty table.
    pub fn new() -> (r: SessionTable)
        ensures
            r.wf(),
            r@ == Map::<Seq<char>, i32>::empty(),
    {
        SessionTable { rows: Vec::new(), index: Ghost(Map::empty()) }
    }

    /// The position of the row with this key, if any.
    fn position(&self, key: &str) -> (r: Option<usize>)
        requires
            self.wf(),
        ensures
            r is None <==> !self@.contains_key(key@),
            r is Some ==> r->Some_0 < self.rows.len() && self.rows[r->Some_0 as int].key@ == key@,
    {
        let target = key.to_owned();
        let mut i: usize = 0;
        while i < self.rows.len()
            invariant
                self.wf(),
                target@ == key@,
                i <= self.rows.len(),
                forall|k: int| 0 <= k < i ==> #[trigger] self.rows[k].key@ != key@,
            decreases self.rows.len() - i,
        {
            if self.rows[i].key == target {
                return Some(i);
            }
            i += 1;
        }
        None
    }

    /// The session stored under `key`.
    pub fn find(&self, key: &str) -> (r: Option<Session>)
        requires
            self.wf(),
        ensures
            r is Some <==> self@.contains_key(key@),
            r is Some ==> r->Some_0.spec_key() == key@ && r->Some_0.user_id == self@[key@],
    {
        match self.position(key) {
            Some(i) => Some(Session::new(self.rows[i].user_id, self.rows[i].key.clone())),
            None => None,
        }
    }

    /// Stores a copy of `session`; refused, with the table unchanged, when its
    /// key is already in use.
    pub fn insert(&mut self, session: &Session) -> (r: bool)
        requires
            old(self).wf(),
        ensures
            final(self).wf(),
            r == !old(self)@.contains_key(session.spec_key()),
            r ==> final(self)@ == old(self)@.insert(session.spec_key(), session.user_id),
            !r ==> final(self)@ == old(self)@,
    {
        if self.position(session.key.as_str()).is_some() {
            return false;
        }
        let ghost old_rows = self.rows@;
        let ghost k = session.key@;
        self.rows.push(Session::new(session.user_id, session.key.clone()));
        self.index = Ghost(self.index@.insert(k, session.user_id));
        proof {
            let n = old_rows.len() as int;
            assert(self.rows[n].key@ == k);
            assert forall|i: int| 0 <= i < old_rows.len() implies #[trigger] old_rows[i].key@ != k by {
                assert(self.index@.contains_key(old_rows[i].key@));
            }
            assert forall|q: Seq<char>| #[trigger] self.index@.contains_key(q) implies exists|i: int|
                0 <= i < self.rows.len() && #[trigger] self.rows[i].key@ == q by {
                if q != k {
                    let j = choose|j: int| 0 <= j < old_rows.len() && #[trigger] old_rows[j].key@ == q;
                    assert(self.rows[j] == old_rows[j]);
                }
            }
        }
        true
    }

    /// Deletes the row with this key; returns whether there was one.
    pub fn remove(&mut self, key: &str) -> (r: bool)
        requires
            old(self).wf(),
        ensures
            final(self).wf(),
            r == old(self)@.contains_key(key@),
            final(self)@ == old(self)@.remove(key@),
    {
        match self.position(key) {
            None => {
                assert(self.index@.remove(key@) =~= self.index@);
                false
            },
            Some(p) => {
                let ghost old_rows = self.rows@;
                self.rows.remove(p);
                self.index = Ghost(self.index@.remove(key@));
                proof {
                    assert forall|i: int| 0 <= i < self.rows.len() implies {
                        &&& self.index@.contains_key(#[trigger] self.rows[i].key@)
                        &&& self.index@[self.rows[i].key@] == self.rows[i].user_id
                    } by {
                        let j = if i < p { i } else { i + 1 };
                        assert(self.rows[i] == old_rows[j]);
                        assert(old_rows[j].key@ != old_rows[p as int].key@);
                    }
                    assert forall|q: Seq<char>| #[trigger] self.index@.contains_key(q) implies exists|i: int|
                        0 <= i < self.rows.len() && #[trigger] self.rows[i].key@ == q by {
                        let j = choose|j: int| 0 <= j < old_rows.len() && #[trigger] old_rows[j].key@ == q;
                        assert(j != p);
                        let i = if j < p { j } else { j - 1 };
                        assert(self.rows[i] == old_rows[j]);
                    }
                    assert forall|a: int, b: int|
                        0 <= a < self.rows.len() && 0 <= b < self.rows.len() && a != b implies #[trigger] self.rows[a].key@
                            != #[trigger] self.rows[b].key@ by {
                        let ja = if a < p { a } else { a + 1 };
                        let jb = if b < p { b } else { b + 1 };
                        assert(self.rows[a] == old_rows[ja]);
                        assert(self.rows[b] == old_rows[jb]);
                    }
                }
                true
            },
        }
    }
}

} // verus!
