use vstd::prelude::*;

use crate::db::note::{
    self, created_note, has_note, listing, merged, overview_of, owns_note, CreateNoteInfo, Note,
    NoteOverview, NoteView, PageSize, UpdateNoteInfo,
};
use crate::db::user::User;
use crate::db::Database;
use crate::routes::Status;

verus! {

/// Page size used when a request names none.
pub const DEFAULT_PAGE_SIZE: i32 = 20;

/// One page of results, and whether more follow it.
pub struct PagedResponse<T> {
    pub data: T,
    pub more: bool,
}

/// The page size a request asks for, with the default filled in.
pub open spec fn requested_size(page_size: Option<i32>) -> i32 {
    match page_size {
        Some(s) => s,
        None => DEFAULT_PAGE_SIZE,
    }
}

/// Creates a note for `user`; `Created` with the note, or a server error when
/// the store has no id left.
pub fn create(info: &CreateNoteInfo, conn: &mut Database, user: User) -> (r: (Status, Option<Note>))
    requires
        old(conn).wf(),
    ensures
        final(conn).wf(),
        final(conn).users == old(conn).users,
        final(conn).sessions == old(conn).sessions,
        r.0 == Status::InternalServerError <==> old(conn).notes.ids_exhausted(),
        r.0 == Status::InternalServerError ==> r.1 is None && final(conn).notes@ == old(conn).notes@,
        r.0 != Status::InternalServerError ==> r.0 == Status::Created && r.1 is Some && {
            let n = r.1->Some_0@;
            &&& n == created_note(n.id, *info, n.update_time)
            &&& final(conn).notes@ == old(conn).notes@.push((user.id, n))
        },
{
    match note::create(conn, user.id, info) {
        Some(note) => (Status::Created, Some(note)),
        None => (Status::InternalServerError, None),
    }
}

/// Note `note_id` of `user`, or `NotFound`.
pub fn get(note_id: i32, conn: &Database, user: User) -> (r: (Status, Option<Note>))
    requires
        conn.wf(),
    ensures
        r.0 == Status::Success <==> has_note(conn.notes@, user.id, note_id),
        r.0 != Status::Success ==> r.0 == Status::NotFound && r.1 is None,
        r.0 == Status::Success ==> r.1 is Some && exists|i: int|
            owns_note(conn.notes@, user.id, note_id, i) && conn.notes@[i].1 == r.1->Some_0@,
{
    match note::get(conn, user.id, note_id) {
        Some(note) => (Status::Success, Some(note)),
        None => (Status::NotFound, None),
    }
}

/// One page of `user`'s notes. A page size outside `1..=MAX_PAGE_SIZE` is a
/// bad request; a negative page, which the store refuses, a server error.
pub fn get_many(conn: &Database, user: User, page: i32, page_size: Option<i32>) -> (r: (
    Status,
    Option<PagedResponse<Vec<Note>>>,
))
    requires
        conn.wf(),
    ensures
        !PageSize::valid(requested_size(page_size) as int) ==> r.0 == Status::BadRequest && r.1 is None,
        PageSize::valid(requested_size(page_size) as int) && page < 0 ==> r.0
            == Status::InternalServerError && r.1 is None,
        PageSize::valid(requested_size(page_size) as int) && page >= 0 ==> {
            let expected = listing(*conn, user.id, false, page, requested_size(page_size));
            &&& r.0 == Status::Success
            &&& r.1 is Some
            &&& r.1->Some_0.data@.map_values(|n: Note| n@) == expected.0
            &&& r.1->Some_0.more == expected.1
        },
{
    let size = match page_size {
        Some(s) => s,
        None => DEFAULT_PAGE_SIZE,
    };
    let page_size = match PageSize::new(size) {
        Ok(page_size) => page_size,
        Err(_) => return (Status::BadRequest, None),
    };
    match note::get_many(conn, user.id, page, page_size) {
        Some((data, more)) => (Status::Success, Some(PagedResponse { data, more })),
        None => (Status::InternalServerError, None),
    }
}

/// The overview of note `note_id` of `user`, or `NotFound`.
pub fn get_overview(note_id: i32, conn: &Database, user: User) -> (r: (Status, Option<NoteOverview>))
    requires
        conn.wf(),
    ensures
        r.0 == Status::Success <==> has_note(conn.notes@, user.id, note_id),
        r.0 != Status::Success ==> r.0 == Status::NotFound && r.1 is None,
        r.0 == Status::Success ==> r.1 is Some && exists|i: int|
            owns_note(conn.notes@, user.id, note_id, i) && overview_of(conn.notes@[i].1) == r.1->Some_0@,
{
    match note::get_overview(conn, user.id, note_id) {
        Some(overview) => (Status::Success, Some(overview)),
        None => (Status::NotFound, None),
    }
}

/// The overviews of one page of `user`'s notes, with the same refusals as
/// `get_many`.
pub fn get_overview_many(conn: &Database, user: User, page: i32, page_size: Option<i32>) -> (r: (
    Status,
    Option<PagedResponse<Vec<NoteOverview>>>,
))
    requires
        conn.wf(),
    ensures
        !PageSize::valid(requested_size(page_size) as int) ==> r.0 == Status::BadRequest && r.1 is None,
        PageSize::valid(requested_size(page_size) as int) && page < 0 ==> r.0
            == Status::InternalServerError && r.1 is None,
        PageSize::valid(requested_size(page_size) as int) && page >= 0 ==> {
            let expected = listing(*conn, user.id, false, page, requested_size(page_size));
            &&& r.0 == Status::Success
            &&& r.1 is Some
            &&& r.1->Some_0.data@.map_values(|n: NoteOverview| n@) == expected.0.map_values(
                |n: NoteView| overview_of(n),
            )
            &&& r.1->Some_0.more == expected.1
        },
{
    let size = match page_size {
        Some(s) => s,
        None => DEFAULT_PAGE_SIZE,
    };
    let page_size = match PageSize::new(size) {
        Ok(page_size) => page_size,
        Err(_) => return (Status::BadRequest, None),
    };
    match note::get_overview_many(conn, user.id, page, page_size) {
        Some((data, more)) => (Status::Success, Some(PagedResponse { data, more })),
        None => (Status::InternalServerError, None),
    }
}

/// Deletes note `note_id` of `user`; `NotFound` if there is none.
pub fn delete(note_id: i32, conn: &mut Database, user: User) -> (r: Status)
    requires
        old(conn).wf(),
    ensures
        final(conn).wf(),
        final(conn).users == old(conn).users,
        final(conn).sessions == old(conn).sessions,
        r == Status::Success <==> has_note(old(conn).notes@, user.id, note_id),
        r != Status::Success ==> r == Status::NotFound && final(conn).notes@ == old(conn).notes@,
        r == Status::Success ==> exists|i: int|
            owns_note(old(conn).notes@, user.id, note_id, i) && final(conn).notes@ == old(
                conn,
            ).notes@.remove(i),
{
    if note::delete(note_id, user.id, conn) {
        Status::Success
    } else {
        Status::NotFound
    }
}

/// Changes the given fields of note `note_id` of `user`; `NotFound` if there
/// is none.
pub fn update(note_id: i32, changes: &UpdateNoteInfo, conn: &mut Database, user: User) -> (r: Status)
    requires
        old(conn).wf(),
    ensures
        final(conn).wf(),
        final(conn).users == old(conn).users,
        final(conn).sessions == old(conn).sessions,
        r == Status::Success <==> has_note(old(conn).notes@, user.id, note_id),
        r != Status::Success ==> r == Status::NotFound && final(conn).notes@ == old(conn).notes@,
        r == Status::Success ==> exists|i: int, time: i64|
            owns_note(old(conn).notes@, user.id, note_id, i) && final(conn).notes@ == old(
                conn,
            ).notes@.update(i, (user.id, merged(old(conn).notes@[i].1, *changes, time))),
{
    match note::update(conn, user.id, note_id, changes) {
        Some(_) => Status::Success,
        None => Status::NotFound,
    }
}

} // verus!
