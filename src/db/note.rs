use vstd::prelude::*;

use crate::db::Database;

verus! {

/// Relies on `chrono::Utc::now().timestamp_millis()`: the current time in
/// milliseconds since the epoch. Nothing is promised of its value.
#[verifier::external_body]
pub(crate) fn now() -> (r: i64) {
    chrono::Utc::now().timestamp_millis()
}

/// Largest number of notes that one page may hold.
pub const MAX_PAGE_SIZE: i32 = 100;

/// A number of notes to select at once, always within `1..=MAX_PAGE_SIZE`.
pub struct PageSize(pub i32);

impl PageSize {
    /// Whether `size` is an acceptable page size.
    pub open spec fn valid(size: int) -> bool {
        0 < size <= MAX_PAGE_SIZE
    }

    /// Builds a page size, refusing values outside `1..=MAX_PAGE_SIZE`.
    pub fn new(size: i32) -> (r: Result<PageSize, ()>)
        ensures
            r is Ok <==> Self::valid(size as int),
            r is Ok ==> r->Ok_0.0 == size,
    {
        if size <= 0 || size > MAX_PAGE_SIZE {
            return Err(());
        }
        Ok(PageSize(size))
    }
}

/// The content of a note, as plain values.
pub ghost struct NoteView {
    pub id: i32,
    pub update_time: i64,
    pub favourite: bool,
    pub title: Seq<char>,
    pub content: Seq<char>,
    pub is_diary: bool,
}

/// A note without its content.
pub ghost struct OverviewView {
    pub id: i32,
    pub update_time: i64,
    pub favourite: bool,
    pub title: Seq<char>,
    pub is_diary: bool,
}

/// The overview of a note.
pub open spec fn overview_of(n: NoteView) -> OverviewView {
    OverviewView {
        id: n.id,
        update_time: n.update_time,
        favourite: n.favourite,
        title: n.title,
        is_diary: n.is_diary,
    }
}

/// A note, and all the information that comes with it.
pub struct Note {
    pub id: i32,
    pub update_time: i64,
    pub favourite: bool,
    pub title: String,
    pub content: String,
    pub is_diary: bool,
}

impl View for Note {
    type V = NoteView;

    open spec fn view(&self) -> NoteView {
        NoteView {
            id: self.id,
            update_time: self.update_time,
            favourite: self.favourite,
            title: self.title@,
            content: self.content@,
            is_diary: self.is_diary,
        }
    }
}

impl Note {
    /// Builds a note from its fields.
    pub fn new(
        id: i32,
        title: String,
        update_time: i64,
        favourite: bool,
        content: String,
        is_diary: bool,
    ) -> (r: Note)
        ensures
            r@ == (NoteView { id, update_time, favourite, title: title@, content: content@, is_diary }),
    {
        Note { id, title, update_time, favourite, content, is_diary }
    }

    fn copy(&self) -> (r: Note)
        ensures
            r@ == self@,
    {
        Note::new(
            self.id,
            self.title.clone(),
            self.update_time,
            self.favourite,
            self.content.clone(),
            self.is_diary,
        )
    }
}

/// The overview of a note contains all but the content.
pub struct NoteOverview {
    pub id: i32,
    pub update_time: i64,
    pub favourite: bool,
    pub title: String,
    pub is_diary: bool,
}

impl View for NoteOverview {
    type V = OverviewView;

    open spec fn view(&self) -> OverviewView {
        OverviewView {
            id: self.id,
            update_time: self.update_time,
            favourite: self.favourite,
            title: self.title@,
            is_diary: self.is_diary,
        }
    }
}

impl NoteOverview {
    /// Builds a note overview from its fields.
    pub fn new(id: i32, title: String, update_time: i64, favourite: bool, is_diary: bool) -> (r:
        NoteOverview)
        ensures
            r@ == (OverviewView { id, update_time, favourite, title: title@, is_diary }),
    {
        NoteOverview { id, title, update_time, favourite, is_diary }
    }

    fn of(note: &Note) -> (r: NoteOverview)
        ensures
            r@ == overview_of(note@),
    {
        NoteOverview::new(note.id, note.title.clone(), note.update_time, note.favourite, note.is_diary)
    }
}

/// The fields of a note to change; absent ones keep their value.
pub struct UpdateNoteInfo {
    pub title: Option<String>,
    pub content: Option<String>,
    pub favourite: Option<bool>,
}

/// What a new note is made of; an absent title is empty, an absent favourite
/// flag is false.
pub struct CreateNoteInfo {
    pub title: Option<String>,
    pub content: String,
    pub favourite: Option<bool>,
}

/// `n` with the fields that `u` holds, updated at `time`.
pub open spec fn merged(n: NoteView, u: UpdateNoteInfo, time: i64) -> NoteView {
    NoteView {
        id: n.id,
        update_time: time,
        favourite: match u.favourite {
            Some(f) => f,
            None => n.favourite,
        },
        title: match u.title {
            Some(t) => t@,
            None => n.title,
        },
        content: match u.content {
            Some(c) => c@,
            None => n.content,
        },
        is_diary: n.is_diary,
    }
}

/// The note that `info` describes, under `id`, created at `time`.
pub open spec fn created_note(id: i32, info: CreateNoteInfo, time: i64) -> NoteView {
    NoteView {
        id,
        update_time: time,
        favourite: match info.favourite {
            Some(f) => f,
            None => false,
        },
        title: match info.title {
            Some(t) => t@,
            None => Seq::empty(),
        },
        content: info.content@,
        is_diary: false,
    }
}

/// Whether row `i` of `v` is the note `note_id` of user `user_id`.
pub open spec fn owns_note(v: Seq<(i32, NoteView)>, user_id: i32, note_id: i32, i: int) -> bool {
    &&& 0 <= i < v.len()
    &&& v[i].0 == user_id
    &&& v[i].1.id == note_id
}

/// Whether `user_id` has a note `note_id` in `v`.
pub open spec fn has_note(v: Seq<(i32, NoteView)>, user_id: i32, note_id: i32) -> bool {
    exists|i: int| owns_note(v, user_id, note_id, i)
}

/// Whether a row belongs to the listing of `user_id` (diary entries only, if asked).
pub open spec fn listed(row: (i32, NoteView), user_id: i32, diary_only: bool) -> bool {
    row.0 == user_id && (!diary_only || row.1.is_diary)
}

/// The notes of `user_id`, in the order of the table (ascending id).
pub open spec fn visible(v: Seq<(i32, NoteView)>, user_id: i32, diary_only: bool) -> Seq<NoteView>
    decreases v.len(),
{
    if v.len() == 0 {
        Seq::empty()
    } else {
        let rest = visible(v.drop_last(), user_id, diary_only);
        if listed(v.last(), user_id, diary_only) {
            rest.push(v.last().1)
        } else {
            rest
        }
    }
}

/// Whether the ids of `v`'s notes strictly ascend.
pub open spec fn rows_ascending(v: Seq<(i32, NoteView)>) -> bool {
    forall|i: int, j: int| 0 <= i < j < v.len() ==> #[trigger] v[i].1.id < #[trigger] v[j].1.id
}

/// Whether the ids of `s` strictly ascend.
pub open spec fn notes_ascending(s: Seq<NoteView>) -> bool {
    forall|i: int, j: int| 0 <= i < j < s.len() ==> #[trigger] s[i].id < #[trigger] s[j].id
}

/// A listing keeps below `bound` every id that its rows keep below it, and a
/// diary listing holds only diary entries.
pub proof fn lemma_visible_bounded(v: Seq<(i32, NoteView)>, user_id: i32, diary_only: bool, bound: int)
    ensures
        (forall|k: int| 0 <= k < v.len() ==> #[trigger] v[k].1.id < bound) ==> forall|j: int|
            0 <= j < visible(v, user_id, diary_only).len() ==> #[trigger] visible(
                v,
                user_id,
                diary_only,
            )[j].id < bound,
        diary_only ==> forall|j: int|
            0 <= j < visible(v, user_id, diary_only).len() ==> #[trigger] visible(
                v,
                user_id,
                diary_only,
            )[j].is_diary,
    decreases v.len(),
{
    if v.len() > 0 {
        let w = v.drop_last();
        lemma_visible_bounded(w, user_id, diary_only, bound);
        let prev = visible(w, user_id, diary_only);
        let cur = visible(v, user_id, diary_only);
        assert(cur == if listed(v.last(), user_id, diary_only) {
            prev.push(v.last().1)
        } else {
            prev
        });
        assert(v.last() == v[v.len() - 1]);
        assert forall|j: int| 0 <= j < cur.len() implies #[trigger] cur[j] == if j < prev.len() {
            prev[j]
        } else {
            v.last().1
        } && (j >= prev.len() ==> listed(v.last(), user_id, diary_only)) by {}
        if forall|k: int| 0 <= k < v.len() ==> #[trigger] v[k].1.id < bound {
            assert forall|k: int| 0 <= k < w.len() implies #[trigger] w[k].1.id < bound by {
                assert(v[k] == w[k]);
            }
            assert(v[v.len() - 1].1.id < bound);
        }
    }
}

/// Over rows of ascending id, a listing ascends too.
pub proof fn lemma_visible(v: Seq<(i32, NoteView)>, user_id: i32, diary_only: bool)
    ensures
        rows_ascending(v) ==> notes_ascending(visible(v, user_id, diary_only)),
        diary_only ==> forall|j: int|
            0 <= j < visible(v, user_id, diary_only).len() ==> #[trigger] visible(
                v,
                user_id,
                diary_only,
            )[j].is_diary,
    decreases v.len(),
{
    lemma_visible_bounded(v, user_id, diary_only, 0);
    if v.len() > 0 && rows_ascending(v) {
        let w = v.drop_last();
        lemma_visible(w, user_id, diary_only);
        let last = v.last();
        assert forall|k: int| 0 <= k < w.len() implies #[trigger] w[k].1.id < last.1.id as int by {
            assert(v[k] == w[k]);
        }
        assert(rows_ascending(w)) by {
            assert forall|i: int, j: int| 0 <= i < j < w.len() implies #[trigger] w[i].1.id
                < #[trigger] w[j].1.id by {
                assert(v[i] == w[i] && v[j] == w[j]);
            }
        }
        lemma_visible_bounded(w, user_id, diary_only, last.1.id as int);
    }
}

/// A page of a listing of ascending ids ascends; a page of diary entries holds
/// only diary entries.
pub proof fn lemma_page_of_listing(v: Seq<(i32, NoteView)>, user_id: i32, diary_only: bool, offset: int, size: int)
    requires
        rows_ascending(v),
        offset >= 0,
        size >= 0,
    ensures
        notes_ascending(page_of(visible(v, user_id, diary_only), offset, size)),
        diary_only ==> forall|j: int|
            0 <= j < page_of(visible(v, user_id, diary_only), offset, size).len()
                ==> #[trigger] page_of(visible(v, user_id, diary_only), offset, size)[j].is_diary,
{
    lemma_visible(v, user_id, diary_only);
    let all = visible(v, user_id, diary_only);
    let page = page_of(all, offset, size);
    let lo = if offset < all.len() { offset } else { all.len() as int };
    assert forall|i: int, j: int| 0 <= i < j < page.len() implies #[trigger] page[i].id < #[trigger] page[j].id by {
        assert(page[i] == all[lo + i] && page[j] == all[lo + j]);
    }
    if diary_only {
        assert forall|j: int| 0 <= j < page.len() implies #[trigger] page[j].is_diary by {
            assert(page[j] == all[lo + j]);
        }
    }
}

/// The page of `s` that skips `offset` items and holds at most `size`.
pub open spec fn page_of<T>(s: Seq<T>, offset: int, size: int) -> Seq<T> {
    let lo = if offset < s.len() { offset } else { s.len() as int };
    let hi = if offset + size < s.len() { offset + size } else { s.len() as int };
    s.subrange(lo, hi)
}

/// One row of the notes table: a note and the user who owns it.
pub struct NoteRecord {
    pub user_id: i32,
    pub note: Note,
}

/// The notes table, in ascending id order.
pub struct NoteTable {
    rows: Vec<NoteRecord>,
    next_id: i32,
}

impl View for NoteTable {
    /// Each row's owner and note, in ascending id order.
    type V = Seq<(i32, NoteView)>;

    closed spec fn view(&self) -> Seq<(i32, NoteView)> {
        self.rows@.map_values(|r: NoteRecord| (r.user_id, r.note@))
    }
}

impl NoteTable {
    /// Ids ascend strictly along the rows and stay below the next one to hand out.
    pub closed spec fn wf(&self) -> bool {
        &&& 1 <= self.next_id
        &&& forall|i: int| 0 <= i < self.rows.len() ==> 1 <= #[trigger] self.rows[i].note.id < self.next_id
        &&& forall|i: int, j: int|
            0 <= i < j < self.rows.len() ==> #[trigger] self.rows[i].note.id < #[trigger] self.rows[j].note.id
    }

    /// Whether every id has been handed out.
    pub closed spec fn ids_exhausted(&self) -> bool {
        self.next_id == i32::MAX
    }

    /// The rows are in ascending id order.
    pub proof fn lemma_rows_ascending(&self)
        requires
            self.wf(),
        ensures
            rows_ascending(self@),
    {
        assert forall|i: int, j: int| 0 <= i < j < self@.len() implies #[trigger] self@[i].1.id
            < #[trigger] self@[j].1.id by {
            assert(self.rows[i].note.id < self.rows[j].note.id);
        }
    }

    /// An empty table.
    pub fn new() -> (r: NoteTable)
        ensures
            r.wf(),
            r@ == Seq::<(i32, NoteView)>::empty(),
            !r.ids_exhausted(),
    {
        let r = NoteTable { rows: Vec::new(), next_id: 1 };
        assert(r@ =~= Seq::<(i32, NoteView)>::empty());
        r
    }

    /// The position of note `note_id` of `user_id`.
    fn position(&self, user_id: i32, note_id: i32) -> (r: Option<usize>)
        requires
            self.wf(),
        ensures
            r is None <==> !has_note(self@, user_id, note_id),
            r is Some ==> owns_note(self@, user_id, note_id, r->Some_0 as int),
    {
        let mut i: usize = 0;
        while i < self.rows.len()
            invariant
                self.wf(),
                i <= self.rows.len(),
                forall|k: int| 0 <= k < i ==> !#[trigger] owns_note(self@, user_id, note_id, k),
            decreases self.rows.len() - i,
        {
            assert(self@[i as int] == (self.rows[i as int].user_id, self.rows[i as int].note@));
            if self.rows[i].user_id == user_id && self.rows[i].note.id == note_id {
                assert(owns_note(self@, user_id, note_id, i as int));
                return Some(i);
            }
            i += 1;
        }
        None
    }

    /// The positions of one page of the listing of `user_id`, and whether
    /// more of it follows.
    fn page_positions(&self, user_id: i32, diary_only: bool, offset: usize, size: usize) -> (r: (
        Vec<usize>,
        bool,
    ))
        requires
            self.wf(),
        ensures
            forall|j: int| 0 <= j < r.0.len() ==> r.0@[j] < self@.len(),
            r.0@.map_values(|p: usize| self@[p as int].1) == page_of(
                visible(self@, user_id, diary_only),
                offset as int,
                size as int,
            ),
            r.1 == (visible(self@, user_id, diary_only).len() > offset + size),
    {
        let ghost v = self@;
        let mut out: Vec<usize> = Vec::new();
        let mut seen: usize = 0;
        let mut i: usize = 0;
        while i < self.rows.len()
            invariant
                v == self@,
                v.len() == self.rows.len(),
                i <= self.rows.len(),
                seen == visible(v.take(i as int), user_id, diary_only).len(),
                seen <= i,
                forall|j: int| 0 <= j < out.len() ==> out@[j] < i,
                out@.map_values(|p: usize| v[p as int].1) == page_of(
                    visible(v.take(i as int), user_id, diary_only),
                    offset as int,
                    size as int,
                ),
            decreases self.rows.len() - i,
        {
            let ghost before = visible(v.take(i as int), user_id, diary_only);
            let ghost old_out = out@;
            assert(v.take(i as int + 1).drop_last() =~= v.take(i as int));
            assert(v[i as int] == (self.rows[i as int].user_id, self.rows[i as int].note@));
            let row = &self.rows[i];
            if row.user_id == user_id && (!diary_only || row.note.is_diary) {
                if seen >= offset && seen - offset < size {
                    out.push(i);
                    proof {
                        let after = before.push(v[i as int].1);
                        assert(page_of(after, offset as int, size as int) =~= page_of(
                            before,
                            offset as int,
                            size as int,
                        ).push(v[i as int].1));
                        assert(out@.map_values(|p: usize| v[p as int].1) =~= old_out.map_values(
                            |p: usize| v[p as int].1,
                        ).push(v[i as int].1));
                    }
                } else {
                    proof {
                        let after = before.push(v[i as int].1);
                        assert(page_of(after, offset as int, size as int) =~= page_of(
                            before,
                            offset as int,
                            size as int,
                        ));
                    }
                }
                seen += 1;
            }
            i += 1;
        }
        assert(v.take(i as int) =~= v);
        let more = seen > offset && seen - offset > size;
        (out, more)
    }

    /// The notes at `positions`, in that order.
    fn notes_at(&self, positions: &Vec<usize>) -> (r: Vec<Note>)
        requires
            forall|j: int| 0 <= j < positions.len() ==> positions@[j] < self@.len(),
        ensures
            r@.map_values(|n: Note| n@) == positions@.map_values(|p: usize| self@[p as int].1),
    {
        let mut out: Vec<Note> = Vec::new();
        let mut j: usize = 0;
        while j < positions.len()
            invariant
                j <= positions.len(),
                forall|k: int| 0 <= k < positions.len() ==> positions@[k] < self@.len(),
                out@.map_values(|n: Note| n@) =~= positions@.take(j as int).map_values(
                    |p: usize| self@[p as int].1,
                ),
            decreases positions.len() - j,
        {
            let p = positions[j];
            assert(self@[p as int] == (self.rows[p as int].user_id, self.rows[p as int].note@));
            let ghost old_out = out@;
            out.push(self.rows[p].note.copy());
            assert(out@.map_values(|n: Note| n@) =~= old_out.map_values(|n: Note| n@).push(out@[j as int]@));
            assert(positions@.take(j as int + 1) =~= positions@.take(j as int).push(p));
            j += 1;
        }
        assert(positions@.take(j as int) =~= positions@);
        out
    }

    /// The overviews of the notes at `positions`, in that order.
    fn overviews_at(&self, positions: &Vec<usize>) -> (r: Vec<NoteOverview>)
        requires
            forall|j: int| 0 <= j < positions.len() ==> positions@[j] < self@.len(),
        ensures
            r@.map_values(|n: NoteOverview| n@) == positions@.map_values(
                |p: usize| overview_of(self@[p as int].1),
            ),
    {
        let mut out: Vec<NoteOverview> = Vec::new();
        let mut j: usize = 0;
        while j < positions.len()
            invariant
                j <= positions.len(),
                forall|k: int| 0 <= k < positions.len() ==> positions@[k] < self@.len(),
                out@.map_values(|n: NoteOverview| n@) =~= positions@.take(j as int).map_values(
                    |p: usize| overview_of(self@[p as int].1),
                ),
            decreases positions.len() - j,
        {
            let p = positions[j];
            assert(self@[p as int] == (self.rows[p as int].user_id, self.rows[p as int].note@));
            let ghost old_out = out@;
            out.push(NoteOverview::of(&self.rows[p].note));
            assert(out@.map_values(|n: NoteOverview| n@) =~= old_out.map_values(|n: NoteOverview| n@).push(out@[j as int]@));
            assert(positions@.take(j as int + 1) =~= positions@.take(j as int).push(p));
            j += 1;
        }
        assert(positions@.take(j as int) =~= positions@);
        out
    }

    /// Note `note_id` of `user_id`.
    pub fn find(&self, user_id: i32, note_id: i32) -> (r: Option<Note>)
        requires
            self.wf(),
        ensures
            r is Some <==> has_note(self@, user_id, note_id),
            r is Some ==> exists|i: int| owns_note(self@, user_id, note_id, i) && self@[i].1 == r->Some_0@,
    {
        match self.position(user_id, note_id) {
            Some(i) => {
                assert(self@[i as int] == (self.rows[i as int].user_id, self.rows[i as int].note@));
                Some(self.rows[i].note.copy())
            },
            None => None,
        }
    }

    /// Changes the fields of note `note_id` of `user_id` that `info` holds, and
    /// stamps it with `time`; `None`, with the table unchanged, if there is no
    /// such note.
    pub fn update_at(&mut self, user_id: i32, note_id: i32, info: &UpdateNoteInfo, time: i64) -> (r: Option<i64>)
        requires
            old(self).wf(),
        ensures
            final(self).wf(),
            r is Some <==> has_note(old(self)@, user_id, note_id),
            r is None ==> final(self)@ == old(self)@,
            r is Some ==> r->Some_0 == time && exists|i: int|
                owns_note(old(self)@, user_id, note_id, i) && final(self)@ == old(self)@.update(
                    i,
                    (user_id, merged(old(self)@[i].1, *info, time)),
                ),
    {
        let i = match self.position(user_id, note_id) {
            Some(i) => i,
            None => return None,
        };
        let ghost v0 = self@;
        let current = &self.rows[i].note;
        let title = match &info.title {
            Some(t) => t.clone(),
            None => current.title.clone(),
        };
        let content = match &info.content {
            Some(c) => c.clone(),
            None => current.content.clone(),
        };
        let favourite = match info.favourite {
            Some(f) => f,
            None => current.favourite,
        };
        let note = Note::new(current.id, title, time, favourite, content, current.is_diary);
        assert(v0[i as int] == (self.rows[i as int].user_id, self.rows[i as int].note@));
        assert(note@ == merged(v0[i as int].1, *info, time));
        let ghost old_rows = self.rows@;
        self.rows.set(i, NoteRecord { user_id, note });
        assert(self@ =~= v0.update(i as int, (user_id, merged(v0[i as int].1, *info, time))));
        assert forall|a: int, b: int| 0 <= a < b < self.rows.len() implies #[trigger] self.rows[a].note.id
            < #[trigger] self.rows[b].note.id by {
            assert(old_rows[a].note.id < old_rows[b].note.id);
        }
        assert forall|a: int| 0 <= a < self.rows.len() implies 1 <= #[trigger] self.rows[a].note.id < self.next_id by {
            assert(1 <= old_rows[a].note.id < self.next_id);
        }
        Some(time)
    }

    /// Deletes note `note_id` of `user_id`; returns whether there was one.
    pub fn remove(&mut self, user_id: i32, note_id: i32) -> (r: bool)
        requires
            old(self).wf(),
        ensures
            final(self).wf(),
            r == has_note(old(self)@, user_id, note_id),
            !r ==> final(self)@ == old(self)@,
            r ==> exists|i: int| owns_note(old(self)@, user_id, note_id, i) && final(self)@ == old(self)@.remove(i),
    {
        let i = match self.position(user_id, note_id) {
            Some(i) => i,
            None => return false,
        };
        let ghost v0 = self@;
        let ghost old_rows = self.rows@;
        self.rows.remove(i);
        assert(self@ =~= v0.remove(i as int));
        assert forall|a: int, b: int| 0 <= a < b < self.rows.len() implies #[trigger] self.rows[a].note.id
            < #[trigger] self.rows[b].note.id by {
            let ja = if a < i { a } else { a + 1 };
            let jb = if b < i { b } else { b + 1 };
            assert(self.rows[a] == old_rows[ja]);
            assert(self.rows[b] == old_rows[jb]);
            assert(old_rows[ja].note.id < old_rows[jb].note.id);
        }
        assert forall|a: int| 0 <= a < self.rows.len() implies 1 <= #[trigger] self.rows[a].note.id < self.next_id by {
            let ja = if a < i { a } else { a + 1 };
            assert(self.rows[a] == old_rows[ja]);
            assert(1 <= old_rows[ja].note.id < self.next_id);
        }
        true
    }

    /// Adds the note that `info` describes for `user_id`, created at `time`,
    /// under an id above every id in use. `None`, with the table unchanged,
    /// when no id is left.
    pub fn insert(&mut self, user_id: i32, info: &CreateNoteInfo, time: i64) -> (r: Option<Note>)
        requires
            old(self).wf(),
        ensures
            final(self).wf(),
            r is None <==> old(self).ids_exhausted(),
            r is None ==> final(self)@ == old(self)@,
            r is Some ==> {
                let n = r->Some_0@;
                &&& n == created_note(n.id, *info, time)
                &&& forall|i: int| 0 <= i < old(self)@.len() ==> #[trigger] old(self)@[i].1.id < n.id
                &&& final(self)@ == old(self)@.push((user_id, n))
            },
    {
        if self.next_id == i32::MAX {
            return None;
        }
        let id = self.next_id;
        let title = match &info.title {
            Some(t) => t.clone(),
            None => String::new(),
        };
        let favourite = match info.favourite {
            Some(f) => f,
            None => false,
        };
        let note = Note::new(id, title, time, favourite, info.content.clone(), false);
        let ghost v0 = self@;
        let ghost old_rows = self.rows@;
        assert forall|a: int| 0 <= a < v0.len() implies #[trigger] v0[a].1.id < id by {
            assert(v0[a] == (old_rows[a].user_id, old_rows[a].note@));
        }
        let made = note.copy();
        self.rows.push(NoteRecord { user_id, note });
        self.next_id = id + 1;
        assert(self@ =~= v0.push((user_id, made@)));
        Some(made)
    }
}


/// The page of `user_id`'s notes (diary entries only, if asked) that skips
/// `page` notes and holds at most `size`, and whether more follow.
pub open spec fn listing(
    db: Database,
    user_id: i32,
    diary_only: bool,
    page: i32,
    size: i32,
) -> (Seq<NoteView>, bool) {
    let all = visible(db.notes@, user_id, diary_only);
    (page_of(all, page as int, size as int), all.len() > page + size)
}

/// One page of `user_id`'s diary entries, by ascending id, and whether more
/// follow. `None` for a negative page offset, which the store refuses.
pub fn get_diary_notes(conn: &Database, user_id: i32, page: i32, page_size: PageSize) -> (r: Option<
    (Vec<Note>, bool),
>)
    requires
        conn.wf(),
        PageSize::valid(page_size.0 as int),
    ensures
        r is None <==> page < 0,
        r is Some ==> {
            let (notes, more) = r->Some_0;
            &&& notes@.map_values(|n: Note| n@) == listing(*conn, user_id, true, page, page_size.0).0
            &&& more == listing(*conn, user_id, true, page, page_size.0).1
            &&& forall|i: int, j: int| 0 <= i < j < notes.len() ==> #[trigger] notes@[i].id < #[trigger] notes@[j].id
            &&& forall|i: int| 0 <= i < notes.len() ==> #[trigger] notes@[i].is_diary
        },
{
    if page < 0 {
        return None;
    }
    proof {
        conn.notes.lemma_rows_ascending();
        lemma_page_of_listing(conn.notes@, user_id, true, page as int, page_size.0 as int);
    }
    let (positions, more) = conn.notes.page_positions(user_id, true, page as usize, page_size.0 as usize);
    let notes = conn.notes.notes_at(&positions);
    proof {
        let page_view = listing(*conn, user_id, true, page, page_size.0).0;
        assert(page_view == page_of(visible(conn.notes@, user_id, true), page as int, page_size.0 as int));
        assert forall|i: int| 0 <= i < notes.len() implies #[trigger] notes@[i]@ == page_view[i] by {
            assert(notes@.map_values(|n: Note| n@)[i] == notes@[i]@);
        }
        assert forall|i: int, j: int| 0 <= i < j < notes.len() implies #[trigger] notes@[i].id
            < #[trigger] notes@[j].id by {
            assert(notes@[i]@ == page_view[i] && notes@[j]@ == page_view[j]);
            assert(page_view[i].id < page_view[j].id);
        }
        assert forall|i: int| 0 <= i < notes.len() implies #[trigger] notes@[i].is_diary by {
            assert(notes@[i]@ == page_view[i]);
            assert(page_view[i].is_diary);
        }
    }
    Some((notes, more))
}

/// One page of `user_id`'s notes, by ascending id, and whether more follow.
/// `None` for a negative page offset, which the store refuses.
pub fn get_many(conn: &Database, user_id: i32, page: i32, page_size: PageSize) -> (r: Option<
    (Vec<Note>, bool),
>)
    requires
        conn.wf(),
        PageSize::valid(page_size.0 as int),
    ensures
        r is None <==> page < 0,
        r is Some ==> {
            let (notes, more) = r->Some_0;
            &&& notes@.map_values(|n: Note| n@) == listing(*conn, user_id, false, page, page_size.0).0
            &&& more == listing(*conn, user_id, false, page, page_size.0).1
            &&& forall|i: int, j: int| 0 <= i < j < notes.len() ==> #[trigger] notes@[i].id < #[trigger] notes@[j].id
        },
{
    if page < 0 {
        return None;
    }
    proof {
        conn.notes.lemma_rows_ascending();
        lemma_page_of_listing(conn.notes@, user_id, false, page as int, page_size.0 as int);
    }
    let (positions, more) = conn.notes.page_positions(user_id, false, page as usize, page_size.0 as usize);
    let notes = conn.notes.notes_at(&positions);
    proof {
        let page_view = listing(*conn, user_id, false, page, page_size.0).0;
        assert(page_view == page_of(visible(conn.notes@, user_id, false), page as int, page_size.0 as int));
        assert forall|i: int| 0 <= i < notes.len() implies #[trigger] notes@[i]@ == page_view[i] by {
            assert(notes@.map_values(|n: Note| n@)[i] == notes@[i]@);
        }
        assert forall|i: int, j: int| 0 <= i < j < notes.len() implies #[trigger] notes@[i].id
            < #[trigger] notes@[j].id by {
            assert(notes@[i]@ == page_view[i] && notes@[j]@ == page_view[j]);
            assert(page_view[i].id < page_view[j].id);
        }
    }
    Some((notes, more))
}

/// The overviews of one page of `user_id`'s notes, by ascending id, and
/// whether more follow. `None` for a negative page offset.
pub fn get_overview_many(conn: &Database, user_id: i32, page: i32, page_size: PageSize) -> (r: Option<
    (Vec<NoteOverview>, bool),
>)
    requires
        conn.wf(),
        PageSize::valid(page_size.0 as int),
    ensures
        r is None <==> page < 0,
        r is Some ==> {
            let (overviews, more) = r->Some_0;
            &&& overviews@.map_values(|n: NoteOverview| n@) == listing(
                *conn,
                user_id,
                false,
                page,
                page_size.0,
            ).0.map_values(|n: NoteView| overview_of(n))
            &&& more == listing(*conn, user_id, false, page, page_size.0).1
        },
{
    if page < 0 {
        return None;
    }
    let (positions, more) = conn.notes.page_positions(user_id, false, page as usize, page_size.0 as usize);
    let overviews = conn.notes.overviews_at(&positions);
    let ghost v = conn.notes@;
    assert(positions@.map_values(|p: usize| overview_of(v[p as int].1)) =~= positions@.map_values(
        |p: usize| v[p as int].1,
    ).map_values(|n: NoteView| overview_of(n)));
    Some((overviews, more))
}

/// Note `note_id`, if `user_id` owns it.
pub fn get(conn: &Database, user_id: i32, note_id: i32) -> (r: Option<Note>)
    requires
        conn.wf(),
    ensures
        r is Some <==> has_note(conn.notes@, user_id, note_id),
        r is Some ==> exists|i: int|
            owns_note(conn.notes@, user_id, note_id, i) && conn.notes@[i].1 == r->Some_0@,
{
    conn.notes.find(user_id, note_id)
}

/// The overview of note `note_id`, if `user_id` owns it.
pub fn get_overview(conn: &Database, user_id: i32, note_id: i32) -> (r: Option<NoteOverview>)
    requires
        conn.wf(),
    ensures
        r is Some <==> has_note(conn.notes@, user_id, note_id),
        r is Some ==> exists|i: int|
            owns_note(conn.notes@, user_id, note_id, i) && overview_of(conn.notes@[i].1) == r->Some_0@,
{
    match conn.notes.find(user_id, note_id) {
        Some(note) => Some(NoteOverview::of(&note)),
        None => None,
    }
}

/// Changes the fields of note `note_id` of `user_id` that `changes` holds, as
/// of `time`. Returns the new update time; `None`, with nothing changed, if
/// the user has no such note.
pub fn update_at(conn: &mut Database, user_id: i32, note_id: i32, changes: &UpdateNoteInfo, time: i64) -> (r:
    Option<i64>)
    requires
        old(conn).wf(),
    ensures
        final(conn).wf(),
        final(conn).users == old(conn).users,
        final(conn).sessions == old(conn).sessions,
        r is Some <==> has_note(old(conn).notes@, user_id, note_id),
        r is None ==> final(conn).notes@ == old(conn).notes@,
        r is Some ==> r->Some_0 == time && exists|i: int|
            owns_note(old(conn).notes@, user_id, note_id, i) && final(conn).notes@ == old(
                conn,
            ).notes@.update(i, (user_id, merged(old(conn).notes@[i].1, *changes, time))),
{
    conn.notes.update_at(user_id, note_id, changes, time)
}

/// `update_at`, as of now.
pub fn update(conn: &mut Database, user_id: i32, note_id: i32, changes: &UpdateNoteInfo) -> (r: Option<
    i64,
>)
    requires
        old(conn).wf(),
    ensures
        final(conn).wf(),
        final(conn).users == old(conn).users,
        final(conn).sessions == old(conn).sessions,
        r is Some <==> has_note(old(conn).notes@, user_id, note_id),
        r is None ==> final(conn).notes@ == old(conn).notes@,
        r is Some ==> exists|i: int|
            owns_note(old(conn).notes@, user_id, note_id, i) && final(conn).notes@ == old(
                conn,
            ).notes@.update(i, (user_id, merged(old(conn).notes@[i].1, *changes, r->Some_0))),
{
    update_at(conn, user_id, note_id, changes, now())
}

/// Deletes note `note_id` of `user_id`; returns whether there was one.
pub fn delete(note_id: i32, user_id: i32, conn: &mut Database) -> (r: bool)
    requires
        old(conn).wf(),
    ensures
        final(conn).wf(),
        final(conn).users == old(conn).users,
        final(conn).sessions == old(conn).sessions,
        r == has_note(old(conn).notes@, user_id, note_id),
        !r ==> final(conn).notes@ == old(conn).notes@,
        r ==> exists|i: int|
            owns_note(old(conn).notes@, user_id, note_id, i) && final(conn).notes@ == old(
                conn,
            ).notes@.remove(i),
{
    conn.notes.remove(user_id, note_id)
}

/// Creates the note that `note` describes for `user_id`, as of `time`, under
/// an id above every id in use. `None`, with nothing changed, when no id is
/// left.
pub fn create_at(conn: &mut Database, user_id: i32, note: &CreateNoteInfo, time: i64) -> (r: Option<Note>)
    requires
        old(conn).wf(),
    ensures
        final(conn).wf(),
        final(conn).users == old(conn).users,
        final(conn).sessions == old(conn).sessions,
        r is None <==> old(conn).notes.ids_exhausted(),
        r is None ==> final(conn).notes@ == old(conn).notes@,
        r is Some ==> {
            let n = r->Some_0@;
            &&& n == created_note(n.id, *note, time)
            &&& forall|i: int| 0 <= i < old(conn).notes@.len() ==> #[trigger] old(conn).notes@[i].1.id < n.id
            &&& final(conn).notes@ == old(conn).notes@.push((user_id, n))
        },
{
    conn.notes.insert(user_id, note, time)
}

/// `create_at`, as of now.
pub fn create(conn: &mut Database, user_id: i32, note: &CreateNoteInfo) -> (r: Option<Note>)
    requires
        old(conn).wf(),
    ensures
        final(conn).wf(),
        final(conn).users == old(conn).users,
        final(conn).sessions == old(conn).sessions,
        r is None <==> old(conn).notes.ids_exhausted(),
        r is None ==> final(conn).notes@ == old(conn).notes@,
        r is Some ==> {
            let n = r->Some_0@;
            &&& n == created_note(n.id, *note, n.update_time)
            &&& forall|i: int| 0 <= i < old(conn).notes@.len() ==> #[trigger] old(conn).notes@[i].1.id < n.id
            &&& final(conn).notes@ == old(conn).notes@.push((user_id, n))
        },
{
    create_at(conn, user_id, note, now())
}

} // verus!
