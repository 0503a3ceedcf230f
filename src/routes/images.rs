use vstd::prelude::*;

use crate::db::user::User;
use crate::db::Database;
use crate::routes::Status;

verus! {

/// Where the link to a stored image starts; the image's id follows.
pub const IMAGE_URL_PREFIX: &'static str = "https://dev.com/api/images/";

/// What rocket's `ContentType::parse_flexible` makes of `s`: the top-level type
/// and the full rendering of the media type, or `None` when it does not parse.
pub uninterp spec fn media_type_of(s: Seq<char>) -> Option<(Seq<char>, Seq<char>)>;

/// Relies on `rocket::http::ContentType::parse_flexible`, which accepts a
/// shorthand (`png`) or a full media type, and on the `top` and `to_string` of
/// what it returns.
#[verifier::external_body]
fn parse_media_type(s: &str) -> (r: Option<(String, String)>)
    ensures
        r is None <==> media_type_of(s@) is None,
        r matches Some((top, full)) ==> media_type_of(s@) == Some((top@, full@)),
{
    match rocket::http::ContentType::parse_flexible(s) {
        Some(ct) => Some((ct.top().as_str().to_string(), ct.to_string())),
        None => None,
    }
}

/// The decimal digits of `n`.
pub open spec fn decimal(n: nat) -> Seq<char>
    decreases n,
{
    if n < 10 {
        seq![digit_char(n)]
    } else {
        decimal(n / 10).push(digit_char(n % 10))
    }
}

/// The decimal digit for `d` (below ten).
pub open spec fn digit_char(d: nat) -> char {
    if d == 0 { '0' }
    else if d == 1 { '1' }
    else if d == 2 { '2' }
    else if d == 3 { '3' }
    else if d == 4 { '4' }
    else if d == 5 { '5' }
    else if d == 6 { '6' }
    else if d == 7 { '7' }
    else if d == 8 { '8' }
    else { '9' }
}

/// Relies on `i32::to_string`, which writes a non-negative number in decimal
/// digits with no sign and no leading zeros.
#[verifier::external_body]
fn decimal_text(n: i32) -> (r: String)
    requires
        n >= 0,
    ensures
        r@ == decimal(n as nat),
{
    n.to_string()
}

/// ASCII lower case of `c`.
pub open spec fn ascii_lower(c: char) -> char {
    if 'A' <= c <= 'Z' {
        ((c as u32) as u8 + 32) as char
    } else {
        c
    }
}

/// Whether `a` and `b` are equal but for ASCII case.
pub open spec fn caseless_eq(a: Seq<char>, b: Seq<char>) -> bool {
    &&& a.len() == b.len()
    &&& forall|i: int| 0 <= i < a.len() ==> ascii_lower(#[trigger] a[i]) == ascii_lower(b[i])
}

fn lower_char(c: char) -> (r: char)
    ensures
        r == ascii_lower(c),
{
    if 'A' <= c && c <= 'Z' {
        ((c as u32) as u8 + 32) as char
    } else {
        c
    }
}

/// Whether `a` and `b` are equal but for ASCII case.
pub fn eq_ignore_ascii_case(a: &str, b: &str) -> (r: bool)
    ensures
        r == caseless_eq(a@, b@),
{
    let n = a.unicode_len();
    if n != b.unicode_len() {
        return false;
    }
    let mut i: usize = 0;
    while i < n
        invariant
            n == a@.len(),
            n == b@.len(),
            i <= n,
            forall|k: int| 0 <= k < i ==> ascii_lower(#[trigger] a@[k]) == ascii_lower(b@[k]),
        decreases n - i,
    {
        if lower_char(a.get_char(i)) != lower_char(b.get_char(i)) {
            return false;
        }
        i += 1;
    }
    true
}

/// The link to image `id`.
pub open spec fn image_url(id: i32) -> Seq<char> {
    IMAGE_URL_PREFIX@ + decimal(id as nat)
}

/// A link to a stored image.
pub struct ImageFileLink {
    pub url: String,
}

/// The answer to an upload: `success` is 1 with a link to the stored image, or
/// 0 with none.
pub struct ImageResponse {
    pub success: i32,
    pub file: Option<ImageFileLink>,
}

impl ImageResponse {
    /// The answer to a failed upload.
    pub fn failure() -> (r: ImageResponse)
        ensures
            r.success == 0,
            r.file is None,
    {
        ImageResponse { success: 0, file: None }
    }
}

/// The data of a single image, with its media type.
pub struct Image {
    pub bytes: Vec<u8>,
    pub data_type: String,
}

impl Image {
    /// Builds an image record.
    pub fn new(bytes: Vec<u8>, data_type: String) -> (r: Image)
        ensures
            r.bytes@ == bytes@,
            r.data_type@ == data_type@,
    {
        Image { bytes, data_type }
    }
}

/// One stored image, as plain values.
pub ghost struct ImageRow {
    pub id: i32,
    pub user_id: i32,
    pub image: Seq<u8>,
    pub mime_type: Seq<char>,
}

/// One row of the images table.
pub struct ImageRecord {
    pub id: i32,
    pub user_id: i32,
    pub image: Vec<u8>,
    pub mime_type: String,
}

impl View for ImageRecord {
    type V = ImageRow;

    open spec fn view(&self) -> ImageRow {
        ImageRow { id: self.id, user_id: self.user_id, image: self.image@, mime_type: self.mime_type@ }
    }
}

/// Whether row `i` of `v` is image `id` of `user_id`.
pub open spec fn owns_image(v: Seq<ImageRow>, user_id: i32, id: i32, i: int) -> bool {
    &&& 0 <= i < v.len()
    &&& v[i].user_id == user_id
    &&& v[i].id == id
}

/// Whether `user_id` has an image `id` in `v`.
pub open spec fn has_image(v: Seq<ImageRow>, user_id: i32, id: i32) -> bool {
    exists|i: int| owns_image(v, user_id, id, i)
}

/// The images table, in ascending id order.
pub struct ImageTable {
    rows: Vec<ImageRecord>,
    next_id: i32,
}

impl View for ImageTable {
    type V = Seq<ImageRow>;

    closed spec fn view(&self) -> Seq<ImageRow> {
        self.rows@.map_values(|r: ImageRecord| r@)
    }
}

impl ImageTable {
    /// Ids ascend strictly along the rows and stay below the next one to hand out.
    pub closed spec fn wf(&self) -> bool {
        &&& 1 <= self.next_id
        &&& forall|i: int| 0 <= i < self.rows.len() ==> 1 <= #[trigger] self.rows[i].id < self.next_id
        &&& forall|i: int, j: int|
            0 <= i < j < self.rows.len() ==> #[trigger] self.rows[i].id < #[trigger] self.rows[j].id
    }

    /// Images are stored by ascending id, so no two rows share one.
    pub proof fn lemma_ids_unique(&self)
        requires
            self.wf(),
        ensures
            forall|i: int, j: int|
                0 <= i < self@.len() && 0 <= j < self@.len() && #[trigger] self@[i].id == #[trigger] self@[j].id
                    ==> i == j,
    {
        assert forall|i: int, j: int|
            0 <= i < self@.len() && 0 <= j < self@.len() && #[trigger] self@[i].id == #[trigger] self@[j].id
                implies i == j by {
            if i < j {
                assert(self.rows[i].id < self.rows[j].id);
            } else if j < i {
                assert(self.rows[j].id < self.rows[i].id);
            }
        }
    }

    /// Whether every id has been handed out.
    pub closed spec fn ids_exhausted(&self) -> bool {
        self.next_id == i32::MAX
    }

    /// An empty table.
    pub fn new() -> (r: ImageTable)
        ensures
            r.wf(),
            r@ == Seq::<ImageRow>::empty(),
            !r.ids_exhausted(),
    {
        let r = ImageTable { rows: Vec::new(), next_id: 1 };
        assert(r@ =~= Seq::<ImageRow>::empty());
        r
    }

    /// Image `id` of `user_id`: its bytes and stored media type.
    pub fn find(&self, user_id: i32, id: i32) -> (r: Option<(Vec<u8>, String)>)
        requires
            self.wf(),
        ensures
            r is Some <==> has_image(self@, user_id, id),
            r matches Some((bytes, mime)) ==> exists|i: int|
                owns_image(self@, user_id, id, i) && self@[i].image == bytes@ && self@[i].mime_type
                    == mime@,
    {
        let mut i: usize = 0;
        while i < self.rows.len()
            invariant
                i <= self.rows.len(),
                forall|k: int| 0 <= k < i ==> !#[trigger] owns_image(self@, user_id, id, k),
            decreases self.rows.len() - i,
        {
            assert(self@[i as int] == self.rows[i as int]@);
            if self.rows[i].user_id == user_id && self.rows[i].id == id {
                assert(owns_image(self@, user_id, id, i as int));
                return Some((self.rows[i].image.clone(), self.rows[i].mime_type.clone()));
            }
            i += 1;
        }
        None
    }

    /// Stores an image for `user_id` under a new id, above every id in use;
    /// `None`, with the table unchanged, when no id is left.
    pub fn insert(&mut self, user_id: i32, image: Vec<u8>, mime_type: String) -> (r: Option<i32>)
        requires
            old(self).wf(),
        ensures
            final(self).wf(),
            r is None <==> old(self).ids_exhausted(),
            r is None ==> final(self)@ == old(self)@,
            r is Some ==> {
                &&& r->Some_0 >= 1
                &&& forall|i: int| 0 <= i < old(self)@.len() ==> #[trigger] old(self)@[i].id != r->Some_0
                &&& final(self)@ == old(self)@.push(
                    ImageRow { id: r->Some_0, user_id, image: image@, mime_type: mime_type@ },
                )
            },
    {
        if self.next_id == i32::MAX {
            return None;
        }
        let id = self.next_id;
        let ghost v0 = self@;
        let ghost row = ImageRow { id, user_id, image: image@, mime_type: mime_type@ };
        let ghost old_rows = self.rows@;
        assert forall|i: int| 0 <= i < v0.len() implies #[trigger] v0[i].id != id by {
            assert(v0[i] == self.rows[i]@);
        }
        self.rows.push(ImageRecord { id, user_id, image, mime_type });
        self.next_id = id + 1;
        assert(self@ =~= v0.push(row));
        assert forall|a: int, b: int| 0 <= a < b < self.rows.len() implies #[trigger] self.rows[a].id
            < #[trigger] self.rows[b].id by {
            if b < old_rows.len() {
                assert(old_rows[a].id < old_rows[b].id);
            } else {
                assert(old_rows[a].id < id);
            }
        }
        Some(id)
    }
}

/// Image `id` of `user`. A missing image, and a stored media type that does
/// not parse, are server errors.
pub fn get(user: User, conn: &Database, id: i32) -> (r: Result<Image, Status>)
    requires
        conn.wf(),
    ensures
        r is Err ==> r->Err_0 == Status::InternalServerError,
        r is Ok <==> exists|i: int|
            owns_image(conn.images@, user.id, id, i) && media_type_of(conn.images@[i].mime_type) is Some,
        r is Ok ==> exists|i: int|
            {
                &&& owns_image(conn.images@, user.id, id, i)
                &&& r->Ok_0.bytes@ == conn.images@[i].image
                &&& media_type_of(conn.images@[i].mime_type) is Some
                &&& r->Ok_0.data_type@ == media_type_of(conn.images@[i].mime_type)->Some_0.1
            },
{
    let (bytes, mime_type) = match conn.images.find(user.id, id) {
        Some(found) => found,
        None => return Err(Status::InternalServerError),
    };
    let (_, full) = match parse_media_type(mime_type.as_str()) {
        Some(parsed) => parsed,
        None => {
            proof {
                assert forall|i: int| owns_image(conn.images@, user.id, id, i) implies media_type_of(
                    conn.images@[i].mime_type,
                ) is None by {
                    conn.images.lemma_ids_unique();
                }
            }
            return Err(Status::InternalServerError);
        },
    };
    Ok(Image::new(bytes, full))
}

/// Whether `content_type` names an image media type.
pub open spec fn is_image_type(content_type: Seq<char>) -> bool {
    &&& media_type_of(content_type) is Some
    &&& caseless_eq(media_type_of(content_type)->Some_0.0, "image"@)
}

/// Stores an uploaded file for `user`: its bytes and the media type it was
/// sent with, if the upload held one. Only an image media type is accepted,
/// and it is stored as rocket renders it; the answer links to the new image.
pub fn upload(user: User, conn: &mut Database, file: Option<(Vec<u8>, String)>) -> (r: (
    Status,
    ImageResponse,
))
    requires
        old(conn).wf(),
    ensures
        final(conn).wf(),
        final(conn).users == old(conn).users,
        final(conn).sessions == old(conn).sessions,
        final(conn).notes == old(conn).notes,
        r.0 == Status::Created || r.0 == Status::InternalServerError,
        r.0 == Status::InternalServerError ==> r.1.success == 0 && r.1.file is None
            && final(conn).images@ == old(conn).images@,
        r.0 == Status::Created <==> (file is Some && is_image_type(file->Some_0.1@)
            && !old(conn).images.ids_exhausted()),
        r.0 == Status::Created ==> {
            &&& r.1.success == 1
            &&& r.1.file is Some
            &&& exists|id: i32|
                {
                    &&& final(conn).images@ == old(conn).images@.push(
                        ImageRow {
                            id,
                            user_id: user.id,
                            image: file->Some_0.0@,
                            mime_type: media_type_of(file->Some_0.1@)->Some_0.1,
                        },
                    )
                    &&& r.1.file->Some_0.url@ == image_url(id)
                }
        },
{
    let (content, content_type) = match file {
        Some(file) => file,
        None => return (Status::InternalServerError, ImageResponse::failure()),
    };
    let (top, full) = match parse_media_type(content_type.as_str()) {
        Some(parsed) => parsed,
        None => return (Status::InternalServerError, ImageResponse::failure()),
    };
    if !eq_ignore_ascii_case(top.as_str(), "image") {
        return (Status::InternalServerError, ImageResponse::failure());
    }
    let ghost bytes = content@;
    let ghost mime = full@;
    match conn.images.insert(user.id, content, full) {
        Some(id) => {
            let digits = decimal_text(id);
            let url = IMAGE_URL_PREFIX.to_owned().concat(digits.as_str());
            assert(url@ == image_url(id));
            let link = ImageFileLink { url };
            assert(conn.images@ == old(conn).images@.push(
                ImageRow { id, user_id: user.id, image: bytes, mime_type: mime },
            ));
            (Status::Created, ImageResponse { success: 1, file: Some(link) })
        },
        None => (Status::InternalServerError, ImageResponse::failure()),
    }
}

} // verus!
