use notes_api::db::note::{self, CreateNoteInfo, PageSize, UpdateNoteInfo, MAX_PAGE_SIZE};
use notes_api::db::user::{HashedPassword, User};
use notes_api::db::Database;
use notes_api::routes::notes;
use notes_api::routes::Status;

fn user(id: i32) -> User {
    User::new(id, format!("u{}@example.com", id), HashedPassword::from_phc(String::new()))
}

fn info(title: Option<&str>, content: &str, favourite: Option<bool>) -> CreateNoteInfo {
    CreateNoteInfo { title: title.map(|t| t.to_string()), content: content.to_string(), favourite }
}

#[test]
fn page_size_bounds() {
    assert!(PageSize::new(0).is_err());
    assert!(PageSize::new(-3).is_err());
    assert!(PageSize::new(MAX_PAGE_SIZE + 1).is_err());
    assert_eq!(PageSize::new(1).ok().unwrap().0, 1);
    assert_eq!(PageSize::new(100).ok().unwrap().0, 100);
}

#[test]
fn created_note_has_defaults_and_fresh_ids() {
    let mut db = Database::new();
    let a = note::create_at(&mut db, 1, &info(None, "body", None), 55).expect("note");
    assert_eq!(a.id, 1);
    assert_eq!(a.title, "");
    assert_eq!(a.content, "body");
    assert!(!a.favourite);
    assert!(!a.is_diary);
    assert_eq!(a.update_time, 55);
    let b = note::create_at(&mut db, 1, &info(Some("t"), "c", Some(true)), 56).expect("note");
    assert_eq!(b.id, 2);
    assert_eq!(b.title, "t");
    assert!(b.favourite);
    let fetched = note::get(&db, 1, 2).expect("found");
    assert_eq!(fetched.title, "t");
    assert!(note::get(&db, 2, 2).is_none());
}

#[test]
fn update_changes_only_given_fields() {
    let mut db = Database::new();
    note::create_at(&mut db, 1, &info(Some("old"), "text", Some(false)), 10);
    let changes = UpdateNoteInfo { title: Some("new".to_string()), content: None, favourite: Some(true) };
    assert_eq!(note::update_at(&mut db, 1, 1, &changes, 99), Some(99));
    let n = note::get(&db, 1, 1).expect("note");
    assert_eq!(n.title, "new");
    assert_eq!(n.content, "text");
    assert!(n.favourite);
    assert_eq!(n.update_time, 99);
    assert_eq!(note::update_at(&mut db, 2, 1, &changes, 100), None);
    assert_eq!(note::get(&db, 1, 1).unwrap().update_time, 99);
}

#[test]
fn delete_only_own_notes() {
    let mut db = Database::new();
    note::create_at(&mut db, 1, &info(None, "a", None), 0);
    note::create_at(&mut db, 2, &info(None, "b", None), 0);
    assert!(!note::delete(1, 2, &mut db));
    assert!(note::delete(1, 1, &mut db));
    assert!(!note::delete(1, 1, &mut db));
    assert!(note::get(&db, 2, 2).is_some());
}

#[test]
fn listing_pages_by_offset_and_reports_more() {
    let mut db = Database::new();
    for i in 0..5 {
        note::create_at(&mut db, 1, &info(Some(&format!("n{}", i)), "c", None), i);
        note::create_at(&mut db, 2, &info(None, "other", None), i);
    }
    let (page, more) = note::get_many(&db, 1, 0, PageSize::new(2).ok().unwrap()).unwrap();
    assert_eq!(page.iter().map(|n| n.title.clone()).collect::<Vec<_>>(), vec!["n0", "n1"]);
    assert!(more);
    let (page, more) = note::get_many(&db, 1, 3, PageSize::new(2).ok().unwrap()).unwrap();
    assert_eq!(page.iter().map(|n| n.title.clone()).collect::<Vec<_>>(), vec!["n3", "n4"]);
    assert!(!more);
    let (page, more) = note::get_many(&db, 1, 4, PageSize::new(2).ok().unwrap()).unwrap();
    assert_eq!(page.len(), 1);
    assert!(!more);
    let (page, more) = note::get_many(&db, 1, 9, PageSize::new(2).ok().unwrap()).unwrap();
    assert!(page.is_empty());
    assert!(!more);
    assert!(note::get_many(&db, 1, -1, PageSize::new(2).ok().unwrap()).is_none());
    let (overviews, more) = note::get_overview_many(&db, 1, 0, PageSize::new(10).ok().unwrap()).unwrap();
    assert_eq!(overviews.len(), 5);
    assert!(!more);
    assert_eq!(overviews[4].title, "n4");
    let (diary, more) = note::get_diary_notes(&db, 1, 0, PageSize::new(10).ok().unwrap()).unwrap();
    assert!(diary.is_empty());
    assert!(!more);
}

#[test]
fn note_routes_report_statuses() {
    let mut db = Database::new();
    let (status, created) = notes::create(&info(Some("hello"), "world", None), &mut db, user(1));
    assert_eq!(status, Status::Created);
    let id = created.unwrap().id;
    let (status, got) = notes::get(id, &db, user(1));
    assert_eq!(status, Status::Success);
    assert_eq!(got.unwrap().content, "world");
    let (status, got) = notes::get(id, &db, user(2));
    assert_eq!(status, Status::NotFound);
    assert!(got.is_none());
    let (status, overview) = notes::get_overview(id, &db, user(1));
    assert_eq!(status, Status::Success);
    assert_eq!(overview.unwrap().title, "hello");
    let (status, page) = notes::get_many(&db, user(1), 0, None);
    assert_eq!(status, Status::Success);
    let page = page.unwrap();
    assert_eq!(page.data.len(), 1);
    assert!(!page.more);
    let (status, page) = notes::get_many(&db, user(1), 0, Some(0));
    assert_eq!(status, Status::BadRequest);
    assert!(page.is_none());
    let (status, _) = notes::get_overview_many(&db, user(1), 0, Some(101));
    assert_eq!(status, Status::BadRequest);
    let (status, _) = notes::get_overview_many(&db, user(1), -2, Some(5));
    assert_eq!(status, Status::InternalServerError);
    let changes = UpdateNoteInfo { title: None, content: Some("new".to_string()), favourite: None };
    assert_eq!(notes::update(id, &changes, &mut db, user(2)), Status::NotFound);
    assert_eq!(notes::update(id, &changes, &mut db, user(1)), Status::Success);
    assert_eq!(note::get(&db, 1, id).unwrap().content, "new");
    assert_eq!(notes::delete(id, &mut db, user(2)), Status::NotFound);
    assert_eq!(notes::delete(id, &mut db, user(1)), Status::Success);
    assert_eq!(notes::delete(id, &mut db, user(1)), Status::NotFound);
}

#[test]
fn create_and_update_stamp_the_current_time() {
    let mut db = Database::new();
    let n = note::create(&mut db, 1, &info(None, "now", None)).expect("note");
    assert!(n.update_time > 1_600_000_000_000);
    let changes = UpdateNoteInfo { title: None, content: None, favourite: None };
    let t = note::update(&mut db, 1, n.id, &changes).expect("updated");
    assert!(t >= n.update_time);
    assert_eq!(note::get(&db, 1, n.id).unwrap().update_time, t);
}
