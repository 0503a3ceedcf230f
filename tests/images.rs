use notes_api::db::user::{HashedPassword, User};
use notes_api::db::Database;
use notes_api::routes::images::{eq_ignore_ascii_case, get, upload, Image};
use notes_api::routes::Status;

fn user(id: i32) -> User {
    User::new(id, format!("u{}@example.com", id), HashedPassword::from_phc(String::new()))
}

#[test]
fn upload_stores_an_image_and_links_to_it() {
    let mut db = Database::new();
    let (status, response) = upload(user(1), &mut db, Some((vec![1, 2, 3], "image/png".to_string())));
    assert_eq!(status, Status::Created);
    assert_eq!(response.success, 1);
    assert_eq!(response.file.unwrap().url, "https://dev.com/api/images/1");
    let (status, response) = upload(user(1), &mut db, Some((vec![4], "image/jpeg".to_string())));
    assert_eq!(status, Status::Created);
    assert_eq!(response.file.unwrap().url, "https://dev.com/api/images/2");
    let image = get(user(1), &db, 1).ok().expect("image");
    assert_eq!(image.bytes, vec![1, 2, 3]);
    assert_eq!(image.data_type, "image/png");
}

#[test]
fn upload_refuses_non_images_and_missing_files() {
    let mut db = Database::new();
    let (status, response) = upload(user(1), &mut db, Some((vec![1], "text/plain".to_string())));
    assert_eq!(status, Status::InternalServerError);
    assert_eq!(response.success, 0);
    assert!(response.file.is_none());
    let (status, _) = upload(user(1), &mut db, Some((vec![1], "not a type at all".to_string())));
    assert_eq!(status, Status::InternalServerError);
    let (status, _) = upload(user(1), &mut db, None);
    assert_eq!(status, Status::InternalServerError);
    assert_eq!(status.code(), 500);
    assert!(get(user(1), &db, 1).is_err());
}

#[test]
fn images_are_private_to_their_owner() {
    let mut db = Database::new();
    let (status, _) = upload(user(1), &mut db, Some((vec![9], "image/gif".to_string())));
    assert_eq!(status, Status::Created);
    assert_eq!(get(user(2), &db, 1).err(), Some(Status::InternalServerError));
}

#[test]
fn caseless_comparison() {
    assert!(eq_ignore_ascii_case("IMAGE", "image"));
    assert!(eq_ignore_ascii_case("image", "image"));
    assert!(!eq_ignore_ascii_case("imag", "image"));
    assert!(!eq_ignore_ascii_case("video", "image"));
}

#[test]
fn image_new_keeps_fields() {
    let image = Image::new(vec![7, 8], "image/webp".to_string());
    assert_eq!(image.bytes, vec![7, 8]);
    assert_eq!(image.data_type, "image/webp");
}

#[test]
fn top_level_type_matches_without_case() {
    let mut db = Database::new();
    let (status, _) = upload(user(3), &mut db, Some((vec![5], "IMAGE/PNG".to_string())));
    assert_eq!(status, Status::Created);
    let (status, _) = upload(user(3), &mut db, Some((vec![5], "json".to_string())));
    assert_eq!(status, Status::InternalServerError);
    assert!(get(user(3), &db, 1).is_ok());
    assert!(get(user(3), &db, 2).is_err());
}
