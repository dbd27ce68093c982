use urlvibe_rs::auth::{decode_token, verify_password};
use urlvibe_rs::config::{AppConfig, SameSite};
use urlvibe_rs::errors::AppError;
use urlvibe_rs::models::{ItemRecord, UserRecord};
use urlvibe_rs::routes::{
    apply_item_update, clean_label, clean_title, complete_login, deletion_outcome, found_item,
    issue_session, item_filter, login_identifier, map_database_error, prepare_item,
    prepare_rename, prepare_signup, rename_outcome, validate_signup, CreateItemRequest,
    ItemFilter, LoginRequest, RenameLabelRequest, SignupRequest, UpdateItemRequest,
};

fn bad_request<T: std::fmt::Debug>(r: Result<T, AppError>) -> String {
    match r {
        Err(AppError::BadRequest(m)) => m,
        other => panic!("unexpected {:?}", other),
    }
}

fn signup(first: &str, email: &str, user: &str, pw: &str) -> SignupRequest {
    SignupRequest {
        first_name: first.to_owned(),
        email: email.to_owned(),
        username: user.to_owned(),
        password: pw.to_owned(),
    }
}

fn config() -> AppConfig {
    AppConfig {
        database_url: "postgres://db".to_owned(),
        jwt_secret: "k".to_owned(),
        frontend_origin: "http://localhost:5173".to_owned(),
        host: "0.0.0.0".to_owned(),
        port: 8080,
        cookie_secure: true,
        cookie_same_site: SameSite::CrossSite,
    }
}

fn item(title: &str, label: &str, fav: bool) -> ItemRecord {
    ItemRecord {
        id: 1,
        user_id: 2,
        youtube_url: "https://youtu.be/abc".to_owned(),
        youtube_video_id: "abc".to_owned(),
        title: title.to_owned(),
        label: label.to_owned(),
        is_favorite: fav,
        created_at: 0,
        updated_at: 0,
    }
}

#[test]
fn titles_and_labels_are_trimmed_and_required() {
    assert_eq!(clean_title("  My video ").unwrap(), "My video");
    assert_eq!(clean_label("\tChill\n").unwrap(), "Chill");
    assert_eq!(bad_request(clean_title("   ")), "Title is required");
    assert_eq!(bad_request(clean_label("")), "Playlist label is required");
}

#[test]
fn cleaning_twice_is_cleaning_once() {
    for raw in ["  a b  ", "x", "\u{2028}y\u{2029}"] {
        let once = clean_label(raw).unwrap();
        assert_eq!(clean_label(&once).unwrap(), once);
        let once = clean_title(raw).unwrap();
        assert_eq!(clean_title(&once).unwrap(), once);
    }
}

#[test]
fn signup_validation() {
    assert!(validate_signup(&signup("A", "a@b.c", "a", "12345678")).is_ok());
    assert_eq!(
        bad_request(validate_signup(&signup(" ", "a@b.c", "a", "12345678"))),
        "First name, email, username, and password are required"
    );
    assert_eq!(
        bad_request(validate_signup(&signup("A", "a@b.c", "a", " 1234567 "))),
        "Password must be at least 8 characters"
    );
    // Eight bytes of UTF-8 in four characters are long enough.
    assert!(validate_signup(&signup("A", "a@b.c", "a", "éééé")).is_ok());
}

#[test]
fn signup_row_is_normalized_and_hashed() {
    let row = prepare_signup(&signup(" Ada ", " ADA@Example.COM ", " Ada ", " password1 ")).unwrap();
    assert_eq!(row.first_name, "Ada");
    assert_eq!(row.email, "ada@example.com");
    assert_eq!(row.username, "ada");
    assert!(verify_password("password1", &row.password_hash).is_ok());
    assert!(verify_password(" password1 ", &row.password_hash).is_err());
}

#[test]
fn session_and_login() {
    let row = prepare_signup(&signup("Ada", "ada@x.io", "ada", "password1")).unwrap();
    let user = UserRecord {
        id: 77,
        first_name: row.first_name.clone(),
        email: row.email.clone(),
        username: row.username.clone(),
        password_hash: row.password_hash.clone(),
    };
    let cfg = config();
    let session = issue_session(user.clone(), &cfg).unwrap();
    assert_eq!(session.response.user.id, 77);
    let token = session.response.token.clone().unwrap();
    assert_eq!(decode_token(&token, "k").unwrap(), 77);
    assert_eq!(session.cookie.name, "urlvibe_token");
    assert_eq!(session.cookie.value, token);
    assert!(session.cookie.http_only);

    let login = LoginRequest { identifier: " ADA ".to_owned(), password: " password1 ".to_owned() };
    assert_eq!(login_identifier(&login).unwrap(), "ada");
    let answer = complete_login(Some(user.clone()), &login, &cfg).unwrap();
    assert_eq!(answer.response.user.username, "ada");
    let token = answer.response.token.clone().unwrap();
    assert_eq!(decode_token(&token, "k").unwrap(), 77);
    assert_eq!(answer.cookie.value, token);
    assert!(answer.cookie.http_only);
    assert_eq!(answer.cookie.path, "/");

    let wrong = LoginRequest { identifier: "ada".to_owned(), password: "password2".to_owned() };
    match complete_login(Some(user), &wrong, &cfg) {
        Err(AppError::Unauthorized(m)) => assert_eq!(m, "Invalid credentials"),
        other => panic!("unexpected {:?}", other.map(|r| r.response.user.id)),
    }
    match complete_login(None, &login, &cfg) {
        Err(AppError::Unauthorized(m)) => assert_eq!(m, "Invalid credentials"),
        other => panic!("unexpected {:?}", other.map(|r| r.response.user.id)),
    }
    let blank = LoginRequest { identifier: "ada".to_owned(), password: "  ".to_owned() };
    assert_eq!(bad_request(login_identifier(&blank)), "Identifier and password are required");
}

#[test]
fn item_listing_filters() {
    assert!(matches!(item_filter(None, None), Ok(ItemFilter::All)));
    assert!(matches!(item_filter(Some("all".to_owned()), None), Ok(ItemFilter::All)));
    assert!(matches!(item_filter(Some("favorites".to_owned()), None), Ok(ItemFilter::Favorites)));
    match item_filter(None, Some(" Chill ".to_owned())) {
        Ok(ItemFilter::ByLabel(l)) => assert_eq!(l, "Chill"),
        other => panic!("unexpected {:?}", other),
    }
    assert_eq!(
        bad_request(item_filter(Some("all".to_owned()), Some("x".to_owned()))),
        "Use either a view or a label filter"
    );
    assert_eq!(bad_request(item_filter(Some("recent".to_owned()), None)), "Unknown items view requested");
    assert_eq!(bad_request(item_filter(None, Some(" ".to_owned()))), "Playlist label is required");
}

#[test]
fn new_item_rows() {
    let req = CreateItemRequest {
        youtube_url: "  https://youtu.be/dQw4w9WgXcQ ".to_owned(),
        title: " Song ".to_owned(),
        label: " Mix ".to_owned(),
    };
    let row = prepare_item(&req).unwrap();
    assert_eq!(row.youtube_url, "https://youtu.be/dQw4w9WgXcQ");
    assert_eq!(row.youtube_video_id, "dQw4w9WgXcQ");
    assert_eq!(row.title, "Song");
    assert_eq!(row.label, "Mix");

    let bad = CreateItemRequest { youtube_url: "nope".to_owned(), title: "".to_owned(), label: "".to_owned() };
    assert_eq!(bad_request(prepare_item(&bad)), "Title is required");
    let bad = CreateItemRequest { youtube_url: "nope".to_owned(), title: "t".to_owned(), label: "".to_owned() };
    assert_eq!(bad_request(prepare_item(&bad)), "Playlist label is required");
    let bad = CreateItemRequest { youtube_url: "nope".to_owned(), title: "t".to_owned(), label: "l".to_owned() };
    assert_eq!(bad_request(prepare_item(&bad)), "Please provide a valid YouTube URL");
}

#[test]
fn item_updates() {
    let existing = item("Old", "Mix", false);
    let none = UpdateItemRequest { title: None, label: None, is_favorite: None };
    let c = apply_item_update(&existing, &none).unwrap();
    assert_eq!((c.title.as_str(), c.label.as_str(), c.is_favorite), ("Old", "Mix", false));

    let some = UpdateItemRequest {
        title: Some(" New ".to_owned()),
        label: None,
        is_favorite: Some(true),
    };
    let c = apply_item_update(&existing, &some).unwrap();
    assert_eq!((c.title.as_str(), c.label.as_str(), c.is_favorite), ("New", "Mix", true));

    let blank = UpdateItemRequest { title: Some(" ".to_owned()), label: Some(" ".to_owned()), is_favorite: None };
    assert_eq!(bad_request(apply_item_update(&existing, &blank)), "Title is required");
    let blank = UpdateItemRequest { title: None, label: Some(" ".to_owned()), is_favorite: None };
    assert_eq!(bad_request(apply_item_update(&existing, &blank)), "Playlist label is required");
}

#[test]
fn missing_items_are_not_found() {
    match found_item(None) {
        Err(AppError::NotFound(m)) => assert_eq!(m, "Item not found"),
        other => panic!("unexpected {:?}", other),
    }
    assert_eq!(found_item(Some(item("a", "b", true))).unwrap().title, "a");
    assert!(deletion_outcome(1).is_ok());
    match deletion_outcome(0) {
        Err(AppError::NotFound(m)) => assert_eq!(m, "Item not found"),
        other => panic!("unexpected {:?}", other),
    }
}

#[test]
fn label_renames() {
    let r = prepare_rename(" Mix ", &RenameLabelRequest { new_label: "Party".to_owned() }).unwrap();
    assert_eq!(r.old_label, "Mix");
    assert_eq!(r.new_label, "Party");
    assert_eq!(
        bad_request(prepare_rename("Mix", &RenameLabelRequest { new_label: " Mix ".to_owned() })),
        "New label must be different from the current label"
    );
    assert_eq!(
        bad_request(prepare_rename(" ", &RenameLabelRequest { new_label: "x".to_owned() })),
        "Playlist label is required"
    );
    match rename_outcome(vec![]) {
        Err(AppError::NotFound(m)) => assert_eq!(m, "Playlist label not found"),
        other => panic!("unexpected {:?}", other),
    }
    assert_eq!(rename_outcome(vec![item("a", "Party", false)]).unwrap().len(), 1);
}

#[test]
fn database_errors() {
    match map_database_error(Some("23505".to_owned())) {
        AppError::Conflict(m) => assert_eq!(m, "This record already exists for the selected playlist"),
        other => panic!("unexpected {:?}", other),
    }
    match map_database_error(Some("23503".to_owned())) {
        AppError::BadRequest(m) => assert_eq!(m, "Referenced record does not exist"),
        other => panic!("unexpected {:?}", other),
    }
    assert!(matches!(map_database_error(Some("42P01".to_owned())), AppError::Database));
    assert!(matches!(map_database_error(None), AppError::Database));
}
