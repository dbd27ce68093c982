//! The rules of the API's requests: what a signup, a login, an item, an item
//! update, a label rename and an item listing must hold, what is stored for
//! them, and how the outcome of a database call is answered.
use vstd::prelude::*;

use crate::auth::{
    auth_cookie, create_token, hash_password, is_hash_of, issued_for, max_password_bytes,
    normalize_email, normalize_username, normalized, password_check, session_cookie,
    verify_password, CookieSpec, DAY_SECONDS, SESSION_SECONDS,
};
use crate::config::{opt_view, AppConfig};
use crate::errors::{string_result, unit_result, AppError, AppResult, ErrorView};
use crate::models::{is_public_part, AuthUser, ItemRecord, UserRecord};
use crate::text::{
    ascii_lower_seq, ascii_lowercase, lemma_strip_idempotent, str_eq, trim, trim_str,
    utf8_len, utf8_shorter_than, Strip,
};
use crate::youtube::{extract_video_id, extract_video_id_spec};

verus! {

/// The body of a signup request.
#[derive(Debug, Clone)]
pub struct SignupRequest {
    pub first_name: String,
    pub email: String,
    pub username: String,
    pub password: String,
}

/// The body of a login request: an email or username, and a password.
#[derive(Debug, Clone)]
pub struct LoginRequest {
    pub identifier: String,
    pub password: String,
}

/// The body of a request that saves a video.
#[derive(Debug, Clone)]
pub struct CreateItemRequest {
    pub youtube_url: String,
    pub title: String,
    pub label: String,
}

/// The body of a request that changes a saved video; absent fields stay.
#[derive(Debug, Clone)]
pub struct UpdateItemRequest {
    pub title: Option<String>,
    pub label: Option<String>,
    pub is_favorite: Option<bool>,
}

/// The body of a request that renames a playlist label.
#[derive(Debug, Clone)]
pub struct RenameLabelRequest {
    pub new_label: String,
}

/// The answer to a signup, a login or a `me` request.
#[derive(Debug, Clone)]
pub struct AuthResponse {
    pub user: AuthUser,
    pub token: Option<String>,
}

/// The row that a signup inserts.
#[derive(Debug, Clone)]
pub struct NewUser {
    pub first_name: String,
    pub email: String,
    pub username: String,
    pub password_hash: String,
}

/// The row that saving a video inserts (for the requesting user).
#[derive(Debug, Clone)]
pub struct NewItem {
    pub youtube_url: String,
    pub youtube_video_id: String,
    pub title: String,
    pub label: String,
}

/// The values an item update writes.
#[derive(Debug, Clone)]
pub struct ItemChanges {
    pub title: String,
    pub label: String,
    pub is_favorite: bool,
}

/// A playlist rename: every item of the user labelled `old_label` gets
/// `new_label`.
#[derive(Debug, Clone)]
pub struct LabelRename {
    pub old_label: String,
    pub new_label: String,
}

/// Which of the user's items a listing returns.
#[derive(Debug, Clone)]
pub enum ItemFilter {
    ByLabel(String),
    Favorites,
    All,
}

// ---------------------------------------------------------------------------
// Titles and labels

/// A title or label as it is stored: trimmed, and required to be non-blank.
pub open spec fn cleaned(value: Seq<char>, message: Seq<char>) -> Result<Seq<char>, ErrorView> {
    if trim(value).len() == 0 {
        Err(ErrorView::BadRequest(message))
    } else {
        Ok(trim(value))
    }
}

/// The error for a blank title.
pub open spec fn title_required() -> Seq<char> {
    "Title is required"@
}

/// The error for a blank playlist label.
pub open spec fn label_required() -> Seq<char> {
    "Playlist label is required"@
}

fn cleaned_text(value: &str, message: &str) -> (r: AppResult<String>)
    ensures
        string_result(r) == cleaned(value@, message@),
{
    let t = trim_str(value);
    if t.unicode_len() == 0 {
        return Err(AppError::BadRequest(message.to_owned()));
    }
    Ok(t.to_owned())
}

/// A video title as stored: trimmed; a blank title is a bad request.
pub fn clean_title(value: &str) -> (r: AppResult<String>)
    ensures
        string_result(r) == cleaned(value@, title_required()),
{
    cleaned_text(value, "Title is required")
}

/// A playlist label as stored: trimmed; a blank label is a bad request.
pub fn clean_label(value: &str) -> (r: AppResult<String>)
    ensures
        string_result(r) == cleaned(value@, label_required()),
{
    cleaned_text(value, "Playlist label is required")
}

/// Cleaning a cleaned title or label gives it back unchanged.
pub proof fn cleaning_is_idempotent(value: Seq<char>, message: Seq<char>)
    ensures
        cleaned(value, message) matches Ok(t) ==> cleaned(t, message) == Ok::<Seq<char>, ErrorView>(t),
{
    lemma_strip_idempotent(value, Strip::Whitespace);
}

// ---------------------------------------------------------------------------
// Signup and login

/// The error for a signup with a blank field.
pub open spec fn signup_fields_required() -> ErrorView {
    ErrorView::BadRequest("First name, email, username, and password are required"@)
}

/// The error for a signup with a short password.
pub open spec fn password_too_short() -> ErrorView {
    ErrorView::BadRequest("Password must be at least 8 characters"@)
}

/// The check of a signup: no field may be blank, and the trimmed password
/// must take at least 8 bytes in UTF-8.
pub open spec fn signup_check(payload: SignupRequest) -> Result<(), ErrorView> {
    if trim(payload.first_name@).len() == 0 || trim(payload.email@).len() == 0 || trim(
        payload.username@,
    ).len() == 0 || trim(payload.password@).len() == 0 {
        Err(signup_fields_required())
    } else if utf8_len(trim(payload.password@)) < 8 {
        Err(password_too_short())
    } else {
        Ok(())
    }
}

fn is_blank(value: &str) -> (r: bool)
    ensures
        r == (trim(value@).len() == 0),
{
    trim_str(value).unicode_len() == 0
}

/// Checks a signup request.
pub fn validate_signup(payload: &SignupRequest) -> (r: AppResult<()>)
    ensures
        unit_result(r) == signup_check(*payload),
{
    if is_blank(payload.first_name.as_str()) || is_blank(payload.email.as_str()) || is_blank(
        payload.username.as_str(),
    ) || is_blank(payload.password.as_str()) {
        return Err(
            AppError::BadRequest(
                "First name, email, username, and password are required".to_owned(),
            ),
        );
    }
    if utf8_shorter_than(trim_str(payload.password.as_str()), 8) {
        return Err(AppError::BadRequest("Password must be at least 8 characters".to_owned()));
    }
    Ok(())
}

/// The row a valid signup stores: trimmed first name, normalized email and
/// username, and a hash of the trimmed password.
pub open spec fn is_new_user_for(user: NewUser, payload: SignupRequest) -> bool {
    &&& user.first_name@ == trim(payload.first_name@)
    &&& user.email@ == normalized(payload.email@)
    &&& user.username@ == normalized(payload.username@)
    &&& is_hash_of(trim(payload.password@), user.password_hash@)
}

/// Prepares the row of a signup: the request is checked, the identifiers
/// normalized and the trimmed password hashed.  A valid request whose
/// password Argon2 takes (at most `0xFFFF_FFFF` bytes) always succeeds; a
/// failing hasher is an internal error.
pub fn prepare_signup(payload: &SignupRequest) -> (r: AppResult<NewUser>)
    ensures
        signup_check(*payload) matches Err(e) ==> r matches Err(err) && err@ == e,
        signup_check(*payload) is Ok && utf8_len(trim(payload.password@)) <= max_password_bytes()
            ==> r is Ok,
        r matches Ok(u) ==> signup_check(*payload) is Ok && is_new_user_for(u, *payload),
        r matches Err(err) ==> signup_check(*payload) is Err || err@ == ErrorView::Internal,
{
    match validate_signup(payload) {
        Ok(()) => {},
        Err(e) => {
            return Err(e);
        },
    }
    let first_name = trim_str(payload.first_name.as_str()).to_owned();
    let email = normalize_email(payload.email.as_str());
    let username = normalize_username(payload.username.as_str());
    let password_hash = match hash_password(trim_str(payload.password.as_str())) {
        Ok(h) => h,
        Err(e) => {
            return Err(e);
        },
    };
    Ok(NewUser { first_name, email, username, password_hash })
}

/// `resp` answers with the public part of `user` and a token issued for
/// the user's id.
pub open spec fn is_session_of(resp: AuthResponse, user: UserRecord, secret: Seq<char>) -> bool {
    is_public_part(resp.user, user) && (resp.token matches Some(t) && issued_for(
        t@,
        user.id,
        secret,
    ))
}

/// An issued session: the answer to the request, and the `HttpOnly` cookie
/// that carries the same token.
#[derive(Debug, Clone)]
pub struct Session {
    pub response: AuthResponse,
    pub cookie: CookieSpec,
}

/// `session` is the session of `user` under `config`: its answer holds the
/// user's public part and a token issued for the user's id, and its cookie
/// is the session cookie that carries that token.
pub open spec fn is_user_session(session: Session, user: UserRecord, config: AppConfig) -> bool {
    &&& is_session_of(session.response, user, config.jwt_secret@)
    &&& session.response.token matches Some(t) && exists|now: i64|
        i64::MIN + DAY_SECONDS <= now <= i64::MAX - SESSION_SECONDS && #[trigger] session_cookie(
            t@,
            config,
            now,
        ) == session.cookie@
}

/// Issues the session of a user: a fresh token for the user's id, returned
/// in the answer together with the user's public part and set in the
/// session cookie.  It always succeeds.
pub fn issue_session(user: UserRecord, config: &AppConfig) -> (r: AppResult<Session>)
    ensures
        r is Ok,
        r matches Ok(session) ==> is_user_session(session, user, *config),
{
    let token = match create_token(user.id, config.jwt_secret.as_str()) {
        Ok(t) => t,
        Err(e) => {
            return Err(e);
        },
    };
    let cookie = auth_cookie(token.clone(), config);
    Ok(Session {
        response: AuthResponse { user: AuthUser::from(user), token: Some(token) },
        cookie,
    })
}

/// The identifier a login looks a user up by: required together with the
/// password, trimmed and ASCII lower-cased.
pub open spec fn login_lookup(payload: LoginRequest) -> Result<Seq<char>, ErrorView> {
    if trim(payload.identifier@).len() == 0 || trim(payload.password@).len() == 0 {
        Err(ErrorView::BadRequest("Identifier and password are required"@))
    } else {
        Ok(normalized(payload.identifier@))
    }
}

/// Checks a login request and gives the identifier to look the user up by
/// (as email or as username).
pub fn login_identifier(payload: &LoginRequest) -> (r: AppResult<String>)
    ensures
        string_result(r) == login_lookup(*payload),
{
    if is_blank(payload.identifier.as_str()) || is_blank(payload.password.as_str()) {
        return Err(AppError::BadRequest("Identifier and password are required".to_owned()));
    }
    Ok(ascii_lowercase(trim_str(payload.identifier.as_str())))
}

/// Completes a login with the user row that the identifier found: no row,
/// or a password that does not verify against the row's hash, is
/// "Invalid credentials"; else the user's session is issued.
pub fn complete_login(user: Option<UserRecord>, payload: &LoginRequest, config: &AppConfig) -> (r: AppResult<Session>)
    ensures
        (user matches Some(u) && password_check(trim(payload.password@), u.password_hash@) is Ok)
            ==> r is Ok,
        user is None ==> (r matches Err(e) && e@ == ErrorView::Unauthorized(
            "Invalid credentials"@,
        )),
        (user matches Some(u) && password_check(trim(payload.password@), u.password_hash@) is Err)
            ==> (r matches Err(e) && e@ == ErrorView::Unauthorized("Invalid credentials"@)),
        r matches Ok(session) ==> (user matches Some(u) && (password_check(
            trim(payload.password@),
            u.password_hash@,
        ) is Ok && is_user_session(session, u, *config))),
        r matches Err(e) ==> e@ == ErrorView::Unauthorized("Invalid credentials"@),
{
    let user = match user {
        Some(u) => u,
        None => {
            return Err(AppError::Unauthorized("Invalid credentials".to_owned()));
        },
    };
    match verify_password(trim_str(payload.password.as_str()), user.password_hash.as_str()) {
        Ok(()) => {},
        Err(_) => {
            return Err(AppError::Unauthorized("Invalid credentials".to_owned()));
        },
    }
    issue_session(user, config)
}

/// A user who signed up can log in with the same credentials: an
/// identifier that normalizes to the email or the username given at signup
/// looks up the stored email or username, and a password that equals the
/// signup password up to surrounding whitespace passes the password check
/// against the stored hash.
pub proof fn signup_credentials_log_in(signup: SignupRequest, row: NewUser, login: LoginRequest)
    requires
        signup_check(signup) is Ok,
        is_new_user_for(row, signup),
        normalized(login.identifier@) == normalized(signup.email@) || normalized(
            login.identifier@,
        ) == normalized(signup.username@),
        trim(login.password@) == trim(signup.password@),
    ensures
        login_lookup(login) is Ok,
        login_lookup(login) == Ok::<Seq<char>, ErrorView>(row.email@) || login_lookup(login)
            == Ok::<Seq<char>, ErrorView>(row.username@),
        password_check(trim(login.password@), row.password_hash@) == Ok::<(), ErrorView>(()),
{
    assert(ascii_lower_seq(trim(login.identifier@)).len() == trim(login.identifier@).len());
    assert(ascii_lower_seq(trim(signup.email@)).len() == trim(signup.email@).len());
    assert(ascii_lower_seq(trim(signup.username@)).len() == trim(signup.username@).len());
}

// ---------------------------------------------------------------------------
// Items

/// The value of an [`ItemFilter`].
pub enum FilterView {
    ByLabel(Seq<char>),
    Favorites,
    All,
}

/// The value of a result that holds a filter.
pub open spec fn filter_result(r: AppResult<ItemFilter>) -> Result<FilterView, ErrorView> {
    match r {
        Ok(ItemFilter::ByLabel(l)) => Ok(FilterView::ByLabel(l@)),
        Ok(ItemFilter::Favorites) => Ok(FilterView::Favorites),
        Ok(ItemFilter::All) => Ok(FilterView::All),
        Err(e) => Err(e@),
    }
}

/// Which items a listing asks for: a label filter or a view, not both; the
/// views are `all` (also the default) and `favorites`.
pub open spec fn filter_of(view: Option<Seq<char>>, label: Option<Seq<char>>) -> Result<FilterView, ErrorView> {
    match (view, label) {
        (Some(_), Some(_)) => Err(ErrorView::BadRequest("Use either a view or a label filter"@)),
        (None, Some(l)) => match cleaned(l, label_required()) {
            Ok(c) => Ok(FilterView::ByLabel(c)),
            Err(e) => Err(e),
        },
        (Some(v), None) => if v == "favorites"@ {
            Ok(FilterView::Favorites)
        } else if v == "all"@ {
            Ok(FilterView::All)
        } else {
            Err(ErrorView::BadRequest("Unknown items view requested"@))
        },
        (None, None) => Ok(FilterView::All),
    }
}

/// Decides which of the user's items a listing returns.
pub fn item_filter(view: Option<String>, label: Option<String>) -> (r: AppResult<ItemFilter>)
    ensures
        filter_result(r) == filter_of(opt_view(view), opt_view(label)),
{
    match (view, label) {
        (Some(_), Some(_)) => Err(
            AppError::BadRequest("Use either a view or a label filter".to_owned()),
        ),
        (None, Some(l)) => match clean_label(l.as_str()) {
            Ok(c) => Ok(ItemFilter::ByLabel(c)),
            Err(e) => Err(e),
        },
        (Some(v), None) => {
            if str_eq(v.as_str(), "favorites") {
                Ok(ItemFilter::Favorites)
            } else if str_eq(v.as_str(), "all") {
                Ok(ItemFilter::All)
            } else {
                Err(AppError::BadRequest("Unknown items view requested".to_owned()))
            }
        },
        (None, None) => Ok(ItemFilter::All),
    }
}

/// The row that saving a video stores, or the first error of the request:
/// the title, then the label, then the URL.
pub open spec fn new_item_check(payload: CreateItemRequest) -> Result<(Seq<char>, Seq<char>, Seq<char>, Seq<char>), ErrorView> {
    match cleaned(payload.title@, title_required()) {
        Err(e) => Err(e),
        Ok(title) => match cleaned(payload.label@, label_required()) {
            Err(e) => Err(e),
            Ok(label) => match extract_video_id_spec(trim(payload.youtube_url@)) {
                Err(e) => Err(e),
                Ok(id) => Ok((trim(payload.youtube_url@), id, title, label)),
            },
        },
    }
}

/// The value of a [`NewItem`]: URL, video id, title and label.
pub open spec fn new_item_view(item: NewItem) -> (Seq<char>, Seq<char>, Seq<char>, Seq<char>) {
    (item.youtube_url@, item.youtube_video_id@, item.title@, item.label@)
}

/// Prepares the row of a saved video: cleaned title and label, the trimmed
/// URL and the video id it names.
pub fn prepare_item(payload: &CreateItemRequest) -> (r: AppResult<NewItem>)
    ensures
        match new_item_check(*payload) {
            Ok(v) => r matches Ok(item) && new_item_view(item) == v,
            Err(e) => r matches Err(err) && err@ == e,
        },
{
    let title = match clean_title(payload.title.as_str()) {
        Ok(t) => t,
        Err(e) => {
            return Err(e);
        },
    };
    let label = match clean_label(payload.label.as_str()) {
        Ok(l) => l,
        Err(e) => {
            return Err(e);
        },
    };
    let youtube_url = trim_str(payload.youtube_url.as_str()).to_owned();
    let youtube_video_id = match extract_video_id(youtube_url.as_str()) {
        Ok(id) => id,
        Err(e) => {
            return Err(e);
        },
    };
    Ok(NewItem { youtube_url, youtube_video_id, title, label })
}

/// The item a request names, where the user has it; else it is not found.
pub fn found_item(item: Option<ItemRecord>) -> (r: AppResult<ItemRecord>)
    ensures
        match item {
            Some(i) => r == Ok::<ItemRecord, AppError>(i),
            None => r matches Err(e) && e@ == ErrorView::NotFound("Item not found"@),
        },
{
    match item {
        Some(i) => Ok(i),
        None => Err(AppError::NotFound("Item not found".to_owned())),
    }
}

/// The values an update writes over `existing`: each field the request
/// gives (title and label cleaned), else the existing value.  A blank title,
/// then a blank label, is a bad request.
pub open spec fn update_check(existing: ItemRecord, payload: UpdateItemRequest) -> Result<(Seq<char>, Seq<char>, bool), ErrorView> {
    let title = match payload.title {
        Some(t) => cleaned(t@, title_required()),
        None => Ok(existing.title@),
    };
    let label = match payload.label {
        Some(l) => cleaned(l@, label_required()),
        None => Ok(existing.label@),
    };
    match (title, label) {
        (Err(e), _) => Err(e),
        (Ok(_), Err(e)) => Err(e),
        (Ok(t), Ok(l)) => Ok(
            (
                t,
                l,
                match payload.is_favorite {
                    Some(f) => f,
                    None => existing.is_favorite,
                },
            ),
        ),
    }
}

/// An update writes what it asks for and keeps the rest: a given
/// favorite flag is written as given (so an item can be un-favorited), an
/// absent one keeps the item's; a given title or label is written trimmed,
/// an absent one keeps the item's.  An update whose given title and label
/// are not blank is accepted.
pub proof fn update_writes_what_it_asks(existing: ItemRecord, payload: UpdateItemRequest)
    ensures
        update_check(existing, payload) matches Ok((title, label, favorite)) ==> {
            &&& (payload.is_favorite matches Some(f) ==> favorite == f)
            &&& payload.is_favorite is None ==> favorite == existing.is_favorite
            &&& (payload.title matches Some(t) ==> title == trim(t@))
            &&& payload.title is None ==> title == existing.title@
            &&& (payload.label matches Some(l) ==> label == trim(l@))
            &&& payload.label is None ==> label == existing.label@
        },
        ((payload.title matches Some(t) ==> trim(t@).len() > 0) && (payload.label matches Some(l)
            ==> trim(l@).len() > 0)) ==> update_check(existing, payload) is Ok,
{
}

/// Merges an update request into an existing item.
pub fn apply_item_update(existing: &ItemRecord, payload: &UpdateItemRequest) -> (r: AppResult<ItemChanges>)
    ensures
        match update_check(*existing, *payload) {
            Ok(v) => r matches Ok(c) && (c.title@, c.label@, c.is_favorite) == v,
            Err(e) => r matches Err(err) && err@ == e,
        },
{
    let title = match &payload.title {
        Some(t) => match clean_title(t.as_str()) {
            Ok(c) => c,
            Err(e) => {
                return Err(e);
            },
        },
        None => existing.title.clone(),
    };
    let label = match &payload.label {
        Some(l) => match clean_label(l.as_str()) {
            Ok(c) => c,
            Err(e) => {
                return Err(e);
            },
        },
        None => existing.label.clone(),
    };
    let is_favorite = match payload.is_favorite {
        Some(f) => f,
        None => existing.is_favorite,
    };
    Ok(ItemChanges { title, label, is_favorite })
}

/// An update that gives no field writes the item's values back unchanged.
pub proof fn empty_update_keeps_item(existing: ItemRecord, payload: UpdateItemRequest)
    requires
        payload.title is None,
        payload.label is None,
        payload.is_favorite is None,
    ensures
        update_check(existing, payload) == Ok::<(Seq<char>, Seq<char>, bool), ErrorView>(
            (existing.title@, existing.label@, existing.is_favorite),
        ),
{
}

/// The outcome of a delete that removed `rows_affected` rows: nothing
/// removed means the user has no such item.
pub fn deletion_outcome(rows_affected: u64) -> (r: AppResult<()>)
    ensures
        rows_affected > 0 ==> r is Ok,
        rows_affected == 0 ==> (r matches Err(e) && e@ == ErrorView::NotFound("Item not found"@)),
{
    if rows_affected == 0 {
        return Err(AppError::NotFound("Item not found".to_owned()));
    }
    Ok(())
}

// ---------------------------------------------------------------------------
// Labels

/// The rename a request asks for: both labels cleaned (the current one
/// first), and they must differ.
pub open spec fn rename_check(label: Seq<char>, new_label: Seq<char>) -> Result<(Seq<char>, Seq<char>), ErrorView> {
    match cleaned(label, label_required()) {
        Err(e) => Err(e),
        Ok(old) => match cleaned(new_label, label_required()) {
            Err(e) => Err(e),
            Ok(new) => if old == new {
                Err(
                    ErrorView::BadRequest(
                        "New label must be different from the current label"@,
                    ),
                )
            } else {
                Ok((old, new))
            },
        },
    }
}

/// A rename between two labels that are not blank succeeds exactly where
/// their trimmed texts differ (letter case counts), and renames the trimmed
/// label to the trimmed new one; where they are the same text it is
/// refused.
pub proof fn rename_needs_a_different_text(label: Seq<char>, new_label: Seq<char>)
    requires
        trim(label).len() > 0,
        trim(new_label).len() > 0,
    ensures
        trim(label) != trim(new_label) ==> rename_check(label, new_label) == Ok::<
            (Seq<char>, Seq<char>),
            ErrorView,
        >((trim(label), trim(new_label))),
        trim(label) == trim(new_label) ==> rename_check(label, new_label) == Err::<
            (Seq<char>, Seq<char>),
            ErrorView,
        >(ErrorView::BadRequest("New label must be different from the current label"@)),
{
}

/// Checks a label rename.
pub fn prepare_rename(label: &str, payload: &RenameLabelRequest) -> (r: AppResult<LabelRename>)
    ensures
        match rename_check(label@, payload.new_label@) {
            Ok(v) => r matches Ok(rn) && (rn.old_label@, rn.new_label@) == v,
            Err(e) => r matches Err(err) && err@ == e,
        },
        r matches Ok(rn) ==> rn.old_label@ != rn.new_label@,
{
    let old_label = match clean_label(label) {
        Ok(l) => l,
        Err(e) => {
            return Err(e);
        },
    };
    let new_label = match clean_label(payload.new_label.as_str()) {
        Ok(l) => l,
        Err(e) => {
            return Err(e);
        },
    };
    if str_eq(old_label.as_str(), new_label.as_str()) {
        return Err(
            AppError::BadRequest(
                "New label must be different from the current label".to_owned(),
            ),
        );
    }
    Ok(LabelRename { old_label, new_label })
}

/// The outcome of a rename that changed the rows `updated`: a label that
/// no item carries is not found.
pub fn rename_outcome(updated: Vec<ItemRecord>) -> (r: AppResult<Vec<ItemRecord>>)
    ensures
        updated@.len() > 0 ==> r == Ok::<Vec<ItemRecord>, AppError>(updated),
        updated@.len() == 0 ==> (r matches Err(e) && e@ == ErrorView::NotFound(
            "Playlist label not found"@,
        )),
{
    if updated.len() == 0 {
        return Err(AppError::NotFound("Playlist label not found".to_owned()));
    }
    Ok(updated)
}

// ---------------------------------------------------------------------------
// Database errors

/// The answer to a failed database call, by the PostgreSQL error code of a
/// database error (`None` for failures that are not database errors): a
/// unique violation is a conflict (one saved video per user, label and
/// video id), a foreign-key violation a bad request, anything else a
/// database failure.
pub open spec fn database_error_of(code: Option<Seq<char>>) -> ErrorView {
    match code {
        Some(c) => if c == "23505"@ {
            ErrorView::Conflict("This record already exists for the selected playlist"@)
        } else if c == "23503"@ {
            ErrorView::BadRequest("Referenced record does not exist"@)
        } else {
            ErrorView::Database
        },
        None => ErrorView::Database,
    }
}

/// Maps a failed database call to the error it answers with.
pub fn map_database_error(code: Option<String>) -> (e: AppError)
    ensures
        e@ == database_error_of(opt_view(code)),
{
    match code {
        Some(c) => {
            if str_eq(c.as_str(), "23505") {
                AppError::Conflict("This record already exists for the selected playlist".to_owned())
            } else if str_eq(c.as_str(), "23503") {
                AppError::BadRequest("Referenced record does not exist".to_owned())
            } else {
                AppError::Database
            }
        },
        None => AppError::Database,
    }
}

} // verus!
