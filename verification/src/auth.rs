//! Identifier normalization, password hashing, session tokens and cookies,
//! and the authentication of a request from its headers.
use vstd::prelude::*;

use crate::config::{AppConfig, SameSite};
use crate::errors::{unit_result, AppError, AppResult, ErrorView};
use crate::models::{AuthUser, UserRecord};
use crate::text::{
    ascii_lower_seq, ascii_lowercase, ascii_upper_seq, lemma_lower_idempotent,
    lemma_lower_keeps_trimmed, lemma_lower_of_upper, lemma_strip_ends, lemma_upper_trim,
    starts_with, trim, trim_str, utf8_len, Strip,
};

verus! {

/// The name of the cookie that carries the session token.
pub const AUTH_COOKIE_NAME: &'static str = "urlvibe_token";

/// How long a session lasts: seven days, in seconds.
pub const SESSION_SECONDS: i64 = 604800;

/// One day, in seconds.
pub const DAY_SECONDS: i64 = 86400;

// ---------------------------------------------------------------------------
// Identifiers

/// An identifier as it is stored and looked up: without surrounding
/// whitespace and in ASCII lower case.
pub open spec fn normalized(value: Seq<char>) -> Seq<char> {
    ascii_lower_seq(trim(value))
}

/// Normalizes an email address: trimmed and ASCII lower-cased.
pub fn normalize_email(value: &str) -> (r: String)
    ensures
        r@ == normalized(value@),
{
    ascii_lowercase(trim_str(value))
}

/// Normalizes a username: trimmed and ASCII lower-cased.
pub fn normalize_username(value: &str) -> (r: String)
    ensures
        r@ == normalized(value@),
{
    ascii_lowercase(trim_str(value))
}

/// Normalizing an identifier that is already normalized changes nothing.
pub proof fn normalization_is_idempotent(value: Seq<char>)
    ensures
        normalized(normalized(value)) == normalized(value),
{
    lemma_strip_ends(value, Strip::Whitespace);
    lemma_lower_keeps_trimmed(trim(value));
    lemma_lower_idempotent(trim(value));
}

/// Identifiers are case-insensitive in ASCII: an identifier typed in ASCII
/// upper case normalizes as it does in any other case.
pub proof fn normalization_ignores_ascii_case(value: Seq<char>)
    ensures
        normalized(ascii_upper_seq(value)) == normalized(value),
{
    lemma_upper_trim(value);
    lemma_lower_of_upper(trim(value));
}

// ---------------------------------------------------------------------------
// Passwords

/// Whether `PasswordHash::new` of the `password-hash` crate accepts a text
/// as a PHC password-hash string.
pub uninterp spec fn phc_parses(phc: Seq<char>) -> bool;

/// Whether `Argon2::default().verify_password` accepts a password against
/// the parsed PHC string.
pub uninterp spec fn argon2_accepts(password: Seq<char>, phc: Seq<char>) -> bool;

/// `phc` is a password hash that stands for `password`: it parses, and the
/// password verifies against it.
pub open spec fn is_hash_of(password: Seq<char>, phc: Seq<char>) -> bool {
    phc_parses(phc) && argon2_accepts(password, phc)
}

/// The PHC text of every hash that `Argon2::default()` writes, up to its
/// salt: the algorithm `argon2id`, version 19 and the default parameters
/// (19456 KiB of memory, two passes, one lane).
pub open spec fn argon2_default_head() -> Seq<char> {
    "$argon2id$v=19$m=19456,t=2,p=1$"@
}

/// `phc` is laid out as `Argon2::default()` writes a hash under `salt`:
/// the default head, the salt, a `$`, then the hash itself.
pub open spec fn phc_layout(phc: Seq<char>, salt: Seq<char>) -> bool {
    let head = argon2_default_head();
    &&& phc.len() > head.len() + salt.len()
    &&& phc.take(head.len() as int) == head
    &&& phc.subrange(head.len() as int, (head.len() + salt.len()) as int) == salt
    &&& phc[(head.len() + salt.len()) as int] == '$'
}

/// The longest password, in bytes, that Argon2 hashes (`MAX_PWD_LEN`).
pub open spec fn max_password_bytes() -> nat {
    0xFFFF_FFFF
}

/// What `Argon2::default().hash_password` writes as PHC text for
/// `password` under the B64 salt `salt` (read by `SaltString::from_b64`);
/// `None` where the salt is refused or hashing fails.
pub uninterp spec fn argon2_phc(password: Seq<char>, salt: Seq<char>) -> Option<Seq<char>>;

/// A fresh random salt.  Trusted: `SaltString::generate` with the
/// operating system's random source, which B64-encodes sixteen random
/// bytes into 22 characters.  The salt is random, so it is not named; the
/// contract claims what holds of every salt it draws: its length, and that
/// `Argon2::default()` hashes every password of at most `MAX_PWD_LEN` bytes
/// under it (the salt is valid B64 of the recommended length, and the
/// default parameters always pass).
#[verifier::external_body]
fn random_salt() -> (s: String)
    ensures
        s@.len() == 22,
        forall|p: Seq<char>| utf8_len(p) <= max_password_bytes() ==> #[trigger] argon2_phc(p, s@) is Some,
{
    argon2::password_hash::SaltString::generate(&mut argon2::password_hash::rand_core::OsRng)
        .as_str()
        .to_owned()
}

/// Hashes a password with Argon2 (default parameters) under a given salt.
/// Trusted: `SaltString::from_b64`, `Argon2::hash_password` and the PHC
/// text of the result, named by `argon2_phc`.  The contract also claims what
/// the sources show of that text: the `PasswordHash` it prints is the
/// default head, the salt as given, `$` and the hash; and it parses again
/// and verifies the same password, since `PasswordVerifier::verify_password`
/// re-hashes with the stored salt and parameters.
#[verifier::external_body]
fn argon2_hash_with(password: &str, salt: &str) -> (r: Option<String>)
    ensures
        crate::config::opt_view(r) == argon2_phc(password@, salt@),
        r matches Some(h) ==> is_hash_of(password@, h@),
        r matches Some(h) ==> phc_layout(h@, salt@),
{
    match argon2::password_hash::SaltString::from_b64(salt) {
        Ok(salt) => match argon2::PasswordHasher::hash_password(
            &argon2::Argon2::default(),
            password.as_bytes(),
            &salt,
        ) {
            Ok(hash) => Some(hash.to_string()),
            Err(_) => None,
        },
        Err(_) => None,
    }
}

/// Checks a password against a PHC string.  Trusted: `PasswordHash::new`,
/// then `Argon2::default().verify_password`.  `None` where the text does
/// not parse, else whether the password verifies; the contract ties both to
/// the names above.
#[verifier::external_body]
fn argon2_check(password: &str, phc: &str) -> (r: Option<bool>)
    ensures
        match r {
            None => !phc_parses(phc@),
            Some(ok) => phc_parses(phc@) && ok == argon2_accepts(password@, phc@),
        },
{
    match argon2::password_hash::PasswordHash::new(phc) {
        Ok(parsed) => Some(
            argon2::PasswordVerifier::verify_password(
                &argon2::Argon2::default(),
                password.as_bytes(),
                &parsed,
            ).is_ok(),
        ),
        Err(_) => None,
    }
}

/// Hashes a password for storage under a given B64 salt: the Argon2id
/// (version 19, default parameters) PHC text of the password, or an
/// internal error where Argon2 refuses the salt or the password.
pub fn hash_password_with_salt(password: &str, salt: &str) -> (r: AppResult<String>)
    ensures
        match argon2_phc(password@, salt@) {
            Some(h) => r matches Ok(s) && s@ == h,
            None => r matches Err(e) && e@ == ErrorView::Internal,
        },
        r matches Ok(h) ==> is_hash_of(password@, h@) && phc_layout(h@, salt@),
{
    match argon2_hash_with(password, salt) {
        Some(h) => Ok(h),
        None => Err(AppError::Internal),
    }
}

/// Hashes a password for storage as an Argon2id (version 19) PHC string
/// under a fresh random salt of 22 B64 characters, which the text carries.
/// It succeeds for every password Argon2 takes (at most `0xFFFF_FFFF`
/// bytes); a failure is an internal error; a hash it returns verifies the
/// same password.
pub fn hash_password(password: &str) -> (r: AppResult<String>)
    ensures
        utf8_len(password@) <= max_password_bytes() ==> r is Ok,
        r matches Ok(h) ==> is_hash_of(password@, h@),
        r matches Ok(h) ==> exists|salt: Seq<char>|
            salt.len() == 22 && #[trigger] argon2_phc(password@, salt) == Some(h@) && phc_layout(
                h@,
                salt,
            ),
        r matches Err(e) ==> e@ == ErrorView::Internal,
{
    let salt = random_salt();
    hash_password_with_salt(password, salt.as_str())
}

/// Two hashes laid out under salts of the same length differ where the
/// salts differ: hashing one password twice under two fresh salts gives
/// two different texts.
pub proof fn distinct_salts_give_distinct_hashes(
    h1: Seq<char>,
    salt1: Seq<char>,
    h2: Seq<char>,
    salt2: Seq<char>,
)
    requires
        phc_layout(h1, salt1),
        phc_layout(h2, salt2),
        salt1.len() == salt2.len(),
        salt1 != salt2,
    ensures
        h1 != h2,
{
    let n = argon2_default_head().len() as int;
    if h1 == h2 {
        assert(h1.subrange(n, n + salt1.len()) == h2.subrange(n, n + salt2.len()));
    }
}

/// The outcome of checking `password` against the stored hash `phc`.
pub open spec fn password_check(password: Seq<char>, phc: Seq<char>) -> Result<(), ErrorView> {
    if !phc_parses(phc) {
        Err(ErrorView::Internal)
    } else if !argon2_accepts(password, phc) {
        Err(ErrorView::Unauthorized("Invalid credentials"@))
    } else {
        Ok(())
    }
}

/// The answer to a password check: `checked` is `None` where the stored
/// hash did not parse (an internal error), else whether the password
/// matched (a mismatch is "Invalid credentials").
pub fn password_outcome(checked: Option<bool>) -> (r: AppResult<()>)
    ensures
        match checked {
            None => r matches Err(e) && e@ == ErrorView::Internal,
            Some(false) => r matches Err(e) && e@ == ErrorView::Unauthorized(
                "Invalid credentials"@,
            ),
            Some(true) => r is Ok,
        },
{
    match checked {
        None => Err(AppError::Internal),
        Some(false) => Err(AppError::Unauthorized("Invalid credentials".to_owned())),
        Some(true) => Ok(()),
    }
}

/// Checks a password against a stored hash: a stored hash that does not
/// parse is an internal error, a password that does not match is
/// unauthorized.
pub fn verify_password(password: &str, password_hash: &str) -> (r: AppResult<()>)
    ensures
        unit_result(r) == password_check(password@, password_hash@),
{
    password_outcome(argon2_check(password, password_hash))
}

/// A password verifies against every hash that `hash_password` made of it.
pub proof fn hashed_password_verifies(password: Seq<char>, phc: Seq<char>)
    requires
        is_hash_of(password, phc),
    ensures
        password_check(password, phc) == Ok::<(), ErrorView>(()),
{
}

// ---------------------------------------------------------------------------
// User ids

/// `16^n`.
pub open spec fn pow16(n: nat) -> nat
    decreases n,
{
    if n == 0 {
        1
    } else {
        16 * pow16((n - 1) as nat)
    }
}

/// The lower-case hexadecimal digit of a value below 16.
pub open spec fn hex_digit(d: nat) -> char {
    if d < 10 {
        (48 + d) as char
    } else {
        (87 + d) as char
    }
}

/// The `k`-th of the 32 hexadecimal digits of `id`, most significant first.
pub open spec fn uuid_nibble(id: u128, k: int) -> nat {
    ((id as nat) / pow16((31 - k) as nat)) % 16
}

/// The hyphenated lower-case text of a UUID: its 32 hexadecimal digits in
/// groups of 8, 4, 4, 4 and 12, joined by `-`.
pub open spec fn uuid_text(id: u128) -> Seq<char> {
    Seq::new(
        36,
        |i: int|
            if i == 8 || i == 13 || i == 18 || i == 23 {
                '-'
            } else {
                let k = if i < 8 {
                    i
                } else if i < 13 {
                    i - 1
                } else if i < 18 {
                    i - 2
                } else if i < 23 {
                    i - 3
                } else {
                    i - 4
                };
                hex_digit(uuid_nibble(id, k))
            },
    )
}

/// What `Uuid::parse_str` makes of a text: the UUID it writes, if any.
pub uninterp spec fn uuid_parse(text: Seq<char>) -> Option<u128>;

/// The text of a user id.  Trusted: `Uuid::from_u128(id).to_string()`,
/// which writes the hyphenated lower-case form; the contract also claims
/// that `Uuid::parse_str` reads the same id back from that text, which its
/// parser accepts.
#[verifier::external_body]
fn uuid_to_text(id: u128) -> (s: String)
    ensures
        s@ == uuid_text(id),
        uuid_parse(s@) == Some(id),
{
    uuid::Uuid::from_u128(id).to_string()
}

/// Reads a UUID.  Trusted: `Uuid::parse_str`, the outcome named by
/// `uuid_parse`.
#[verifier::external_body]
fn uuid_from_text(text: &str) -> (r: Option<u128>)
    ensures
        r == uuid_parse(text@),
{
    match uuid::Uuid::parse_str(text) {
        Ok(id) => Some(id.as_u128()),
        Err(_) => None,
    }
}

// ---------------------------------------------------------------------------
// Session tokens

/// What `jsonwebtoken::encode` gives for the HS256 token with the claims
/// `{"sub": sub, "exp": exp}`, signed with `secret`.
pub uninterp spec fn jwt_hs256(sub: Seq<char>, exp: u64, secret: Seq<char>) -> Seq<char>;

/// The `sub` claim of a JWT: the string that the `sub` member holds in the
/// claims object of its payload, as `jsonwebtoken::decode` reads the
/// payload into a `serde_json` map; `None` where there is no such string.
pub uninterp spec fn jwt_subject(token: Seq<char>) -> Option<Seq<char>>;

/// Whether a text is a JWT whose header names HS256 and whose signature is
/// the HMAC-SHA256 of its header and claims under `secret`: the signature
/// check of `jsonwebtoken::decode` with an HS256 validation.
pub uninterp spec fn jwt_hs256_signed(token: Seq<char>, secret: Seq<char>) -> bool;

/// Encodes a session token.  Trusted: `jsonwebtoken::encode` with the
/// default (HS256) header, the claims object `{"sub", "exp"}` in that order,
/// and `EncodingKey::from_secret`.  Encoding reads nothing but its
/// arguments, so its outcome is named.  It cannot fail: the key family
/// matches HS256, a JSON object always serializes and HMAC signing always
/// succeeds.  The token it makes carries a valid signature under the secret,
/// and its payload is the claims object written, so its `sub` claim is the
/// subject given.
#[verifier::external_body]
fn jwt_encode(sub: &str, exp: u64, secret: &str) -> (t: String)
    ensures
        t@ == jwt_hs256(sub@, exp, secret@),
        jwt_hs256_signed(t@, secret@),
        jwt_subject(t@) == Some(sub@),
{
    let mut claims = serde_json::Map::new();
    claims.insert("sub".to_owned(), serde_json::Value::from(sub));
    claims.insert("exp".to_owned(), serde_json::Value::from(exp));
    match jsonwebtoken::encode(
        &jsonwebtoken::Header::default(),
        &claims,
        &jsonwebtoken::EncodingKey::from_secret(secret.as_bytes()),
    ) {
        Ok(token) => token,
        Err(_) => String::new(),
    }
}

/// Decodes a session token and returns its `sub` claim.  Trusted:
/// `jsonwebtoken::decode` with `DecodingKey::from_secret` and
/// `Validation::new(Algorithm::HS256)`.  Validation compares `exp` with
/// the current time, so whether it succeeds is not stated.  The contract
/// claims that it returns a subject only for a token whose HS256 signature
/// verifies under the secret, and that the subject it returns is the
/// token's `sub` claim.
#[verifier::external_body]
fn jwt_decode_subject(token: &str, secret: &str) -> (r: Option<String>)
    ensures
        r is Some ==> jwt_hs256_signed(token@, secret@),
        r matches Some(sub) ==> jwt_subject(token@) == Some(sub@),
{
    match jsonwebtoken::decode::<serde_json::Map<String, serde_json::Value>>(
        token,
        &jsonwebtoken::DecodingKey::from_secret(secret.as_bytes()),
        &jsonwebtoken::Validation::new(jsonwebtoken::Algorithm::HS256),
    ) {
        Ok(data) => match data.claims.get("sub") {
            Some(serde_json::Value::String(sub)) => Some(sub.clone()),
            _ => None,
        },
        Err(_) => None,
    }
}

/// The current time, in seconds since the Unix epoch.  Trusted:
/// `chrono::Utc::now().timestamp()`.  `Utc::now` panics before the epoch
/// and `chrono` dates end in the year 262142, which bounds the value.
#[verifier::external_body]
fn chrono_now_seconds() -> (t: i64)
    ensures
        0 <= t <= 9_000_000_000_000,
{
    chrono::Utc::now().timestamp()
}

/// The expiry claim of a token issued at `now`: seven days later.
pub open spec fn token_expiry(now: i64) -> u64 {
    (now + SESSION_SECONDS) as u64
}

/// The token that is issued to the user `id` at time `now`.
pub open spec fn token_text(id: u128, secret: Seq<char>, now: i64) -> Seq<char> {
    jwt_hs256(uuid_text(id), token_expiry(now), secret)
}

/// `token` is signed with `secret` and its `sub` claim reads as the user
/// id `id`.
pub open spec fn issued_for(token: Seq<char>, id: u128, secret: Seq<char>) -> bool {
    &&& jwt_hs256_signed(token, secret)
    &&& jwt_subject(token) matches Some(sub) && uuid_parse(sub) == Some(id)
}

/// Issues the session token of user `id` at time `now` (seconds since the
/// epoch): the HS256 token whose subject is the id's hyphenated text and
/// whose expiry is seven days later.  It always succeeds.
pub fn create_token_at(user_id: u128, secret: &str, now: i64) -> (r: AppResult<String>)
    requires
        now <= i64::MAX - SESSION_SECONDS,
    ensures
        r matches Ok(s) && s@ == token_text(user_id, secret@, now),
        r matches Ok(s) ==> issued_for(s@, user_id, secret@),
{
    let sub = uuid_to_text(user_id);
    let exp_seconds: i64 = now + SESSION_SECONDS;
    let exp: u64 = exp_seconds as u64;
    let token = jwt_encode(sub.as_str(), exp, secret);
    Ok(token)
}

/// Issues the session token of user `id`, valid for seven days from now.
/// It always succeeds.
pub fn create_token(user_id: u128, secret: &str) -> (r: AppResult<String>)
    ensures
        r is Ok,
        r matches Ok(s) ==> exists|now: i64|
            0 <= now <= 9_000_000_000_000 && #[trigger] token_text(user_id, secret@, now) == s@,
        r matches Ok(s) ==> issued_for(s@, user_id, secret@),
{
    let now = chrono_now_seconds();
    create_token_at(user_id, secret, now)
}

/// The user id that a token's subject names.
pub open spec fn id_from_subject(sub: Seq<char>) -> Result<u128, ErrorView> {
    match uuid_parse(sub) {
        Some(id) => Ok(id),
        None => Err(ErrorView::Unauthorized("Authentication failed"@)),
    }
}

/// The value of a result that holds a user id.
pub open spec fn id_result(r: AppResult<u128>) -> Result<u128, ErrorView> {
    match r {
        Ok(id) => Ok(id),
        Err(e) => Err(e@),
    }
}

/// The answer to reading a subject as a UUID: the id, or a failed
/// authentication where it is no UUID.
pub fn user_id_outcome(parsed: Option<u128>) -> (r: AppResult<u128>)
    ensures
        match parsed {
            Some(id) => r == Ok::<u128, AppError>(id),
            None => r matches Err(e) && e@ == ErrorView::Unauthorized("Authentication failed"@),
        },
{
    match parsed {
        Some(id) => Ok(id),
        None => Err(AppError::Unauthorized("Authentication failed".to_owned())),
    }
}

/// The user id in a token's subject; a subject that is no UUID fails
/// authentication.
pub fn user_id_from_subject(sub: &str) -> (r: AppResult<u128>)
    ensures
        id_result(r) == id_from_subject(sub@),
{
    user_id_outcome(uuid_from_text(sub))
}

/// Decodes a session token into the user id it was issued for.  Every
/// failure (bad signature, expired, malformed, subject not a UUID) fails
/// authentication.  An id it returns comes from a token whose HS256
/// signature verifies under the secret and whose `sub` claim reads as that
/// id.
pub fn decode_token(token: &str, secret: &str) -> (r: AppResult<u128>)
    ensures
        r matches Err(e) ==> e@ == ErrorView::Unauthorized("Authentication failed"@),
        r matches Ok(id) ==> issued_for(token@, id, secret@),
{
    match jwt_decode_subject(token, secret) {
        Some(sub) => user_id_from_subject(sub.as_str()),
        None => Err(AppError::Unauthorized("Authentication failed".to_owned())),
    }
}

/// A token decodes to the user it was issued for: the user id that decoding
/// a token gives back is the one it was issued for.
pub proof fn token_roundtrip(token: Seq<char>, secret: Seq<char>, id: u128, decoded: u128)
    requires
        issued_for(token, id, secret),
        issued_for(token, decoded, secret),
    ensures
        decoded == id,
{
}

// ---------------------------------------------------------------------------
// Session cookies

/// The attributes of a cookie that the service sets: name, value, path,
/// `HttpOnly`, `SameSite`, `Secure`, `Max-Age` in seconds and `Expires` in
/// seconds since the Unix epoch.
#[derive(Debug, Clone)]
pub struct CookieSpec {
    pub name: String,
    pub value: String,
    pub path: String,
    pub http_only: bool,
    pub same_site: SameSite,
    pub secure: bool,
    pub max_age_seconds: i64,
    pub expires_unix: i64,
}

/// The value of a [`CookieSpec`].
pub struct CookieView {
    pub name: Seq<char>,
    pub value: Seq<char>,
    pub path: Seq<char>,
    pub http_only: bool,
    pub same_site: SameSite,
    pub secure: bool,
    pub max_age_seconds: i64,
    pub expires_unix: i64,
}

impl View for CookieSpec {
    type V = CookieView;

    open spec fn view(&self) -> CookieView {
        CookieView {
            name: self.name@,
            value: self.value@,
            path: self.path@,
            http_only: self.http_only,
            same_site: self.same_site,
            secure: self.secure,
            max_age_seconds: self.max_age_seconds,
            expires_unix: self.expires_unix,
        }
    }
}

/// The cookie that carries the session token `token`, set at time `now`:
/// `HttpOnly`, for the whole site, with the configured `SameSite` and
/// `Secure`, living seven days.
pub open spec fn session_cookie(token: Seq<char>, config: AppConfig, now: i64) -> CookieView {
    CookieView {
        name: AUTH_COOKIE_NAME@,
        value: token,
        path: "/"@,
        http_only: true,
        same_site: config.cookie_same_site,
        secure: config.cookie_secure,
        max_age_seconds: SESSION_SECONDS,
        expires_unix: (now + SESSION_SECONDS) as i64,
    }
}

/// The cookie that ends the session, set at time `now`: the session
/// cookie's name and attributes with an empty value, a `Max-Age` of zero
/// and an expiry a day in the past.
pub open spec fn clearing_cookie(config: AppConfig, now: i64) -> CookieView {
    CookieView {
        name: AUTH_COOKIE_NAME@,
        value: Seq::empty(),
        path: "/"@,
        http_only: true,
        same_site: config.cookie_same_site,
        secure: config.cookie_secure,
        max_age_seconds: 0,
        expires_unix: (now - DAY_SECONDS) as i64,
    }
}

/// The current time, in seconds since the Unix epoch.  Trusted:
/// `time::OffsetDateTime::now_utc().unix_timestamp()`.  Dates of the `time`
/// crate lie within the years -999999 to 999999, which bounds the value.
#[verifier::external_body]
fn time_now_seconds() -> (t: i64)
    ensures
        -100_000_000_000_000 <= t <= 100_000_000_000_000,
{
    time::OffsetDateTime::now_utc().unix_timestamp()
}

/// The session cookie for `token`, set at time `now`.
pub fn auth_cookie_at(token: String, config: &AppConfig, now: i64) -> (c: CookieSpec)
    requires
        now <= i64::MAX - SESSION_SECONDS,
    ensures
        c@ == session_cookie(token@, *config, now),
{
    CookieSpec {
        name: AUTH_COOKIE_NAME.to_owned(),
        value: token,
        path: "/".to_owned(),
        http_only: true,
        same_site: config.cookie_same_site,
        secure: config.cookie_secure,
        max_age_seconds: SESSION_SECONDS,
        expires_unix: now + SESSION_SECONDS,
    }
}

/// The session cookie for `token`, set now.
pub fn auth_cookie(token: String, config: &AppConfig) -> (c: CookieSpec)
    ensures
        exists|now: i64|
            i64::MIN + DAY_SECONDS <= now <= i64::MAX - SESSION_SECONDS && c@ == #[trigger] session_cookie(
                token@,
                *config,
                now,
            ),
{
    let now = time_now_seconds();
    auth_cookie_at(token, config, now)
}

/// The cookie that ends the session, set at time `now`.
pub fn clear_auth_cookie_at(config: &AppConfig, now: i64) -> (c: CookieSpec)
    requires
        now >= i64::MIN + DAY_SECONDS,
    ensures
        c@ == clearing_cookie(*config, now),
{
    CookieSpec {
        name: AUTH_COOKIE_NAME.to_owned(),
        value: String::new(),
        path: "/".to_owned(),
        http_only: true,
        same_site: config.cookie_same_site,
        secure: config.cookie_secure,
        max_age_seconds: 0,
        expires_unix: now - DAY_SECONDS,
    }
}

/// The cookie that ends the session, set now.
pub fn clear_auth_cookie(config: &AppConfig) -> (c: CookieSpec)
    ensures
        exists|now: i64|
            i64::MIN + DAY_SECONDS <= now <= i64::MAX - SESSION_SECONDS && c@ == #[trigger] clearing_cookie(
                *config,
                now,
            ),
{
    let now = time_now_seconds();
    clear_auth_cookie_at(config, now)
}

/// The cookie that ends a session replaces the session cookie (same name,
/// path and attributes), deletes it at once, and has already expired when
/// the session cookie set at the same moment has not.
pub proof fn clearing_cookie_replaces_session_cookie(
    token: Seq<char>,
    config: AppConfig,
    now: i64,
)
    requires
        i64::MIN + DAY_SECONDS <= now <= i64::MAX - SESSION_SECONDS,
    ensures
        clearing_cookie(config, now).name == session_cookie(token, config, now).name,
        clearing_cookie(config, now).path == session_cookie(token, config, now).path,
        clearing_cookie(config, now).http_only == session_cookie(token, config, now).http_only,
        clearing_cookie(config, now).same_site == session_cookie(token, config, now).same_site,
        clearing_cookie(config, now).secure == session_cookie(token, config, now).secure,
        clearing_cookie(config, now).max_age_seconds == 0,
        clearing_cookie(config, now).expires_unix < now < session_cookie(
            token,
            config,
            now,
        ).expires_unix,
{
}

// ---------------------------------------------------------------------------
// Authenticating a request

/// The `Authorization` header of a request: absent, present but not
/// visible ASCII text, or its text.
#[derive(Debug, Clone)]
pub enum AuthorizationHeader {
    Absent,
    Unreadable,
    Text(String),
}

/// The bearer token an `Authorization` header carries: none without the
/// header; else the header must read `Bearer ` followed by a token that is
/// not blank, and the token is that text trimmed.
pub open spec fn bearer_token_of(header: AuthorizationHeader) -> Result<Option<Seq<char>>, ErrorView> {
    match header {
        AuthorizationHeader::Absent => Ok(None),
        AuthorizationHeader::Unreadable => Err(
            ErrorView::Unauthorized("Invalid authorization header"@),
        ),
        AuthorizationHeader::Text(v) => {
            let prefix = "Bearer "@;
            if !(prefix.len() <= v@.len() && v@.take(prefix.len() as int) == prefix) {
                Err(
                    ErrorView::Unauthorized(
                        "Authorization header must use Bearer token format"@,
                    ),
                )
            } else if trim(v@.skip(prefix.len() as int)).len() == 0 {
                Err(ErrorView::Unauthorized("Authorization token cannot be empty"@))
            } else {
                Ok(Some(trim(v@.skip(prefix.len() as int))))
            }
        },
    }
}

/// The value of a result that may hold a string.
pub open spec fn opt_string_result(r: AppResult<Option<String>>) -> Result<Option<Seq<char>>, ErrorView> {
    match r {
        Ok(Some(s)) => Ok(Some(s@)),
        Ok(None) => Ok(None),
        Err(e) => Err(e@),
    }
}

/// Reads the bearer token of a request's `Authorization` header.
pub fn extract_bearer_token(header: &AuthorizationHeader) -> (r: AppResult<Option<String>>)
    ensures
        opt_string_result(r) == bearer_token_of(*header),
{
    match header {
        AuthorizationHeader::Absent => Ok(None),
        AuthorizationHeader::Unreadable => Err(
            AppError::Unauthorized("Invalid authorization header".to_owned()),
        ),
        AuthorizationHeader::Text(value) => {
            let value = value.as_str();
            if !starts_with(value, "Bearer ") {
                return Err(
                    AppError::Unauthorized(
                        "Authorization header must use Bearer token format".to_owned(),
                    ),
                );
            }
            let k = "Bearer ".unicode_len();
            let n = value.unicode_len();
            let token = trim_str(value.substring_char(k, n));
            if token.unicode_len() == 0 {
                return Err(
                    AppError::Unauthorized("Authorization token cannot be empty".to_owned()),
                );
            }
            Ok(Some(token.to_owned()))
        },
    }
}

/// The token a request authenticates with: the bearer token where the
/// header carries one (a malformed header fails), else the session cookie's
/// value, else authentication is required.
pub open spec fn request_token(
    bearer: Result<Option<Seq<char>>, ErrorView>,
    cookie: Option<Seq<char>>,
) -> Result<Seq<char>, ErrorView> {
    match bearer {
        Err(e) => Err(e),
        Ok(Some(t)) => Ok(t),
        Ok(None) => match cookie {
            Some(c) => Ok(c),
            None => Err(ErrorView::Unauthorized("Authentication required"@)),
        },
    }
}

/// Picks the token of a request from its bearer header and its session
/// cookie, the header first.
pub fn select_token(bearer: AppResult<Option<String>>, cookie: Option<String>) -> (r: AppResult<String>)
    ensures
        match r {
            Ok(t) => request_token(opt_string_result(bearer), crate::config::opt_view(cookie))
                == Ok::<Seq<char>, ErrorView>(t@),
            Err(e) => request_token(opt_string_result(bearer), crate::config::opt_view(cookie))
                == Err::<Seq<char>, ErrorView>(e@),
        },
{
    match bearer {
        Err(e) => Err(e),
        Ok(Some(t)) => Ok(t),
        Ok(None) => match cookie {
            Some(c) => Ok(c),
            None => Err(AppError::Unauthorized("Authentication required".to_owned())),
        },
    }
}

/// What `CookieJar::from_headers(..).get(name)` of `axum-extra` gives for a
/// request whose `Cookie` headers hold these texts: the value of the cookie
/// called `name`, if one is there.
pub uninterp spec fn cookie_value(cookie_headers: Seq<Seq<char>>, name: Seq<char>) -> Option<Seq<char>>;

/// The texts of the `Cookie` headers of a request.
pub open spec fn header_texts(cookie_headers: Seq<String>) -> Seq<Seq<char>> {
    cookie_headers.map_values(|h: String| h@)
}

/// The value of the session cookie among a request's `Cookie` headers.
pub open spec fn session_cookie_value(cookie_headers: Seq<String>) -> Option<Seq<char>> {
    cookie_value(header_texts(cookie_headers), AUTH_COOKIE_NAME@)
}

/// Looks a cookie up in a request's `Cookie` headers.  Trusted: each text
/// becomes a `Cookie` header value of an `http::HeaderMap` (a text that is
/// no header value cannot have come from a request and is left out), then
/// `axum_extra::extract::CookieJar::from_headers` reads the jar (each
/// visible-ASCII header split at `;`, each part percent-decoded by
/// `Cookie::parse_encoded`) and `get(name)` gives the cookie's value.  The
/// outcome depends on the texts and the name alone, so it is named.
#[verifier::external_body]
fn cookie_jar_get(cookie_headers: &Vec<String>, name: &str) -> (r: Option<String>)
    ensures
        crate::config::opt_view(r) == cookie_value(cookie_headers@.map_values(|h: String| h@), name@),
{
    let mut headers = axum::http::HeaderMap::new();
    for text in cookie_headers.iter() {
        if let Ok(value) = axum::http::HeaderValue::from_str(text) {
            headers.append(axum::http::header::COOKIE, value);
        }
    }
    match axum_extra::extract::CookieJar::from_headers(&headers).get(name) {
        Some(cookie) => Some(cookie.value().to_owned()),
        None => None,
    }
}

/// The session token that a request's cookies carry: the value of the
/// `urlvibe_token` cookie, if the request has one.
pub fn extract_cookie_token(cookie_headers: &Vec<String>) -> (r: Option<String>)
    ensures
        crate::config::opt_view(r) == cookie_value(cookie_headers@.map_values(|h: String| h@), AUTH_COOKIE_NAME@),
{
    cookie_jar_get(cookie_headers, AUTH_COOKIE_NAME)
}

/// Authenticates a request from its `Authorization` header and the texts of
/// its `Cookie` headers: the token is picked as [`select_token`] states
/// (the bearer token first, else the session cookie) and decoded as
/// [`decode_token`] states.
pub fn authenticate(header: &AuthorizationHeader, cookie_headers: &Vec<String>, secret: &str) -> (r: AppResult<u128>)
    ensures
        request_token(bearer_token_of(*header), session_cookie_value(cookie_headers@)) matches Err(e)
            ==> r matches Err(err) && err@ == e,
        r matches Ok(id) ==> request_token(bearer_token_of(*header), session_cookie_value(cookie_headers@))
            matches Ok(t) && issued_for(t, id, secret@),
        r matches Err(err) ==> (request_token(bearer_token_of(*header), session_cookie_value(cookie_headers@)) matches Err(e) && err@ == e)
            || err@ == ErrorView::Unauthorized("Authentication failed"@),
{
    let bearer = extract_bearer_token(header);
    let cookie = extract_cookie_token(cookie_headers);
    let token = select_token(bearer, cookie);
    match token {
        Ok(t) => decode_token(t.as_str(), secret),
        Err(e) => Err(e),
    }
}

/// The user a request acts as, from the row its user id finds: a user who
/// no longer exists is not authenticated.
pub fn current_user(record: Option<UserRecord>) -> (r: AppResult<AuthUser>)
    ensures
        match record {
            Some(u) => r matches Ok(a) && crate::models::is_public_part(a, u),
            None => r matches Err(e) && e@ == ErrorView::Unauthorized("Authentication required"@),
        },
{
    match record {
        Some(u) => Ok(AuthUser::from(u)),
        None => Err(AppError::Unauthorized("Authentication required".to_owned())),
    }
}

} // verus!
