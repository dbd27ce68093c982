use urlvibe_rs::auth::{
    auth_cookie, auth_cookie_at, authenticate, clear_auth_cookie, clear_auth_cookie_at,
    create_token, create_token_at, current_user, decode_token, extract_bearer_token,
    extract_cookie_token, hash_password, hash_password_with_salt, normalize_email, normalize_username, select_token, user_id_from_subject,
    verify_password, AuthorizationHeader, AUTH_COOKIE_NAME, DAY_SECONDS, SESSION_SECONDS,
};
use urlvibe_rs::config::{AppConfig, SameSite};
use urlvibe_rs::errors::AppError;
use urlvibe_rs::models::UserRecord;
use uuid::Uuid;

fn config(secure: bool, same_site: SameSite) -> AppConfig {
    AppConfig {
        database_url: "postgres://db".to_owned(),
        jwt_secret: "secret".to_owned(),
        frontend_origin: "http://localhost:5173".to_owned(),
        host: "0.0.0.0".to_owned(),
        port: 8080,
        cookie_secure: secure,
        cookie_same_site: same_site,
    }
}

#[test]
fn normalizes_identifier_input() {
    assert_eq!(normalize_email(" Test@Example.com "), "test@example.com");
    assert_eq!(normalize_username(" Alice "), "alice");
}

#[test]
fn token_roundtrip() {
    let user_id = Uuid::new_v4();
    let token = create_token(user_id.as_u128(), "secret").unwrap();
    assert_eq!(decode_token(&token, "secret").unwrap(), user_id.as_u128());
}

#[test]
fn normalization_trims_unicode_whitespace_and_keeps_non_ascii() {
    assert_eq!(normalize_email("\u{3000}\tÉMILE@Mail.COM\n\u{a0}"), "Émile@mail.com");
    assert_eq!(normalize_username("   "), "");
}

#[test]
fn normalization_is_idempotent_on_examples() {
    for raw in [" Test@Example.com ", "\u{2003}BoB\u{2003}", "x", ""] {
        let once = normalize_email(raw);
        assert_eq!(normalize_email(&once), once);
        let once = normalize_username(raw);
        assert_eq!(normalize_username(&once), once);
    }
}

#[test]
fn token_issued_now_decodes_to_its_user() {
    let id: u128 = 0x0123_4567_89ab_cdef_0123_4567_89ab_cdef;
    let token = create_token(id, "s3cret").unwrap();
    assert_ne!(token, "s3cret");
    assert_eq!(token.split('.').count(), 3);
    assert_eq!(decode_token(&token, "s3cret").unwrap(), id);
}

#[test]
fn token_text_is_the_hs256_encoding_of_the_claims() {
    let id = Uuid::parse_str("67e55044-10b1-426f-9247-bb680e5fe0c8").unwrap();
    let token = create_token_at(id.as_u128(), "secret", 1_700_000_000).unwrap();
    let mut claims = serde_json::Map::new();
    claims.insert(
        "sub".to_owned(),
        serde_json::Value::from("67e55044-10b1-426f-9247-bb680e5fe0c8"),
    );
    claims.insert("exp".to_owned(), serde_json::Value::from(1_700_604_800u64));
    let expected = jsonwebtoken::encode(
        &jsonwebtoken::Header::default(),
        &claims,
        &jsonwebtoken::EncodingKey::from_secret(b"secret"),
    )
    .unwrap();
    assert_eq!(token, expected);
    let data = jsonwebtoken::decode::<serde_json::Map<String, serde_json::Value>>(
        &token,
        &jsonwebtoken::DecodingKey::from_secret(b"secret"),
        &{
            let mut v = jsonwebtoken::Validation::new(jsonwebtoken::Algorithm::HS256);
            v.validate_exp = false;
            v
        },
    )
    .unwrap();
    let keys: Vec<&String> = data.claims.keys().collect();
    assert_eq!(keys, vec!["sub", "exp"]);
}

#[test]
fn token_with_other_secret_fails_authentication() {
    let token = create_token(42, "one").unwrap();
    match decode_token(&token, "two") {
        Err(AppError::Unauthorized(m)) => assert_eq!(m, "Authentication failed"),
        other => panic!("unexpected {:?}", other),
    }
}

#[test]
fn expired_token_fails_authentication() {
    // Issued at the epoch: it expired seven days later, long ago.
    let token = create_token_at(7, "secret", 0).unwrap();
    match decode_token(&token, "secret") {
        Err(AppError::Unauthorized(m)) => assert_eq!(m, "Authentication failed"),
        other => panic!("unexpected {:?}", other),
    }
}

#[test]
fn garbage_token_fails_authentication() {
    assert!(matches!(decode_token("not.a.token", "secret"), Err(AppError::Unauthorized(_))));
}

#[test]
fn subject_must_be_a_uuid() {
    let id = Uuid::parse_str("67e55044-10b1-426f-9247-bb680e5fe0c8").unwrap();
    assert_eq!(
        user_id_from_subject("67e55044-10b1-426f-9247-bb680e5fe0c8").unwrap(),
        id.as_u128()
    );
    match user_id_from_subject("user-1") {
        Err(AppError::Unauthorized(m)) => assert_eq!(m, "Authentication failed"),
        other => panic!("unexpected {:?}", other),
    }
}

#[test]
fn password_hash_verifies_its_password() {
    let hash = hash_password("correct horse").unwrap();
    assert_ne!(hash, "correct horse");
    assert!(hash.starts_with("$argon2id$v=19$"));
    assert!(verify_password("correct horse", &hash).is_ok());
}

#[test]
fn wrong_password_is_invalid_credentials() {
    let hash = hash_password("correct horse").unwrap();
    match verify_password("wrong horse", &hash) {
        Err(AppError::Unauthorized(m)) => assert_eq!(m, "Invalid credentials"),
        other => panic!("unexpected {:?}", other),
    }
}

#[test]
fn malformed_stored_hash_is_internal_error() {
    assert!(matches!(verify_password("pw", "plain-text"), Err(AppError::Internal)));
}

#[test]
fn session_cookie_attributes() {
    let c = auth_cookie_at("tok".to_owned(), &config(true, SameSite::CrossSite), 1_000);
    assert_eq!(c.name, AUTH_COOKIE_NAME);
    assert_eq!(c.name, "urlvibe_token");
    assert_eq!(c.value, "tok");
    assert_eq!(c.path, "/");
    assert!(c.http_only);
    assert!(c.secure);
    assert_eq!(c.same_site, SameSite::CrossSite);
    assert_eq!(c.max_age_seconds, 604_800);
    assert_eq!(c.expires_unix, 1_000 + 604_800);
}

#[test]
fn clearing_cookie_replaces_the_session_cookie() {
    let cfg = config(false, SameSite::Lax);
    let set = auth_cookie_at("tok".to_owned(), &cfg, 5_000_000);
    let clear = clear_auth_cookie_at(&cfg, 5_000_000);
    assert_eq!(clear.name, set.name);
    assert_eq!(clear.path, set.path);
    assert_eq!(clear.same_site, set.same_site);
    assert_eq!(clear.secure, set.secure);
    assert_eq!(clear.http_only, set.http_only);
    assert_eq!(clear.value, "");
    assert_eq!(clear.max_age_seconds, 0);
    assert_eq!(clear.expires_unix, 5_000_000 - DAY_SECONDS);
    assert!(clear.expires_unix < set.expires_unix);
}

#[test]
fn cookies_set_now_expire_relative_to_now() {
    let cfg = config(false, SameSite::Strict);
    let now = chrono::Utc::now().timestamp();
    let set = auth_cookie("t".to_owned(), &cfg);
    let clear = clear_auth_cookie(&cfg);
    assert!(set.expires_unix >= now + SESSION_SECONDS - 5);
    assert!(set.expires_unix <= now + SESSION_SECONDS + 5);
    assert!(clear.expires_unix < now);
    assert_eq!(set.same_site, SameSite::Strict);
}

#[test]
fn bearer_header_rules() {
    assert_eq!(extract_bearer_token(&AuthorizationHeader::Absent).unwrap(), None);
    assert_eq!(
        extract_bearer_token(&AuthorizationHeader::Text("Bearer  abc.def ".to_owned())).unwrap(),
        Some("abc.def".to_owned())
    );
    match extract_bearer_token(&AuthorizationHeader::Unreadable) {
        Err(AppError::Unauthorized(m)) => assert_eq!(m, "Invalid authorization header"),
        other => panic!("unexpected {:?}", other),
    }
    match extract_bearer_token(&AuthorizationHeader::Text("Basic abc".to_owned())) {
        Err(AppError::Unauthorized(m)) => {
            assert_eq!(m, "Authorization header must use Bearer token format")
        }
        other => panic!("unexpected {:?}", other),
    }
    match extract_bearer_token(&AuthorizationHeader::Text("Bearer    ".to_owned())) {
        Err(AppError::Unauthorized(m)) => assert_eq!(m, "Authorization token cannot be empty"),
        other => panic!("unexpected {:?}", other),
    }
}

#[test]
fn header_token_comes_before_cookie() {
    assert_eq!(
        select_token(Ok(Some("h".to_owned())), Some("c".to_owned())).unwrap(),
        "h"
    );
    assert_eq!(select_token(Ok(None), Some("c".to_owned())).unwrap(), "c");
    match select_token(Ok(None), None) {
        Err(AppError::Unauthorized(m)) => assert_eq!(m, "Authentication required"),
        other => panic!("unexpected {:?}", other),
    }
    assert!(matches!(
        select_token(Err(AppError::Unauthorized("x".to_owned())), Some("c".to_owned())),
        Err(AppError::Unauthorized(_))
    ));
}

#[test]
fn authenticate_reads_cookie_token() {
    let token = create_token(99, "k").unwrap();
    let cookies = vec![format!("theme=dark; urlvibe_token={}", token)];
    assert_eq!(authenticate(&AuthorizationHeader::Absent, &cookies, "k").unwrap(), 99);
    let header = AuthorizationHeader::Text(format!("Bearer {}", token));
    assert_eq!(authenticate(&header, &Vec::new(), "k").unwrap(), 99);
    match authenticate(&AuthorizationHeader::Absent, &Vec::new(), "k") {
        Err(AppError::Unauthorized(m)) => assert_eq!(m, "Authentication required"),
        other => panic!("unexpected {:?}", other),
    }
    let other_cookie = vec!["urlvibe_tokenx=abc".to_owned()];
    assert!(authenticate(&AuthorizationHeader::Absent, &other_cookie, "k").is_err());
}

#[test]
fn bearer_header_wins_over_cookie() {
    let header_token = create_token(1, "k").unwrap();
    let cookie_token = create_token(2, "k").unwrap();
    let cookies = vec![format!("urlvibe_token={}", cookie_token)];
    let header = AuthorizationHeader::Text(format!("Bearer {}", header_token));
    assert_eq!(authenticate(&header, &cookies, "k").unwrap(), 1);
}

#[test]
fn cookie_token_is_found_among_cookie_headers() {
    assert_eq!(
        extract_cookie_token(&vec!["a=1; urlvibe_token=abc".to_owned()]),
        Some("abc".to_owned())
    );
    assert_eq!(
        extract_cookie_token(&vec!["a=1".to_owned(), "urlvibe_token=xyz; b=2".to_owned()]),
        Some("xyz".to_owned())
    );
    assert_eq!(
        extract_cookie_token(&vec!["urlvibe_token=a%20b".to_owned()]),
        Some("a b".to_owned())
    );
    assert_eq!(extract_cookie_token(&vec!["a=1; b=2".to_owned()]), None);
    assert_eq!(extract_cookie_token(&Vec::new()), None);
}

#[test]
fn identifiers_ignore_ascii_case() {
    for raw in [" Test@Example.com ", "\u{2003}BoB\u{2003}", "Émile", "alice"] {
        let upper = raw.to_ascii_uppercase();
        assert_eq!(normalize_email(&upper), normalize_email(raw));
        assert_eq!(normalize_username(&upper), normalize_username(raw));
        assert_eq!(normalize_username(raw), normalize_email(raw));
    }
}

#[test]
fn hash_under_a_salt_carries_the_salt() {
    let salt = "c2FsdHNhbHRzYWx0c2FsdA";
    let hash = hash_password_with_salt("correct horse", salt).unwrap();
    let head = "$argon2id$v=19$m=19456,t=2,p=1$";
    assert!(hash.starts_with(head));
    assert_eq!(&hash[head.len()..head.len() + salt.len()], salt);
    assert_eq!(&hash[head.len() + salt.len()..head.len() + salt.len() + 1], "$");
    assert_eq!(hash_password_with_salt("correct horse", salt).unwrap(), hash);
    assert!(verify_password("correct horse", &hash).is_ok());
    let other = hash_password_with_salt("correct horse", "b3RoZXJzYWx0b3RoZXJzYQ").unwrap();
    assert_ne!(other, hash);
}

#[test]
fn refused_salt_is_internal_error() {
    assert!(matches!(hash_password_with_salt("pw", "no"), Err(AppError::Internal)));
    assert!(matches!(hash_password_with_salt("pw", "not a salt!"), Err(AppError::Internal)));
}

#[test]
fn fresh_salts_give_distinct_hashes() {
    let a = hash_password("same password").unwrap();
    let b = hash_password("same password").unwrap();
    assert_ne!(a, b);
    let head = "$argon2id$v=19$m=19456,t=2,p=1$";
    assert!(a.starts_with(head) && b.starts_with(head));
    assert_eq!(&a[head.len() + 22..head.len() + 23], "$");
}

#[test]
fn missing_user_is_not_authenticated() {
    match current_user(None) {
        Err(AppError::Unauthorized(m)) => assert_eq!(m, "Authentication required"),
        other => panic!("unexpected {:?}", other),
    }
    let record = UserRecord {
        id: 5,
        first_name: "Ada".to_owned(),
        email: "ada@x.io".to_owned(),
        username: "ada".to_owned(),
        password_hash: "$argon2id$...".to_owned(),
    };
    let user = current_user(Some(record)).unwrap();
    assert_eq!(user.id, 5);
    assert_eq!(user.username, "ada");
    assert_eq!(user.email, "ada@x.io");
    assert_eq!(user.first_name, "Ada");
}
