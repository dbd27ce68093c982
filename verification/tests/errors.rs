use urlvibe_rs::errors::AppError;

#[test]
fn status_codes() {
    assert_eq!(AppError::BadRequest("x".to_owned()).status_code(), 400);
    assert_eq!(AppError::Config("x".to_owned()).status_code(), 400);
    assert_eq!(AppError::Unauthorized("x".to_owned()).status_code(), 401);
    assert_eq!(AppError::NotFound("x".to_owned()).status_code(), 404);
    assert_eq!(AppError::Conflict("x".to_owned()).status_code(), 409);
    for e in [AppError::Database, AppError::Migration, AppError::Jwt, AppError::Io, AppError::Internal] {
        assert_eq!(e.status_code(), 500);
    }
}

#[test]
fn messages() {
    assert_eq!(AppError::BadRequest("bad".to_owned()).message(), "bad");
    assert_eq!(AppError::Unauthorized("who".to_owned()).message(), "who");
    assert_eq!(AppError::NotFound("gone".to_owned()).message(), "gone");
    assert_eq!(AppError::Conflict("twice".to_owned()).message(), "twice");
    assert_eq!(AppError::Config("cfg".to_owned()).message(), "cfg");
    assert_eq!(AppError::Database.message(), "Database request failed");
    assert_eq!(AppError::Migration.message(), "Database migration failed");
    assert_eq!(AppError::Jwt.message(), "Authentication failed");
    assert_eq!(AppError::Io.message(), "Server IO failed");
    assert_eq!(AppError::Internal.message(), "Internal server error");
}
