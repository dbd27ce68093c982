//! The service's error type, the HTTP status each error answers with and the
//! message that the client sees.
use vstd::prelude::*;

verus! {

/// Everything a request can fail with.  The variants for outside failures
/// (database, migration, token, IO) carry no payload: only their kind decides
/// the answer.
#[derive(Debug, Clone)]
pub enum AppError {
    BadRequest(String),
    Unauthorized(String),
    NotFound(String),
    Conflict(String),
    Config(String),
    Database,
    Migration,
    Jwt,
    Io,
    Internal,
}

pub type AppResult<T> = Result<T, AppError>;

/// The mathematical value of an [`AppError`]: its kind and, where it has
/// one, the text of its message.
pub enum ErrorView {
    BadRequest(Seq<char>),
    Unauthorized(Seq<char>),
    NotFound(Seq<char>),
    Conflict(Seq<char>),
    Config(Seq<char>),
    Database,
    Migration,
    Jwt,
    Io,
    Internal,
}

impl View for AppError {
    type V = ErrorView;

    open spec fn view(&self) -> ErrorView {
        match self {
            AppError::BadRequest(m) => ErrorView::BadRequest(m@),
            AppError::Unauthorized(m) => ErrorView::Unauthorized(m@),
            AppError::NotFound(m) => ErrorView::NotFound(m@),
            AppError::Conflict(m) => ErrorView::Conflict(m@),
            AppError::Config(m) => ErrorView::Config(m@),
            AppError::Database => ErrorView::Database,
            AppError::Migration => ErrorView::Migration,
            AppError::Jwt => ErrorView::Jwt,
            AppError::Io => ErrorView::Io,
            AppError::Internal => ErrorView::Internal,
        }
    }
}

/// The value of a result that holds a string.
pub open spec fn string_result(r: AppResult<String>) -> Result<Seq<char>, ErrorView> {
    match r {
        Ok(s) => Ok(s@),
        Err(e) => Err(e@),
    }
}

/// The value of a result without payload.
pub open spec fn unit_result(r: AppResult<()>) -> Result<(), ErrorView> {
    match r {
        Ok(_) => Ok(()),
        Err(e) => Err(e@),
    }
}

/// The HTTP status code of an error.
pub open spec fn status_of(e: ErrorView) -> u16 {
    match e {
        ErrorView::BadRequest(_) | ErrorView::Config(_) => 400,
        ErrorView::Unauthorized(_) => 401,
        ErrorView::NotFound(_) => 404,
        ErrorView::Conflict(_) => 409,
        _ => 500,
    }
}

/// The message the client receives for an error.
pub open spec fn message_of(e: ErrorView) -> Seq<char> {
    match e {
        ErrorView::BadRequest(m) => m,
        ErrorView::Unauthorized(m) => m,
        ErrorView::NotFound(m) => m,
        ErrorView::Conflict(m) => m,
        ErrorView::Config(m) => m,
        ErrorView::Database => "Database request failed"@,
        ErrorView::Migration => "Database migration failed"@,
        ErrorView::Jwt => "Authentication failed"@,
        ErrorView::Io => "Server IO failed"@,
        ErrorView::Internal => "Internal server error"@,
    }
}

impl AppError {
    /// The HTTP status this error answers with: 400 for bad requests and
    /// configuration errors, 401, 404 and 409 for the client errors, and 500
    /// for every failure of the server itself.
    pub fn status_code(&self) -> (code: u16)
        ensures
            code == status_of(self@),
    {
        match self {
            AppError::BadRequest(_) | AppError::Config(_) => 400,
            AppError::Unauthorized(_) => 401,
            AppError::NotFound(_) => 404,
            AppError::Conflict(_) => 409,
            AppError::Database | AppError::Migration | AppError::Jwt | AppError::Io
            | AppError::Internal => 500,
        }
    }

    /// The message of the error body: the error's own text for client
    /// errors, a fixed text for the failures of the server.
    pub fn message(&self) -> (m: String)
        ensures
            m@ == message_of(self@),
    {
        match self {
            AppError::BadRequest(message)
            | AppError::Unauthorized(message)
            | AppError::NotFound(message)
            | AppError::Conflict(message)
            | AppError::Config(message) => message.clone(),
            AppError::Database => "Database request failed".to_owned(),
            AppError::Migration => "Database migration failed".to_owned(),
            AppError::Jwt => "Authentication failed".to_owned(),
            AppError::Io => "Server IO failed".to_owned(),
            AppError::Internal => "Internal server error".to_owned(),
        }
    }
}

} // verus!
