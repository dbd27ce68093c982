//! Verified core of the urlvibe backend: identifier normalization, request
//! validation, YouTube URL normalization, session tokens and password checks,
//! configuration decisions and the mapping of errors to HTTP answers.

pub mod text;
pub mod errors;
pub mod models;
pub mod youtube;
pub mod address;
pub mod config;
pub mod auth;
pub mod routes;
