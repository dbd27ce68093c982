//! The records that the service stores and returns.  Identifiers are UUIDs
//! held as their 128-bit value; timestamps are microseconds since the Unix
//! epoch.
use vstd::prelude::*;

verus! {

/// A row of the `users` table.
#[derive(Debug, Clone)]
pub struct UserRecord {
    pub id: u128,
    pub first_name: String,
    pub email: String,
    pub username: String,
    pub password_hash: String,
}

/// The public part of a user: a [`UserRecord`] without its password hash.
#[derive(Debug, Clone)]
pub struct AuthUser {
    pub id: u128,
    pub first_name: String,
    pub email: String,
    pub username: String,
}

/// `user` is the public part of `record`.
pub open spec fn is_public_part(user: AuthUser, record: UserRecord) -> bool {
    &&& user.id == record.id
    &&& user.first_name@ == record.first_name@
    &&& user.email@ == record.email@
    &&& user.username@ == record.username@
}

impl From<UserRecord> for AuthUser {
    fn from(value: UserRecord) -> (user: Self) {
        AuthUser {
            id: value.id,
            first_name: value.first_name,
            email: value.email,
            username: value.username,
        }
    }
}

impl vstd::std_specs::convert::FromSpecImpl<UserRecord> for AuthUser {
    open spec fn obeys_from_spec() -> bool {
        true
    }

    open spec fn from_spec(value: UserRecord) -> AuthUser {
        AuthUser {
            id: value.id,
            first_name: value.first_name,
            email: value.email,
            username: value.username,
        }
    }
}

/// A row of the `items` table: one saved YouTube video.
#[derive(Debug, Clone)]
pub struct ItemRecord {
    pub id: u128,
    pub user_id: u128,
    pub youtube_url: String,
    pub youtube_video_id: String,
    pub title: String,
    pub label: String,
    pub is_favorite: bool,
    pub created_at: i64,
    pub updated_at: i64,
}

/// A playlist label with the number of items that carry it.
#[derive(Debug, Clone)]
pub struct LabelSummary {
    pub label: String,
    pub item_count: i64,
}

} // verus!
