//! The records that the store keeps and the errors that its operations return.
use vstd::prelude::*;

verus! {

/// A registered user. The password is kept only as its argon2 encoding under
/// the user's own salt.
pub struct User {
    pub id: u64,
    pub name: String,
    pub salt: u128,
    pub password_hash: String,
}

/// A session: a random token bound to one user.
#[derive(Clone, Copy, Debug, PartialEq, Eq, Structural)]
pub struct Session {
    pub id: u64,
    pub user_id: u64,
    pub token: u128,
}

/// A schedule entry, owned by exactly one user. Times are milliseconds since
/// the Unix epoch. The color is the 12-byte ObjectId of a color tag, taken as
/// it is: nothing checks that such a tag exists.
pub struct Schedule {
    pub id: u64,
    pub user_id: u64,
    pub color_id: [u8; 12],
    pub name: String,
    pub description: String,
    pub start_time: i64,
    pub end_time: i64,
}

/// A color tag, shared by all users.
pub struct ScheduleColor {
    pub id: u64,
    pub name: String,
    pub color: String,
}

/// What an operation can fail with.
#[derive(Clone, Copy, Debug, PartialEq, Eq, Structural)]
pub enum ApiError {
    /// A malformed input.
    Validation,
    /// A missing, malformed or unknown session token.
    Unauthorized,
    /// An unknown user name or a wrong password.
    InvalidCredentials,
    /// No such record, or none that the caller owns.
    NotFound,
    /// A user name that is taken, or a fresh token that is already in use.
    Conflict,
    /// The store cannot take another record.
    StoreUnavailable,
}

impl User {
    /// A copy of the user.
    pub fn duplicate(&self) -> (r: User)
        ensures
            r == *self,
    {
        User {
            id: self.id,
            name: self.name.clone(),
            salt: self.salt,
            password_hash: self.password_hash.clone(),
        }
    }
}

impl Schedule {
    /// A copy of the schedule.
    pub fn duplicate(&self) -> (r: Schedule)
        ensures
            r == *self,
    {
        Schedule {
            id: self.id,
            user_id: self.user_id,
            color_id: self.color_id,
            name: self.name.clone(),
            description: self.description.clone(),
            start_time: self.start_time,
            end_time: self.end_time,
        }
    }
}

impl ScheduleColor {
    /// A copy of the color tag.
    pub fn duplicate(&self) -> (r: ScheduleColor)
        ensures
            r == *self,
    {
        ScheduleColor { id: self.id, name: self.name.clone(), color: self.color.clone() }
    }
}

} // verus!
