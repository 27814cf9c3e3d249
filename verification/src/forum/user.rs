//! The users of the board.
use vstd::prelude::*;
use crate::forum::time::Timestamp;
use crate::forum::time::TimestampView;

verus! {

/// Why a user was not let in.
#[derive(Debug, Clone, Copy, PartialEq, Eq, Structural)]
pub enum Error {
    /// The password does not match.
    AuthFailed,
    /// Nobody has this name.
    UserNotFound,
}

impl Error {
    /// The error as a sentence.
    pub fn to_string(&self) -> (text: String)
        ensures
            text@ == (match self {
                Error::AuthFailed => "Authentication failed."@,
                Error::UserNotFound => "User account was not found."@,
            }),
    {
        match self {
            Error::AuthFailed => "Authentication failed.".to_owned(),
            Error::UserNotFound => "User account was not found.".to_owned(),
        }
    }
}

/// A user as the board stores it.
#[derive(Debug, PartialEq, Eq)]
pub struct User {
    pub id: u128,
    pub name: String,
    pub password_hash: String,
    pub created_at: Timestamp,
    pub last_active: Timestamp,
    pub salt: String,
}

/// A [`User`] as mathematics.
pub struct UserView {
    pub id: u128,
    pub name: Seq<char>,
    pub password_hash: Seq<char>,
    pub created_at: TimestampView,
    pub last_active: TimestampView,
    pub salt: Seq<char>,
}

impl View for User {
    type V = UserView;

    open spec fn view(&self) -> UserView {
        UserView {
            id: self.id,
            name: self.name@,
            password_hash: self.password_hash@,
            created_at: self.created_at@,
            last_active: self.last_active@,
            salt: self.salt@,
        }
    }
}

/// A user as the board shows it: without hash and salt.
#[derive(Debug, PartialEq, Eq)]
pub struct UserResponse {
    pub id: u128,
    pub username: String,
    pub created_at: Timestamp,
    pub last_active: Timestamp,
}

/// A [`UserResponse`] as mathematics.
pub struct UserResponseView {
    pub id: u128,
    pub username: Seq<char>,
    pub created_at: TimestampView,
    pub last_active: TimestampView,
}

impl View for UserResponse {
    type V = UserResponseView;

    open spec fn view(&self) -> UserResponseView {
        UserResponseView {
            id: self.id,
            username: self.username@,
            created_at: self.created_at@,
            last_active: self.last_active@,
        }
    }
}

/// A name and a password, to register or to log in.
#[derive(Debug, PartialEq, Eq)]
pub struct UserAuthRequest {
    pub name: String,
    pub password: String,
}

/// A name and a password, to delete the account.
#[derive(Debug, PartialEq, Eq)]
pub struct DeleteUserRequest {
    pub name: String,
    pub password: String,
}

impl User {
    /// The user as the board shows it.
    pub fn as_reponse(&self) -> (response: UserResponse)
        ensures
            response@ == (UserResponseView {
                id: self@.id,
                username: self@.name,
                created_at: self@.created_at,
                last_active: self@.last_active,
            }),
    {
        UserResponse {
            id: self.id,
            username: self.name.clone(),
            created_at: self.created_at.clone(),
            last_active: self.last_active.clone(),
        }
    }
}

/// Lets a user in: `found` is the stored user of the name that was given,
/// if there is one, and `password_hash` the hash of the password that was
/// given, made with that user's salt. The user is let in exactly where the
/// hashes are the same.
pub fn auth_user(found: Option<User>, password_hash: &String) -> (user: Result<User, Error>)
    ensures
        match found {
            None => user == Err::<User, Error>(Error::UserNotFound),
            Some(stored) => if stored@.password_hash == password_hash@ {
                user == Ok::<User, Error>(stored)
            } else {
                user == Err::<User, Error>(Error::AuthFailed)
            },
        },
{
    match found {
        None => Err(Error::UserNotFound),
        Some(stored) => {
            if stored.password_hash == *password_hash {
                Ok(stored)
            } else {
                Err(Error::AuthFailed)
            }
        },
    }
}

} // verus!
