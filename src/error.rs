//! The errors of the library and how they are reported outward.

use vstd::prelude::*;

verus! {

/// Every way an operation of this library can fail.
#[derive(Debug, Clone, Copy, PartialEq, Eq, Structural)]
pub enum ApiError {
    /// The password does not match the stored hash.
    InvalidCredentials,
    /// The token's expiry is not in the future.
    ExpiredJWTs,
    /// The stored password hash cannot be parsed.
    InvalidPasswordHash,
    /// The token could not be signed.
    InvalidJWTCredentials,
    /// The expiry of a new token does not fit the timestamp range.
    WrongTimeStamp,
    /// The token has been revoked.
    TokenBlacklisted,
    /// Hashing or re-hashing a password failed.
    FailedHashingPassword,
    /// The token cannot be decoded into claims.
    UnableToDecodeClaims,
    /// The token's signature does not match the secret.
    InvalidJWTSignature,
    /// A user with the same email (or identifier) is already stored.
    AlreadyExist,
    /// No user has the given email.
    NonExistence,
    /// The token is valid but its subject is not a stored user.
    SubjectNotFound,
    /// The authorization header is not of the form `Bearer <token>`.
    InvalidJWTFormat,
}

/// The HTTP status that each error is reported with.
pub open spec fn status_of(e: ApiError) -> u16 {
    match e {
        ApiError::AlreadyExist => 409,
        ApiError::InvalidPasswordHash => 500,
        ApiError::WrongTimeStamp => 500,
        ApiError::FailedHashingPassword => 500,
        _ => 401,
    }
}

/// Whether the error belongs to a failed login (reported as one generic message,
/// so that unknown emails and wrong passwords cannot be told apart).
pub open spec fn is_login_failure(e: ApiError) -> bool {
    e is NonExistence || e is InvalidCredentials
}

impl ApiError {
    /// The HTTP status for this error.
    pub fn status(&self) -> (r: u16)
        ensures
            r == status_of(*self),
    {
        match self {
            ApiError::AlreadyExist => 409,
            ApiError::InvalidPasswordHash => 500,
            ApiError::WrongTimeStamp => 500,
            ApiError::FailedHashingPassword => 500,
            _ => 401,
        }
    }

    /// The response body shown outside: server faults, failed logins and failed
    /// authorizations each collapse into one message, so that the precise check
    /// that failed is not revealed.
    pub fn outward_message(&self) -> (r: &'static str)
        ensures
            status_of(*self) == 500 ==> r@ == "Internal Server Error"@,
            is_login_failure(*self) ==> r@ == "Invalid credentials"@,
            *self is AlreadyExist ==> r@ == "User already exists"@,
            status_of(*self) == 401 && !is_login_failure(*self) ==> r@ == "Unauthorized"@,
    {
        match self {
            ApiError::AlreadyExist => "User already exists",
            ApiError::InvalidPasswordHash => "Internal Server Error",
            ApiError::WrongTimeStamp => "Internal Server Error",
            ApiError::FailedHashingPassword => "Internal Server Error",
            ApiError::NonExistence => "Invalid credentials",
            ApiError::InvalidCredentials => "Invalid credentials",
            _ => "Unauthorized",
        }
    }
}

} // verus!
