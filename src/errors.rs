//! Error kinds of the domain and of request validation.
use vstd::prelude::*;

verus! {

/// Failures of the domain layer, as reported to callers.
#[derive(Debug, PartialEq, Eq)]
pub enum DomainError {
    UserAlreadyExists,
    UsernameAlreadyTaken,
    UserNotFound,
    InvalidCredentials,
    BookNotFound,
    Unauthorized,
    InvalidInput(String),
    ExternalServiceError(String),
    DatabaseError(String),
    MLModelError(String),
}

/// Why a recommendation request was rejected.
#[derive(Debug, Clone, Copy, PartialEq, Eq, Structural)]
pub enum RequestError {
    /// The user identifier is empty (the nil UUID).
    InvalidUser,
    /// Zero recommendations were asked for.
    InvalidLimit,
}

} // verus!
