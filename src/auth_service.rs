//! Passwords and the settings of signed session tokens.
use vstd::prelude::*;

use crate::entities::User;
use crate::errors::DomainError;

verus! {

#[verifier::external_type_specification]
#[verifier::external_body]
pub struct ExBcryptError(bcrypt::BcryptError);

/// Whether bcrypt accepts `password` for `hash` (`Some(true)` or
/// `Some(false)`), or `None` where `hash` is no bcrypt hash.
pub uninterp spec fn bcrypt_verdict(password: Seq<char>, hash: Seq<char>) -> Option<bool>;

/// Relies on `bcrypt::hash` with `bcrypt::DEFAULT_COST` (12): a hash with a
/// random salt in the form `$2b$12$` followed by 22 characters of salt and 31
/// of hash. It fails only where the system's random source fails.
#[verifier::external_body]
fn bcrypt_hash(password: &str) -> (r: Result<String, bcrypt::BcryptError>)
    ensures
        r matches Ok(h) ==> h@.len() == 60 && h@.take(7) == "$2b$12$"@,
{
    bcrypt::hash(password, bcrypt::DEFAULT_COST)
}

/// Relies on `bcrypt::verify`: whether `password` hashes to `hash` under the
/// salt and cost that `hash` records; an error where `hash` cannot be read.
/// The outcome depends on the two strings alone.
#[verifier::external_body]
fn bcrypt_verify(password: &str, hash: &str) -> (r: Result<bool, bcrypt::BcryptError>)
    ensures
        match r {
            Ok(b) => bcrypt_verdict(password@, hash@) == Some(b),
            Err(_) => bcrypt_verdict(password@, hash@) is None,
        },
{
    bcrypt::verify(password, hash)
}

/// What a session token states: the user's id (`sub`), name, and its expiry
/// and issue times in seconds since the Unix epoch.
pub struct Claims {
    pub sub: String,
    pub username: String,
    pub exp: i64,
    pub iat: i64,
}

/// Password hashing and the secret and lifetime of session tokens.
pub struct AuthService {
    jwt_secret: String,
    jwt_expiration_hours: i64,
}

impl AuthService {
    pub fn new(jwt_secret: String, jwt_expiration_hours: i64) -> (r: Self)
        ensures
            r.jwt_secret() == jwt_secret,
            r.jwt_expiration_hours() == jwt_expiration_hours,
    {
        AuthService { jwt_secret, jwt_expiration_hours }
    }

    pub closed spec fn jwt_secret(&self) -> String {
        self.jwt_secret
    }

    pub closed spec fn jwt_expiration_hours(&self) -> i64 {
        self.jwt_expiration_hours
    }

    /// The secret that signs session tokens.
    pub fn secret(&self) -> (r: &String)
        ensures
            *r == self.jwt_secret(),
    {
        &self.jwt_secret
    }

    /// How long a session token stays valid, in hours.
    pub fn expiration_hours(&self) -> (r: i64)
        ensures
            r == self.jwt_expiration_hours(),
    {
        self.jwt_expiration_hours
    }

    /// A bcrypt hash of `password` with a fresh random salt.
    pub fn hash_password(&self, password: &str) -> (r: Result<String, DomainError>)
        ensures
            r matches Ok(h) ==> h@.len() == 60 && h@.take(7) == "$2b$12$"@,
            r matches Err(e) ==> e is ExternalServiceError,
    {
        match bcrypt_hash(password) {
            Ok(h) => Ok(h),
            Err(_) => Err(DomainError::ExternalServiceError(String::from_str("password hashing failed"))),
        }
    }

    /// Whether `password` matches the bcrypt hash `hash`; an error where
    /// `hash` is not a bcrypt hash.
    pub fn verify_password(&self, password: &str, hash: &str) -> (r: Result<bool, DomainError>)
        ensures
            match bcrypt_verdict(password@, hash@) {
                Some(b) => r == Ok::<bool, DomainError>(b),
                None => r matches Err(e) && e is InvalidCredentials,
            },
    {
        match bcrypt_verify(password, hash) {
            Ok(b) => Ok(b),
            Err(_) => Err(DomainError::InvalidCredentials),
        }
    }

    /// Whether a login may go ahead: the account exists, is active, and
    /// `password` matches its hash. Every refusal is reported as
    /// [`DomainError::InvalidCredentials`], so that a caller learns nothing of
    /// which check failed.
    pub fn check_credentials(&self, user: Option<&User>, password: &str) -> (r: Result<(), DomainError>)
        ensures
            match user {
                Some(u) => if u.is_active && bcrypt_verdict(password@, u.password_hash@) == Some(true) {
                    r is Ok
                } else {
                    r matches Err(e) && e is InvalidCredentials
                },
                None => r matches Err(e) && e is InvalidCredentials,
            },
    {
        match user {
            None => Err(DomainError::InvalidCredentials),
            Some(u) => {
                if !u.is_active {
                    return Err(DomainError::InvalidCredentials);
                }
                match self.verify_password(password, u.password_hash.as_str()) {
                    Ok(true) => Ok(()),
                    _ => Err(DomainError::InvalidCredentials),
                }
            },
        }
    }

    /// Whether a new account may be opened, given whether its e-mail address
    /// and its user name are already in use (the address is checked first).
    pub fn check_new_account(&self, email_taken: bool, username_taken: bool) -> (r: Result<(), DomainError>)
        ensures
            email_taken ==> (r matches Err(e) && e is UserAlreadyExists),
            !email_taken && username_taken ==> (r matches Err(e) && e is UsernameAlreadyTaken),
            !email_taken && !username_taken ==> r is Ok,
    {
        if email_taken {
            Err(DomainError::UserAlreadyExists)
        } else if username_taken {
            Err(DomainError::UsernameAlreadyTaken)
        } else {
            Ok(())
        }
    }
}

} // verus!
