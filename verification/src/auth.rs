//! Account rules: e-mail normalisation, registration and login checks,
//! password hashing, session and user ids, and bearer tokens.

use vstd::prelude::*;
use vstd::string::*;
use crate::error::AppError;
use crate::identity::{parse_uuid, parsed_uuid};
use crate::text::{has_prefix, lowercase_of, starts_with, to_lower, trim_ws, trimmed};

verus! {

/// Passwords shorter than this many bytes are refused at registration.
pub const MIN_PASSWORD_BYTES: usize = 8;

/// What `bcrypt::verify` answers for `password` against the stored `hash`
/// (`None` when the hash cannot be read).
pub uninterp spec fn bcrypt_verifies(password: Seq<char>, hash: Seq<char>) -> Option<bool>;

/// `bcrypt::hash` at `bcrypt::DEFAULT_COST` (12) with a random salt: on
/// success a 60-character `$2b$12$` hash that `bcrypt::verify` accepts for
/// the same password. It fails only when the system gives no random salt.
#[verifier::external_body]
fn bcrypt_hash(password: &str) -> (r: Option<String>)
    ensures
        r matches Some(h) ==> h@.len() == 60 && has_prefix(h@, "$2b$12$"@) && bcrypt_verifies(
            password@,
            h@,
        ) == Some(true),
{
    match bcrypt::hash(password, bcrypt::DEFAULT_COST) {
        Ok(h) => Some(h),
        Err(_) => None,
    }
}

/// `bcrypt::verify` of `password` against `hash`; `None` when the hash
/// cannot be read.
#[verifier::external_body]
fn bcrypt_verify(password: &str, hash: &str) -> (r: Option<bool>)
    ensures
        r == bcrypt_verifies(password@, hash@),
{
    match bcrypt::verify(password, hash) {
        Ok(b) => Some(b),
        Err(_) => None,
    }
}

/// An e-mail address as accounts store it: trimmed and lower-cased.
pub open spec fn normalized_email(email: Seq<char>) -> Seq<char> {
    lowercase_of(trimmed(email))
}

/// Normalises an e-mail address (see [`normalized_email`]).
pub fn normalize_email(email: &str) -> (r: String)
    ensures
        r@ == normalized_email(email@),
{
    to_lower(trim_ws(email))
}

/// Whether `r` is a bad-request error with message `m`.
pub open spec fn is_bad_request(r: AppError, m: Seq<char>) -> bool {
    r matches AppError::BadRequest(x) && x@ == m
}

/// Whether `r` is an authentication error with message `m`.
pub open spec fn is_auth_error(r: AppError, m: Seq<char>) -> bool {
    r matches AppError::Auth(x) && x@ == m
}

/// Checks a registration: the normalised e-mail must not be empty and the
/// password must have at least eight bytes. Returns the normalised e-mail.
pub fn validate_registration(email: &str, password: &str) -> (r: Result<String, AppError>)
    ensures
        match r {
            Ok(e) => e@ == normalized_email(email@) && normalized_email(email@).len() > 0
                && password.len() >= MIN_PASSWORD_BYTES,
            Err(err) => (normalized_email(email@).len() == 0 || password.len()
                < MIN_PASSWORD_BYTES) && is_bad_request(err, "invalid email or password"@),
        },
{
    let e = normalize_email(email);
    if e.as_str().is_empty() || password.len() < MIN_PASSWORD_BYTES {
        return Err(AppError::BadRequest(String::from_str("invalid email or password")));
    }
    Ok(e)
}

/// Checks a new e-mail address for an account: its normalised form must not
/// be empty. Returns the normalised form.
pub fn validate_new_email(email: &str) -> (r: Result<String, AppError>)
    ensures
        match r {
            Ok(e) => e@ == normalized_email(email@) && normalized_email(email@).len() > 0,
            Err(err) => normalized_email(email@).len() == 0 && is_bad_request(
                err,
                "email cannot be empty"@,
            ),
        },
{
    let e = normalize_email(email);
    if e.as_str().is_empty() {
        return Err(AppError::BadRequest(String::from_str("email cannot be empty")));
    }
    Ok(e)
}

/// Whether a login with `password` succeeds against the stored hash of the
/// account (`None` when no account has the e-mail address).
pub open spec fn login_accepts(password: Seq<char>, stored_hash: Option<Seq<char>>) -> bool {
    stored_hash matches Some(h) && bcrypt_verifies(password, h) == Some(true)
}

/// Hashes a new password. The hash is one that a later login with the same
/// password accepts.
pub fn hash_password(password: &str) -> (r: Result<String, AppError>)
    ensures
        match r {
            Ok(h) => login_accepts(password@, Some(h@)) && h@.len() == 60,
            Err(err) => is_bad_request(err, "hash error"@),
        },
{
    match bcrypt_hash(password) {
        Some(h) => Ok(h),
        None => Err(AppError::BadRequest(String::from_str("hash error"))),
    }
}

/// Checks a login: the account must exist and the password must match its
/// stored hash; every failure reads "invalid credentials".
pub fn authenticate(stored_hash: Option<&str>, password: &str) -> (r: Result<(), AppError>)
    ensures
        r is Ok <==> login_accepts(
            password@,
            match stored_hash {
                Some(h) => Some(h@),
                None => None,
            },
        ),
        r matches Err(err) ==> is_auth_error(err, "invalid credentials"@),
{
    match stored_hash {
        None => Err(AppError::Auth(String::from_str("invalid credentials"))),
        Some(h) => match bcrypt_verify(password, h) {
            Some(true) => Ok(()),
            _ => Err(AppError::Auth(String::from_str("invalid credentials"))),
        },
    }
}

/// Reads a session id; a text that is not a UUID is a bad request.
pub fn parse_session_id(text: &str) -> (r: Result<u128, AppError>)
    ensures
        match parsed_uuid(text@) {
            Some(u) => r == Ok::<u128, AppError>(u),
            None => r matches Err(err) && is_bad_request(err, "invalid session id"@),
        },
{
    match parse_uuid(text) {
        Some(u) => Ok(u),
        None => Err(AppError::BadRequest(String::from_str("invalid session id"))),
    }
}

/// Reads a user id; a text that is not a UUID is a bad request.
pub fn parse_user_id(text: &str) -> (r: Result<u128, AppError>)
    ensures
        match parsed_uuid(text@) {
            Some(u) => r == Ok::<u128, AppError>(u),
            None => r matches Err(err) && is_bad_request(err, "invalid user id"@),
        },
{
    match parse_uuid(text) {
        Some(u) => Ok(u),
        None => Err(AppError::BadRequest(String::from_str("invalid user id"))),
    }
}

/// The token of an `Authorization` header: what follows `Bearer `.
/// `None` without a header or without that prefix.
pub fn bearer_token<'a>(header: Option<&'a str>) -> (r: Option<&'a str>)
    ensures
        match header {
            Some(h) => if has_prefix(h@, "Bearer "@) {
                r matches Some(t) && t@ == h@.subrange(7, h@.len() as int)
            } else {
                r is None
            },
            None => r is None,
        },
{
    proof {
        reveal_strlit("Bearer ");
    }
    match header {
        None => None,
        Some(h) => {
            if starts_with(h, "Bearer ") {
                let n = h.unicode_len();
                Some(h.substring_char(7, n))
            } else {
                None
            }
        },
    }
}

/// An authenticated dashboard user, as its token's claims name it.
pub struct AuthUser {
    pub user_id: String,
    pub email: String,
    pub session_id: String,
}

/// A registration request.
pub struct RegisterRequest {
    pub email: String,
    pub password: String,
}

/// A login request.
pub struct LoginRequest {
    pub email: String,
    pub password: String,
}

/// A request to change the account's e-mail address.
pub struct UpdateEmailRequest {
    pub email: String,
}

/// The account of the current token.
pub struct MeResponse {
    pub user_id: String,
    pub email: String,
    pub session_id: String,
}

} // verus!
