use vstd::prelude::*;
use crate::models::{Claims, User, TOKEN_LIFETIME_SECS};

verus! {

/// Whether bcrypt's `verify` returns `Ok(true)` for this password and hash.
pub uninterp spec fn bcrypt_accepts(password: Seq<char>, hash: Seq<char>) -> bool;

/// Relies on `bcrypt::verify`: whether `password` matches the bcrypt `hash`.
/// Its answer depends on the two strings alone (the salt is read from the
/// hash); a hash that does not parse is an error, taken here as no match.
#[verifier::external_body]
fn password_matches(password: &str, hash: &str) -> (r: bool)
    ensures
        r == bcrypt_accepts(password@, hash@),
{
    bcrypt::verify(password, hash).unwrap_or(false)
}

/// Why a login failed.
#[derive(Clone, Copy, Debug, PartialEq, Eq, Structural)]
pub enum LoginError {
    UserNotFound,
    InvalidPassword,
    /// The clock reads a time for which no expiry can be written.
    TokenUnavailable,
}

impl LoginError {
    pub fn reason(&self) -> (r: &'static str)
        ensures
            *self == LoginError::UserNotFound ==> r@ == "User not found"@,
            *self == LoginError::InvalidPassword ==> r@ == "Invalid password"@,
            *self == LoginError::TokenUnavailable ==> r@ == "Failed to issue token"@,
    {
        match self {
            LoginError::UserNotFound => "User not found",
            LoginError::InvalidPassword => "Invalid password",
            LoginError::TokenUnavailable => "Failed to issue token",
        }
    }
}

/// The outcome of a login by the user `user_id` (if the account exists),
/// whose password did or did not match, at `now` (seconds since the epoch).
pub open spec fn login_result(user_id: Option<i32>, password_ok: bool, now: int) -> Result<
    Claims,
    LoginError,
> {
    match user_id {
        None => Err(LoginError::UserNotFound),
        Some(id) => if !password_ok {
            Err(LoginError::InvalidPassword)
        } else if now < 0 || now + TOKEN_LIFETIME_SECS > usize::MAX {
            Err(LoginError::TokenUnavailable)
        } else {
            Ok(Claims { sub: id, exp: (now + TOKEN_LIFETIME_SECS) as usize })
        },
    }
}

/// Decides a login once the account lookup and the password check are done:
/// the claims of the token to issue, or why none is issued.
pub fn login_decision(user_id: Option<i32>, password_ok: bool, now: i64) -> (r: Result<
    Claims,
    LoginError,
>)
    ensures
        r == login_result(user_id, password_ok, now as int),
{
    match user_id {
        None => Err(LoginError::UserNotFound),
        Some(id) => {
            if !password_ok {
                Err(LoginError::InvalidPassword)
            } else {
                match Claims::for_user(id, now) {
                    Some(c) => Ok(c),
                    None => Err(LoginError::TokenUnavailable),
                }
            }
        },
    }
}

/// Logs in with `password` against the account `user` that the store found
/// (`None`: no such account), at `now` (seconds since the epoch).
pub fn login(user: &Option<User>, password: &str, now: i64) -> (r: Result<Claims, LoginError>)
    ensures
        r == login_result(
            match user {
                Some(u) => Some(u.id),
                None => None,
            },
            match user {
                Some(u) => bcrypt_accepts(password@, u.password@),
                None => false,
            },
            now as int,
        ),
{
    match user {
        Some(u) => {
            let ok = password_matches(password, u.password.as_str());
            login_decision(Some(u.id), ok, now)
        },
        None => login_decision(None, false, now),
    }
}

} // verus!
