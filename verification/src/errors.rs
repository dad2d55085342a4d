//! The error taxonomy of the service.
//!
//! Validation failures, authentication failures and backend failures are kept
//! distinct so that a caller can always tell "bad input" from "log in again"
//! from "you lack permission" from "the backend broke". Absence of an entity
//! is not an error: lookups return `Option`.

use vstd::prelude::*;

verus! {

/// Every failure the service core can report.
#[derive(Clone, Copy, PartialEq, Eq, Structural, Debug)]
pub enum ServiceError {
    /// Sign-up or sign-in was attempted with an empty email.
    EmptyEmail,
    /// Sign-up or sign-in was attempted with an empty password.
    EmptyPassword,
    /// Sign-in found the account but the password digest did not match.
    WrongPassword,
    /// Sign-in found no account under the given email.
    UserNotFound,
    /// A review update carried an empty title or empty content.
    EmptyReviewField,
    /// A presented token is malformed, forged or expired.
    InvalidToken,
    /// Computing a token expiry instant overflowed.
    ExpiryOverflow,
    /// A token authority failed to issue a token for a reason other than
    /// expiry overflow. The built-in authority never fails this way: HMAC
    /// signing cannot fail.
    TokenSigning,
    /// A storage backend failed.
    StoreFailure,
    /// The cache backend failed (distinct from a cache miss).
    CacheFailure,
}

impl ServiceError {
    /// The message reported to the caller for this error.
    pub open spec fn message_spec(&self) -> Seq<char> {
        match self {
            ServiceError::EmptyEmail => "empty email"@,
            ServiceError::EmptyPassword => "empty password"@,
            ServiceError::WrongPassword => "wrong password"@,
            ServiceError::UserNotFound => "user does not exist"@,
            ServiceError::EmptyReviewField => "Required field cannot be empty"@,
            ServiceError::InvalidToken => "invalid token"@,
            ServiceError::ExpiryOverflow => "Overflow when adding expire time"@,
            ServiceError::TokenSigning => "failed to sign token"@,
            ServiceError::StoreFailure => "store failure"@,
            ServiceError::CacheFailure => "cache failure"@,
        }
    }

    /// Renders the message of this error.
    pub fn message(&self) -> (r: String)
        ensures
            r@ == self.message_spec(),
    {
        match self {
            ServiceError::EmptyEmail => String::from_str("empty email"),
            ServiceError::EmptyPassword => String::from_str("empty password"),
            ServiceError::WrongPassword => String::from_str("wrong password"),
            ServiceError::UserNotFound => String::from_str("user does not exist"),
            ServiceError::EmptyReviewField => String::from_str("Required field cannot be empty"),
            ServiceError::InvalidToken => String::from_str("invalid token"),
            ServiceError::ExpiryOverflow => String::from_str("Overflow when adding expire time"),
            ServiceError::TokenSigning => String::from_str("failed to sign token"),
            ServiceError::StoreFailure => String::from_str("store failure"),
            ServiceError::CacheFailure => String::from_str("cache failure"),
        }
    }
}

/// The error a message came from, read back off the message's length and
/// first character.
spec fn error_of_message(s: Seq<char>) -> ServiceError {
    if s.len() == 11 {
        ServiceError::EmptyEmail
    } else if s.len() == 14 {
        if s[0] == 'e' {
            ServiceError::EmptyPassword
        } else {
            ServiceError::WrongPassword
        }
    } else if s.len() == 19 {
        ServiceError::UserNotFound
    } else if s.len() == 30 {
        ServiceError::EmptyReviewField
    } else if s.len() == 32 {
        ServiceError::ExpiryOverflow
    } else if s.len() == 20 {
        ServiceError::TokenSigning
    } else if s.len() == 13 {
        if s[0] == 'i' {
            ServiceError::InvalidToken
        } else if s[0] == 's' {
            ServiceError::StoreFailure
        } else {
            ServiceError::CacheFailure
        }
    } else {
        ServiceError::EmptyEmail
    }
}

proof fn lemma_message_recovered(e: ServiceError)
    ensures
        error_of_message(e.message_spec()) == e,
{
    reveal_strlit("empty email");
    reveal_strlit("empty password");
    reveal_strlit("wrong password");
    reveal_strlit("user does not exist");
    reveal_strlit("Required field cannot be empty");
    reveal_strlit("invalid token");
    reveal_strlit("Overflow when adding expire time");
    reveal_strlit("failed to sign token");
    reveal_strlit("store failure");
    reveal_strlit("cache failure");
}

/// No two distinct errors share a message: the body of a failing response
/// identifies the failure.
pub proof fn lemma_message_identifies(e: ServiceError, f: ServiceError)
    requires
        e.message_spec() == f.message_spec(),
    ensures
        e == f,
{
    lemma_message_recovered(e);
    lemma_message_recovered(f);
}

} // verus!
