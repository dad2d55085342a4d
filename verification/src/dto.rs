//! The request/response shapes of the account flows.

use vstd::prelude::*;

verus! {

/// A sign-up or sign-in credential as the caller presents it.
#[derive(Debug)]
pub struct UserCredential {
    pub email: String,
    pub password: String,
}

/// The public face of an account: its id and email, never the digest or
/// the salt.
#[derive(Debug)]
pub struct User {
    pub id: u32,
    pub email: String,
}

/// What a successful sign-in hands back: the account's public face and a
/// fresh bearer token.
#[derive(Debug)]
pub struct UserToken {
    pub user: User,
    pub token: String,
}

/// The caller-supplied body of a review creation or update.
#[derive(Debug)]
pub struct ReviewBody {
    pub book_id: u32,
    pub author: String,
    pub title: String,
    pub content: String,
}

} // verus!
