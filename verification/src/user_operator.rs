//! Account sign-up, sign-in and permission forwarding.
//!
//! Passwords are never stored or returned in clear form: sign-up draws a
//! fresh random salt and stores only the SHA-1 digest of password and salt,
//! rendered in hexadecimal; sign-in recomputes and compares that digest.

use vstd::prelude::*;

use rand::Rng;
use sha1::Digest;

use crate::codec::digit_char;
use crate::dto::{User, UserCredential, UserToken};
use crate::errors::ServiceError;
use crate::gateway::{PermissionManager, UserManager};
use crate::model;
use crate::model::{UserPermission, UserView};

verus! {

/// How many characters a fresh account salt holds.
pub const SALT_LEN: usize = 4;

/// The SHA-1 digest of a text's bytes: twenty bytes, a function of the text
/// alone.
pub uninterp spec fn sha1_of(s: Seq<char>) -> Seq<u8>;

/// A hexadecimal digit character, lower case.
pub open spec fn hex_digit(d: int) -> char {
    if d < 10 {
        digit_char(d)
    } else if d == 10 {
        'a'
    } else if d == 11 {
        'b'
    } else if d == 12 {
        'c'
    } else if d == 13 {
        'd'
    } else if d == 14 {
        'e'
    } else {
        'f'
    }
}

/// The lower-case hexadecimal rendering of a byte string, two digits per
/// byte, high nibble first.
pub open spec fn hex_of(bytes: Seq<u8>) -> Seq<char> {
    Seq::new(
        bytes.len() * 2,
        |i: int|
            if i % 2 == 0 {
                hex_digit(bytes[i / 2] as int / 16)
            } else {
                hex_digit(bytes[i / 2] as int % 16)
            },
    )
}

/// The digest stored for a password text: its SHA-1 digest in hexadecimal.
pub open spec fn sha1_hex_of(s: Seq<char>) -> Seq<char> {
    hex_of(sha1_of(s))
}

/// Relies on `sha1::Sha1` through the `Digest` interface: the 20-byte SHA-1
/// digest of the input's bytes, depending on the input alone.
#[verifier::external_body]
fn sha1_digest(input: &str) -> (r: Vec<u8>)
    ensures
        r@ == sha1_of(input@),
        r@.len() == 20,
{
    let mut h = sha1::Sha1::new();
    h.update(input);
    h.finalize().to_vec()
}

/// Relies on `hex::encode`: lower-case hexadecimal, two digits per byte,
/// high nibble first.
#[verifier::external_body]
fn hex_encode(bytes: &Vec<u8>) -> (r: String)
    ensures
        r@ == hex_of(bytes@),
{
    hex::encode(bytes)
}

/// The digest under which a password text is stored and checked: the SHA-1
/// digest of the input in hexadecimal, always exactly forty characters.
pub fn sha1_hash(input: &str) -> (r: String)
    ensures
        r@ == sha1_hex_of(input@),
        r@.len() == 40,
{
    let digest = sha1_digest(input);
    hex_encode(&digest)
}

/// Relies on `rand::thread_rng` and `Rng::gen`: a machine-random value, of
/// which nothing is promised.
#[verifier::external_body]
fn random_usize() -> usize {
    rand::thread_rng().gen::<usize>()
}

/// The alphabet an account salt is drawn from: the 62 ASCII alphanumerics.
pub open spec fn salt_alphabet() -> Seq<char> {
    "abcdefghijklmnopqrstuvwxyzABCDEFGHIJKLMNOPQRSTUVWXYZ0123456789"@
}

/// A random string of the given length, every character drawn from the
/// alphanumeric alphabet.
pub fn random_string(length: usize) -> (r: String)
    ensures
        r@.len() == length,
        forall|i: int| 0 <= i < r@.len() ==> salt_alphabet().contains(#[trigger] r@[i]),
{
    let charset = "abcdefghijklmnopqrstuvwxyzABCDEFGHIJKLMNOPQRSTUVWXYZ0123456789";
    proof {
        reveal_strlit("abcdefghijklmnopqrstuvwxyzABCDEFGHIJKLMNOPQRSTUVWXYZ0123456789");
    }
    let mut s = String::new();
    let mut i: usize = 0;
    while i < length
        invariant
            0 <= i <= length,
            s@.len() == i,
            charset@.len() == 62,
            charset@ == salt_alphabet(),
            forall|j: int| 0 <= j < s@.len() ==> salt_alphabet().contains(#[trigger] s@[j]),
        decreases length - i,
    {
        let idx = random_usize() % 62;
        let ch = charset.substring_char(idx, idx + 1);
        s.append(ch);
        proof {
            assert(s@[i as int] == charset@[idx as int]);
            assert(salt_alphabet()[idx as int] == charset@[idx as int]);
            assert(salt_alphabet().contains(s@[i as int]));
        }
        i += 1;
    }
    s
}

/// Relies on `chrono::Utc::now` and chrono's formatter: the current instant
/// rendered as a timestamp text. Nothing is promised of the clock.
#[verifier::external_body]
fn now_formatted() -> String {
    chrono::Utc::now().format("%Y-%m-%d %H:%M:%S%.3f").to_string()
}

/// The account flows, over any account store and any token authority.
pub struct UserOperator<U: UserManager, P: PermissionManager> {
    user_manager: U,
    perm_manager: P,
}

impl<U: UserManager, P: PermissionManager> UserOperator<U, P> {
    /// The accounts of the underlying store.
    pub closed spec fn users(&self) -> Seq<UserView> {
        self.user_manager.users()
    }

    /// The token authority the operator signs in against.
    pub closed spec fn authority(&self) -> P {
        self.perm_manager
    }

    /// Wires the operator to its store and authority.
    pub fn new(u: U, p: P) -> (r: Self)
        ensures
            r.users() == u.users(),
            r.authority() == p,
    {
        UserOperator { user_manager: u, perm_manager: p }
    }

    /// Sign-up: an empty email or password is rejected before any store call
    /// is attempted; otherwise the account is stored with a fresh salt and
    /// the salted password digest, never the password itself.
    pub fn create_user(&mut self, uc: &UserCredential) -> (r: Result<User, ServiceError>)
        ensures
            (r == Err::<User, ServiceError>(ServiceError::EmptyEmail)) == (uc.email@.len() == 0),
            (r == Err::<User, ServiceError>(ServiceError::EmptyPassword)) == (uc.email@.len() > 0
                && uc.password@.len() == 0),
            r is Err ==> final(self).users() == old(self).users(),
            match r {
                Ok(u) => {
                    &&& u.email@ == uc.email@
                    &&& final(self).users().len() == old(self).users().len() + 1
                    &&& final(self).users().subrange(0, old(self).users().len() as int) == old(
                        self,
                    ).users()
                    &&& forall|k: int|
                        0 <= k < old(self).users().len() ==> (#[trigger] old(
                            self,
                        ).users()[k]).id != u.id
                    &&& {
                        let stored = final(self).users().last();
                        &&& stored.id == u.id
                        &&& stored.email == uc.email@
                        &&& stored.is_admin == false
                        &&& stored.salt.len() == SALT_LEN
                        &&& forall|i: int|
                            0 <= i < stored.salt.len() ==> salt_alphabet().contains(
                                #[trigger] stored.salt[i],
                            )
                        &&& stored.password == sha1_hex_of(uc.password@ + stored.salt)
                        &&& stored.password.len() == 40
                    }
                },
                Err(e) => e == ServiceError::EmptyEmail || e == ServiceError::EmptyPassword || e
                    == ServiceError::StoreFailure,
            },
    {
        if uc.email.as_str().is_empty() {
            return Err(ServiceError::EmptyEmail);
        }
        if uc.password.as_str().is_empty() {
            return Err(ServiceError::EmptyPassword);
        }
        let salt = random_string(SALT_LEN);
        let combined = uc.password.clone().concat(salt.as_str());
        let digest = sha1_hash(combined.as_str());
        let user = model::User {
            id: 0,
            email: uc.email.clone(),
            password: digest,
            salt,
            is_admin: false,
            created_at: now_formatted(),
            updated_at: now_formatted(),
        };
        match self.user_manager.create_user(&user) {
            Err(_) => Err(ServiceError::StoreFailure),
            Ok(uid) => Ok(User { id: uid, email: uc.email.clone() }),
        }
    }

    /// Sign-in: checks the presented password against the stored salted
    /// digest and, on success, hands back a token the authority issued for
    /// the account at its tier (admin accounts sign in as PermAdmin, others
    /// as PermUser). A wrong password and an unknown email fail with
    /// distinct errors, and the token path is reached only once the digest
    /// matched.
    pub fn sign_in(&self, email: &str, password: &str) -> (r: Result<UserToken, ServiceError>)
        ensures
            (r == Err::<UserToken, ServiceError>(ServiceError::EmptyEmail)) == (email@.len() == 0),
            (r == Err::<UserToken, ServiceError>(ServiceError::EmptyPassword)) == (email@.len() > 0
                && password@.len() == 0),
            r == Err::<UserToken, ServiceError>(ServiceError::UserNotFound) ==> forall|k: int|
                0 <= k < self.users().len() ==> (#[trigger] self.users()[k]).email != email@,
            r == Err::<UserToken, ServiceError>(ServiceError::WrongPassword) ==> exists|k: int|
                0 <= k < self.users().len() && (#[trigger] self.users()[k]).email == email@ && self.users()[k].password
                    != sha1_hex_of(password@ + self.users()[k].salt),
            r == Err::<UserToken, ServiceError>(ServiceError::ExpiryOverflow) || r == Err::<
                UserToken,
                ServiceError,
            >(ServiceError::TokenSigning) ==> exists|k: int|
                0 <= k < self.users().len() && (#[trigger] self.users()[k]).email == email@ && self.users()[k].password
                    == sha1_hex_of(password@ + self.users()[k].salt),
            match r {
                Ok(ut) => exists|k: int|
                    0 <= k < self.users().len() && {
                        let u = #[trigger] self.users()[k];
                        &&& u.email == email@
                        &&& u.password == sha1_hex_of(password@ + u.salt)
                        &&& ut.user.id == u.id
                        &&& ut.user.email@ == u.email
                        &&& self.authority().issued(
                            ut.token@,
                            u.id,
                            u.email,
                            if u.is_admin {
                                UserPermission::PermAdmin
                            } else {
                                UserPermission::PermUser
                            },
                        )
                    },
                Err(e) => e == ServiceError::EmptyEmail || e == ServiceError::EmptyPassword || e
                    == ServiceError::UserNotFound || e == ServiceError::WrongPassword || e
                    == ServiceError::StoreFailure || e == ServiceError::ExpiryOverflow || e
                    == ServiceError::TokenSigning,
            },
    {
        if email.is_empty() {
            return Err(ServiceError::EmptyEmail);
        }
        if password.is_empty() {
            return Err(ServiceError::EmptyPassword);
        }
        let found = match self.user_manager.get_user_by_email(email) {
            Err(_) => {
                return Err(ServiceError::StoreFailure);
            },
            Ok(found) => found,
        };
        match found {
            None => Err(ServiceError::UserNotFound),
            Some(u) => {
                let combined = String::from_str(password).concat(u.salt.as_str());
                let digest = sha1_hash(combined.as_str());
                if u.password != digest {
                    proof {
                        let k = choose|k: int|
                            0 <= k < self.users().len() && self.users()[k] == u@;
                        assert(self.users()[k].email == email@);
                    }
                    return Err(ServiceError::WrongPassword);
                }
                let perm = if u.is_admin {
                    UserPermission::PermAdmin
                } else {
                    UserPermission::PermUser
                };
                match self.perm_manager.generate_token(u.id, u.email.as_str(), perm) {
                    Err(e) => {
                        proof {
                            let k = choose|k: int|
                                0 <= k < self.users().len() && self.users()[k] == u@;
                            assert(self.users()[k].email == email@);
                        }
                        if matches!(e, ServiceError::ExpiryOverflow) {
                            Err(ServiceError::ExpiryOverflow)
                        } else {
                            Err(ServiceError::TokenSigning)
                        }
                    },
                    Ok(token) => {
                        proof {
                            let k = choose|k: int|
                                0 <= k < self.users().len() && self.users()[k] == u@;
                            assert(self.users()[k].email == email@);
                        }
                        Ok(UserToken { user: User { id: u.id, email: u.email }, token })
                    },
                }
            },
        }
    }

    /// Forwards a permission check to the token authority.
    pub fn has_permission(&self, token: &str, perm: UserPermission) -> (r: Result<
        bool,
        ServiceError,
    >) {
        self.perm_manager.has_permission(token, perm)
    }
}

} // verus!
