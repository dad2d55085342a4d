//! The token authority: issues and verifies the signed, self-contained
//! tokens that carry identity and permission. The server keeps no session
//! state — a verified token is the whole authorization artifact.
//!
//! Signing and verification are done by the `jsonwebtoken` crate (HMAC with
//! SHA-256, the library's default); what a signed text embeds is named by
//! `jwt_payload_of`, and everything around the two signing calls is
//! verified.

use vstd::prelude::*;

use crate::errors::ServiceError;
use crate::gateway::PermissionManager;
use crate::model::UserPermission;
use crate::text::str_eq;

verus! {

/// The identity and permission a token carries, with its expiry instant in
/// seconds since the Unix epoch.
#[derive(Debug)]
pub struct UserClaims {
    pub user_id: u32,
    pub user_name: String,
    pub permission: UserPermission,
    pub exp: u64,
}

/// The claims a signed text embeds under a given secret: the numeric
/// identity, the account name, the permission tier's wire name, and the
/// expiry instant — or nothing when the text is not a well-formed token
/// carrying those claims under that secret's signature.
pub uninterp spec fn jwt_payload_of(token: Seq<char>, secret: Seq<char>) -> Option<
    (u32, Seq<char>, Seq<char>, u64),
>;

/// The wire name of a permission tier.
pub open spec fn perm_name(p: UserPermission) -> Seq<char> {
    match p {
        UserPermission::PermNone => "PermNone"@,
        UserPermission::PermUser => "PermUser"@,
        UserPermission::PermAuthor => "PermAuthor"@,
        UserPermission::PermAdmin => "PermAdmin"@,
    }
}

/// The permission tier a wire name denotes, if any.
pub open spec fn perm_of_name(s: Seq<char>) -> Option<UserPermission> {
    if s == perm_name(UserPermission::PermNone) {
        Some(UserPermission::PermNone)
    } else if s == perm_name(UserPermission::PermUser) {
        Some(UserPermission::PermUser)
    } else if s == perm_name(UserPermission::PermAuthor) {
        Some(UserPermission::PermAuthor)
    } else if s == perm_name(UserPermission::PermAdmin) {
        Some(UserPermission::PermAdmin)
    } else {
        None
    }
}

/// Wire names denote the tiers they were made from: the naming round-trips.
pub proof fn lemma_perm_name_roundtrip(p: UserPermission)
    ensures
        perm_of_name(perm_name(p)) == Some(p),
{
    reveal_strlit("PermNone");
    reveal_strlit("PermUser");
    reveal_strlit("PermAuthor");
    reveal_strlit("PermAdmin");
    assert(perm_name(UserPermission::PermNone)[4] == 'N');
    assert(perm_name(UserPermission::PermUser)[4] == 'U');
    assert(perm_name(UserPermission::PermNone).len() == 8);
    assert(perm_name(UserPermission::PermUser).len() == 8);
    assert(perm_name(UserPermission::PermAuthor).len() == 10);
    assert(perm_name(UserPermission::PermAdmin).len() == 9);
}

fn perm_name_str(p: &UserPermission) -> (r: &'static str)
    ensures
        r@ == perm_name(*p),
{
    match p {
        UserPermission::PermNone => "PermNone",
        UserPermission::PermUser => "PermUser",
        UserPermission::PermAuthor => "PermAuthor",
        UserPermission::PermAdmin => "PermAdmin",
    }
}

fn perm_from_name(s: &str) -> (r: Option<UserPermission>)
    ensures
        match r {
            Some(p) => s@ == perm_name(p) && perm_of_name(s@) == Some(p),
            None => perm_of_name(s@) is None,
        },
{
    proof {
        lemma_perm_name_roundtrip(UserPermission::PermNone);
        lemma_perm_name_roundtrip(UserPermission::PermUser);
        lemma_perm_name_roundtrip(UserPermission::PermAuthor);
        lemma_perm_name_roundtrip(UserPermission::PermAdmin);
    }
    if str_eq(s, "PermNone") {
        Some(UserPermission::PermNone)
    } else if str_eq(s, "PermUser") {
        Some(UserPermission::PermUser)
    } else if str_eq(s, "PermAuthor") {
        Some(UserPermission::PermAuthor)
    } else if str_eq(s, "PermAdmin") {
        Some(UserPermission::PermAdmin)
    } else {
        None
    }
}

/// Relies on `jsonwebtoken::encode` with the default header (HMAC-SHA256):
/// the produced text is a token under the secret's signature embedding
/// exactly the four claims handed in. For an HMAC key and the default
/// header, signing and the serialization of these claims cannot fail, so
/// the call always returns a token.
#[verifier::external_body]
fn jwt_encode(secret: &str, user_id: u32, user_name: &str, permission: &str, exp: u64) -> (r:
    String)
    ensures
        jwt_payload_of(r@, secret@) == Some((user_id, user_name@, permission@, exp)),
{
    let mut claims = serde_json::Map::new();
    claims.insert("user_id".to_string(), serde_json::Value::from(user_id));
    claims.insert("user_name".to_string(), serde_json::Value::from(user_name));
    claims.insert("permission".to_string(), serde_json::Value::from(permission));
    claims.insert("exp".to_string(), serde_json::Value::from(exp));
    jsonwebtoken::encode(
        &jsonwebtoken::Header::default(),
        &serde_json::Value::Object(claims),
        &jsonwebtoken::EncodingKey::from_secret(secret.as_bytes()),
    ).expect("HMAC signing of plain claims cannot fail")
}

/// Relies on `jsonwebtoken::decode` with the default validation: it succeeds
/// only on a structurally well-formed token whose signature the secret
/// verifies and whose expiry instant is not more than the default 60-second
/// leeway in the past, and then returns the claims the token embeds.
#[verifier::external_body]
fn jwt_decode(secret: &str, token: &str) -> (r: Option<(u32, String, String, u64)>)
    ensures
        r matches Some(c) ==> jwt_payload_of(token@, secret@) == Some((c.0, c.1@, c.2@, c.3)),
{
    let key = jsonwebtoken::DecodingKey::from_secret(secret.as_bytes());
    let validation = jsonwebtoken::Validation::default();
    let data = jsonwebtoken::decode::<serde_json::Value>(token, &key, &validation).ok()?;
    let user_id = data.claims.get("user_id")?.as_u64()?;
    let user_name = data.claims.get("user_name")?.as_str()?.to_string();
    let permission = data.claims.get("permission")?.as_str()?.to_string();
    let exp = data.claims.get("exp")?.as_u64()?;
    if user_id > u32::MAX as u64 {
        return None;
    }
    Some((user_id as u32, user_name, permission, exp))
}

/// Relies on `chrono::Utc::now`: the current instant in seconds since the
/// Unix epoch. Nothing is promised of the clock's reading.
#[verifier::external_body]
pub(crate) fn now_unix_seconds() -> i64 {
    chrono::Utc::now().timestamp()
}

/// Whether verified claims satisfy a required tier: true exactly when the
/// embedded level is at least the required one under the total order.
pub fn claims_allow(claims: &UserClaims, required: &UserPermission) -> (r: bool)
    ensures
        r == (claims.permission.level() >= required.level()),
{
    claims.permission.satisfies(required)
}

/// The token authority. It holds the server's signing secret and the
/// validity window of freshly issued tokens.
pub struct Keeper {
    secret_key: String,
    expire_hours: u64,
}

impl Keeper {
    /// The signing secret.
    pub closed spec fn secret_spec(&self) -> Seq<char> {
        self.secret_key@
    }

    /// The validity window, in hours.
    pub closed spec fn hours_spec(&self) -> u64 {
        self.expire_hours
    }

    /// A new authority over a secret and a validity window.
    pub fn new(secret_key: String, expire_in_hours: u32) -> (r: Self)
        ensures
            r.secret_spec() == secret_key@,
            r.hours_spec() == expire_in_hours as u64,
    {
        Keeper { secret_key, expire_hours: expire_in_hours as u64 }
    }

    /// Computes the expiry instant from the given current instant and signs
    /// the claims. Fails exactly when the expiry computation overflows, and
    /// on nothing else: HMAC signing cannot fail.
    pub fn build_token(&self, user_id: u32, email: &str, perm: UserPermission, now_secs: u64) -> (r:
        Result<String, ServiceError>)
        ensures
            (r is Err) == (now_secs + self.hours_spec() * 3600 > u64::MAX),
            match r {
                Ok(t) => jwt_payload_of(t@, self.secret_spec()) == Some(
                    (user_id, email@, perm_name(perm), (now_secs + self.hours_spec() * 3600) as u64),
                ),
                Err(e) => e == ServiceError::ExpiryOverflow,
            },
    {
        match self.expire_hours.checked_mul(3600) {
            None => Err(ServiceError::ExpiryOverflow),
            Some(window) => match now_secs.checked_add(window) {
                None => Err(ServiceError::ExpiryOverflow),
                Some(exp) => Ok(
                    jwt_encode(self.secret_key.as_str(), user_id, email, perm_name_str(&perm), exp),
                ),
            },
        }
    }

    /// Verifies a presented token and surfaces its claims; any structural,
    /// signature or expiry failure is the one invalid-token error.
    pub fn extract_token(&self, token_result: &str) -> (r: Result<UserClaims, ServiceError>)
        ensures
            match r {
                Ok(c) => jwt_payload_of(token_result@, self.secret_spec()) == Some(
                    (c.user_id, c.user_name@, perm_name(c.permission), c.exp),
                ),
                Err(e) => e == ServiceError::InvalidToken,
            },
    {
        match jwt_decode(self.secret_key.as_str(), token_result) {
            None => Err(ServiceError::InvalidToken),
            Some((user_id, user_name, permission, exp)) => match perm_from_name(
                permission.as_str(),
            ) {
                None => Err(ServiceError::InvalidToken),
                Some(p) => Ok(UserClaims { user_id, user_name, permission: p, exp }),
            },
        }
    }
}

impl PermissionManager for Keeper {
    /// A token is this authority's issue exactly when it embeds the given
    /// identity and tier under the authority's own signing secret.
    open spec fn issued(&self, token: Seq<char>, user_id: u32, email: Seq<char>, perm: UserPermission) -> bool {
        exists|e: u64|
            jwt_payload_of(token, self.secret_spec()) == Some((user_id, email, perm_name(perm), e))
    }

    fn generate_token(&self, user_id: u32, email: &str, perm: UserPermission) -> (r: Result<
        String,
        ServiceError,
    >)
        ensures
            r matches Err(e) ==> e == ServiceError::ExpiryOverflow,
    {
        let now = now_unix_seconds();
        let now_secs: u64 = if now < 0 {
            0
        } else {
            now as u64
        };
        self.build_token(user_id, email, perm, now_secs)
    }

    fn has_permission(&self, token: &str, perm: UserPermission) -> (r: Result<bool, ServiceError>)
        ensures
            match r {
                Ok(b) => jwt_payload_of(token@, self.secret_spec()) matches Some(p)
                    && perm_of_name(p.2) matches Some(lvl) && b == (lvl.level() >= perm.level()),
                Err(e) => e == ServiceError::InvalidToken,
            },
    {
        match self.extract_token(token) {
            Ok(claims) => {
                proof {
                    lemma_perm_name_roundtrip(claims.permission);
                }
                Ok(claims_allow(&claims, &perm))
            },
            Err(e) => Err(e),
        }
    }
}

} // verus!
