//! The authorization guard: the request-pipeline sentry that admits or rejects
//! a call requiring a minimum permission tier.
//!
//! The guard is a little state machine with three terminal rejections and one
//! admission: no credential rejects as unauthenticated, a credential that
//! fails verification rejects as invalid, a verified but insufficient one
//! rejects as forbidden; otherwise the request is admitted. There are no
//! retries within the guard.

use vstd::prelude::*;

use crate::errors::ServiceError;
use crate::gateway::PermissionManager;
use crate::model::UserPermission;

verus! {

/// A terminal state of the guard.
#[derive(Clone, Copy, PartialEq, Eq, Structural, Debug)]
pub enum GuardOutcome {
    /// No bearer credential was presented; nothing further was checked.
    MissingToken,
    /// The credential failed verification: malformed, forged or expired.
    InvalidToken,
    /// The credential verified, but its tier is below the required one.
    Forbidden,
    /// The request may proceed.
    Admitted,
}

/// A presented authorization header with every leading Bearer marker
/// stripped.
pub open spec fn strip_bearer(s: Seq<char>) -> Seq<char>
    decreases s.len(),
{
    if s.len() >= 7 && s.subrange(0, 7) == "Bearer "@ {
        strip_bearer(s.skip(7))
    } else {
        s
    }
}

fn has_bearer_prefix(s: &str) -> (r: bool)
    ensures
        r == (s@.len() >= 7 && s@.subrange(0, 7) == "Bearer "@),
{
    proof {
        reveal_strlit("Bearer ");
    }
    let n = s.unicode_len();
    if n < 7 {
        return false;
    }
    let r = s.get_char(0) == 'B' && s.get_char(1) == 'e' && s.get_char(2) == 'a' && s.get_char(3)
        == 'r' && s.get_char(4) == 'e' && s.get_char(5) == 'r' && s.get_char(6) == ' ';
    proof {
        if r {
            assert(s@.subrange(0, 7) =~= "Bearer "@);
        } else {
            assert(s@.subrange(0, 7) != "Bearer "@) by {
                if s@.subrange(0, 7) == "Bearer "@ {
                    assert(s@.subrange(0, 7)[0] == 'B');
                    assert(s@.subrange(0, 7)[1] == 'e');
                    assert(s@.subrange(0, 7)[2] == 'a');
                    assert(s@.subrange(0, 7)[3] == 'r');
                    assert(s@.subrange(0, 7)[4] == 'e');
                    assert(s@.subrange(0, 7)[5] == 'r');
                    assert(s@.subrange(0, 7)[6] == ' ');
                }
            }
        }
    }
    r
}

/// Strips every leading Bearer marker from a presented header, leaving the
/// raw token.
pub fn extract_bearer<'a>(header: &'a str) -> (r: &'a str)
    ensures
        r@ == strip_bearer(header@),
{
    let mut cur = header;
    loop
        invariant
            strip_bearer(header@) == strip_bearer(cur@),
        decreases cur@.len(),
    {
        if has_bearer_prefix(cur) {
            let n = cur.unicode_len();
            cur = cur.substring_char(7, n);
        } else {
            return cur;
        }
    }
}

/// How the guard answers one permission check: success admits, a verified
/// shortfall forbids, and every verification failure is an invalid
/// credential.
pub fn guard_decision(check: Result<bool, ServiceError>) -> (r: GuardOutcome)
    ensures
        r == (match check {
            Ok(true) => GuardOutcome::Admitted,
            Ok(false) => GuardOutcome::Forbidden,
            Err(_) => GuardOutcome::InvalidToken,
        }),
{
    match check {
        Ok(true) => GuardOutcome::Admitted,
        Ok(false) => GuardOutcome::Forbidden,
        Err(_) => GuardOutcome::InvalidToken,
    }
}

/// The permission guard of a protected route.
pub struct PermCheck;

impl PermCheck {
    /// Runs the guard for one request: absence of a credential rejects as
    /// unauthenticated before any check; otherwise the Bearer marker is
    /// stripped and the token is checked against the required tier, the
    /// check's answer deciding the outcome as `guard_decision` says.
    pub fn evaluate<P: PermissionManager>(
        perm_manager: &P,
        auth_header: Option<&str>,
        required: UserPermission,
    ) -> (r: GuardOutcome)
        ensures
            (r == GuardOutcome::MissingToken) == (auth_header is None),
    {
        match auth_header {
            None => GuardOutcome::MissingToken,
            Some(h) => {
                let token = extract_bearer(h);
                let check = perm_manager.has_permission(token, required);
                let outcome = guard_decision(check);
                proof {
                    assert(outcome != GuardOutcome::MissingToken);
                }
                outcome
            },
        }
    }
}

} // verus!
