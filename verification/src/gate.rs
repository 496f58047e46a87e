//! The request gate: decides each inbound request before any handler
//! runs.
//!
//! A request on a public path passes through untouched. Anything else
//! needs a bearer credential in the authorization header: absence is
//! `NoCredential`, a credential that does not validate is
//! `InvalidOrExpired`, and a valid one yields the authenticated claims
//! for downstream handlers.

use vstd::prelude::*;
use crate::errors::RejectReason;
use crate::token::Claims;
use crate::token::decoded_claims;
use crate::token::validate_token;

verus! {

/// `needle` occurs contiguously inside `hay`.
pub open spec fn contains_seq(hay: Seq<char>, needle: Seq<char>) -> bool {
    exists|i: int|
        0 <= i <= hay.len() - needle.len() && #[trigger] hay.subrange(i, i + needle.len())
            == needle
}

/// Public paths bypass authentication: the code-send and verify routes
/// live under an auth segment.
pub open spec fn is_public_path(path: Seq<char>) -> bool {
    contains_seq(path, "/auth/"@)
}

/// Whether `hay[at..]` starts with `needle`.
fn matches_at(hay: &str, needle: &str, at: usize) -> (r: bool)
    requires
        at + needle@.len() <= hay@.len(),
    ensures
        r == (hay@.subrange(at as int, at + needle@.len()) == needle@),
{
    let n = hay.unicode_len();
    let m = needle.unicode_len();
    let mut j: usize = 0;
    while j < m
        invariant
            n == hay@.len(),
            m == needle@.len(),
            at + m <= n,
            0 <= j <= m,
            forall|k: int| 0 <= k < j ==> hay@[at + k] == needle@[k],
        decreases m - j,
    {
        if hay.get_char(at + j) != needle.get_char(j) {
            proof {
                assert(hay@.subrange(at as int, at + needle@.len())[j as int] == hay@[at + j]);
            }
            return false;
        }
        j += 1;
    }
    proof {
        assert(hay@.subrange(at as int, at + needle@.len()) =~= needle@);
    }
    true
}

/// Whether `needle` occurs anywhere in `hay`.
#[verifier::loop_isolation(false)]
pub fn contains_substr(hay: &str, needle: &str) -> (r: bool)
    ensures
        r == contains_seq(hay@, needle@),
{
    let n = hay.unicode_len();
    let m = needle.unicode_len();
    if m > n {
        return false;
    }
    if m == 0 {
        proof {
            assert(hay@.subrange(0, 0 + needle@.len() as int) =~= needle@);
        }
        return true;
    }
    let mut i: usize = 0;
    while i <= n - m
        invariant
            0 <= i <= n - m + 1,
            forall|k: int|
                0 <= k < i ==> #[trigger] hay@.subrange(k, k + needle@.len()) != needle@,
        decreases n - m + 1 - i,
    {
        if matches_at(hay, needle, i) {
            proof {
                assert(hay@.subrange(i as int, i + needle@.len()) == needle@);
            }
            return true;
        }
        i += 1;
    }
    false
}

/// The token a bearer authorization header carries: what follows the
/// `Bearer ` scheme prefix.
pub open spec fn bearer_token(h: Seq<char>) -> Option<Seq<char>> {
    if h.len() >= 7 && h.subrange(0, 7) == "Bearer "@ {
        Some(h.skip(7))
    } else {
        None
    }
}

/// Extracts the token of a bearer authorization header, if the header
/// uses that scheme.
pub fn parse_bearer(h: &str) -> (r: Option<&str>)
    ensures
        match r {
            Some(t) => bearer_token(h@) == Some(t@),
            None => bearer_token(h@) is None,
        },
{
    proof {
        reveal_strlit("Bearer ");
    }
    let n = h.unicode_len();
    if n < 7 {
        return None;
    }
    if !matches_at(h, "Bearer ", 0) {
        return None;
    }
    let t = h.substring_char(7, n);
    proof {
        assert(t@ =~= h@.skip(7));
    }
    Some(t)
}

/// How the request gate left a request.
#[derive(Debug)]
pub enum GateOutcome {
    /// A public path: pass through, no identity attached.
    Public,
    /// A valid credential: these claims accompany the request.
    Authenticated(Claims),
    /// No further processing; answer 401 with the reason.
    Rejected(RejectReason),
}

/// Decides one request: public paths pass, a missing or non-bearer
/// authorization header is `NoCredential`, and a bearer token is
/// authenticated exactly when it validates under `secret`.
pub fn gate_check(path: &str, auth_header: Option<&str>, secret: &[u8]) -> (r: GateOutcome)
    ensures
        is_public_path(path@) <==> r is Public,
        !is_public_path(path@) && auth_header is None ==> r == GateOutcome::Rejected(
            RejectReason::NoCredential,
        ),
        !is_public_path(path@) ==> match auth_header {
            None => r == GateOutcome::Rejected(RejectReason::NoCredential),
            Some(h) => match bearer_token(h@) {
                None => r == GateOutcome::Rejected(RejectReason::NoCredential),
                Some(tok) => {
                    &&& (r matches GateOutcome::Authenticated(c) ==> decoded_claims(tok, secret@)
                        == Some((c.sub@, c.iat as int, c.exp as int)))
                    &&& (decoded_claims(tok, secret@) is None ==> r == GateOutcome::Rejected(
                        RejectReason::InvalidOrExpired,
                    ))
                    &&& (r matches GateOutcome::Authenticated(_) || r == GateOutcome::Rejected(
                        RejectReason::InvalidOrExpired,
                    ))
                },
            },
        },
{
    if contains_substr(path, "/auth/") {
        return GateOutcome::Public;
    }
    let h = match auth_header {
        Some(h) => h,
        None => {
            return GateOutcome::Rejected(RejectReason::NoCredential);
        },
    };
    let tok = match parse_bearer(h) {
        Some(t) => t,
        None => {
            return GateOutcome::Rejected(RejectReason::NoCredential);
        },
    };
    match validate_token(tok, secret) {
        Some(c) => GateOutcome::Authenticated(c),
        None => GateOutcome::Rejected(RejectReason::InvalidOrExpired),
    }
}

impl Claims {
    /// Resolves the authenticated identity a gate left for this
    /// request; a request that has no identity attached is rejected
    /// independently of routing.
    pub fn from_request(ctx: &Option<Claims>) -> (r: Result<Claims, RejectReason>)
        ensures
            match ctx {
                Some(c) => r == Ok::<Claims, RejectReason>(*c),
                None => r == Err::<Claims, RejectReason>(RejectReason::NoCredential),
            },
    {
        match ctx {
            Some(c) => Ok(
                Claims { sub: c.sub.clone(), exp: c.exp, iat: c.iat },
            ),
            None => Err(RejectReason::NoCredential),
        }
    }
}

/// The cookie-session variant of request gating: a transform that wraps each
/// service with a session-cookie check.
pub struct AuthCheck;

/// The per-service middleware the transform produces.
pub struct AuthCheckMiddleware;

/// What the cookie gate does with a request.
#[derive(Debug, Clone, Copy, PartialEq, Eq, Structural)]
pub enum CookieDecision {
    /// No session cookie: answer with a redirect to the login page.
    RedirectLogin,
    /// A session cookie is present: forward to the wrapped service.
    Forward,
}

impl AuthCheck {
    /// Wraps a service in the session-cookie check.
    pub fn new_transform(&self) -> (m: AuthCheckMiddleware) {
        AuthCheckMiddleware
    }
}

impl AuthCheckMiddleware {
    /// Decides a request from whether it carries a session cookie.
    pub fn call(&self, has_session: bool) -> (r: CookieDecision)
        ensures
            r == if has_session {
                CookieDecision::Forward
            } else {
                CookieDecision::RedirectLogin
            },
    {
        if has_session {
            CookieDecision::Forward
        } else {
            CookieDecision::RedirectLogin
        }
    }
}

} // verus!
