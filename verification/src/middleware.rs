//! The request guard that protects every route: extract a token, verify
//! it, load its subject, and either attach the user or reject the
//! request. The surrounding transport — cookies, headers, the session
//! record and the response — lives outside; the guard is the decision.

use vstd::prelude::*;

use crate::errors::ReadUserError;
use crate::models::User;
use crate::text::starts_with;
use crate::token::TokenClaims;

verus! {

/// The session key under which the guard records whether the current
/// navigation came from a protected area. A display signal only: it
/// never takes part in the authentication decision.
pub const FROM_PROTECTED_KEY: &'static str = "from_protected";

/// What the guard decides for one request.
#[derive(Debug)]
pub enum AuthDecision {
    /// The token verified and its subject was loaded: attach this user
    /// and continue into the protected handler.
    Proceed(User),
    /// No token anywhere: record "not from a protected area" and
    /// redirect to the login page.
    RedirectToLogin,
    /// A token was present but did not verify: reject with an
    /// authentication failure.
    InvalidToken,
    /// The token verified but its subject could not be loaded: reject,
    /// carrying the reason.
    UserLoadFailed(ReadUserError),
}

/// Where the token is taken from: the `token` cookie first; failing
/// that, a bearer `Authorization` header.
pub open spec fn spec_extract_token(
    cookie: Option<Seq<char>>,
    authorization: Option<Seq<char>>,
) -> Option<Seq<char>> {
    match cookie {
        Some(t) => Some(t),
        None => match authorization {
            Some(h) => if starts_with(h, "Bearer "@) {
                Some(h.subrange("Bearer "@.len() as int, h.len() as int))
            } else {
                None
            },
            None => None,
        },
    }
}

/// Extracts the token for one request.
pub fn extract_token(cookie: Option<String>, authorization: Option<&str>) -> (r: Option<String>)
    ensures
        match r {
            Some(t) => spec_extract_token(
                match cookie {
                    Some(c) => Some(c@),
                    None => None,
                },
                match authorization {
                    Some(a) => Some(a@),
                    None => None,
                },
            ) == Some(t@),
            None => spec_extract_token(
                match cookie {
                    Some(c) => Some(c@),
                    None => None,
                },
                match authorization {
                    Some(a) => Some(a@),
                    None => None,
                },
            ) is None,
        },
{
    match cookie {
        Some(t) => Some(t),
        None => match authorization {
            Some(h) => {
                if crate::text::str_starts_with(h, "Bearer ") {
                    proof {
                        reveal_strlit("Bearer ");
                    }
                    let rest = h.substring_char(7, h.unicode_len());
                    Some(rest.to_owned())
                } else {
                    None
                }
            },
            None => None,
        },
    }
}

/// The guard's decision as a function of what each stage produced: the
/// extracted token, the claims its verification yielded, and what the
/// store found for the verified subject.
pub open spec fn guard_decision(
    token: Option<String>,
    claims: Option<TokenClaims>,
    user: Result<User, ReadUserError>,
) -> AuthDecision {
    if token is None {
        AuthDecision::RedirectToLogin
    } else if claims is None {
        AuthDecision::InvalidToken
    } else {
        match user {
            Ok(u) => AuthDecision::Proceed(u),
            Err(e) => AuthDecision::UserLoadFailed(e),
        }
    }
}

/// Decides one request. The caller verifies the token and loads the
/// user only along the way: `claims` is read only when a token was
/// present, `user` only when the claims verified.
pub fn guard(
    token: Option<String>,
    claims: Option<TokenClaims>,
    user: Result<User, ReadUserError>,
) -> (d: AuthDecision)
    ensures
        d == guard_decision(token, claims, user),
{
    if token.is_none() {
        AuthDecision::RedirectToLogin
    } else if claims.is_none() {
        AuthDecision::InvalidToken
    } else {
        match user {
            Ok(u) => AuthDecision::Proceed(u),
            Err(e) => AuthDecision::UserLoadFailed(e),
        }
    }
}

/// What the guard records under the protected-area session key: set
/// true exactly on an authenticated pass, set false on a missing
/// token, and left alone on the other rejections.
pub open spec fn spec_session_flag(d: AuthDecision) -> Option<bool> {
    match d {
        AuthDecision::Proceed(_) => Some(true),
        AuthDecision::RedirectToLogin => Some(false),
        AuthDecision::InvalidToken => None,
        AuthDecision::UserLoadFailed(_) => None,
    }
}

/// The session-flag update a decision asks for.
pub fn session_flag_update(d: &AuthDecision) -> (r: Option<bool>)
    ensures
        r == spec_session_flag(*d),
{
    match d {
        AuthDecision::Proceed(_) => Some(true),
        AuthDecision::RedirectToLogin => Some(false),
        AuthDecision::InvalidToken => None,
        AuthDecision::UserLoadFailed(_) => None,
    }
}

/// Law: a request whose token did not verify — expired, tampered with,
/// or malformed — never reaches the protected handler: whatever the
/// user lookup would say, the guard's decision is a rejection, never a
/// pass.
pub proof fn lemma_unverified_token_never_proceeds(
    token: Option<String>,
    user: Result<User, ReadUserError>,
)
    ensures
        !(guard_decision(token, None, user) is Proceed),
{
}

/// Law: a request without any token never reaches the protected
/// handler either; it is turned back toward the login page.
pub proof fn lemma_missing_token_redirects(
    claims: Option<TokenClaims>,
    user: Result<User, ReadUserError>,
)
    ensures
        guard_decision(None, claims, user) is RedirectToLogin,
{
}

} // verus!
