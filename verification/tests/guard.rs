//! The token service and the request gate: issued tokens verify,
//! tampered and expired ones are turned away before any handler.

use serigen::errors::ReadUserError;
use serigen::middleware::AuthDecision;
use serigen::models::User;

fn secret() -> &'static str {
    "gate-test-secret"
}

// Far enough ahead that an issued token has not yet expired when the
// validation inside decoding consults the real clock.
fn now() -> usize {
    4102444800
}

fn admin() -> User {
    User { id: 1, name: "Admin".to_string(), is_admin: true }
}

#[test]
fn issued_token_decodes_to_its_claims() {
    let token = serigen::token::issue_token(7, now(), secret());
    let claims = serigen::token::decode_token(&token, secret()).unwrap();
    assert_eq!(claims.sub, "7");
    assert_eq!(claims.iat, now());
    assert_eq!(claims.exp, now() + serigen::token::TOKEN_LIFETIME_SECONDS);
}

#[test]
fn tampered_token_is_refused() {
    let token = serigen::token::issue_token(7, now(), secret());
    let mut tampered = token.clone();
    tampered.pop();
    assert!(serigen::token::decode_token(&tampered, secret()).is_none());
    assert!(serigen::token::decode_token("definitely.not.ajwt", secret()).is_none());
}

#[test]
fn token_under_wrong_secret_is_refused() {
    let token = serigen::token::issue_token(7, now(), secret());
    assert!(serigen::token::decode_token(&token, "another-secret").is_none());
}

#[test]
fn expired_token_is_refused() {
    let long_past: usize = 1000000;
    let token = serigen::token::issue_token(7, long_past, secret());
    assert!(serigen::token::decode_token(&token, secret()).is_none());
}

#[test]
fn guard_passes_a_loaded_user_through() {
    let token = Some("a.b.c".to_string());
    let claims = serigen::token::decode_token(
        &serigen::token::issue_token(1, now(), secret()),
        secret(),
    );
    let decision = serigen::middleware::guard(token, claims, Ok(admin()));
    match decision {
        AuthDecision::Proceed(user) => assert_eq!(user.id, 1),
        _ => assert!(false),
    }
    assert_eq!(
        serigen::middleware::session_flag_update(&serigen::middleware::guard(
            Some("a.b.c".to_string()),
            serigen::token::decode_token(
                &serigen::token::issue_token(1, now(), secret()),
                secret(),
            ),
            Ok(admin()),
        )),
        Some(true)
    );
}

#[test]
fn guard_redirects_without_a_token() {
    let decision = serigen::middleware::guard(None, None, Ok(admin()));
    assert!(matches!(decision, AuthDecision::RedirectToLogin));
    assert_eq!(serigen::middleware::session_flag_update(&decision), Some(false));
}

#[test]
fn guard_rejects_an_unverified_token() {
    let bad = serigen::token::decode_token("tampered.token.here", secret());
    assert!(bad.is_none());
    let decision = serigen::middleware::guard(Some("tampered.token.here".to_string()), bad, Ok(admin()));
    assert!(matches!(decision, AuthDecision::InvalidToken));
    assert_eq!(serigen::middleware::session_flag_update(&decision), None);
}

#[test]
fn guard_rejects_an_unloadable_subject() {
    let claims = serigen::token::decode_token(
        &serigen::token::issue_token(69, now(), secret()),
        secret(),
    );
    let decision = serigen::middleware::guard(
        Some("a.b.c".to_string()),
        claims,
        Err(ReadUserError::UserNotFound("69".to_string())),
    );
    match decision {
        AuthDecision::UserLoadFailed(ReadUserError::UserNotFound(id)) => assert_eq!(id, "69"),
        _ => assert!(false),
    }
}

#[test]
fn token_comes_from_cookie_first_then_bearer_header() {
    let from_cookie = serigen::middleware::extract_token(
        Some("cookie-token".to_string()),
        Some("Bearer header-token"),
    );
    assert_eq!(from_cookie, Some("cookie-token".to_string()));

    let from_header = serigen::middleware::extract_token(None, Some("Bearer header-token"));
    assert_eq!(from_header, Some("header-token".to_string()));

    let not_bearer = serigen::middleware::extract_token(None, Some("Basic dXNlcg=="));
    assert_eq!(not_bearer, None);

    let nothing = serigen::middleware::extract_token(None, None);
    assert_eq!(nothing, None);
}
