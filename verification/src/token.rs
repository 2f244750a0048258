//! Token service: signed, time-limited session tokens carrying a user
//! identity claim.

use vstd::prelude::*;

use crate::text::{chars_to_string, dec_str, u64_to_dec};

verus! {

/// How long an issued token stays valid: seven days, in seconds.
pub const TOKEN_LIFETIME_SECONDS: usize = 604800;

/// The payload a session token carries: the subject (a user id as
/// text), and the issued-at and expires-at instants in Unix seconds.
pub struct TokenClaims {
    pub sub: String,
    pub iat: usize,
    pub exp: usize,
}

/// The signed token that encoding the claims `(sub, iat, exp)` under
/// `secret` yields. Signing is symmetric HMAC over a fixed
/// serialization, so the token is a function of the claims and the
/// secret alone, and distinct claims yield distinct tokens.
pub uninterp spec fn token_of(sub: Seq<char>, iat: usize, exp: usize, secret: Seq<char>) -> Seq<char>;

/// Relies on `jsonwebtoken::encode` with the default (HS256) header:
/// deterministic in the claims and the secret; the claims it serializes
/// into the payload are exactly the ones given. With the default HS256
/// header and a byte secret, encoding cannot fail: the key family
/// matches the header's algorithm, HMAC takes a key of any length, and
/// serializing these claims is infallible — so a token is always
/// returned.
#[verifier::external_body]
fn encode_token(sub: &str, iat: usize, exp: usize, secret: &str) -> (r: String)
    ensures
        r@ == token_of(sub@, iat, exp, secret@),
{
    let mut claims = serde_json::Map::new();
    claims.insert("sub".to_string(), serde_json::Value::String(sub.to_string()));
    claims.insert("iat".to_string(), serde_json::Value::from(iat as u64));
    claims.insert("exp".to_string(), serde_json::Value::from(exp as u64));
    let key = jsonwebtoken::EncodingKey::from_secret(secret.as_bytes());
    jsonwebtoken::encode(&jsonwebtoken::Header::default(), &serde_json::Value::Object(claims), &key)
        .expect("token encoding failed")
}

/// Relies on `jsonwebtoken::decode` with the default validation: the
/// signature is checked against `secret`, a missing `exp` claim is
/// refused, and an expired token is refused against the system clock.
/// Because the clock takes part, nothing is promised of when decoding
/// succeeds; when it does succeed on a token this library issued, the
/// claims handed back are the ones that were encoded.
#[verifier::external_body]
pub fn decode_token(token: &str, secret: &str) -> (r: Option<TokenClaims>)
    ensures
        r matches Some(c) ==> forall|sub: Seq<char>, iat: usize, exp: usize|
            token@ == #[trigger] token_of(sub, iat, exp, secret@) ==> c.sub@ == sub && c.iat
                == iat && c.exp == exp,
{
    let key = jsonwebtoken::DecodingKey::from_secret(secret.as_bytes());
    let data = jsonwebtoken::decode::<serde_json::Value>(
        token,
        &key,
        &jsonwebtoken::Validation::default(),
    )
    .ok()?;
    let sub = data.claims.get("sub")?.as_str()?.to_string();
    let iat = data.claims.get("iat")?.as_u64()? as usize;
    let exp = data.claims.get("exp")?.as_u64()? as usize;
    Some(TokenClaims { sub, iat, exp })
}

/// Issues the session token for `user_id` at instant `now`: the subject
/// is the decimal user id, issued-at is `now`, and expiry follows after
/// the configured lifetime. A token always comes back, and it is
/// exactly the signed encoding of those claims.
pub fn issue_token(user_id: i64, now: usize, secret: &str) -> (r: String)
    requires
        user_id >= 0,
        now + TOKEN_LIFETIME_SECONDS <= usize::MAX,
    ensures
        r@ == token_of(
            dec_str(user_id as nat),
            now,
            (now + TOKEN_LIFETIME_SECONDS) as usize,
            secret@,
        ),
{
    let digits = u64_to_dec(user_id as u64);
    let sub = chars_to_string(&digits);
    encode_token(sub.as_str(), now, now + TOKEN_LIFETIME_SECONDS, secret)
}

} // verus!
