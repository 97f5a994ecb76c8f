//! Session tokens: what a token claims, how long it lasts, how it is
//! signed and checked (HS256 JSON Web Tokens), and what the signing secret
//! must be.
use vstd::prelude::*;

use crate::text::{chars_of, decimal, decimal_of, extend_chars, extend_str, string_of};

verus! {

/// How long a session token lasts: 24 hours.
pub const TOKEN_LIFETIME_SECONDS: i64 = 86400;

/// Shortest signing secret accepted, in bytes.
pub const MIN_SECRET_BYTES: usize = 32;

/// Length of a newly generated signing secret, in bytes.
pub const NEW_SECRET_BYTES: usize = 64;

/// What a session token claims: the user and when it expires.
#[derive(Debug, Clone, Copy, PartialEq, Eq, Structural)]
pub struct Claims {
    pub sub: i64,
    pub exp: usize,
}

/// The claims of a token issued at `now` for a user: it expires 24 hours
/// later (the expiry is kept as `usize`, as the token's `exp` claim).
pub fn token_claims(user_id: i64, now: i64) -> (c: Claims)
    requires
        now <= i64::MAX - TOKEN_LIFETIME_SECONDS,
    ensures
        c == issued_claims(user_id, now),
{
    Claims { sub: user_id, exp: (now + TOKEN_LIFETIME_SECONDS) as usize }
}

/// A stored signing secret is used only when it has at least 32 bytes;
/// otherwise the refusal names the file and the length.
pub open spec fn secret_refusal(path: Seq<char>, len: nat) -> Option<Seq<char>> {
    if len < MIN_SECRET_BYTES {
        Some(
            "JWT secret çok kısa: "@ + path + " ("@ + decimal(len) + " byte, minimum 32)"@,
        )
    } else {
        None
    }
}

/// Checks the length of a stored signing secret.
pub fn check_secret_length(path: &str, len: usize) -> (r: Result<(), String>)
    ensures
        match secret_refusal(path@, len as nat) {
            Some(m) => r matches Err(s) && s@ == m,
            None => r is Ok,
        },
{
    if len < MIN_SECRET_BYTES {
        let mut out = chars_of("JWT secret çok kısa: ");
        extend_str(&mut out, path);
        extend_str(&mut out, " (");
        let digits = decimal_of(len as u64);
        extend_chars(&mut out, &digits);
        extend_str(&mut out, " byte, minimum 32)");
        return Err(string_of(&out));
    }
    Ok(())
}

/// How far past its expiry a token is still accepted, for clock skew
/// between machines: 60 seconds.
pub const EXPIRY_LEEWAY_SECONDS: i64 = 60;

/// Why a session token was refused.
#[derive(Debug, Clone, Copy, PartialEq, Eq, Structural)]
pub enum TokenError {
    /// The token is malformed, not HS256, not signed with the secret, or
    /// lacks an integer `sub` or `exp` claim.
    Invalid,
    /// The token is genuine but its expiry lies more than the leeway in
    /// the past.
    Expired,
}

/// The claims with the given subject and expiry.
pub open spec fn issued(sub: i64, exp: usize) -> Claims {
    Claims { sub, exp }
}

/// The claims of the token issued to `user_id` at `now`.
pub open spec fn issued_claims(user_id: i64, now: i64) -> Claims {
    Claims { sub: user_id, exp: (now + TOKEN_LIFETIME_SECONDS) as usize }
}

/// A token's claims are honoured at `now` unless its expiry lies more than
/// the leeway in the past.
pub open spec fn accepted_at(c: Claims, now: i64) -> bool {
    now <= c.exp + EXPIRY_LEEWAY_SECONDS
}

/// What a session check answers, given what the signature check decoded
/// (`None` for a token that is not genuine) and the current time.
pub open spec fn session_outcome(decoded: Option<Claims>, now: i64) -> Result<Claims, TokenError> {
    match decoded {
        None => Err(TokenError::Invalid),
        Some(c) => if accepted_at(c, now) {
            Ok(c)
        } else {
            Err(TokenError::Expired)
        },
    }
}

/// Whether the claims of a genuine token are still honoured at `now`.
pub fn token_accepted(c: Claims, now: i64) -> (r: bool)
    ensures
        r == accepted_at(c, now),
{
    if now < EXPIRY_LEEWAY_SECONDS {
        true
    } else {
        (now - EXPIRY_LEEWAY_SECONDS) as u64 <= c.exp as u64
    }
}

/// The answer to a session check, from what the signature check decoded.
pub fn session_claims(decoded: Option<Claims>, now: i64) -> (r: Result<Claims, TokenError>)
    ensures
        r == session_outcome(decoded, now),
{
    match decoded {
        None => Err(TokenError::Invalid),
        Some(c) => if token_accepted(c, now) {
            Ok(c)
        } else {
            Err(TokenError::Expired)
        },
    }
}

/// What `jsonwebtoken::decode` (HS256, signature checked, `exp` required,
/// expiry not checked) yields for a token and a secret, read as the integer
/// claims `sub` and `exp`; `None` when decoding fails or either claim is
/// missing or not such an integer.
pub uninterp spec fn hs256_claims(token: Seq<char>, secret: Seq<u8>) -> Option<Claims>;

/// What `jsonwebtoken::encode` with the default HS256 header returns for the
/// claims `{"sub": sub, "exp": exp}` and a secret.
pub uninterp spec fn hs256_token(sub: i64, exp: usize, secret: Seq<u8>) -> Seq<char>;

/// Calls `jsonwebtoken::decode` with the HS256 key of the secret and the
/// default validation, its expiry check switched off, and reads `sub` and
/// `exp` out of the claims. Trusted: the result is `hs256_claims` of the
/// token and the secret.
#[verifier::external_body]
fn jwt_decode(token: &str, secret: &[u8]) -> (r: Option<Claims>)
    ensures
        r == hs256_claims(token@, secret@),
{
    let mut validation = jsonwebtoken::Validation::default();
    validation.validate_exp = false;
    let key = jsonwebtoken::DecodingKey::from_secret(secret);
    let data = jsonwebtoken::decode::<serde_json::Map<String, serde_json::Value>>(token, &key, &validation).ok()?;
    let sub = data.claims.get("sub").and_then(serde_json::Value::as_i64)?;
    let exp = data.claims.get("exp").and_then(serde_json::Value::as_u64)?;
    Some(Claims { sub, exp: exp as usize })
}

/// Calls `jsonwebtoken::encode` with the default (HS256) header, the claims
/// `sub` and `exp` (in that order: `serde_json` keeps the insertion order
/// of its maps) and the HMAC key of the secret. Trusted: encoding
/// succeeds (an HMAC key matches the HS256 header, and signing with HMAC
/// cannot fail), the token is `hs256_token` of the arguments, and decoding
/// it with the same secret gives back the claims.
#[verifier::external_body]
fn jwt_encode(sub: i64, exp: usize, secret: &[u8]) -> (r: Option<String>)
    ensures
        r is Some,
        r.unwrap()@ == hs256_token(sub, exp, secret@),
        hs256_claims(r.unwrap()@, secret@) == Some(issued(sub, exp)),
{
    let mut claims = serde_json::Map::new();
    claims.insert("sub".to_string(), serde_json::Value::from(sub));
    claims.insert("exp".to_string(), serde_json::Value::from(exp));
    let key = jsonwebtoken::EncodingKey::from_secret(secret);
    jsonwebtoken::encode(&jsonwebtoken::Header::default(), &claims, &key).ok()
}

/// A session token for the user, issued at `now` (Unix seconds) and signed
/// with the secret; it expires 24 hours later.
pub fn create_token(user_id: i64, now: i64, secret: &[u8]) -> (r: String)
    requires
        now <= i64::MAX - TOKEN_LIFETIME_SECONDS,
    ensures
        r@ == hs256_token(user_id, issued_claims(user_id, now).exp, secret@),
        hs256_claims(r@, secret@) == Some(issued_claims(user_id, now)),
{
    let c = token_claims(user_id, now);
    match jwt_encode(c.sub, c.exp, secret) {
        Some(t) => t,
        None => String::new(),
    }
}

/// The claims of a session token signed with the secret, checked at `now`
/// (Unix seconds): refused as invalid when it is not genuine, as expired
/// when its expiry lies more than 60 seconds in the past.
pub fn decode_token(token: &str, secret: &[u8], now: i64) -> (r: Result<Claims, TokenError>)
    ensures
        r == session_outcome(hs256_claims(token@, secret@), now),
{
    session_claims(jwt_decode(token, secret), now)
}

/// A token issued at some time is honoured at every later moment up to 24
/// hours and 60 seconds after it was issued, and at no moment after that.
pub proof fn lemma_token_lifetime(user_id: i64, issued: i64, now: i64)
    requires
        -TOKEN_LIFETIME_SECONDS <= issued <= i64::MAX - TOKEN_LIFETIME_SECONDS,
        issued + TOKEN_LIFETIME_SECONDS <= usize::MAX,
    ensures
        session_outcome(Some(issued_claims(user_id, issued)), now) == (if now <= issued
            + TOKEN_LIFETIME_SECONDS + EXPIRY_LEEWAY_SECONDS {
            Ok::<Claims, TokenError>(issued_claims(user_id, issued))
        } else {
            Err(TokenError::Expired)
        }),
{
}

} // verus!
