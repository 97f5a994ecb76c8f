use photoos::session::{
    create_token, decode_token, session_claims, token_accepted, Claims, TokenError,
    EXPIRY_LEEWAY_SECONDS, TOKEN_LIFETIME_SECONDS,
};

const ISSUED_AT: i64 = 1_700_000_000;

#[test]
fn token_validation_depends_on_secret() {
    let secret_a = [0x11_u8; 64];
    let secret_b = [0x22_u8; 64];

    let token = create_token(42, ISSUED_AT, &secret_a);

    assert_eq!(decode_token(&token, &secret_a, ISSUED_AT).unwrap().sub, 42);
    assert!(decode_token(&token, &secret_b, ISSUED_AT).is_err());
}

#[test]
fn issued_token_carries_a_day_of_lifetime() {
    let secret = [0x33_u8; 64];
    let token = create_token(7, ISSUED_AT, &secret);
    let claims = decode_token(&token, &secret, ISSUED_AT).unwrap();
    assert_eq!(claims, Claims { sub: 7, exp: (ISSUED_AT + 86_400) as usize });
    assert_eq!(TOKEN_LIFETIME_SECONDS, 86_400);
    assert_eq!(EXPIRY_LEEWAY_SECONDS, 60);
}

#[test]
fn token_expires_after_lifetime_and_leeway() {
    let secret = [0x44_u8; 64];
    let token = create_token(9, ISSUED_AT, &secret);
    let last = ISSUED_AT + 86_400 + 60;
    assert_eq!(decode_token(&token, &secret, last).unwrap().sub, 9);
    assert_eq!(decode_token(&token, &secret, last + 1), Err(TokenError::Expired));
}

#[test]
fn malformed_token_is_invalid() {
    let secret = [0x55_u8; 64];
    assert_eq!(decode_token("not-a-token", &secret, ISSUED_AT), Err(TokenError::Invalid));
    assert_eq!(decode_token("", &secret, ISSUED_AT), Err(TokenError::Invalid));
    let token = create_token(1, ISSUED_AT, &secret);
    let mut tampered = token.clone();
    tampered.push('x');
    assert_eq!(decode_token(&tampered, &secret, ISSUED_AT), Err(TokenError::Invalid));
}

#[test]
fn tokens_for_different_users_differ() {
    let secret = [0x66_u8; 64];
    let first = create_token(1, ISSUED_AT, &secret);
    let second = create_token(2, ISSUED_AT, &secret);
    assert_ne!(first, second);
    assert_eq!(first.split('.').count(), 3);
}

#[test]
fn acceptance_window_is_exact() {
    let claims = Claims { sub: 1, exp: 1000 };
    assert!(token_accepted(claims, 1060));
    assert!(!token_accepted(claims, 1061));
    assert!(token_accepted(claims, 0));
    assert!(token_accepted(claims, -5));
    assert_eq!(session_claims(Some(claims), 1060), Ok(claims));
    assert_eq!(session_claims(Some(claims), 1061), Err(TokenError::Expired));
    assert_eq!(session_claims(None, 0), Err(TokenError::Invalid));
}

#[test]
fn token_payload_lists_sub_before_exp() {
    let token = create_token(42, ISSUED_AT, &[0x77_u8; 64]);
    let parts: Vec<&str> = token.split('.').collect();
    assert_eq!(parts[0], "eyJ0eXAiOiJKV1QiLCJhbGciOiJIUzI1NiJ9");
    assert_eq!(parts[1], "eyJzdWIiOjQyLCJleHAiOjE3MDAwODY0MDB9");
}

#[test]
fn tokens_issued_before_1970_still_last_a_day() {
    let secret = [0x88_u8; 64];
    let token = create_token(5, -100, &secret);
    let claims = decode_token(&token, &secret, 0).unwrap();
    assert_eq!(claims.exp, 86_300);
}
