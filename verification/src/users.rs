//! User accounts: what a new account must look like, how its password is
//! stored and checked, and what the account API answers.
use vstd::prelude::*;
use vstd::string::StringSliceAdditionalSpecFns;

use crate::text::{
    chars_of, contains_char, has_char, has_prefix, has_sub, slice_chars, split_chars, split_on,
    starts_with, str_contains, string_of, trim, trimmed, utf8_len, utf8_len_capped,
};

verus! {

/// A request to create an account.
#[derive(Debug, Clone)]
pub struct CreateUserRequest {
    pub username: String,
    pub email: String,
    pub password: String,
}

/// A request to log in.
#[derive(Debug, Clone)]
pub struct LoginRequest {
    pub email: String,
    pub password: String,
}

/// An account as the user list shows it.
#[derive(Debug, Clone)]
pub struct UserResponse {
    pub id: i64,
    pub username: String,
    pub created_at: String,
}

/// The logged-in account as the session check shows it.
#[derive(Debug, Clone)]
pub struct CurrentUserResponse {
    pub username: String,
    pub role: String,
}

/// An e-mail address the server accepts: trimmed, at least 5 bytes, no
/// space, exactly one `@` with something on both sides, and a `.` after it.
pub open spec fn valid_email(email: Seq<char>) -> bool {
    let t = trim(email);
    let parts = split_on(t, '@');
    utf8_len(t) >= 5 && !has_char(t, ' ') && parts.len() == 2 && parts[0].len() != 0
        && parts[1].len() != 0 && has_char(parts[1], '.')
}

/// Whether the server accepts an e-mail address.
pub fn is_valid_email(email: &str) -> (r: bool)
    ensures
        r == valid_email(email@),
{
    let t = trimmed(&chars_of(email));
    if utf8_len_capped(&t, 5) < 5 {
        return false;
    }
    if contains_char(&t, ' ') {
        return false;
    }
    let parts = split_chars(&t, '@');
    if parts.len() != 2 {
        return false;
    }
    if parts[0].len() == 0 || parts[1].len() == 0 {
        return false;
    }
    contains_char(&parts[1], '.')
}

/// Why a new account is refused, checked in this order: a username of
/// fewer than 3 bytes (trimmed), an invalid e-mail address, a password of
/// fewer than 8 bytes.
pub open spec fn new_user_refusal(username: Seq<char>, email: Seq<char>, password: Seq<char>) -> Option<Seq<char>> {
    if utf8_len(trim(username)) < 3 {
        Some("Kullanıcı adı en az 3 karakter olmalı."@)
    } else if !valid_email(email) {
        Some("Geçerli bir e-posta adresi gir."@)
    } else if utf8_len(password) < 8 {
        Some("Şifre en az 8 karakter olmalı."@)
    } else {
        None
    }
}

/// Checks a new account's fields.
pub fn validate_new_user(req: &CreateUserRequest) -> (r: Result<(), String>)
    ensures
        match new_user_refusal(req.username@, req.email@, req.password@) {
            Some(m) => r matches Err(s) && s@ == m,
            None => r is Ok,
        },
{
    let name = trimmed(&chars_of(req.username.as_str()));
    if utf8_len_capped(&name, 3) < 3 {
        return Err("Kullanıcı adı en az 3 karakter olmalı.".to_string());
    }
    if !is_valid_email(req.email.as_str()) {
        return Err("Geçerli bir e-posta adresi gir.".to_string());
    }
    let password = chars_of(req.password.as_str());
    if utf8_len_capped(&password, 8) < 8 {
        return Err("Şifre en az 8 karakter olmalı.".to_string());
    }
    Ok(())
}

/// How the account API answers a failed creation: a conflict when the
/// name or address is taken, with a message naming which; otherwise a bad
/// request with the reason as it came.
pub open spec fn create_failure_reply(message: Seq<char>) -> (u16, Seq<char>) {
    let status: u16 = if has_sub(message, "zaten kayıtlı"@) || has_sub(
        message,
        "UNIQUE constraint failed"@,
    ) {
        409
    } else {
        400
    };
    let text = if has_sub(message, "users.email"@) {
        "Bu e-posta zaten kayıtlı."@
    } else if has_sub(message, "users.username"@) {
        "Bu kullanıcı adı zaten kayıtlı."@
    } else {
        message
    };
    (status, text)
}

/// The status and message of a failed account creation.
pub fn create_user_failure(message: &str) -> (r: (u16, String))
    ensures
        (r.0, r.1@) == create_failure_reply(message@),
{
    let status: u16 = if str_contains(message, "zaten kayıtlı") || str_contains(
        message,
        "UNIQUE constraint failed",
    ) {
        409
    } else {
        400
    };
    let text = if str_contains(message, "users.email") {
        "Bu e-posta zaten kayıtlı.".to_string()
    } else if str_contains(message, "users.username") {
        "Bu kullanıcı adı zaten kayıtlı.".to_string()
    } else {
        message.to_string()
    };
    (status, text)
}

/// The session token of an `Authorization` header: trimmed, without a
/// leading `Bearer `, trimmed again; none when empty.
pub open spec fn session_token_of(raw: Seq<char>) -> Option<Seq<char>> {
    let t = trim(raw);
    let u = if has_prefix(t, "Bearer "@) {
        trim(t.skip(7))
    } else {
        trim(t)
    };
    if u.len() == 0 {
        None
    } else {
        Some(u)
    }
}

/// The session token of an `Authorization` header, as the session check
/// reads it.
pub fn session_token(raw: &str) -> (r: Option<String>)
    ensures
        match session_token_of(raw@) {
            Some(t) => r matches Some(s) && s@ == t,
            None => r is None,
        },
{
    let t = trimmed(&chars_of(raw));
    let p = chars_of("Bearer ");
    proof {
        reveal_strlit("Bearer ");
    }
    let body = if starts_with(&t, &p) {
        assert(t@.skip(7) =~= t@.subrange(7, t.len() as int));
        slice_chars(&t, 7, t.len())
    } else {
        t
    };
    let u = trimmed(&body);
    if u.len() == 0 {
        None
    } else {
        Some(string_of(&u))
    }
}

/// Whether `argon2::password_hash::PasswordHash::new` parses a stored hash.
pub uninterp spec fn phc_parses(hash: Seq<char>) -> bool;

/// Whether Argon2 with default settings accepts a password for a parsed
/// stored hash.
pub uninterp spec fn argon2_accepts(password: Seq<u8>, hash: Seq<char>) -> bool;

/// Calls `argon2::password_hash::PasswordHash::new`. Trusted: the answer is
/// `phc_parses` of the hash.
#[verifier::external_body]
fn parses_as_phc(hash: &str) -> (r: bool)
    ensures
        r == phc_parses(hash@),
{
    argon2::password_hash::PasswordHash::new(hash).is_ok()
}

/// Calls `PasswordVerifier::verify_password` of `argon2::Argon2::default()`
/// on the parsed hash. Trusted: the answer is `argon2_accepts`.
#[verifier::external_body]
fn argon2_verify(password: &[u8], hash: &str) -> (r: bool)
    requires
        phc_parses(hash@),
    ensures
        r == argon2_accepts(password@, hash@),
{
    match argon2::password_hash::PasswordHash::new(hash) {
        Ok(parsed) => argon2::PasswordVerifier::verify_password(
            &argon2::Argon2::default(),
            password,
            &parsed,
        ).is_ok(),
        Err(_) => false,
    }
}

/// Calls `PasswordHasher::hash_password` of `argon2::Argon2::default()`
/// with a salt drawn from the operating system. Trusted: the stored form
/// parses and accepts the password; the salt, and so the text, is random.
#[verifier::external_body]
fn argon2_hash(password: &[u8]) -> (r: String)
    requires
        password@.len() <= u32::MAX,
    ensures
        phc_parses(r@),
        argon2_accepts(password@, r@),
{
    let salt = argon2::password_hash::SaltString::generate(&mut argon2::password_hash::rand_core::OsRng);
    argon2::PasswordHasher::hash_password(&argon2::Argon2::default(), password, &salt).unwrap().to_string()
}

/// The stored form of a new account's password.
pub fn hash_new_password(password: &str) -> (r: String)
    requires
        password.spec_bytes().len() <= u32::MAX,
    ensures
        phc_parses(r@),
        argon2_accepts(password.spec_bytes(), r@),
{
    argon2_hash(password.as_bytes())
}

/// Why a login is refused, given the stored hash of the account found for
/// the address: a stored hash that does not parse, or a wrong password.
pub open spec fn login_refusal(password: Seq<u8>, stored: Seq<char>) -> Option<Seq<char>> {
    if !phc_parses(stored) {
        Some("Geçersiz parola."@)
    } else if !argon2_accepts(password, stored) {
        Some("E-posta veya şifre hatalı."@)
    } else {
        None
    }
}

/// Checks a login password against the stored hash of the account found
/// for the address.
pub fn check_login_password(password: &str, stored_hash: &str) -> (r: Result<(), String>)
    ensures
        match login_refusal(password.spec_bytes(), stored_hash@) {
            Some(m) => r matches Err(s) && s@ == m,
            None => r is Ok,
        },
{
    if !parses_as_phc(stored_hash) {
        return Err("Geçersiz parola.".to_string());
    }
    if !argon2_verify(password.as_bytes(), stored_hash) {
        return Err("E-posta veya şifre hatalı.".to_string());
    }
    Ok(())
}

/// A password that was stored for an account passes the login check.
pub proof fn lemma_stored_password_logs_in(password: Seq<u8>, stored: Seq<char>)
    requires
        phc_parses(stored),
        argon2_accepts(password, stored),
    ensures
        login_refusal(password, stored) is None,
{
}

} // verus!
