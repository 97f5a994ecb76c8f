//! Which API requests need a session, which need an administrator, and
//! how the authentication gate answers each request.
use vstd::prelude::*;

use crate::text::{chars_of, has_prefix, occurs_at_exec, starts_with, trim, trimmed};

verus! {

/// HTTP request method.
#[derive(Debug, Clone, Copy, PartialEq, Eq, Structural)]
pub enum HttpMethod {
    Get,
    Head,
    Post,
    Put,
    Patch,
    Delete,
    Options,
    Other,
}

/// `path` is `prefix` or lies below it.
pub open spec fn under(path: Seq<char>, prefix: Seq<char>) -> bool {
    path == prefix || (has_prefix(path, prefix) && path.len() > prefix.len() && path[prefix.len() as int]
        == '/')
}

/// Read-only access to photo thumbnails and files stays open to media tags.
pub open spec fn public_media_read(method: HttpMethod, path: Seq<char>) -> bool {
    (method == HttpMethod::Get || method == HttpMethod::Head) && (has_prefix(
        path,
        "/api/v1/photos/thumb/"@,
    ) || has_prefix(path, "/api/v1/photos/file/"@))
}

/// The management and observability API families.
pub open spec fn protected_api(path: Seq<char>) -> bool {
    ||| path == "/api/v1/pc-client/pairing"@
    ||| path == "/api/v1/setup/preferences"@
    ||| path == "/api/v1/me"@
    ||| under(path, "/api/v1/system"@)
    ||| under(path, "/api/v1/storage"@)
    ||| under(path, "/api/v1/raid"@)
    ||| under(path, "/api/v1/backups"@)
    ||| under(path, "/api/v1/pc-backups"@)
    ||| under(path, "/api/v1/logs"@)
    ||| under(path, "/api/v1/notifications"@)
    ||| under(path, "/api/v1/dashboard"@)
    ||| under(path, "/api/v1/devices"@)
    ||| under(path, "/api/v1/users"@)
    ||| under(path, "/api/v1/photos"@)
    ||| under(path, "/api/v1/albums"@)
}

/// Requests only an administrator may make: device and PC-backup metadata,
/// and every request that is not a read.
pub open spec fn admin_required(method: HttpMethod, path: Seq<char>) -> bool {
    ||| path == "/api/v1/pc-client/pairing"@
    ||| path == "/api/v1/devices"@
    ||| path == "/api/v1/pc-backups"@
    ||| has_prefix(path, "/api/v1/pc-backups/"@)
    ||| !(method == HttpMethod::Get || method == HttpMethod::Head || method == HttpMethod::Options)
}

fn is_path(path: &Vec<char>, literal: &str) -> (r: bool)
    ensures
        r == (path@ == literal@),
{
    let l = chars_of(literal);
    crate::text::seq_eq(path, &l)
}

fn is_under(path: &Vec<char>, prefix: &str) -> (r: bool)
    ensures
        r == under(path@, prefix@),
{
    let p = chars_of(prefix);
    if crate::text::seq_eq(path, &p) {
        return true;
    }
    starts_with(path, &p) && path.len() > p.len() && path[p.len()] == '/'
}

fn has_start(path: &Vec<char>, prefix: &str) -> (r: bool)
    ensures
        r == has_prefix(path@, prefix@),
{
    let p = chars_of(prefix);
    starts_with(path, &p)
}

pub fn photoos_public_media_read(method: HttpMethod, path: &str) -> (r: bool)
    ensures
        r == public_media_read(method, path@),
{
    if !(method == HttpMethod::Get || method == HttpMethod::Head) {
        return false;
    }
    let p = chars_of(path);
    has_start(&p, "/api/v1/photos/thumb/") || has_start(&p, "/api/v1/photos/file/")
}

pub fn photoos_protected_api(path: &str) -> (r: bool)
    ensures
        r == protected_api(path@),
{
    let p = chars_of(path);
    if is_path(&p, "/api/v1/pc-client/pairing") || is_path(&p, "/api/v1/setup/preferences")
        || is_path(&p, "/api/v1/me") {
        return true;
    }
    is_under(&p, "/api/v1/system") || is_under(&p, "/api/v1/storage") || is_under(
        &p,
        "/api/v1/raid",
    ) || is_under(&p, "/api/v1/backups") || is_under(&p, "/api/v1/pc-backups") || is_under(
        &p,
        "/api/v1/logs",
    ) || is_under(&p, "/api/v1/notifications") || is_under(&p, "/api/v1/dashboard") || is_under(
        &p,
        "/api/v1/devices",
    ) || is_under(&p, "/api/v1/users") || is_under(&p, "/api/v1/photos") || is_under(
        &p,
        "/api/v1/albums",
    )
}

pub fn photoos_admin_required(method: HttpMethod, path: &str) -> (r: bool)
    ensures
        r == admin_required(method, path@),
{
    let p = chars_of(path);
    if is_path(&p, "/api/v1/pc-client/pairing") || is_path(&p, "/api/v1/devices") || is_path(
        &p,
        "/api/v1/pc-backups",
    ) || has_start(&p, "/api/v1/pc-backups/") {
        return true;
    }
    !(method == HttpMethod::Get || method == HttpMethod::Head || method == HttpMethod::Options)
}

/// What the API guard does with a request before looking at credentials.
#[derive(Debug, Clone, Copy, PartialEq, Eq, Structural)]
pub enum Gate {
    /// Forward the request without authentication.
    Pass,
    /// Require a valid session; `admin` when only administrators may proceed.
    Authenticate { admin: bool },
}

pub open spec fn gate_spec(method: HttpMethod, path: Seq<char>) -> Gate {
    if method == HttpMethod::Options {
        Gate::Pass
    } else if path == "/api/v1/notifications/ws"@ {
        Gate::Pass
    } else if public_media_read(method, path) {
        Gate::Pass
    } else if !protected_api(path) {
        Gate::Pass
    } else {
        Gate::Authenticate { admin: admin_required(method, path) }
    }
}

/// The guard decision for a request: CORS preflight, the notification socket, public
/// media reads and unprotected routes pass; protected routes need a session,
/// and an administrator where `photoos_admin_required` says so.
pub fn request_gate(method: HttpMethod, path: &str) -> (g: Gate)
    ensures
        g == gate_spec(method, path@),
{
    if method == HttpMethod::Options {
        return Gate::Pass;
    }
    let p = chars_of(path);
    if is_path(&p, "/api/v1/notifications/ws") {
        return Gate::Pass;
    }
    if photoos_public_media_read(method, path) {
        return Gate::Pass;
    }
    if !photoos_protected_api(path) {
        return Gate::Pass;
    }
    Gate::Authenticate { admin: photoos_admin_required(method, path) }
}

/// Why the API guard refused a request.
#[derive(Debug, Clone, Copy, PartialEq, Eq, Structural)]
pub enum AuthFailure {
    MissingSession,
    InvalidHeader,
    EmptyToken,
    InvalidToken,
    UnknownUser,
    DatabaseError,
    AdminOnly,
}

/// The error code of a guard refusal.
pub open spec fn auth_failure_code(e: AuthFailure) -> Seq<char> {
    match e {
        AuthFailure::DatabaseError => "auth_database_error"@,
        AuthFailure::AdminOnly => "forbidden"@,
        _ => "unauthorized"@,
    }
}

/// The message of a guard refusal.
pub open spec fn auth_failure_message(e: AuthFailure) -> Seq<char> {
    match e {
        AuthFailure::MissingSession => "Bu PhotoOS API endpoint'i için oturum gereklidir."@,
        AuthFailure::InvalidHeader => "Authorization başlığı geçersiz."@,
        AuthFailure::EmptyToken => "Oturum anahtarı boş."@,
        AuthFailure::InvalidToken => "Oturum süresi dolmuş veya token geçersiz."@,
        AuthFailure::UnknownUser => "Oturuma ait kullanıcı bulunamadı."@,
        AuthFailure::DatabaseError => "Oturum yetkisi doğrulanamadı."@,
        AuthFailure::AdminOnly => "Bu PhotoOS işlemi yalnızca yöneticiler tarafından yapılabilir."@,
    }
}

impl AuthFailure {
    /// HTTP status of the refusal.
    pub fn status(&self) -> (s: u16)
        ensures
            *self == AuthFailure::DatabaseError ==> s == 500,
            *self == AuthFailure::AdminOnly ==> s == 403,
            *self != AuthFailure::DatabaseError && *self != AuthFailure::AdminOnly ==> s == 401,
    {
        match self {
            AuthFailure::DatabaseError => 500,
            AuthFailure::AdminOnly => 403,
            _ => 401,
        }
    }

    /// Error code of the refusal.
    pub fn code(&self) -> (r: &'static str)
        ensures
            r@ == auth_failure_code(*self),
    {
        match self {
            AuthFailure::DatabaseError => "auth_database_error",
            AuthFailure::AdminOnly => "forbidden",
            _ => "unauthorized",
        }
    }

    /// Message of the refusal.
    pub fn message(&self) -> (r: &'static str)
        ensures
            r@ == auth_failure_message(*self),
    {
        match self {
            AuthFailure::MissingSession => "Bu PhotoOS API endpoint'i için oturum gereklidir.",
            AuthFailure::InvalidHeader => "Authorization başlığı geçersiz.",
            AuthFailure::EmptyToken => "Oturum anahtarı boş.",
            AuthFailure::InvalidToken => "Oturum süresi dolmuş veya token geçersiz.",
            AuthFailure::UnknownUser => "Oturuma ait kullanıcı bulunamadı.",
            AuthFailure::DatabaseError => "Oturum yetkisi doğrulanamadı.",
            AuthFailure::AdminOnly => "Bu PhotoOS işlemi yalnızca yöneticiler tarafından yapılabilir.",
        }
    }
}

/// The token in an `Authorization` value: without a leading `Bearer `,
/// trimmed.
pub open spec fn bearer_token_of(raw: Seq<char>) -> Seq<char> {
    if has_prefix(raw, "Bearer "@) {
        trim(raw.subrange(7, raw.len() as int))
    } else {
        trim(raw)
    }
}

/// Extracts the session token from an `Authorization` header value; an
/// empty token is refused.
pub fn bearer_token(raw: &str) -> (r: Result<String, AuthFailure>)
    ensures
        bearer_token_of(raw@).len() == 0 ==> r == Err::<String, AuthFailure>(AuthFailure::EmptyToken),
        bearer_token_of(raw@).len() != 0 ==> (r matches Ok(t) && t@ == bearer_token_of(raw@)),
{
    let chars = chars_of(raw);
    let prefix = chars_of("Bearer ");
    proof {
        reveal_strlit("Bearer ");
    }
    let body: Vec<char> = if occurs_at_exec(&chars, &prefix, 0) {
        let mut rest: Vec<char> = Vec::new();
        let mut i: usize = 7;
        while i < chars.len()
            invariant
                7 <= i <= chars.len(),
                rest@ == chars@.subrange(7, i as int),
            decreases chars.len() - i,
        {
            rest.push(chars[i]);
            assert(chars@.subrange(7, i + 1) =~= chars@.subrange(7, i as int).push(chars@[i as int]));
            i += 1;
        }
        rest
    } else {
        chars
    };
    let token = trimmed(&body);
    if token.len() == 0 {
        return Err(AuthFailure::EmptyToken);
    }
    Ok(crate::text::string_of(&token))
}

/// What the user lookup for a session returned.
#[derive(Debug, Clone, PartialEq, Eq)]
pub enum RoleLookup {
    Found(String),
    Missing,
    Failed,
}

/// Decides on an authenticated request from the session user's role.
pub fn authorize_role(admin: bool, lookup: &RoleLookup) -> (r: Result<(), AuthFailure>)
    ensures
        match lookup {
            RoleLookup::Missing => r == Err::<(), AuthFailure>(AuthFailure::UnknownUser),
            RoleLookup::Failed => r == Err::<(), AuthFailure>(AuthFailure::DatabaseError),
            RoleLookup::Found(role) => if admin && role@ != "admin"@ {
                r == Err::<(), AuthFailure>(AuthFailure::AdminOnly)
            } else {
                r is Ok
            },
        },
{
    match lookup {
        RoleLookup::Missing => Err(AuthFailure::UnknownUser),
        RoleLookup::Failed => Err(AuthFailure::DatabaseError),
        RoleLookup::Found(role) => {
            if admin && !crate::text::text_eq(role.as_str(), "admin") {
                Err(AuthFailure::AdminOnly)
            } else {
                Ok(())
            }
        },
    }
}

/// Every request that is not a read and reaches a protected API needs an
/// administrator; public media reads, preflight and unprotected routes never
/// need a session.
pub proof fn lemma_gate_protects_mutations(method: HttpMethod, path: Seq<char>)
    ensures
        protected_api(path) && path != "/api/v1/notifications/ws"@ && method != HttpMethod::Get
            && method != HttpMethod::Head && method != HttpMethod::Options ==> gate_spec(method, path)
            == (Gate::Authenticate { admin: true }),
        !protected_api(path) ==> gate_spec(method, path) == Gate::Pass,
        method == HttpMethod::Options ==> gate_spec(method, path) == Gate::Pass,
{
}

/// The user a request acts for where the server falls back to the first
/// account when no valid token names one (album and photo requests).
pub const FALLBACK_USER_ID: i64 = 1;

/// The user a request acts for: the subject of its decoded token, or the
/// first account when there is none.
pub fn requesting_user(token_subject: Option<i64>) -> (r: i64)
    ensures
        r == match token_subject {
            Some(s) => s,
            None => FALLBACK_USER_ID,
        },
{
    match token_subject {
        Some(s) => s,
        None => FALLBACK_USER_ID,
    }
}

/// Whether a role is the administrator's, who sees every user's albums and
/// photos.
pub fn is_admin_role(role: &str) -> (r: bool)
    ensures
        r == (role@ == "admin"@),
{
    crate::text::text_eq(role, "admin")
}

} // verus!
