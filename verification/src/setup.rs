//! First-run setup and server preferences: defaults, normalisation and the
//! validation of what the administrator enters.
use vstd::prelude::*;

use crate::digest::hex_digit;
use crate::text::{
    chars_of, has_sub, contains_char, has_char, is_ascii_alphanumeric, is_ascii_digit, is_ascii_lower,
    text_eq, trim, trim_string, trimmed, utf8_len, utf8_len_capped,
};

verus! {

#[derive(Debug, Clone, Copy)]
pub struct SetupStatusResponse {
    pub initialized: bool,
    pub user_count: i64,
    pub requires_setup: bool,
    pub preferences_saved: bool,
}

/// The first-run form.
#[derive(Debug, Clone)]
pub struct InitializeSetupRequest {
    pub username: String,
    pub email: String,
    pub password: String,
    pub server_name: String,
    pub hostname: String,
    pub timezone: String,
    pub language: String,
    pub selected_disks: Vec<String>,
    pub raid_type: String,
    pub web_notifications: bool,
    pub email_notifications: bool,
    pub critical_only: bool,
}

#[derive(Debug, Clone)]
pub struct InitializeSetupResponse {
    pub success: bool,
    pub message: String,
    pub username: String,
    pub role: String,
    pub preferences_saved: bool,
}

/// Stored server preferences.
#[derive(Debug, Clone)]
pub struct SetupPreferencesResponse {
    pub configured: bool,
    pub server_name: String,
    pub hostname: String,
    pub timezone: String,
    pub language: String,
    pub selected_disks: Vec<String>,
    pub raid_type: String,
    pub web_notifications: bool,
    pub email_notifications: bool,
    pub critical_only: bool,
    pub setup_version: String,
    pub created_at: Option<String>,
    pub updated_at: Option<String>,
}

/// The preferences form.
#[derive(Debug, Clone)]
pub struct UpdateSetupPreferencesRequest {
    pub server_name: String,
    pub hostname: String,
    pub timezone: String,
    pub language: String,
    pub web_notifications: bool,
    pub email_notifications: bool,
    pub critical_only: bool,
}

#[derive(Debug, Clone)]
pub struct UpdateSetupPreferencesResponse {
    pub success: bool,
    pub message: String,
    pub preferences: SetupPreferencesResponse,
}

pub fn default_server_name() -> (r: String)
    ensures
        r@ == "PhotoOS"@,
{
    "PhotoOS".to_string()
}

pub fn default_hostname() -> (r: String)
    ensures
        r@ == "photoos"@,
{
    "photoos".to_string()
}

pub fn default_timezone() -> (r: String)
    ensures
        r@ == "Europe/Istanbul"@,
{
    "Europe/Istanbul".to_string()
}

pub fn default_language() -> (r: String)
    ensures
        r@ == "tr-TR"@,
{
    "tr-TR".to_string()
}

pub fn default_raid_type() -> (r: String)
    ensures
        r@ == "basic"@,
{
    "basic".to_string()
}

pub fn default_true() -> (r: bool)
    ensures
        r,
{
    true
}

/// The preferences reported before any were saved.
pub fn default_preferences() -> (r: SetupPreferencesResponse)
    ensures
        !r.configured,
        r.server_name@ == "PhotoOS"@,
        r.hostname@ == "photoos"@,
        r.timezone@ == "Europe/Istanbul"@,
        r.language@ == "tr-TR"@,
        r.selected_disks@.len() == 0,
        r.raid_type@ == "basic"@,
        r.web_notifications,
        r.email_notifications,
        !r.critical_only,
        r.setup_version@ == "2.1"@,
        r.created_at is None,
        r.updated_at is None,
{
    SetupPreferencesResponse {
        configured: false,
        server_name: default_server_name(),
        hostname: default_hostname(),
        timezone: default_timezone(),
        language: default_language(),
        selected_disks: Vec::new(),
        raid_type: default_raid_type(),
        web_notifications: true,
        email_notifications: true,
        critical_only: false,
        setup_version: "2.1".to_string(),
        created_at: None,
        updated_at: None,
    }
}

pub open spec fn server_name_of(v: Seq<char>) -> Seq<char> {
    if trim(v).len() == 0 {
        "PhotoOS"@
    } else {
        trim(v)
    }
}

/// The trimmed server name, or `PhotoOS` when it is blank.
pub fn normalize_server_name(v: &str) -> (r: String)
    ensures
        r@ == server_name_of(v@),
{
    let t = trim_string(v);
    if t.as_str().unicode_len() == 0 {
        default_server_name()
    } else {
        t
    }
}

/// What `str::to_lowercase` returns (full Unicode lower-casing).
pub uninterp spec fn unicode_lower(s: Seq<char>) -> Seq<char>;

/// Calls `str::to_lowercase`. Trusted: the result is `unicode_lower` of
/// the input.
#[verifier::external_body]
fn to_lowercase(s: &str) -> (r: String)
    ensures
        r@ == unicode_lower(s@),
{
    s.to_lowercase()
}

/// The hostname trimmed and lower-cased.
pub fn normalize_hostname(v: &str) -> (r: String)
    ensures
        r@ == unicode_lower(trim(v@)),
{
    let t = trim_string(v);
    to_lowercase(t.as_str())
}

pub open spec fn hostname_char(c: char) -> bool {
    is_ascii_lower(c) || is_ascii_digit(c) || c == '-'
}

/// A hostname label: 1 to 63 bytes of lower-case letters, digits and `-`,
/// not starting or ending with `-`.
pub open spec fn hostname_ok(v: Seq<char>) -> bool {
    &&& v.len() != 0
    &&& utf8_len(v) <= 63
    &&& v[0] != '-'
    &&& v.last() != '-'
    &&& forall|i: int| 0 <= i < v.len() ==> hostname_char(#[trigger] v[i])
}

pub fn validate_hostname(v: &str) -> (r: bool)
    ensures
        r == hostname_ok(v@),
{
    let c = chars_of(v);
    if c.len() == 0 || utf8_len_capped(&c, 63) > 63 || c[0] == '-' || c[c.len() - 1] == '-' {
        return false;
    }
    let mut i: usize = 0;
    while i < c.len()
        invariant
            i <= c.len(),
            c@ == v@,
            forall|k: int| 0 <= k < i ==> hostname_char(#[trigger] c@[k]),
        decreases c.len() - i,
    {
        let ch = c[i];
        if !(('a' <= ch && ch <= 'z') || ('0' <= ch && ch <= '9') || ch == '-') {
            assert(!hostname_char(v@[i as int]));
            return false;
        }
        i += 1;
    }
    true
}

pub open spec fn timezone_char(c: char) -> bool {
    is_ascii_alphanumeric(c) || c == '/' || c == '_' || c == '-' || c == '+'
}

/// A time-zone name: not blank, at most 64 bytes of ASCII letters, digits,
/// `/`, `_`, `-` and `+`.
pub open spec fn timezone_ok(v: Seq<char>) -> bool {
    &&& trim(v).len() != 0
    &&& utf8_len(v) <= 64
    &&& forall|i: int| 0 <= i < v.len() ==> timezone_char(#[trigger] v[i])
}

pub fn validate_timezone(v: &str) -> (r: bool)
    ensures
        r == timezone_ok(v@),
{
    let c = chars_of(v);
    if trimmed(&c).len() == 0 || utf8_len_capped(&c, 64) > 64 {
        return false;
    }
    let mut i: usize = 0;
    while i < c.len()
        invariant
            i <= c.len(),
            c@ == v@,
            forall|k: int| 0 <= k < i ==> timezone_char(#[trigger] c@[k]),
        decreases c.len() - i,
    {
        let ch = c[i];
        if !(('a' <= ch && ch <= 'z') || ('A' <= ch && ch <= 'Z') || ('0' <= ch && ch <= '9') || ch
            == '/' || ch == '_' || ch == '-' || ch == '+') {
            assert(!timezone_char(v@[i as int]));
            return false;
        }
        i += 1;
    }
    true
}

pub open spec fn language_ok(v: Seq<char>) -> bool {
    v == "tr-TR"@ || v == "en-US"@ || v == "de-DE"@
}

pub fn validate_language(v: &str) -> (r: bool)
    ensures
        r == language_ok(v@),
{
    text_eq(v, "tr-TR") || text_eq(v, "en-US") || text_eq(v, "de-DE")
}

pub open spec fn raid_type_ok(v: Seq<char>) -> bool {
    v == "basic"@ || v == "raid1"@ || v == "raid5"@ || v == "raid6"@ || v == "jbod"@
}

pub fn validate_raid_type(v: &str) -> (r: bool)
    ensures
        r == raid_type_ok(v@),
{
    text_eq(v, "basic") || text_eq(v, "raid1") || text_eq(v, "raid5") || text_eq(v, "raid6")
        || text_eq(v, "jbod")
}

/// Why the setup or preferences form was refused.
#[derive(Debug, Clone, Copy, PartialEq, Eq, Structural)]
pub enum SetupRejection {
    InvalidUsername,
    InvalidEmail,
    WeakPassword,
    InvalidServerName,
    InvalidHostname,
    InvalidTimezone,
    InvalidLanguage,
    InvalidRaidType,
    InvalidSelectedDisks,
}

/// The error code a setup rejection is answered with.
pub open spec fn rejection_code(e: SetupRejection) -> Seq<char> {
    match e {
        SetupRejection::InvalidUsername => "invalid_username"@,
        SetupRejection::InvalidEmail => "invalid_email"@,
        SetupRejection::WeakPassword => "weak_password"@,
        SetupRejection::InvalidServerName => "invalid_server_name"@,
        SetupRejection::InvalidHostname => "invalid_hostname"@,
        SetupRejection::InvalidTimezone => "invalid_timezone"@,
        SetupRejection::InvalidLanguage => "invalid_language"@,
        SetupRejection::InvalidRaidType => "invalid_raid_type"@,
        SetupRejection::InvalidSelectedDisks => "invalid_selected_disks"@,
    }
}

/// The message a setup rejection is answered with.
pub open spec fn rejection_message(e: SetupRejection) -> Seq<char> {
    match e {
        SetupRejection::InvalidUsername => "Kullanıcı adı 3-64 karakter olmalıdır."@,
        SetupRejection::InvalidEmail => "Geçerli bir e-posta adresi girin."@,
        SetupRejection::WeakPassword => "Parola en az 8 karakter olmalıdır."@,
        SetupRejection::InvalidServerName => "Sunucu adı en fazla 80 karakter olabilir."@,
        SetupRejection::InvalidHostname => "Hostname yalnızca küçük harf, rakam ve tire içerebilir."@,
        SetupRejection::InvalidTimezone => "Geçerli bir saat dilimi seçin."@,
        SetupRejection::InvalidLanguage => "Desteklenmeyen dil seçimi."@,
        SetupRejection::InvalidRaidType => "Desteklenmeyen RAID tipi."@,
        SetupRejection::InvalidSelectedDisks => "Disk seçimi hazırlanamadı."@,
    }
}

impl SetupRejection {
    /// The error code the API answers with.
    pub fn code(&self) -> (r: &'static str)
        ensures
            r@ == rejection_code(*self),
    {
        match self {
            SetupRejection::InvalidUsername => "invalid_username",
            SetupRejection::InvalidEmail => "invalid_email",
            SetupRejection::WeakPassword => "weak_password",
            SetupRejection::InvalidServerName => "invalid_server_name",
            SetupRejection::InvalidHostname => "invalid_hostname",
            SetupRejection::InvalidTimezone => "invalid_timezone",
            SetupRejection::InvalidLanguage => "invalid_language",
            SetupRejection::InvalidRaidType => "invalid_raid_type",
            SetupRejection::InvalidSelectedDisks => "invalid_selected_disks",
        }
    }

    /// The message the API answers with.
    pub fn message(&self) -> (r: &'static str)
        ensures
            r@ == rejection_message(*self),
    {
        match self {
            SetupRejection::InvalidUsername => "Kullanıcı adı 3-64 karakter olmalıdır.",
            SetupRejection::InvalidEmail => "Geçerli bir e-posta adresi girin.",
            SetupRejection::WeakPassword => "Parola en az 8 karakter olmalıdır.",
            SetupRejection::InvalidServerName => "Sunucu adı en fazla 80 karakter olabilir.",
            SetupRejection::InvalidHostname =>
                "Hostname yalnızca küçük harf, rakam ve tire içerebilir.",
            SetupRejection::InvalidTimezone => "Geçerli bir saat dilimi seçin.",
            SetupRejection::InvalidLanguage => "Desteklenmeyen dil seçimi.",
            SetupRejection::InvalidRaidType => "Desteklenmeyen RAID tipi.",
            SetupRejection::InvalidSelectedDisks => "Disk seçimi hazırlanamadı.",
        }
    }
}

/// A character inside a JSON string as `serde_json` writes it: quote and
/// backslash escaped, the control characters below U+0020 as `\b`, `\t`,
/// `\n`, `\f`, `\r` or `\u00xx` (lower-case hex), anything else as is.
pub open spec fn json_char(c: char) -> Seq<char> {
    if c == '"' {
        seq!['\\', '"']
    } else if c == '\\' {
        seq!['\\', '\\']
    } else if c == '\u{8}' {
        seq!['\\', 'b']
    } else if c == '\t' {
        seq!['\\', 't']
    } else if c == '\n' {
        seq!['\\', 'n']
    } else if c == '\u{c}' {
        seq!['\\', 'f']
    } else if c == '\r' {
        seq!['\\', 'r']
    } else if (c as u32) < 0x20 {
        seq!['\\', 'u', '0', '0', hex_digit(((c as u32) / 16) as u8), hex_digit(((c as u32) % 16) as u8)]
    } else {
        seq![c]
    }
}

/// The characters of a string, each as a JSON string writes it.
pub open spec fn json_text(s: Seq<char>) -> Seq<char>
    decreases s.len(),
{
    if s.len() == 0 {
        Seq::empty()
    } else {
        json_text(s.drop_last()) + json_char(s.last())
    }
}

/// A string as a JSON string literal.
pub open spec fn json_quoted(s: Seq<char>) -> Seq<char> {
    seq!['"'] + json_text(s) + seq!['"']
}

/// The elements of a JSON array of strings, separated by commas.
pub open spec fn json_items(items: Seq<Seq<char>>) -> Seq<char>
    decreases items.len(),
{
    if items.len() == 0 {
        Seq::empty()
    } else if items.len() == 1 {
        json_quoted(items[0])
    } else {
        json_items(items.drop_last()) + seq![','] + json_quoted(items.last())
    }
}

/// What `serde_json::to_string` makes of a list of strings: a compact JSON
/// array of string literals. It always succeeds.
pub open spec fn json_string_list(items: Seq<Seq<char>>) -> Option<Seq<char>> {
    Some(seq!['['] + json_items(items) + seq![']'])
}

/// Calls `serde_json::to_string` on a list of strings. Trusted: the result
/// is the compact JSON array `json_string_list` describes (serialising
/// strings into memory does not fail).
#[verifier::external_body]
fn strings_to_json(items: &Vec<String>) -> (r: Option<String>)
    ensures
        match json_string_list(items.deep_view()) {
            Some(j) => r matches Some(s) && s@ == j,
            None => r is None,
        },
{
    serde_json::to_string(items).ok()
}

/// The normalised first-run values, in the order the setup stores them.
pub struct SetupValues {
    pub username: String,
    pub email: String,
    pub server_name: String,
    pub hostname: String,
    pub timezone: String,
    pub language: String,
    pub raid_type: String,
    pub selected_disks_json: String,
}

/// Verdict on the first-run form, checked in the order the server reports
/// problems.
pub open spec fn setup_verdict(r: InitializeSetupRequest) -> Result<(), SetupRejection> {
    let username = trim(r.username@);
    let email = unicode_lower(trim(r.email@));
    let server_name = server_name_of(r.server_name@);
    let hostname = unicode_lower(trim(r.hostname@));
    let timezone = trim(r.timezone@);
    let language = trim(r.language@);
    let raid = unicode_lower(trim(r.raid_type@));
    if utf8_len(username) < 3 || utf8_len(username) > 64 {
        Err(SetupRejection::InvalidUsername)
    } else if !has_char(email, '@') || utf8_len(email) > 254 {
        Err(SetupRejection::InvalidEmail)
    } else if utf8_len(r.password@) < 8 {
        Err(SetupRejection::WeakPassword)
    } else if utf8_len(server_name) > 80 {
        Err(SetupRejection::InvalidServerName)
    } else if !hostname_ok(hostname) {
        Err(SetupRejection::InvalidHostname)
    } else if !timezone_ok(timezone) {
        Err(SetupRejection::InvalidTimezone)
    } else if !language_ok(language) {
        Err(SetupRejection::InvalidLanguage)
    } else if !raid_type_ok(raid) {
        Err(SetupRejection::InvalidRaidType)
    } else if json_string_list(r.selected_disks.deep_view()) is None {
        Err(SetupRejection::InvalidSelectedDisks)
    } else {
        Ok(())
    }
}

fn byte_len_over(s: &str, limit: usize) -> (r: bool)
    requires
        limit < usize::MAX - 4,
    ensures
        r == (utf8_len(s@) > limit),
{
    let c = chars_of(s);
    utf8_len_capped(&c, limit) > limit
}

/// Normalises and checks the first-run form: trimmed user name of 3 to 64
/// bytes, a lower-cased e-mail with `@` of at most 254 bytes, a password of
/// at least 8 bytes, a server name of at most 80 bytes, and a valid
/// hostname, time zone, language and RAID type.
pub fn validate_initialize(request: &InitializeSetupRequest) -> (r: Result<SetupValues, SetupRejection>)
    ensures
        match setup_verdict(*request) {
            Err(e) => r == Err::<SetupValues, SetupRejection>(e),
            Ok(_) => r matches Ok(v) && {
                &&& v.username@ == trim(request.username@)
                &&& v.email@ == unicode_lower(trim(request.email@))
                &&& v.server_name@ == server_name_of(request.server_name@)
                &&& v.hostname@ == unicode_lower(trim(request.hostname@))
                &&& v.timezone@ == trim(request.timezone@)
                &&& v.language@ == trim(request.language@)
                &&& v.raid_type@ == unicode_lower(trim(request.raid_type@))
                &&& json_string_list(request.selected_disks.deep_view()) == Some(
                    v.selected_disks_json@,
                )
            },
        },
{
    let username = trim_string(request.username.as_str());
    let email_trimmed = trim_string(request.email.as_str());
    let email = to_lowercase(email_trimmed.as_str());
    let server_name = normalize_server_name(request.server_name.as_str());
    let hostname = normalize_hostname(request.hostname.as_str());
    let timezone = trim_string(request.timezone.as_str());
    let language = trim_string(request.language.as_str());
    let raid_trimmed = trim_string(request.raid_type.as_str());
    let raid_type = to_lowercase(raid_trimmed.as_str());
    if !byte_len_over(username.as_str(), 2) || byte_len_over(username.as_str(), 64) {
        return Err(SetupRejection::InvalidUsername);
    }
    let email_chars = chars_of(email.as_str());
    if !contains_char(&email_chars, '@') || byte_len_over(email.as_str(), 254) {
        return Err(SetupRejection::InvalidEmail);
    }
    if !byte_len_over(request.password.as_str(), 7) {
        return Err(SetupRejection::WeakPassword);
    }
    if byte_len_over(server_name.as_str(), 80) {
        return Err(SetupRejection::InvalidServerName);
    }
    if !validate_hostname(hostname.as_str()) {
        return Err(SetupRejection::InvalidHostname);
    }
    if !validate_timezone(timezone.as_str()) {
        return Err(SetupRejection::InvalidTimezone);
    }
    if !validate_language(language.as_str()) {
        return Err(SetupRejection::InvalidLanguage);
    }
    if !validate_raid_type(raid_type.as_str()) {
        return Err(SetupRejection::InvalidRaidType);
    }
    let selected_disks_json = match strings_to_json(&request.selected_disks) {
        Some(j) => j,
        None => return Err(SetupRejection::InvalidSelectedDisks),
    };
    Ok(
        SetupValues {
            username,
            email,
            server_name,
            hostname,
            timezone,
            language,
            raid_type,
            selected_disks_json,
        },
    )
}

/// The normalised preference values: server name, hostname, time zone and
/// language.
pub struct PreferenceValues {
    pub server_name: String,
    pub hostname: String,
    pub timezone: String,
    pub language: String,
}

pub open spec fn preferences_verdict(r: UpdateSetupPreferencesRequest) -> Result<(), SetupRejection> {
    if utf8_len(server_name_of(r.server_name@)) > 80 {
        Err(SetupRejection::InvalidServerName)
    } else if !hostname_ok(unicode_lower(trim(r.hostname@))) {
        Err(SetupRejection::InvalidHostname)
    } else if !timezone_ok(trim(r.timezone@)) {
        Err(SetupRejection::InvalidTimezone)
    } else if !language_ok(trim(r.language@)) {
        Err(SetupRejection::InvalidLanguage)
    } else {
        Ok(())
    }
}

/// Normalises and checks the preferences form.
pub fn validate_preferences_update(request: &UpdateSetupPreferencesRequest) -> (r: Result<
    PreferenceValues,
    SetupRejection,
>)
    ensures
        match preferences_verdict(*request) {
            Err(e) => r == Err::<PreferenceValues, SetupRejection>(e),
            Ok(_) => r matches Ok(v) && {
                &&& v.server_name@ == server_name_of(request.server_name@)
                &&& v.hostname@ == unicode_lower(trim(request.hostname@))
                &&& v.timezone@ == trim(request.timezone@)
                &&& v.language@ == trim(request.language@)
            },
        },
{
    let server_name = normalize_server_name(request.server_name.as_str());
    let hostname = normalize_hostname(request.hostname.as_str());
    let timezone = trim_string(request.timezone.as_str());
    let language = trim_string(request.language.as_str());
    if byte_len_over(server_name.as_str(), 80) {
        return Err(SetupRejection::InvalidServerName);
    }
    if !validate_hostname(hostname.as_str()) {
        return Err(SetupRejection::InvalidHostname);
    }
    if !validate_timezone(timezone.as_str()) {
        return Err(SetupRejection::InvalidTimezone);
    }
    if !validate_language(language.as_str()) {
        return Err(SetupRejection::InvalidLanguage);
    }
    Ok(PreferenceValues { server_name, hostname, timezone, language })
}

/// How a failed insert of the first administrator is answered: a taken
/// user name or address is a conflict, anything else a server error. The
/// fields are status, error code and message.
pub open spec fn admin_insert_failure(text: Seq<char>) -> (u16, Seq<char>, Seq<char>) {
    if has_sub(text, "users.username"@) {
        (409, "username_exists"@, "Bu kullanıcı adı zaten kullanılıyor."@)
    } else if has_sub(text, "users.email"@) {
        (409, "email_exists"@, "Bu e-posta adresi zaten kullanılıyor."@)
    } else {
        (500, "user_creation_failed"@, "Yönetici hesabı oluşturulamadı."@)
    }
}

/// Classifies the database's error text for a failed administrator insert.
pub fn classify_admin_insert_failure(text: &str) -> (r: (u16, &'static str, &'static str))
    ensures
        (r.0, r.1@, r.2@) == admin_insert_failure(text@),
{
    if crate::text::str_contains(text, "users.username") {
        (409, "username_exists", "Bu kullanıcı adı zaten kullanılıyor.")
    } else if crate::text::str_contains(text, "users.email") {
        (409, "email_exists", "Bu e-posta adresi zaten kullanılıyor.")
    } else {
        (500, "user_creation_failed", "Yönetici hesabı oluşturulamadı.")
    }
}

} // verus!
