//! Where signed update manifests and packages may come from: the fixed
//! channel URLs, the allow-list for release assets and redirect targets, and
//! the response size bounds.
use vstd::prelude::*;

use crate::text::{
    ascii_lower, ascii_lowercase, chars_of, contains_char, contains_sub, ends_with, has_char,
    has_prefix, has_sub, has_suffix, seq_eq, split_chars, split_on, str_ends_with, str_starts_with,
    text_eq, views,
};
use crate::update_channel::UpdateChannel;

verus! {

pub const MAX_REDIRECTS: usize = 3;

pub const MAX_MANIFEST_BYTES: u64 = 256 * 1024;

pub const MAX_SIGNATURE_BYTES: u64 = 4 * 1024;

pub const MAX_PACKAGE_BYTES: u64 = 512 * 1024 * 1024;

/// Why a distribution URL or response was refused.
#[derive(Debug, Clone, Copy, PartialEq, Eq, Structural)]
pub enum DistributionPolicyError {
    InvalidUrl,
    InvalidScheme,
    InvalidHost,
    InvalidCredentials,
    InvalidPort,
    InvalidPath,
    InvalidFilename,
    QueryNotAllowed,
    FragmentNotAllowed,
    SizeOutOfRange,
}

/// The description a distribution policy error is reported with.
pub open spec fn policy_error_message(e: DistributionPolicyError) -> Seq<char> {
    match e {
        DistributionPolicyError::InvalidUrl => "invalid update distribution URL"@,
        DistributionPolicyError::InvalidScheme => "update distribution URL must use HTTPS"@,
        DistributionPolicyError::InvalidHost => "update distribution URL host is not allowed"@,
        DistributionPolicyError::InvalidCredentials => "credentials are not allowed in update distribution URLs"@,
        DistributionPolicyError::InvalidPort => "explicit non-default ports are not allowed"@,
        DistributionPolicyError::InvalidPath => "update distribution URL path is not allowed"@,
        DistributionPolicyError::InvalidFilename => "update distribution filename is not safe"@,
        DistributionPolicyError::QueryNotAllowed => "query parameters are not allowed for this update URL"@,
        DistributionPolicyError::FragmentNotAllowed => "URL fragments are not allowed for update distribution"@,
        DistributionPolicyError::SizeOutOfRange => "update distribution response size is outside the allowed range"@,
    }
}

impl DistributionPolicyError {
    /// Human-readable description of the error.
    pub fn message(&self) -> (r: &'static str)
        ensures
            r@ == policy_error_message(*self),
    {
        match self {
            DistributionPolicyError::InvalidUrl => "invalid update distribution URL",
            DistributionPolicyError::InvalidScheme => "update distribution URL must use HTTPS",
            DistributionPolicyError::InvalidHost => "update distribution URL host is not allowed",
            DistributionPolicyError::InvalidCredentials =>
                "credentials are not allowed in update distribution URLs",
            DistributionPolicyError::InvalidPort => "explicit non-default ports are not allowed",
            DistributionPolicyError::InvalidPath => "update distribution URL path is not allowed",
            DistributionPolicyError::InvalidFilename => "update distribution filename is not safe",
            DistributionPolicyError::QueryNotAllowed =>
                "query parameters are not allowed for this update URL",
            DistributionPolicyError::FragmentNotAllowed =>
                "URL fragments are not allowed for update distribution",
            DistributionPolicyError::SizeOutOfRange =>
                "update distribution response size is outside the allowed range",
        }
    }
}

// ---------------------------------------------------------------------------
// Channel URLs
// ---------------------------------------------------------------------------

pub open spec fn stable_manifest_url() -> Seq<char> {
    "https://raw.githubusercontent.com/deniz3446/PhotoOS-Updates/main/channels/stable.json"@
}

pub open spec fn stable_signature_url() -> Seq<char> {
    "https://raw.githubusercontent.com/deniz3446/PhotoOS-Updates/main/channels/stable.json.sig"@
}

pub open spec fn beta_manifest_url() -> Seq<char> {
    "https://raw.githubusercontent.com/deniz3446/PhotoOS-Updates/main/channels/beta.json"@
}

pub open spec fn beta_signature_url() -> Seq<char> {
    "https://raw.githubusercontent.com/deniz3446/PhotoOS-Updates/main/channels/beta.json.sig"@
}

pub open spec fn manifest_url_of(channel: UpdateChannel) -> Option<Seq<char>> {
    match channel {
        UpdateChannel::Stable => Some(stable_manifest_url()),
        UpdateChannel::Beta => Some(beta_manifest_url()),
        UpdateChannel::Disabled => None,
    }
}

pub open spec fn signature_url_of(channel: UpdateChannel) -> Option<Seq<char>> {
    match channel {
        UpdateChannel::Stable => Some(stable_signature_url()),
        UpdateChannel::Beta => Some(beta_signature_url()),
        UpdateChannel::Disabled => None,
    }
}

/// The fixed manifest URL of a channel; the disabled channel has none.
pub fn channel_manifest_url(channel: UpdateChannel) -> (r: Option<&'static str>)
    ensures
        r matches Some(u) ==> manifest_url_of(channel) == Some(u@),
        r is None <==> manifest_url_of(channel) is None,
{
    match channel {
        UpdateChannel::Stable => Some(
            "https://raw.githubusercontent.com/deniz3446/PhotoOS-Updates/main/channels/stable.json",
        ),
        UpdateChannel::Beta => Some(
            "https://raw.githubusercontent.com/deniz3446/PhotoOS-Updates/main/channels/beta.json",
        ),
        UpdateChannel::Disabled => None,
    }
}

/// The fixed detached-signature URL of a channel; the disabled channel has none.
pub fn channel_signature_url(channel: UpdateChannel) -> (r: Option<&'static str>)
    ensures
        r matches Some(u) ==> signature_url_of(channel) == Some(u@),
        r is None <==> signature_url_of(channel) is None,
{
    match channel {
        UpdateChannel::Stable => Some(
            "https://raw.githubusercontent.com/deniz3446/PhotoOS-Updates/main/channels/stable.json.sig",
        ),
        UpdateChannel::Beta => Some(
            "https://raw.githubusercontent.com/deniz3446/PhotoOS-Updates/main/channels/beta.json.sig",
        ),
        UpdateChannel::Disabled => None,
    }
}

/// A channel has a manifest URL exactly when it has a signature URL, that is
/// exactly when it is not disabled, and the signature sits beside the
/// manifest under the same name with `.sig` appended.
pub proof fn lemma_signature_url_follows_manifest_url(channel: UpdateChannel)
    ensures
        manifest_url_of(channel) is Some <==> channel != UpdateChannel::Disabled,
        signature_url_of(channel) is Some <==> channel != UpdateChannel::Disabled,
        manifest_url_of(channel) matches Some(m) ==> signature_url_of(channel) == Some(m + ".sig"@),
{
    reveal_strlit(".sig");
    reveal_strlit(
        "https://raw.githubusercontent.com/deniz3446/PhotoOS-Updates/main/channels/stable.json",
    );
    reveal_strlit(
        "https://raw.githubusercontent.com/deniz3446/PhotoOS-Updates/main/channels/stable.json.sig",
    );
    reveal_strlit(
        "https://raw.githubusercontent.com/deniz3446/PhotoOS-Updates/main/channels/beta.json",
    );
    reveal_strlit(
        "https://raw.githubusercontent.com/deniz3446/PhotoOS-Updates/main/channels/beta.json.sig",
    );
    assert(stable_signature_url() =~= stable_manifest_url() + ".sig"@);
    assert(beta_signature_url() =~= beta_manifest_url() + ".sig"@);
}

// ---------------------------------------------------------------------------
// Parsed URLs
// ---------------------------------------------------------------------------

/// The components of a parsed URL that the distribution policy reads.
pub struct UrlParts {
    pub scheme: String,
    pub username: String,
    pub password: Option<String>,
    pub port: Option<u16>,
    pub host: Option<String>,
    pub query: Option<String>,
    pub fragment: Option<String>,
    pub path: String,
}

/// Mathematical view of [`UrlParts`].
pub struct UrlView {
    pub scheme: Seq<char>,
    pub username: Seq<char>,
    pub password: Option<Seq<char>>,
    pub port: Option<u16>,
    pub host: Option<Seq<char>>,
    pub query: Option<Seq<char>>,
    pub fragment: Option<Seq<char>>,
    pub path: Seq<char>,
}

pub open spec fn opt_text(o: Option<String>) -> Option<Seq<char>> {
    match o {
        Some(s) => Some(s@),
        None => None,
    }
}

impl View for UrlParts {
    type V = UrlView;

    open spec fn view(&self) -> UrlView {
        UrlView {
            scheme: self.scheme@,
            username: self.username@,
            password: opt_text(self.password),
            port: self.port,
            host: opt_text(self.host),
            query: opt_text(self.query),
            fragment: opt_text(self.fragment),
            path: self.path@,
        }
    }
}

impl DeepView for UrlParts {
    type V = UrlView;

    open spec fn deep_view(&self) -> UrlView {
        self@
    }
}

/// What `url::Url::parse` makes of a string (the WHATWG URL parser, as
/// re-exported by reqwest): `None` when it refuses the input.
pub uninterp spec fn url_parse(raw: Seq<char>) -> Option<UrlView>;

/// Calls `reqwest::Url::parse` (that is `url::Url::parse`) and copies out the
/// scheme, user name, password, port, host, query, fragment and path.
/// Trusted: the result is `url_parse` of the input, which names what the
/// outside parser does; nothing else is claimed of it.
#[verifier::external_body]
fn parse_url(raw: &str) -> (r: Option<UrlParts>)
    ensures
        r.deep_view() == url_parse(raw@),
{
    let url = reqwest::Url::parse(raw).ok()?;
    Some(UrlParts {
        scheme: url.scheme().to_string(),
        username: url.username().to_string(),
        password: url.password().map(|p| p.to_string()),
        port: url.port(),
        host: url.host_str().map(|h| h.to_string()),
        query: url.query().map(|q| q.to_string()),
        fragment: url.fragment().map(|f| f.to_string()),
        path: url.path().to_string(),
    })
}

/// `Url::path_segments`: the path without its leading `/`, split at `/`;
/// `None` for a path that does not start with `/`.
pub open spec fn path_segments(path: Seq<char>) -> Option<Seq<Seq<char>>> {
    if path.len() > 0 && path[0] == '/' {
        Some(split_on(path.drop_first(), '/'))
    } else {
        None
    }
}

/// Segments of a URL path (`Url::path_segments`).
pub fn url_path_segments(path: &str) -> (r: Option<Vec<Vec<char>>>)
    ensures
        match r {
            Some(v) => path_segments(path@) == Some(views(v@)),
            None => path_segments(path@) is None,
        },
{
    let chars = chars_of(path);
    if chars.len() > 0 && chars[0] == '/' {
        let mut rest: Vec<char> = Vec::new();
        let mut i: usize = 1;
        while i < chars.len()
            invariant
                1 <= i <= chars.len(),
                rest@ == chars@.subrange(1, i as int),
            decreases chars.len() - i,
        {
            rest.push(chars[i]);
            assert(chars@.subrange(1, i + 1) =~= chars@.subrange(1, i as int).push(chars@[i as int]));
            i += 1;
        }
        assert(rest@ =~= chars@.drop_first());
        Some(split_chars(&rest, '/'))
    } else {
        None
    }
}

// ---------------------------------------------------------------------------
// Release asset and redirect policy
// ---------------------------------------------------------------------------

/// A safe leaf filename for a release asset: a package or its signature.
pub open spec fn leaf_filename_ok(f: Seq<char>) -> bool {
    &&& f.len() > 0
    &&& f != "."@
    &&& f != ".."@
    &&& !has_char(f, '/')
    &&& !has_char(f, '\\')
    &&& !has_char(f, '?')
    &&& !has_char(f, '#')
    &&& !has_char(f, '%')
    &&& (has_suffix(f, ".popkg"@) || has_suffix(f, ".popkg.sig"@))
}

/// The raw URL, case-folded, holds a dot-dot segment or an encoded dot,
/// slash or backslash.
pub open spec fn path_escape(raw: Seq<char>) -> bool {
    let lower = ascii_lower(raw);
    has_sub(lower, "/../"@) || has_suffix(lower, "/.."@) || has_sub(lower, "%2e"@) || has_sub(
        lower,
        "%2f"@,
    ) || has_sub(lower, "%5c"@)
}

/// The HTTPS checks every distribution URL must pass.
pub open spec fn https_check(parsed: Option<UrlView>) -> Result<UrlView, DistributionPolicyError> {
    match parsed {
        None => Err(DistributionPolicyError::InvalidUrl),
        Some(u) => if u.scheme != "https"@ {
            Err(DistributionPolicyError::InvalidScheme)
        } else if u.username.len() != 0 || u.password is Some {
            Err(DistributionPolicyError::InvalidCredentials)
        } else if u.port is Some {
            Err(DistributionPolicyError::InvalidPort)
        } else if u.fragment is Some {
            Err(DistributionPolicyError::FragmentNotAllowed)
        } else {
            Ok(u)
        },
    }
}

/// `/deniz3446/PhotoOS-Updates/releases/download/<tag>/<file>`.
pub open spec fn official_release_path(path: Seq<char>) -> bool {
    match path_segments(path) {
        None => false,
        Some(seg) => {
            &&& seg.len() == 6
            &&& seg[0] == "deniz3446"@
            &&& seg[1] == "PhotoOS-Updates"@
            &&& seg[2] == "releases"@
            &&& seg[3] == "download"@
            &&& seg[4].len() != 0
            &&& seg[4] != "."@
            &&& seg[4] != ".."@
            &&& seg[5].len() != 0
        },
    }
}

pub open spec fn last_segment(path: Seq<char>) -> Seq<char> {
    match path_segments(path) {
        Some(seg) => seg.last(),
        None => Seq::<char>::empty(),
    }
}

/// Verdict on a release-asset URL `raw`, parsed as `parsed`, that must name
/// `expected`.
pub open spec fn release_asset_verdict(
    raw: Seq<char>,
    expected: Seq<char>,
    parsed: Option<UrlView>,
) -> Result<(), DistributionPolicyError> {
    if !leaf_filename_ok(expected) {
        Err(DistributionPolicyError::InvalidFilename)
    } else if path_escape(raw) {
        Err(DistributionPolicyError::InvalidPath)
    } else {
        match https_check(parsed) {
            Err(e) => Err(e),
            Ok(u) => if u.host != Some("github.com"@) {
                Err(DistributionPolicyError::InvalidHost)
            } else if u.query is Some {
                Err(DistributionPolicyError::QueryNotAllowed)
            } else if !official_release_path(u.path) {
                Err(DistributionPolicyError::InvalidPath)
            } else if last_segment(u.path) != expected {
                Err(DistributionPolicyError::InvalidFilename)
            } else {
                Ok(())
            },
        }
    }
}

/// Verdict on a redirect target `raw`, parsed as `parsed`.
pub open spec fn redirect_verdict(raw: Seq<char>, parsed: Option<UrlView>) -> Result<
    (),
    DistributionPolicyError,
> {
    match https_check(parsed) {
        Err(e) => Err(e),
        Ok(u) => if u.host == Some("github.com"@) {
            if path_escape(raw) {
                Err(DistributionPolicyError::InvalidPath)
            } else if u.query is Some {
                Err(DistributionPolicyError::QueryNotAllowed)
            } else if !official_release_path(u.path) {
                Err(DistributionPolicyError::InvalidPath)
            } else {
                Ok(())
            }
        } else if u.host == Some("release-assets.githubusercontent.com"@) {
            if !has_prefix(u.path, "/github-production-release-asset/"@) {
                Err(DistributionPolicyError::InvalidPath)
            } else {
                Ok(())
            }
        } else {
            Err(DistributionPolicyError::InvalidHost)
        },
    }
}

fn validate_leaf_filename(filename: &str) -> (r: Result<(), DistributionPolicyError>)
    ensures
        r is Ok <==> leaf_filename_ok(filename@),
        r matches Err(e) ==> e == DistributionPolicyError::InvalidFilename,
{
    let f = chars_of(filename);
    if f.len() == 0 || text_eq(filename, ".") || text_eq(filename, "..") || contains_char(&f, '/')
        || contains_char(&f, '\\') || contains_char(&f, '?') || contains_char(&f, '#')
        || contains_char(&f, '%') {
        return Err(DistributionPolicyError::InvalidFilename);
    }
    if !str_ends_with(filename, ".popkg") && !str_ends_with(filename, ".popkg.sig") {
        return Err(DistributionPolicyError::InvalidFilename);
    }
    Ok(())
}

fn has_release_path_escape(raw: &str) -> (r: bool)
    ensures
        r == path_escape(raw@),
{
    let chars = chars_of(raw);
    let lower = ascii_lowercase(&chars);
    let a = chars_of("/../");
    let b = chars_of("/..");
    let c = chars_of("%2e");
    let d = chars_of("%2f");
    let e = chars_of("%5c");
    contains_sub(&lower, &a) || ends_with(&lower, &b) || contains_sub(&lower, &c) || contains_sub(
        &lower,
        &d,
    ) || contains_sub(&lower, &e)
}

fn parse_https_url(parsed: &Option<UrlParts>) -> (r: Result<&UrlParts, DistributionPolicyError>)
    ensures
        match https_check(parsed.deep_view()) {
            Ok(u) => r matches Ok(p) && p@ == u,
            Err(e) => r == Err::<&UrlParts, DistributionPolicyError>(e),
        },
{
    match parsed {
        None => Err(DistributionPolicyError::InvalidUrl),
        Some(url) => {
            if !text_eq(url.scheme.as_str(), "https") {
                return Err(DistributionPolicyError::InvalidScheme);
            }
            if url.username.as_str().unicode_len() != 0 || url.password.is_some() {
                return Err(DistributionPolicyError::InvalidCredentials);
            }
            if url.port.is_some() {
                return Err(DistributionPolicyError::InvalidPort);
            }
            if url.fragment.is_some() {
                return Err(DistributionPolicyError::FragmentNotAllowed);
            }
            Ok(url)
        },
    }
}

fn host_is(url: &UrlParts, expected: &str) -> (r: bool)
    ensures
        r == (url@.host == Some(expected@)),
{
    match &url.host {
        Some(h) => text_eq(h.as_str(), expected),
        None => false,
    }
}

fn segment_is(seg: &Vec<char>, expected: &str) -> (r: bool)
    ensures
        r == (seg@ == expected@),
{
    let e = chars_of(expected);
    seq_eq(seg, &e)
}

fn official_release_path_exec(path: &str) -> (r: bool)
    ensures
        r == official_release_path(path@),
{
    match url_path_segments(path) {
        None => false,
        Some(seg) => {
            if seg.len() != 6 {
                return false;
            }
            segment_is(&seg[0], "deniz3446") && segment_is(&seg[1], "PhotoOS-Updates")
                && segment_is(&seg[2], "releases") && segment_is(&seg[3], "download")
                && seg[4].len() != 0 && !segment_is(&seg[4], ".") && !segment_is(&seg[4], "..")
                && seg[5].len() != 0
        },
    }
}

fn last_segment_is(path: &str, expected: &str) -> (r: bool)
    requires
        official_release_path(path@),
    ensures
        r == (last_segment(path@) == expected@),
{
    match url_path_segments(path) {
        None => false,
        Some(seg) => {
            segment_is(&seg[seg.len() - 1], expected)
        },
    }
}

/// Applies the release-asset policy to a URL already parsed by the URL parser.
pub fn check_release_asset_url(raw: &str, expected_filename: &str, parsed: &Option<UrlParts>) -> (r:
    Result<(), DistributionPolicyError>)
    ensures
        r == release_asset_verdict(raw@, expected_filename@, parsed.deep_view()),
{
    validate_leaf_filename(expected_filename)?;
    if has_release_path_escape(raw) {
        return Err(DistributionPolicyError::InvalidPath);
    }
    let url = parse_https_url(parsed)?;
    if !host_is(url, "github.com") {
        return Err(DistributionPolicyError::InvalidHost);
    }
    if url.query.is_some() {
        return Err(DistributionPolicyError::QueryNotAllowed);
    }
    if !official_release_path_exec(url.path.as_str()) {
        return Err(DistributionPolicyError::InvalidPath);
    }
    if !last_segment_is(url.path.as_str(), expected_filename) {
        return Err(DistributionPolicyError::InvalidFilename);
    }
    Ok(())
}

/// Accepts only an HTTPS URL of a release asset of the official update
/// repository on github.com whose last path segment is `expected_filename`.
pub fn validate_release_asset_url(raw: &str, expected_filename: &str) -> (r: Result<
    (),
    DistributionPolicyError,
>)
    ensures
        r == release_asset_verdict(raw@, expected_filename@, url_parse(raw@)),
{
    let parsed = parse_url(raw);
    check_release_asset_url(raw, expected_filename, &parsed)
}

/// Applies the redirect policy to a URL already parsed by the URL parser.
pub fn check_redirect_target(raw: &str, parsed: &Option<UrlParts>) -> (r: Result<
    (),
    DistributionPolicyError,
>)
    ensures
        r == redirect_verdict(raw@, parsed.deep_view()),
{
    let url = parse_https_url(parsed)?;
    if host_is(url, "github.com") {
        if has_release_path_escape(raw) {
            return Err(DistributionPolicyError::InvalidPath);
        }
        if url.query.is_some() {
            return Err(DistributionPolicyError::QueryNotAllowed);
        }
        if !official_release_path_exec(url.path.as_str()) {
            return Err(DistributionPolicyError::InvalidPath);
        }
        Ok(())
    } else if host_is(url, "release-assets.githubusercontent.com") {
        if !str_starts_with(url.path.as_str(), "/github-production-release-asset/") {
            return Err(DistributionPolicyError::InvalidPath);
        }
        Ok(())
    } else {
        Err(DistributionPolicyError::InvalidHost)
    }
}

/// Accepts a redirect only to an official release asset on github.com or to
/// GitHub's release-asset CDN.
pub fn validate_redirect_target(raw: &str) -> (r: Result<(), DistributionPolicyError>)
    ensures
        r == redirect_verdict(raw@, url_parse(raw@)),
{
    let parsed = parse_url(raw);
    check_redirect_target(raw, &parsed)
}

/// Whether one more redirect may be followed after `redirects_already_followed`.
pub fn can_follow_redirect(redirects_already_followed: usize) -> (r: bool)
    ensures
        r == (redirects_already_followed < MAX_REDIRECTS),
{
    redirects_already_followed < MAX_REDIRECTS
}

pub open spec fn size_verdict(size: u64, maximum: u64) -> Result<(), DistributionPolicyError> {
    if size == 0 || size > maximum {
        Err(DistributionPolicyError::SizeOutOfRange)
    } else {
        Ok(())
    }
}

fn validate_positive_bounded_size(size: u64, maximum: u64) -> (r: Result<
    (),
    DistributionPolicyError,
>)
    ensures
        r == size_verdict(size, maximum),
{
    if size == 0 || size > maximum {
        return Err(DistributionPolicyError::SizeOutOfRange);
    }
    Ok(())
}

/// A manifest response must hold between 1 byte and `MAX_MANIFEST_BYTES`.
pub fn validate_manifest_response_size(size: u64) -> (r: Result<(), DistributionPolicyError>)
    ensures
        r == size_verdict(size, MAX_MANIFEST_BYTES),
{
    validate_positive_bounded_size(size, MAX_MANIFEST_BYTES)
}

/// A signature response must hold between 1 byte and `MAX_SIGNATURE_BYTES`.
pub fn validate_signature_response_size(size: u64) -> (r: Result<(), DistributionPolicyError>)
    ensures
        r == size_verdict(size, MAX_SIGNATURE_BYTES),
{
    validate_positive_bounded_size(size, MAX_SIGNATURE_BYTES)
}

/// A package must hold between 1 byte and `MAX_PACKAGE_BYTES`.
pub fn validate_package_size(size: u64) -> (r: Result<(), DistributionPolicyError>)
    ensures
        r == size_verdict(size, MAX_PACKAGE_BYTES),
{
    validate_positive_bounded_size(size, MAX_PACKAGE_BYTES)
}

/// An accepted release-asset URL is an HTTPS URL on github.com, without
/// credentials, port, query or fragment, under the official repository's
/// release downloads, whose last segment is the expected filename, and that
/// filename is a package or package signature.
pub proof fn lemma_accepted_release_asset_is_official(
    raw: Seq<char>,
    expected: Seq<char>,
    parsed: Option<UrlView>,
)
    requires
        release_asset_verdict(raw, expected, parsed) is Ok,
    ensures
        parsed matches Some(u) && {
            &&& u.scheme == "https"@
            &&& u.host == Some("github.com"@)
            &&& u.username.len() == 0
            &&& u.password is None
            &&& u.port is None
            &&& u.query is None
            &&& u.fragment is None
            &&& official_release_path(u.path)
            &&& last_segment(u.path) == expected
        },
        has_suffix(expected, ".popkg"@) || has_suffix(expected, ".popkg.sig"@),
        !path_escape(raw),
{
}

/// An accepted redirect target is HTTPS on one of the two allowed hosts.
pub proof fn lemma_accepted_redirect_is_allowlisted(raw: Seq<char>, parsed: Option<UrlView>)
    requires
        redirect_verdict(raw, parsed) is Ok,
    ensures
        parsed matches Some(u) && {
            &&& u.scheme == "https"@
            &&& u.port is None
            &&& (u.host == Some("github.com"@) || u.host == Some(
                "release-assets.githubusercontent.com"@,
            ))
        },
{
}

/// Every size check accepts exactly the sizes from 1 up to its maximum.
pub proof fn lemma_size_bounds(size: u64, maximum: u64)
    ensures
        size_verdict(size, maximum) is Ok <==> 1 <= size <= maximum,
{
}

} // verus!
