//! Signed update manifests: version parsing and ordering, the manifest
//! contract, and the decision whether an update is available.
use vstd::prelude::*;

use crate::text::{
    decimal, digit_char, digits_value, lemma_digits_push, chars_of, extend_str, has_prefix, is_ascii_alphanumeric, is_ascii_digit, is_lower_hex,
    starts_with, string_of,
};
use crate::digest::{hex_of, sha256_digest, sha256_hex};
use crate::update_channel::UpdateChannel;
use crate::update_distribution::{
    release_asset_verdict, size_verdict, url_parse, validate_manifest_response_size,
    validate_package_size, validate_release_asset_url, validate_signature_response_size,
    MAX_MANIFEST_BYTES, MAX_PACKAGE_BYTES, MAX_SIGNATURE_BYTES,
};

verus! {

/// Result of checking a channel for updates.
#[derive(Debug, Clone, PartialEq, Eq)]
pub enum DiscoveryOutcome {
    Disabled,
    UpToDate,
    Incompatible,
    ReplayRejected,
    UpdateAvailable { version: String, release_id: String, package_filename: String },
}

/// What is wrong with a signed manifest.
#[derive(Debug, Clone, Copy, PartialEq, Eq, Structural)]
pub enum ManifestFault {
    VersionShape,
    MajorVersion,
    MinorVersion,
    PatchVersion,
    DisabledChannel,
    UnsupportedSchema,
    ProductMismatch,
    ChannelMismatch,
    ReleaseId,
    PublishedAt,
    SourceCommit,
    PackageSha256,
    PackageSize,
    DownloadUrl,
    SignatureUrl,
}

/// The reason a manifest fault is reported with.
pub open spec fn fault_message(e: ManifestFault) -> Seq<char> {
    match e {
        ManifestFault::VersionShape => "version must be major.minor.patch"@,
        ManifestFault::MajorVersion => "invalid major version"@,
        ManifestFault::MinorVersion => "invalid minor version"@,
        ManifestFault::PatchVersion => "invalid patch version"@,
        ManifestFault::DisabledChannel => "disabled channel has no remote manifest"@,
        ManifestFault::UnsupportedSchema => "unsupported schema_version"@,
        ManifestFault::ProductMismatch => "product must be PhotoOS"@,
        ManifestFault::ChannelMismatch => "manifest channel mismatch"@,
        ManifestFault::ReleaseId => "invalid release_id"@,
        ManifestFault::PublishedAt => "invalid published_at"@,
        ManifestFault::SourceCommit => "source_commit must be 40 lowercase hex characters"@,
        ManifestFault::PackageSha256 => "package SHA256 must be 64 lowercase hex characters"@,
        ManifestFault::PackageSize => "package size is outside the allowed range"@,
        ManifestFault::DownloadUrl => "package download URL is not allowed"@,
        ManifestFault::SignatureUrl => "package signature URL is not allowed"@,
    }
}

impl ManifestFault {
    /// The reason, as the server reports it.
    pub fn message(&self) -> (r: &'static str)
        ensures
            r@ == fault_message(*self),
    {
        match self {
            ManifestFault::VersionShape => "version must be major.minor.patch",
            ManifestFault::MajorVersion => "invalid major version",
            ManifestFault::MinorVersion => "invalid minor version",
            ManifestFault::PatchVersion => "invalid patch version",
            ManifestFault::DisabledChannel => "disabled channel has no remote manifest",
            ManifestFault::UnsupportedSchema => "unsupported schema_version",
            ManifestFault::ProductMismatch => "product must be PhotoOS",
            ManifestFault::ChannelMismatch => "manifest channel mismatch",
            ManifestFault::ReleaseId => "invalid release_id",
            ManifestFault::PublishedAt => "invalid published_at",
            ManifestFault::SourceCommit => "source_commit must be 40 lowercase hex characters",
            ManifestFault::PackageSha256 => "package SHA256 must be 64 lowercase hex characters",
            ManifestFault::PackageSize => "package size is outside the allowed range",
            ManifestFault::DownloadUrl => "package download URL is not allowed",
            ManifestFault::SignatureUrl => "package signature URL is not allowed",
        }
    }
}

/// Why discovery refused a manifest.
#[derive(Debug, Clone, Copy, PartialEq, Eq, Structural)]
pub enum DiscoveryError {
    InvalidSignature,
    InvalidJson,
    InvalidManifest(ManifestFault),
    HttpStatus(u16),
    ResponseTooLarge,
}

// ---------------------------------------------------------------------------
// Versions
// ---------------------------------------------------------------------------

/// A `major.minor.patch` version.
#[derive(Debug, Clone, Copy, PartialEq, Eq, Structural)]
pub struct NumericVersion {
    pub major: u64,
    pub minor: u64,
    pub patch: u64,
}

/// Lexicographic order on versions.
pub open spec fn version_lt(a: NumericVersion, b: NumericVersion) -> bool {
    a.major < b.major || (a.major == b.major && (a.minor < b.minor || (a.minor == b.minor
        && a.patch < b.patch)))
}

pub fn version_less(a: &NumericVersion, b: &NumericVersion) -> (r: bool)
    ensures
        r == version_lt(*a, *b),
{
    a.major < b.major || (a.major == b.major && (a.minor < b.minor || (a.minor == b.minor
        && a.patch < b.patch)))
}

/// A version component: digits without a leading zero, fitting in `u64`.
pub open spec fn version_part(s: Seq<char>) -> Option<u64> {
    if s.len() == 0 {
        None
    } else if s.len() > 1 && s[0] == '0' {
        None
    } else if !(forall|i: int| 0 <= i < s.len() ==> is_ascii_digit(#[trigger] s[i])) {
        None
    } else if digits_value(s) > u64::MAX {
        None
    } else {
        Some(digits_value(s) as u64)
    }
}

/// Index of the first `.` in `s` at or after `from`, or `s.len()`.
pub open spec fn next_dot(s: Seq<char>, from: int) -> int
    decreases s.len() - from,
{
    if from >= s.len() {
        s.len() as int
    } else if s[from] == '.' {
        from
    } else {
        next_dot(s, from + 1)
    }
}

pub open spec fn dot_count(s: Seq<char>) -> nat
    decreases s.len(),
{
    if s.len() == 0 {
        0
    } else {
        dot_count(s.drop_last()) + if s.last() == '.' {
            1nat
        } else {
            0nat
        }
    }
}

/// Parse of `major.minor.patch`, with the fault the server reports.
pub open spec fn version_parse(s: Seq<char>) -> Result<NumericVersion, ManifestFault> {
    let d1 = next_dot(s, 0);
    let d2 = next_dot(s, d1 + 1);
    if dot_count(s) != 2 {
        Err(ManifestFault::VersionShape)
    } else {
        let a = s.subrange(0, d1);
        let b = s.subrange(d1 + 1, d2);
        let c = s.subrange(d2 + 1, s.len() as int);
        match version_part(a) {
            None => Err(ManifestFault::MajorVersion),
            Some(major) => match version_part(b) {
                None => Err(ManifestFault::MinorVersion),
                Some(minor) => match version_part(c) {
                    None => Err(ManifestFault::PatchVersion),
                    Some(patch) => Ok(NumericVersion { major, minor, patch }),
                },
            },
        }
    }
}

proof fn lemma_next_dot(s: Seq<char>, from: int)
    requires
        0 <= from <= s.len(),
    ensures
        from <= next_dot(s, from) <= s.len(),
        forall|i: int| from <= i < next_dot(s, from) ==> s[i] != '.',
        next_dot(s, from) < s.len() ==> s[next_dot(s, from)] == '.',
    decreases s.len() - from,
{
    if from < s.len() && s[from] != '.' {
        lemma_next_dot(s, from + 1);
    }
}

proof fn lemma_dot_count_push(s: Seq<char>, c: char)
    ensures
        dot_count(s.push(c)) == dot_count(s) + if c == '.' {
            1nat
        } else {
            0nat
        },
{
    assert(s.push(c).drop_last() =~= s);
}

/// Parses one version component.
fn parse_part(v: &Vec<char>, from: usize, to: usize) -> (r: Option<u64>)
    requires
        from <= to <= v.len(),
    ensures
        r == version_part(v@.subrange(from as int, to as int)),
{
    let ghost s = v@.subrange(from as int, to as int);
    if from == to {
        return None;
    }
    if to - from > 1 && v[from] == '0' {
        return None;
    }
    let mut value: u64 = 0;
    let mut overflow = false;
    let mut i: usize = from;
    while i < to
        invariant
            from <= i <= to <= v.len(),
            s == v@.subrange(from as int, to as int),
            forall|k: int| from <= k < i ==> is_ascii_digit(#[trigger] v@[k]),
            !overflow ==> value == digits_value(v@.subrange(from as int, i as int)),
            overflow ==> digits_value(v@.subrange(from as int, i as int)) > u64::MAX,
        decreases to - i,
    {
        let c = v[i];
        if !('0' <= c && c <= '9') {
            proof {
                assert(!is_ascii_digit(s[i - from]));
            }
            return None;
        }
        proof {
            lemma_digits_push(v@.subrange(from as int, i as int), c);
            assert(v@.subrange(from as int, i + 1) =~= v@.subrange(from as int, i as int).push(c));
        }
        let d = (c as u32 - 48) as u64;
        if !overflow {
            match value.checked_mul(10) {
                Some(m) => match m.checked_add(d) {
                    Some(n) => {
                        value = n;
                    },
                    None => {
                        overflow = true;
                    },
                },
                None => {
                    overflow = true;
                },
            }
        } else {
            proof {
                assert(digits_value(v@.subrange(from as int, i as int)) * 10 >= digits_value(
                    v@.subrange(from as int, i as int),
                ));
            }
        }
        i += 1;
    }
    proof {
        assert forall|k: int| 0 <= k < s.len() implies is_ascii_digit(#[trigger] s[k]) by {
            assert(s[k] == v@[from + k]);
        }
    }
    if overflow {
        None
    } else {
        Some(value)
    }
}

/// Parses `major.minor.patch`: exactly three dot-separated components, each
/// a decimal number without leading zeros that fits in `u64`.
pub fn parse_version(value: &str) -> (r: Result<NumericVersion, DiscoveryError>)
    ensures
        match version_parse(value@) {
            Ok(v) => r == Ok::<NumericVersion, DiscoveryError>(v),
            Err(f) => r == Err::<NumericVersion, DiscoveryError>(DiscoveryError::InvalidManifest(f)),
        },
{
    let v = chars_of(value);
    let ghost s = v@;
    // positions of the first two dots and the number of dots
    let mut dots: usize = 0;
    let mut d1: usize = v.len();
    let mut d2: usize = v.len();
    let mut i: usize = 0;
    proof {
        lemma_next_dot(s, 0);
    }
    while i < v.len()
        invariant
            i <= v.len(),
            s == v@,
            dots == dot_count(s.take(i as int)),
            dots >= 1 ==> d1 == next_dot(s, 0) && d1 < i,
            dots == 0 ==> forall|k: int| 0 <= k < i ==> s[k] != '.',
            dots >= 2 ==> d1 < v.len() && d2 == next_dot(s, d1 + 1) && d2 < i,
            dots == 1 ==> forall|k: int| d1 < k < i ==> s[k] != '.',
            dots <= i,
        decreases v.len() - i,
    {
        proof {
            lemma_dot_count_push(s.take(i as int), s[i as int]);
            assert(s.take(i + 1) =~= s.take(i as int).push(s[i as int]));
        }
        if v[i] == '.' {
            if dots == 0 {
                d1 = i;
                proof {
                    lemma_next_dot_first(s, 0, i as int);
                }
            } else if dots == 1 {
                d2 = i;
                proof {
                    lemma_next_dot_first(s, d1 + 1, i as int);
                }
            }
            dots += 1;
        }
        i += 1;
    }
    assert(s.take(v.len() as int) =~= s);
    if dots != 2 {
        return Err(DiscoveryError::InvalidManifest(ManifestFault::VersionShape));
    }
    proof {
        lemma_next_dot(s, 0);
        lemma_next_dot(s, d1 + 1);
    }
    let major = match parse_part(&v, 0, d1) {
        Some(x) => x,
        None => return Err(DiscoveryError::InvalidManifest(ManifestFault::MajorVersion)),
    };
    let minor = match parse_part(&v, d1 + 1, d2) {
        Some(x) => x,
        None => return Err(DiscoveryError::InvalidManifest(ManifestFault::MinorVersion)),
    };
    let patch = match parse_part(&v, d2 + 1, v.len()) {
        Some(x) => x,
        None => return Err(DiscoveryError::InvalidManifest(ManifestFault::PatchVersion)),
    };
    Ok(NumericVersion { major, minor, patch })
}

proof fn lemma_next_dot_first(s: Seq<char>, from: int, at: int)
    requires
        0 <= from <= at < s.len(),
        s[at] == '.',
        forall|k: int| from <= k < at ==> s[k] != '.',
    ensures
        next_dot(s, from) == at,
    decreases at - from,
{
    if from < at {
        lemma_next_dot_first(s, from + 1, at);
    }
}

// ---------------------------------------------------------------------------
// Manifest contract
// ---------------------------------------------------------------------------

pub open spec fn lower_hex_of_len(s: Seq<char>, n: nat) -> bool {
    s.len() == n && forall|i: int| 0 <= i < s.len() ==> is_lower_hex(#[trigger] s[i])
}

/// `value` is exactly `expected_len` lower-case hexadecimal digits.
pub fn valid_lower_hex(value: &str, expected_len: usize) -> (r: bool)
    ensures
        r == lower_hex_of_len(value@, expected_len as nat),
{
    let v = chars_of(value);
    if v.len() != expected_len {
        return false;
    }
    let mut i: usize = 0;
    while i < v.len()
        invariant
            i <= v.len(),
            v@ == value@,
            forall|k: int| 0 <= k < i ==> is_lower_hex(#[trigger] v@[k]),
        decreases v.len() - i,
    {
        let c = v[i];
        if !(('0' <= c && c <= '9') || ('a' <= c && c <= 'f')) {
            assert(!is_lower_hex(value@[i as int]));
            return false;
        }
        i += 1;
    }
    true
}

pub open spec fn release_id_char(c: char) -> bool {
    is_ascii_alphanumeric(c) || c == '.' || c == '-' || c == '_'
}

/// A release id: at most 160 characters, `<version>-` followed by
/// ASCII letters, digits, `.`, `-` or `_`.
pub open spec fn release_id_ok(version: Seq<char>, id: Seq<char>) -> bool {
    &&& id.len() <= 160
    &&& has_prefix(id, version.push('-'))
    &&& forall|i: int| 0 <= i < id.len() ==> release_id_char(#[trigger] id[i])
}

pub fn valid_release_id(version: &str, release_id: &str) -> (r: bool)
    ensures
        r == release_id_ok(version@, release_id@),
{
    let id = chars_of(release_id);
    if id.len() > 160 {
        return false;
    }
    let mut prefix = chars_of(version);
    prefix.push('-');
    if !starts_with(&id, &prefix) {
        return false;
    }
    let mut i: usize = 0;
    while i < id.len()
        invariant
            i <= id.len(),
            id@ == release_id@,
            forall|k: int| 0 <= k < i ==> release_id_char(#[trigger] id@[k]),
        decreases id.len() - i,
    {
        let c = id[i];
        if !(('a' <= c && c <= 'z') || ('A' <= c && c <= 'Z') || ('0' <= c && c <= '9') || c
            == '.' || c == '-' || c == '_') {
            assert(!release_id_char(release_id@[i as int]));
            return false;
        }
        i += 1;
    }
    true
}

pub open spec fn channel_label(channel: UpdateChannel) -> Result<Seq<char>, DiscoveryError> {
    match channel {
        UpdateChannel::Stable => Ok("stable"@),
        UpdateChannel::Beta => Ok("beta"@),
        UpdateChannel::Disabled => Err(DiscoveryError::InvalidManifest(ManifestFault::DisabledChannel)),
    }
}

/// The `channel` value a manifest for `channel` must carry.
pub fn expected_channel_name(channel: UpdateChannel) -> (r: Result<&'static str, DiscoveryError>)
    ensures
        match channel_label(channel) {
            Ok(n) => r matches Ok(s) && s@ == n,
            Err(e) => r == Err::<&'static str, DiscoveryError>(e),
        },
{
    match channel {
        UpdateChannel::Stable => Ok("stable"),
        UpdateChannel::Beta => Ok("beta"),
        UpdateChannel::Disabled => Err(DiscoveryError::InvalidManifest(ManifestFault::DisabledChannel)),
    }
}

/// Whether `chrono::DateTime::parse_from_rfc3339` accepts the string.
pub uninterp spec fn rfc3339_accepts(s: Seq<char>) -> bool;

/// Calls `chrono::DateTime::parse_from_rfc3339` and reports whether it
/// parsed. Trusted: the answer is `rfc3339_accepts` of the input.
#[verifier::external_body]
fn is_rfc3339(s: &str) -> (r: bool)
    ensures
        r == rfc3339_accepts(s@),
{
    chrono::DateTime::parse_from_rfc3339(s).is_ok()
}

/// The signed manifest document, as the JSON decoder reads it.
#[derive(Debug, Clone)]
pub struct ManifestDocument {
    pub schema_version: u64,
    pub product: String,
    pub channel: String,
    pub version: String,
    pub release_id: String,
    pub published_at: String,
    pub source_commit: String,
    pub package: ManifestPackage,
    pub minimums: ManifestMinimums,
    pub release_notes: Vec<String>,
}

#[derive(Debug, Clone)]
pub struct ManifestPackage {
    pub filename: String,
    pub size: u64,
    pub sha256: String,
    pub signature_url: String,
    pub download_url: String,
}

#[derive(Debug, Clone)]
pub struct ManifestMinimums {
    pub photoos_version: String,
    pub update_agent_version: String,
}

/// A manifest that passed every check of the contract.
#[derive(Debug, Clone, PartialEq, Eq)]
pub struct ValidatedManifest {
    pub version: String,
    pub release_id: String,
    pub published_at: String,
    pub source_commit: String,
    pub package_filename: String,
    pub package_size: u64,
    pub package_sha256: String,
    pub package_signature_url: String,
    pub package_download_url: String,
    pub minimum_photoos_version: String,
    pub minimum_update_agent_version: String,
    pub release_notes: Vec<String>,
}

/// Verdict of the manifest contract on a decoded document.
pub open spec fn manifest_verdict(d: ManifestDocument, channel: UpdateChannel) -> Result<
    (),
    DiscoveryError,
> {
    if d.schema_version != 1 {
        Err(DiscoveryError::InvalidManifest(ManifestFault::UnsupportedSchema))
    } else if d.product@ != "PhotoOS"@ {
        Err(DiscoveryError::InvalidManifest(ManifestFault::ProductMismatch))
    } else {
        match channel_label(channel) {
            Err(e) => Err(e),
            Ok(name) => if d.channel@ != name {
                Err(DiscoveryError::InvalidManifest(ManifestFault::ChannelMismatch))
            } else {
                match version_parse(d.version@) {
                    Err(f) => Err(DiscoveryError::InvalidManifest(f)),
                    Ok(_) => if !release_id_ok(d.version@, d.release_id@) {
                        Err(DiscoveryError::InvalidManifest(ManifestFault::ReleaseId))
                    } else if !rfc3339_accepts(d.published_at@) {
                        Err(DiscoveryError::InvalidManifest(ManifestFault::PublishedAt))
                    } else if !lower_hex_of_len(d.source_commit@, 40) {
                        Err(DiscoveryError::InvalidManifest(ManifestFault::SourceCommit))
                    } else if !lower_hex_of_len(d.package.sha256@, 64) {
                        Err(DiscoveryError::InvalidManifest(ManifestFault::PackageSha256))
                    } else if size_verdict(d.package.size, MAX_PACKAGE_BYTES) is Err {
                        Err(DiscoveryError::InvalidManifest(ManifestFault::PackageSize))
                    } else if release_asset_verdict(
                        d.package.download_url@,
                        d.package.filename@,
                        url_parse(d.package.download_url@),
                    ) is Err {
                        Err(DiscoveryError::InvalidManifest(ManifestFault::DownloadUrl))
                    } else if release_asset_verdict(
                        d.package.signature_url@,
                        d.package.filename@ + ".sig"@,
                        url_parse(d.package.signature_url@),
                    ) is Err {
                        Err(DiscoveryError::InvalidManifest(ManifestFault::SignatureUrl))
                    } else {
                        match version_parse(d.minimums.photoos_version@) {
                            Err(f) => Err(DiscoveryError::InvalidManifest(f)),
                            Ok(_) => match version_parse(d.minimums.update_agent_version@) {
                                Err(f) => Err(DiscoveryError::InvalidManifest(f)),
                                Ok(_) => Ok(()),
                            },
                        }
                    },
                }
            },
        }
    }
}

/// The validated manifest carries the document's fields unchanged.
pub open spec fn carries(m: ValidatedManifest, d: ManifestDocument) -> bool {
    &&& m.version@ == d.version@
    &&& m.release_id@ == d.release_id@
    &&& m.published_at@ == d.published_at@
    &&& m.source_commit@ == d.source_commit@
    &&& m.package_filename@ == d.package.filename@
    &&& m.package_size == d.package.size
    &&& m.package_sha256@ == d.package.sha256@
    &&& m.package_signature_url@ == d.package.signature_url@
    &&& m.package_download_url@ == d.package.download_url@
    &&& m.minimum_photoos_version@ == d.minimums.photoos_version@
    &&& m.minimum_update_agent_version@ == d.minimums.update_agent_version@
    &&& m.release_notes.deep_view() == d.release_notes.deep_view()
}

fn fault(r: Result<NumericVersion, DiscoveryError>) -> (e: Result<(), DiscoveryError>)
    ensures
        r is Ok ==> e is Ok,
        r matches Err(x) ==> e == Err::<(), DiscoveryError>(x),
{
    match r {
        Ok(_) => Ok(()),
        Err(x) => Err(x),
    }
}

fn clone_strings(v: &Vec<String>) -> (r: Vec<String>)
    ensures
        r.deep_view() == v.deep_view(),
{
    let mut r: Vec<String> = Vec::new();
    let mut i: usize = 0;
    while i < v.len()
        invariant
            i <= v.len(),
            r.len() == i,
            forall|k: int| 0 <= k < i ==> r@[k]@ == v@[k]@,
        decreases v.len() - i,
    {
        r.push(v[i].clone());
        i += 1;
    }
    assert(r.deep_view() =~= v.deep_view());
    r
}

/// Applies the signed manifest contract to a decoded manifest document:
/// schema 1, product PhotoOS, the requested channel, a valid version and
/// release id, an RFC 3339 publication time, a 40-digit source commit, a
/// 64-digit package hash, a bounded package size, official release-asset
/// URLs for the package and its signature, and valid minimum versions.
pub fn validate_manifest_document(document: &ManifestDocument, expected_channel: UpdateChannel) -> (r:
    Result<ValidatedManifest, DiscoveryError>)
    ensures
        match manifest_verdict(*document, expected_channel) {
            Ok(_) => r matches Ok(m) && carries(m, *document),
            Err(e) => r == Err::<ValidatedManifest, DiscoveryError>(e),
        },
{
    let d = document;
    if d.schema_version != 1 {
        return Err(DiscoveryError::InvalidManifest(ManifestFault::UnsupportedSchema));
    }
    if !crate::text::text_eq(d.product.as_str(), "PhotoOS") {
        return Err(DiscoveryError::InvalidManifest(ManifestFault::ProductMismatch));
    }
    let name = expected_channel_name(expected_channel)?;
    if !crate::text::text_eq(d.channel.as_str(), name) {
        return Err(DiscoveryError::InvalidManifest(ManifestFault::ChannelMismatch));
    }
    fault(parse_version(d.version.as_str()))?;
    if !valid_release_id(d.version.as_str(), d.release_id.as_str()) {
        return Err(DiscoveryError::InvalidManifest(ManifestFault::ReleaseId));
    }
    if !is_rfc3339(d.published_at.as_str()) {
        return Err(DiscoveryError::InvalidManifest(ManifestFault::PublishedAt));
    }
    if !valid_lower_hex(d.source_commit.as_str(), 40) {
        return Err(DiscoveryError::InvalidManifest(ManifestFault::SourceCommit));
    }
    if !valid_lower_hex(d.package.sha256.as_str(), 64) {
        return Err(DiscoveryError::InvalidManifest(ManifestFault::PackageSha256));
    }
    if validate_package_size(d.package.size).is_err() {
        return Err(DiscoveryError::InvalidManifest(ManifestFault::PackageSize));
    }
    if validate_release_asset_url(d.package.download_url.as_str(), d.package.filename.as_str()).is_err() {
        return Err(DiscoveryError::InvalidManifest(ManifestFault::DownloadUrl));
    }
    let mut signature_chars = chars_of(d.package.filename.as_str());
    extend_str(&mut signature_chars, ".sig");
    let signature_filename = string_of(&signature_chars);
    if validate_release_asset_url(
        d.package.signature_url.as_str(),
        signature_filename.as_str(),
    ).is_err() {
        return Err(DiscoveryError::InvalidManifest(ManifestFault::SignatureUrl));
    }
    fault(parse_version(d.minimums.photoos_version.as_str()))?;
    fault(parse_version(d.minimums.update_agent_version.as_str()))?;
    Ok(
        ValidatedManifest {
            version: d.version.clone(),
            release_id: d.release_id.clone(),
            published_at: d.published_at.clone(),
            source_commit: d.source_commit.clone(),
            package_filename: d.package.filename.clone(),
            package_size: d.package.size,
            package_sha256: d.package.sha256.clone(),
            package_signature_url: d.package.signature_url.clone(),
            package_download_url: d.package.download_url.clone(),
            minimum_photoos_version: d.minimums.photoos_version.clone(),
            minimum_update_agent_version: d.minimums.update_agent_version.clone(),
            release_notes: clone_strings(&d.release_notes),
        },
    )
}

// ---------------------------------------------------------------------------
// Outcome
// ---------------------------------------------------------------------------

/// Mathematical view of an outcome.
pub enum OutcomeView {
    Disabled,
    UpToDate,
    Incompatible,
    ReplayRejected,
    UpdateAvailable { version: Seq<char>, release_id: Seq<char>, package_filename: Seq<char> },
}

pub open spec fn outcome_view(o: DiscoveryOutcome) -> OutcomeView {
    match o {
        DiscoveryOutcome::Disabled => OutcomeView::Disabled,
        DiscoveryOutcome::UpToDate => OutcomeView::UpToDate,
        DiscoveryOutcome::Incompatible => OutcomeView::Incompatible,
        DiscoveryOutcome::ReplayRejected => OutcomeView::ReplayRejected,
        DiscoveryOutcome::UpdateAvailable { version, release_id, package_filename } =>
            OutcomeView::UpdateAvailable {
            version: version@,
            release_id: release_id@,
            package_filename: package_filename@,
        },
    }
}

/// What a manifest offers to an installation running `running` with the
/// update agent at `agent`.
pub open spec fn outcome_spec(running: Seq<char>, agent: Seq<char>, m: ValidatedManifest) -> Result<
    OutcomeView,
    DiscoveryError,
> {
    match version_parse(running) {
        Err(f) => Err(DiscoveryError::InvalidManifest(f)),
        Ok(r) => match version_parse(m.minimum_photoos_version@) {
            Err(f) => Err(DiscoveryError::InvalidManifest(f)),
            Ok(min_os) => if version_lt(r, min_os) {
                Ok(OutcomeView::Incompatible)
            } else {
                match version_parse(agent) {
                    Err(f) => Err(DiscoveryError::InvalidManifest(f)),
                    Ok(a) => match version_parse(m.minimum_update_agent_version@) {
                        Err(f) => Err(DiscoveryError::InvalidManifest(f)),
                        Ok(min_agent) => if version_lt(a, min_agent) {
                            Ok(OutcomeView::Incompatible)
                        } else {
                            match version_parse(m.version@) {
                                Err(f) => Err(DiscoveryError::InvalidManifest(f)),
                                Ok(offered) => if !version_lt(r, offered) {
                                    Ok(OutcomeView::UpToDate)
                                } else {
                                    Ok(
                                        OutcomeView::UpdateAvailable {
                                            version: m.version@,
                                            release_id: m.release_id@,
                                            package_filename: m.package_filename@,
                                        },
                                    )
                                },
                            }
                        },
                    },
                }
            },
        },
    }
}

pub open spec fn outcome_matches(
    r: Result<DiscoveryOutcome, DiscoveryError>,
    s: Result<OutcomeView, DiscoveryError>,
) -> bool {
    match s {
        Ok(o) => r matches Ok(x) && outcome_view(x) == o,
        Err(e) => r == Err::<DiscoveryOutcome, DiscoveryError>(e),
    }
}

/// What the manifest offers, given the running release and update agent
/// versions: incompatible below either signed minimum, up to date unless the
/// offered version is newer, otherwise the offered release.
pub fn outcome_for_manifest_for_versions(
    running_version: &str,
    update_agent_version: &str,
    manifest: &ValidatedManifest,
) -> (r: Result<DiscoveryOutcome, DiscoveryError>)
    ensures
        outcome_matches(r, outcome_spec(running_version@, update_agent_version@, *manifest)),
{
    let running = parse_version(running_version)?;
    let minimum_photoos = parse_version(manifest.minimum_photoos_version.as_str())?;
    if version_less(&running, &minimum_photoos) {
        return Ok(DiscoveryOutcome::Incompatible);
    }
    let update_agent = parse_version(update_agent_version)?;
    let minimum_agent = parse_version(manifest.minimum_update_agent_version.as_str())?;
    if version_less(&update_agent, &minimum_agent) {
        return Ok(DiscoveryOutcome::Incompatible);
    }
    let offered = parse_version(manifest.version.as_str())?;
    if !version_less(&running, &offered) {
        return Ok(DiscoveryOutcome::UpToDate);
    }
    Ok(
        DiscoveryOutcome::UpdateAvailable {
            version: manifest.version.clone(),
            release_id: manifest.release_id.clone(),
            package_filename: manifest.package_filename.clone(),
        },
    )
}

/// The outcome when the local update agent is taken to meet the manifest's
/// own agent minimum.
pub fn outcome_for_manifest(running_version: &str, manifest: &ValidatedManifest) -> (r: Result<
    DiscoveryOutcome,
    DiscoveryError,
>)
    ensures
        outcome_matches(
            r,
            outcome_spec(running_version@, manifest.minimum_update_agent_version@, *manifest),
        ),
{
    outcome_for_manifest_for_versions(
        running_version,
        manifest.minimum_update_agent_version.as_str(),
        manifest,
    )
}

/// The checks that come before a manifest is read: both response sizes in
/// bounds, then the detached signature.
pub open spec fn envelope_verdict(manifest_len: u64, signature_len: u64, signature_valid: bool) -> Result<
    (),
    DiscoveryError,
> {
    if size_verdict(manifest_len, MAX_MANIFEST_BYTES) is Err {
        Err(DiscoveryError::ResponseTooLarge)
    } else if size_verdict(signature_len, MAX_SIGNATURE_BYTES) is Err {
        Err(DiscoveryError::ResponseTooLarge)
    } else if !signature_valid {
        Err(DiscoveryError::InvalidSignature)
    } else {
        Ok(())
    }
}

/// Checks the envelope of a fetched manifest, then its contract:
/// `signature_valid` is the verdict of the detached-signature check on the
/// manifest bytes, and `document` the JSON decoding of the manifest bytes
/// (`None` when they are not a manifest document).
pub fn verify_and_parse_manifest(
    expected_channel: UpdateChannel,
    manifest_len: u64,
    signature_len: u64,
    signature_valid: bool,
    document: Option<ManifestDocument>,
) -> (r: Result<ValidatedManifest, DiscoveryError>)
    ensures
        match envelope_verdict(manifest_len, signature_len, signature_valid) {
            Err(e) => r == Err::<ValidatedManifest, DiscoveryError>(e),
            Ok(_) => match document {
                None => r == Err::<ValidatedManifest, DiscoveryError>(DiscoveryError::InvalidJson),
                Some(d) => match manifest_verdict(d, expected_channel) {
                    Ok(_) => r matches Ok(m) && carries(m, d),
                    Err(e) => r == Err::<ValidatedManifest, DiscoveryError>(e),
                },
            },
        },
{
    if validate_manifest_response_size(manifest_len).is_err() {
        return Err(DiscoveryError::ResponseTooLarge);
    }
    if validate_signature_response_size(signature_len).is_err() {
        return Err(DiscoveryError::ResponseTooLarge);
    }
    if !signature_valid {
        return Err(DiscoveryError::InvalidSignature);
    }
    match document {
        None => Err(DiscoveryError::InvalidJson),
        Some(d) => validate_manifest_document(&d, expected_channel),
    }
}

/// Full evaluation of a fetched manifest for the running release.
pub open spec fn evaluation_spec(
    expected_channel: UpdateChannel,
    running: Seq<char>,
    agent: Option<Seq<char>>,
    manifest_len: u64,
    signature_len: u64,
    signature_valid: bool,
    document: Option<ManifestDocument>,
) -> Result<OutcomeView, DiscoveryError> {
    match envelope_verdict(manifest_len, signature_len, signature_valid) {
        Err(e) => Err(e),
        Ok(_) => match document {
            None => Err(DiscoveryError::InvalidJson),
            Some(d) => match manifest_verdict(d, expected_channel) {
                Err(e) => Err(e),
                Ok(_) => {
                    let m = ValidatedManifest {
                        version: d.version,
                        release_id: d.release_id,
                        published_at: d.published_at,
                        source_commit: d.source_commit,
                        package_filename: d.package.filename,
                        package_size: d.package.size,
                        package_sha256: d.package.sha256,
                        package_signature_url: d.package.signature_url,
                        package_download_url: d.package.download_url,
                        minimum_photoos_version: d.minimums.photoos_version,
                        minimum_update_agent_version: d.minimums.update_agent_version,
                        release_notes: d.release_notes,
                    };
                    match agent {
                        Some(a) => outcome_spec(running, a, m),
                        None => outcome_spec(running, m.minimum_update_agent_version@, m),
                    }
                },
            },
        },
    }
}

/// The outcome depends only on the viewed fields that `carries` relates.
proof fn lemma_outcome_depends_on_views(running: Seq<char>, agent: Seq<char>, m1: ValidatedManifest, m2: ValidatedManifest)
    requires
        m1.version@ == m2.version@,
        m1.release_id@ == m2.release_id@,
        m1.package_filename@ == m2.package_filename@,
        m1.minimum_photoos_version@ == m2.minimum_photoos_version@,
        m1.minimum_update_agent_version@ == m2.minimum_update_agent_version@,
    ensures
        outcome_spec(running, agent, m1) == outcome_spec(running, agent, m2),
{
}

/// Evaluates a signed manifest for a release whose update agent is assumed
/// to meet the manifest's own agent minimum.
pub fn evaluate_signed_manifest(
    expected_channel: UpdateChannel,
    running_version: &str,
    manifest_len: u64,
    signature_len: u64,
    signature_valid: bool,
    document: Option<ManifestDocument>,
) -> (r: Result<DiscoveryOutcome, DiscoveryError>)
    ensures
        outcome_matches(
            r,
            evaluation_spec(
                expected_channel,
                running_version@,
                None,
                manifest_len,
                signature_len,
                signature_valid,
                document,
            ),
        ),
{
    let ghost doc = document;
    let manifest = verify_and_parse_manifest(
        expected_channel,
        manifest_len,
        signature_len,
        signature_valid,
        document,
    )?;
    proof {
        let d = doc.unwrap();
        let m = ValidatedManifest {
            version: d.version,
            release_id: d.release_id,
            published_at: d.published_at,
            source_commit: d.source_commit,
            package_filename: d.package.filename,
            package_size: d.package.size,
            package_sha256: d.package.sha256,
            package_signature_url: d.package.signature_url,
            package_download_url: d.package.download_url,
            minimum_photoos_version: d.minimums.photoos_version,
            minimum_update_agent_version: d.minimums.update_agent_version,
            release_notes: d.release_notes,
        };
        lemma_outcome_depends_on_views(running_version@, manifest.minimum_update_agent_version@, manifest, m);
    }
    outcome_for_manifest(running_version, &manifest)
}

/// Evaluates a signed manifest for a release running `running_version` with
/// the update agent at `update_agent_version`.
pub fn evaluate_signed_manifest_for_versions(
    expected_channel: UpdateChannel,
    running_version: &str,
    update_agent_version: &str,
    manifest_len: u64,
    signature_len: u64,
    signature_valid: bool,
    document: Option<ManifestDocument>,
) -> (r: Result<DiscoveryOutcome, DiscoveryError>)
    ensures
        outcome_matches(
            r,
            evaluation_spec(
                expected_channel,
                running_version@,
                Some(update_agent_version@),
                manifest_len,
                signature_len,
                signature_valid,
                document,
            ),
        ),
{
    let ghost doc = document;
    let manifest = verify_and_parse_manifest(
        expected_channel,
        manifest_len,
        signature_len,
        signature_valid,
        document,
    )?;
    proof {
        let d = doc.unwrap();
        let m = ValidatedManifest {
            version: d.version,
            release_id: d.release_id,
            published_at: d.published_at,
            source_commit: d.source_commit,
            package_filename: d.package.filename,
            package_size: d.package.size,
            package_sha256: d.package.sha256,
            package_signature_url: d.package.signature_url,
            package_download_url: d.package.download_url,
            minimum_photoos_version: d.minimums.photoos_version,
            minimum_update_agent_version: d.minimums.update_agent_version,
            release_notes: d.release_notes,
        };
        lemma_outcome_depends_on_views(running_version@, update_agent_version@, manifest, m);
    }
    outcome_for_manifest_for_versions(running_version, update_agent_version, &manifest)
}

// ---------------------------------------------------------------------------
// Laws
// ---------------------------------------------------------------------------

/// An offered update is never a downgrade or a reinstall, and is offered only
/// to an installation and update agent that meet the signed minimums.
pub proof fn lemma_update_offer_is_safe(running: Seq<char>, agent: Seq<char>, m: ValidatedManifest)
    requires
        outcome_spec(running, agent, m) matches Ok(OutcomeView::UpdateAvailable { .. }),
    ensures
        version_parse(running) is Ok,
        version_parse(agent) is Ok,
        version_parse(m.version@) is Ok,
        version_lt(version_parse(running)->Ok_0, version_parse(m.version@)->Ok_0),
        !version_lt(
            version_parse(running)->Ok_0,
            version_parse(m.minimum_photoos_version@)->Ok_0,
        ),
        !version_lt(
            version_parse(agent)->Ok_0,
            version_parse(m.minimum_update_agent_version@)->Ok_0,
        ),
        outcome_spec(running, agent, m) == Ok::<OutcomeView, DiscoveryError>(
            OutcomeView::UpdateAvailable {
                version: m.version@,
                release_id: m.release_id@,
                package_filename: m.package_filename@,
            },
        ),
{
}

/// Nothing is offered unless both responses were within bounds and the
/// detached signature verified: the signature is checked before any byte of
/// the manifest is trusted.
pub proof fn lemma_evaluation_requires_signature(
    expected_channel: UpdateChannel,
    running: Seq<char>,
    agent: Option<Seq<char>>,
    manifest_len: u64,
    signature_len: u64,
    signature_valid: bool,
    document: Option<ManifestDocument>,
)
    requires
        evaluation_spec(
            expected_channel,
            running,
            agent,
            manifest_len,
            signature_len,
            signature_valid,
            document,
        ) is Ok,
    ensures
        signature_valid,
        1 <= manifest_len <= MAX_MANIFEST_BYTES,
        1 <= signature_len <= MAX_SIGNATURE_BYTES,
        document is Some,
        manifest_verdict(document->Some_0, expected_channel) is Ok,
        expected_channel != UpdateChannel::Disabled,
{
}

/// The version order is a strict total order.
pub proof fn lemma_version_order(a: NumericVersion, b: NumericVersion, c: NumericVersion)
    ensures
        !version_lt(a, a),
        version_lt(a, b) ==> !version_lt(b, a),
        version_lt(a, b) && version_lt(b, c) ==> version_lt(a, c),
        a == b || version_lt(a, b) || version_lt(b, a),
{
}

/// The decimal form of a version: `major.minor.patch`.
pub open spec fn version_text(v: NumericVersion) -> Seq<char> {
    decimal(v.major as nat) + seq!['.'] + decimal(v.minor as nat) + seq!['.'] + decimal(v.patch as nat)
}

proof fn lemma_digit_char(d: nat)
    ensures
        is_ascii_digit(digit_char(d)),
        (digit_char(d) as u32) - 48 == d % 10,
        d % 10 != 0 ==> digit_char(d) != '0',
{
}

proof fn lemma_digit_of_char(c: char)
    requires
        is_ascii_digit(c),
    ensures
        digit_char(((c as u32) - 48) as nat) == c,
{
}

/// The decimal form of a number: digits without a leading zero, whose value
/// is the number.
proof fn lemma_decimal_digits(n: nat)
    ensures
        decimal(n).len() >= 1,
        forall|i: int| 0 <= i < decimal(n).len() ==> is_ascii_digit(#[trigger] decimal(n)[i]),
        digits_value(decimal(n)) == n,
        decimal(n).len() > 1 <==> n >= 10,
        n >= 1 ==> decimal(n)[0] != '0',
    decreases n,
{
    lemma_digit_char(n);
    if n >= 10 {
        lemma_decimal_digits(n / 10);
        lemma_digits_push(decimal(n / 10), digit_char(n % 10));
        lemma_digit_char(n % 10);
        assert((n % 10) % 10 == n % 10);
        assert(n == (n / 10) * 10 + n % 10) by (nonlinear_arith);
    } else {
        assert(seq![digit_char(n)] =~= Seq::<char>::empty().push(digit_char(n)));
        lemma_digits_push(Seq::<char>::empty(), digit_char(n));
    }
}

/// Digits without a leading zero are the decimal form of their value.
proof fn lemma_digits_decimal(s: Seq<char>)
    requires
        s.len() >= 1,
        forall|i: int| 0 <= i < s.len() ==> is_ascii_digit(#[trigger] s[i]),
        s.len() > 1 ==> s[0] != '0',
    ensures
        decimal(digits_value(s)) == s,
        s.len() > 1 ==> digits_value(s) >= 10,
        s[0] != '0' ==> digits_value(s) >= 1,
    decreases s.len(),
{
    let p = s.drop_last();
    let c = s.last();
    assert(p.push(c) =~= s);
    lemma_digits_push(p, c);
    lemma_digit_of_char(c);
    if s.len() == 1 {
        assert(p.len() == 0);
        assert(digits_value(s) == (c as u32) - 48);
        assert(decimal(digits_value(s)) =~= s);
    } else {
        assert(p[0] == s[0]);
        lemma_digits_decimal(p);
        let x = digits_value(p);
        let d = ((c as u32) - 48) as nat;
        assert(digits_value(s) == x * 10 + d);
        assert((x * 10 + d) / 10 == x && (x * 10 + d) % 10 == d) by (nonlinear_arith)
            requires
                d < 10,
        ;
        assert(d % 10 == d);
    }
}

proof fn lemma_version_part_decimal(n: u64)
    ensures
        version_part(decimal(n as nat)) == Some(n),
{
    lemma_decimal_digits(n as nat);
}

proof fn lemma_dot_count_concat(x: Seq<char>, y: Seq<char>)
    ensures
        dot_count(x + y) == dot_count(x) + dot_count(y),
    decreases y.len(),
{
    if y.len() == 0 {
        assert(x + y =~= x);
    } else {
        assert((x + y).drop_last() =~= x + y.drop_last());
        assert((x + y).last() == y.last());
        lemma_dot_count_concat(x, y.drop_last());
    }
}

/// Dots occur only before `from`.
proof fn lemma_no_dot_tail(s: Seq<char>, from: int)
    requires
        0 <= from <= s.len(),
        forall|k: int| from <= k < s.len() ==> s[k] != '.',
    ensures
        dot_count(s) == dot_count(s.take(from)),
    decreases s.len() - from,
{
    if s.len() == from {
        assert(s.take(from) =~= s);
    } else {
        assert(s.drop_last().take(from) =~= s.take(from));
        lemma_no_dot_tail(s.drop_last(), from);
    }
}

proof fn lemma_parsed_version_is_text(s: Seq<char>, v: NumericVersion)
    requires
        version_parse(s) == Ok::<NumericVersion, ManifestFault>(v),
    ensures
        s == version_text(v),
{
    let d1 = next_dot(s, 0);
    lemma_next_dot(s, 0);
    if d1 == s.len() {
        lemma_no_dot_tail(s, 0);
        assert(s.take(0).len() == 0);
        assert(false);
    }
    let d2 = next_dot(s, d1 + 1);
    lemma_next_dot(s, d1 + 1);
    if d2 == s.len() {
        lemma_no_dot_tail(s, d1 + 1);
        assert(s.take(d1 + 1) =~= s.take(d1).push('.'));
        lemma_dot_count_push(s.take(d1), '.');
        lemma_no_dot_tail(s.take(d1), 0);
        assert(s.take(d1).take(0).len() == 0);
        assert(false);
    }
    let a = s.subrange(0, d1);
    let b = s.subrange(d1 + 1, d2);
    let c = s.subrange(d2 + 1, s.len() as int);
    lemma_digits_decimal(a);
    lemma_digits_decimal(b);
    lemma_digits_decimal(c);
    assert(s =~= a + seq!['.'] + b + seq!['.'] + c);
}

proof fn lemma_digits_have_no_dot(d: Seq<char>)
    requires
        forall|i: int| 0 <= i < d.len() ==> is_ascii_digit(#[trigger] d[i]),
    ensures
        dot_count(d) == 0,
{
    lemma_no_dot_tail(d, 0);
    assert(d.take(0) =~= Seq::<char>::empty());
}

proof fn lemma_version_text_parses(v: NumericVersion)
    ensures
        version_parse(version_text(v)) == Ok::<NumericVersion, ManifestFault>(v),
{
    let s = version_text(v);
    let da = decimal(v.major as nat);
    let db = decimal(v.minor as nat);
    let dc = decimal(v.patch as nat);
    lemma_decimal_digits(v.major as nat);
    lemma_decimal_digits(v.minor as nat);
    lemma_decimal_digits(v.patch as nat);
    let la = da.len() as int;
    let lb = db.len() as int;
    assert(s[la] == '.');
    assert forall|k: int| 0 <= k < la implies s[k] != '.' by {
        assert(s[k] == da[k]);
    }
    lemma_next_dot_first(s, 0, la);
    assert(s[la + 1 + lb] == '.');
    assert forall|k: int| la + 1 <= k < la + 1 + lb implies s[k] != '.' by {
        assert(s[k] == db[k - la - 1]);
    }
    lemma_next_dot_first(s, la + 1, la + 1 + lb);
    assert(s.subrange(0, la) =~= da);
    assert(s.subrange(la + 1, la + 1 + lb) =~= db);
    assert(s.subrange(la + 2 + lb, s.len() as int) =~= dc);
    lemma_digits_have_no_dot(da);
    lemma_digits_have_no_dot(db);
    lemma_digits_have_no_dot(dc);
    assert(dot_count(seq!['.']) == 1) by {
        assert(seq!['.'] =~= Seq::<char>::empty().push('.'));
        lemma_dot_count_push(Seq::<char>::empty(), '.');
    }
    lemma_dot_count_concat(da, seq!['.']);
    lemma_dot_count_concat(da + seq!['.'], db);
    lemma_dot_count_concat(da + seq!['.'] + db, seq!['.']);
    lemma_dot_count_concat(da + seq!['.'] + db + seq!['.'], dc);
    lemma_version_part_decimal(v.major);
    lemma_version_part_decimal(v.minor);
    lemma_version_part_decimal(v.patch);
}

/// A version text parses exactly when it is the decimal form of the
/// version it yields: three dot-separated decimal numbers without leading
/// zeros, each fitting in 64 bits.
pub proof fn lemma_version_text_round_trip(s: Seq<char>, v: NumericVersion)
    ensures
        version_parse(s) == Ok::<NumericVersion, ManifestFault>(v) <==> s == version_text(v),
{
    if version_parse(s) == Ok::<NumericVersion, ManifestFault>(v) {
        lemma_parsed_version_is_text(s, v);
    }
    lemma_version_text_parses(v);
}

/// `a` is an earlier release than `b`: a smaller major number, or the same
/// major and a smaller minor number, or both the same and a smaller patch.
pub open spec fn earlier_release(a: NumericVersion, b: NumericVersion) -> bool {
    ||| a.major < b.major
    ||| a.major == b.major && a.minor < b.minor
    ||| a.major == b.major && a.minor == b.minor && a.patch < b.patch
}

/// What a manifest offers, once every version in play parses: the update
/// is incompatible exactly when the running release is earlier than the
/// signed minimum release or the agent is earlier than the signed minimum
/// agent (a release at exactly the minimum is compatible); otherwise it is
/// offered exactly when the running release is earlier than the offered
/// one, and the installation is up to date when it is not.
pub proof fn lemma_offer_follows_release_order(
    running: Seq<char>,
    agent: Seq<char>,
    m: ValidatedManifest,
    r: NumericVersion,
    a: NumericVersion,
    min_os: NumericVersion,
    min_agent: NumericVersion,
    offered: NumericVersion,
)
    requires
        version_parse(running) == Ok::<NumericVersion, ManifestFault>(r),
        version_parse(agent) == Ok::<NumericVersion, ManifestFault>(a),
        version_parse(m.minimum_photoos_version@) == Ok::<NumericVersion, ManifestFault>(min_os),
        version_parse(m.minimum_update_agent_version@) == Ok::<NumericVersion, ManifestFault>(min_agent),
        version_parse(m.version@) == Ok::<NumericVersion, ManifestFault>(offered),
    ensures
        outcome_spec(running, agent, m) == (if earlier_release(r, min_os) || earlier_release(a, min_agent) {
            Ok::<OutcomeView, DiscoveryError>(OutcomeView::Incompatible)
        } else if earlier_release(r, offered) {
            Ok(
                OutcomeView::UpdateAvailable {
                    version: m.version@,
                    release_id: m.release_id@,
                    package_filename: m.package_filename@,
                },
            )
        } else {
            Ok(OutcomeView::UpToDate)
        }),
        r == min_os && a == min_agent && earlier_release(r, offered) ==> outcome_spec(running, agent, m)
            is Ok && outcome_spec(running, agent, m)->Ok_0 is UpdateAvailable,
{
}

// ---------------------------------------------------------------------------
// Replay protection
// ---------------------------------------------------------------------------

/// What the update state store made of a verified manifest: new, seen
/// before, or older than one already accepted for the channel.
#[derive(Debug, Clone, Copy, PartialEq, Eq, Structural)]
pub enum ReplayDecision {
    Accepted,
    AlreadySeen,
    RejectedRegression,
}

/// What the update state store is shown of a verified manifest.
#[derive(Debug, Clone)]
pub struct ManifestReplayCandidate {
    pub channel: UpdateChannel,
    pub version: String,
    pub published_at: String,
    pub manifest_sha256: String,
}

/// The replay candidate of a verified manifest: its channel, version and
/// publication time, and the hex SHA-256 of the manifest bytes.
pub fn replay_candidate(
    channel: UpdateChannel,
    manifest: &ValidatedManifest,
    manifest_bytes: &[u8],
) -> (r: ManifestReplayCandidate)
    ensures
        r.channel == channel,
        r.version@ == manifest.version@,
        r.published_at@ == manifest.published_at@,
        r.manifest_sha256@ == hex_of(sha256_digest(manifest_bytes@)),
{
    ManifestReplayCandidate {
        channel,
        version: manifest.version.clone(),
        published_at: manifest.published_at.clone(),
        manifest_sha256: sha256_hex(manifest_bytes),
    }
}

/// The outcome once the store has judged the manifest: a regression is
/// refused as a replay; otherwise the manifest decides as usual.
pub fn outcome_after_replay(
    decision: ReplayDecision,
    running_version: &str,
    update_agent_version: &str,
    manifest: &ValidatedManifest,
) -> (r: Result<DiscoveryOutcome, DiscoveryError>)
    ensures
        decision == ReplayDecision::RejectedRegression ==> r == Ok::<
            DiscoveryOutcome,
            DiscoveryError,
        >(DiscoveryOutcome::ReplayRejected),
        decision != ReplayDecision::RejectedRegression ==> outcome_matches(
            r,
            outcome_spec(running_version@, update_agent_version@, *manifest),
        ),
{
    match decision {
        ReplayDecision::RejectedRegression => Ok(DiscoveryOutcome::ReplayRejected),
        _ => outcome_for_manifest_for_versions(running_version, update_agent_version, manifest),
    }
}

} // verus!
