//! The identity checks of the update API: a client names an update only by
//! version, release id and package file name, and every URL, hash, size and
//! path used afterwards comes from the signed manifest or the server's own
//! records.
use vstd::prelude::*;

use crate::paths::{file_name, file_name_of, has_parent_component, has_parent_part, is_absolute};
use crate::text::{ascii_lower, chars_of, extend_str, has_suffix, str_ends_with, string_of, text_eq};
use crate::digest::{hex_of, sha256_digest, sha256_hex};
use crate::update_agent_flow::{
    StagedPackage, AgentPackageIdentity, InstallApproval, VerifiedAgentPackage, valid_sha256,
};
use crate::update_discovery::{ValidatedManifest, lower_hex_of_len};

verus! {

/// The update a client asks to download.
#[derive(Debug, Clone, PartialEq, Eq)]
pub struct DownloadUpdateRequest {
    pub version: String,
    pub release_id: String,
    pub package_filename: String,
}

/// The staged update a client asks to have verified.
#[derive(Debug, Clone, PartialEq, Eq)]
pub struct VerifyStagedUpdateRequest {
    pub version: String,
    pub release_id: String,
    pub package_filename: String,
}

/// A request to install a verified update operation.
#[derive(Debug, Clone, PartialEq, Eq)]
pub struct InstallVerifiedUpdateRequest {
    pub operation_id: String,
    pub approved: bool,
}

/// What the package downloader is told to fetch, and where to stage it.
#[derive(Debug, Clone, PartialEq, Eq)]
pub struct PackageDownloadRequest {
    pub download_url: String,
    pub signature_url: String,
    pub filename: String,
    pub expected_size: u64,
    pub expected_sha256: String,
    pub staging_directory: String,
}

/// Stage of a recorded update operation.
#[derive(Debug, Clone, Copy, PartialEq, Eq, Structural)]
pub enum UpdateOperationStatus {
    Verified,
    Installing,
    Failed,
}

/// The server's record of a package the agent verified.
#[derive(Debug, Clone, PartialEq, Eq)]
pub struct VerifiedUpdateOperationRecord {
    pub operation_id: String,
    pub target_version: String,
    pub release_id: String,
    pub package_filename: String,
    pub package_sha256: String,
    pub package_size: u64,
    pub status: UpdateOperationStatus,
    pub updated_at: String,
}

pub open spec fn same_identity(
    version: Seq<char>,
    release_id: Seq<char>,
    filename: Seq<char>,
    manifest: ValidatedManifest,
) -> bool {
    version == manifest.version@ && release_id == manifest.release_id@ && filename
        == manifest.package_filename@
}

/// The requested download must name exactly the signed manifest's version,
/// release id and package file name.
pub fn validate_download_target(target: &DownloadUpdateRequest, manifest: &ValidatedManifest) -> (r:
    Result<(), String>)
    ensures
        r is Ok <==> same_identity(
            target.version@,
            target.release_id@,
            target.package_filename@,
            *manifest,
        ),
        r matches Err(e) ==> e@ == "requested update identity no longer matches the current signed manifest"@,
{
    if !text_eq(target.version.as_str(), manifest.version.as_str()) || !text_eq(
        target.release_id.as_str(),
        manifest.release_id.as_str(),
    ) || !text_eq(target.package_filename.as_str(), manifest.package_filename.as_str()) {
        return Err("requested update identity no longer matches the current signed manifest".to_string());
    }
    Ok(())
}

/// The staged update to verify must name exactly the signed manifest's
/// version, release id and package file name.
pub fn validate_verify_target(target: &VerifyStagedUpdateRequest, manifest: &ValidatedManifest) -> (r:
    Result<(), String>)
    ensures
        r is Ok <==> same_identity(
            target.version@,
            target.release_id@,
            target.package_filename@,
            *manifest,
        ),
        r matches Err(e) ==> e@ == "requested staged update identity does not match the current signed manifest"@,
{
    if !text_eq(target.version.as_str(), manifest.version.as_str()) || !text_eq(
        target.release_id.as_str(),
        manifest.release_id.as_str(),
    ) || !text_eq(target.package_filename.as_str(), manifest.package_filename.as_str()) {
        return Err(
            "requested staged update identity does not match the current signed manifest".to_string(),
        );
    }
    Ok(())
}

/// `<runtime_root>/updates/staging`, for an absolute runtime root without
/// `..` components.
pub open spec fn staging_directory_of(root: Seq<char>) -> Option<Seq<char>> {
    if root.len() == 0 || !is_absolute(root) || has_parent_part(root) {
        None
    } else if root.last() == '/' {
        Some(root + "updates/staging"@)
    } else {
        Some(root + "/updates/staging"@)
    }
}

/// Why a runtime root has no staging directory.
pub open spec fn staging_error(root: Seq<char>) -> Seq<char> {
    if root.len() == 0 || !is_absolute(root) {
        "runtime directory must be an absolute path"@
    } else {
        "runtime directory cannot contain parent traversal"@
    }
}

/// The staging directory beneath the runtime root.
pub fn update_staging_directory(runtime_root: &str) -> (r: Result<String, String>)
    ensures
        match staging_directory_of(runtime_root@) {
            Some(d) => r matches Ok(s) && s@ == d,
            None => r matches Err(e) && e@ == staging_error(runtime_root@),
        },
{
    let mut root = chars_of(runtime_root);
    if root.len() == 0 || root[0] != '/' {
        return Err("runtime directory must be an absolute path".to_string());
    }
    if has_parent_component(&root) {
        return Err("runtime directory cannot contain parent traversal".to_string());
    }
    if root[root.len() - 1] == '/' {
        extend_str(&mut root, "updates/staging");
    } else {
        extend_str(&mut root, "/updates/staging");
    }
    Ok(string_of(&root))
}

/// The downloader request is built from the signed manifest alone.
pub fn package_download_request_from_manifest(manifest: &ValidatedManifest, runtime_root: &str) -> (r:
    Result<PackageDownloadRequest, String>)
    ensures
        match staging_directory_of(runtime_root@) {
            None => r matches Err(e) && e@ == staging_error(runtime_root@),
            Some(d) => r matches Ok(q) && {
                &&& q.download_url@ == manifest.package_download_url@
                &&& q.signature_url@ == manifest.package_signature_url@
                &&& q.filename@ == manifest.package_filename@
                &&& q.expected_size == manifest.package_size
                &&& q.expected_sha256@ == manifest.package_sha256@
                &&& q.staging_directory@ == d
            },
        },
{
    let staging_directory = update_staging_directory(runtime_root)?;
    Ok(
        PackageDownloadRequest {
            download_url: manifest.package_download_url.clone(),
            signature_url: manifest.package_signature_url.clone(),
            filename: manifest.package_filename.clone(),
            expected_size: manifest.package_size,
            expected_sha256: manifest.package_sha256.clone(),
            staging_directory,
        },
    )
}

/// Installation needs `approved: true` in the request.
pub fn explicit_install_approval(request: &InstallVerifiedUpdateRequest) -> (r: Result<
    InstallApproval,
    String,
>)
    ensures
        request.approved ==> r == Ok::<InstallApproval, String>(InstallApproval::Approved),
        !request.approved ==> (r matches Err(e) && e@ == "explicit install approval is required"@),
{
    if !request.approved {
        return Err("explicit install approval is required".to_string());
    }
    Ok(InstallApproval::Approved)
}

/// A hexadecimal digit, in either case.
pub open spec fn is_hex_digit(c: char) -> bool {
    ('0' <= c && c <= '9') || ('a' <= c && c <= 'f') || ('A' <= c && c <= 'F')
}

/// 32 hex digits in groups of 8, 4, 4, 4 and 12, joined by hyphens.
pub open spec fn hyphenated_uuid(s: Seq<char>) -> bool {
    &&& s.len() == 36
    &&& forall|i: int|
        0 <= i < 36 ==> if i == 8 || i == 13 || i == 18 || i == 23 {
            #[trigger] s[i] == '-'
        } else {
            is_hex_digit(s[i])
        }
}

/// The texts `uuid::Uuid::parse_str` accepts: 32 hex digits, the
/// hyphenated form, the hyphenated form in braces, or the hyphenated form
/// after `urn:uuid:` in any case.
pub open spec fn uuid_accepts(s: Seq<char>) -> bool {
    ||| s.len() == 32 && forall|i: int| 0 <= i < 32 ==> is_hex_digit(#[trigger] s[i])
    ||| hyphenated_uuid(s)
    ||| s.len() == 38 && s[0] == '{' && s[37] == '}' && hyphenated_uuid(s.subrange(1, 37))
    ||| s.len() == 45 && ascii_lower(s.take(9)) == "urn:uuid:"@ && hyphenated_uuid(s.skip(9))
}

/// Calls `uuid::Uuid::parse_str` and reports whether it parsed. Trusted:
/// it accepts exactly the forms of `uuid_accepts` (the crate's parser
/// checks the byte length, hyphen positions and hex digits; every accepted
/// text is ASCII, so bytes and characters agree).
#[verifier::external_body]
pub(crate) fn is_uuid(s: &str) -> (r: bool)
    ensures
        r == uuid_accepts(s@),
{
    uuid::Uuid::parse_str(s).is_ok()
}

/// The agent's verification may become install authority only for a
/// well-formed operation id and exactly the requested version and file,
/// with a non-empty size and a valid hash.
pub open spec fn operation_accepts(
    operation_id: Seq<char>,
    target: VerifyStagedUpdateRequest,
    verified: VerifiedAgentPackage,
) -> bool {
    &&& uuid_accepts(operation_id)
    &&& verified.version@ == target.version@
    &&& verified.identity.filename@ == target.package_filename@
    &&& verified.identity.size != 0
    &&& lower_hex_of_len(verified.identity.sha256@, 64)
}

/// Records the agent's verification as an operation in state `Verified`.
pub fn verified_operation_from_agent(
    operation_id: &str,
    target: &VerifyStagedUpdateRequest,
    verified: &VerifiedAgentPackage,
    updated_at: &str,
) -> (r: Result<VerifiedUpdateOperationRecord, String>)
    ensures
        !uuid_accepts(operation_id@) ==> (r matches Err(e) && e@ == "invalid update operation id"@),
        uuid_accepts(operation_id@) && !operation_accepts(operation_id@, *target, *verified) ==> (
        r matches Err(e) && e@ == "verified Agent identity is invalid"@),
        r is Ok <==> operation_accepts(operation_id@, *target, *verified),
        r matches Ok(rec) ==> {
            &&& rec.operation_id@ == operation_id@
            &&& rec.target_version@ == target.version@
            &&& rec.release_id@ == target.release_id@
            &&& rec.package_filename@ == verified.identity.filename@
            &&& rec.package_sha256@ == verified.identity.sha256@
            &&& rec.package_size == verified.identity.size
            &&& rec.status == UpdateOperationStatus::Verified
            &&& rec.updated_at@ == updated_at@
        },
{
    if !is_uuid(operation_id) {
        return Err("invalid update operation id".to_string());
    }
    if !text_eq(verified.version.as_str(), target.version.as_str()) || !text_eq(
        verified.identity.filename.as_str(),
        target.package_filename.as_str(),
    ) || verified.identity.size == 0 || !valid_sha256(verified.identity.sha256.as_str()) {
        return Err("verified Agent identity is invalid".to_string());
    }
    Ok(
        VerifiedUpdateOperationRecord {
            operation_id: operation_id.to_string(),
            target_version: target.version.clone(),
            release_id: target.release_id.clone(),
            package_filename: verified.identity.filename.clone(),
            package_sha256: verified.identity.sha256.clone(),
            package_size: verified.identity.size,
            status: UpdateOperationStatus::Verified,
            updated_at: updated_at.to_string(),
        },
    )
}

/// A claimed record yields install authority only in state `Installing`,
/// for a `.popkg` leaf file name, a non-empty size and a valid hash.
pub open spec fn claim_accepts(op: VerifiedUpdateOperationRecord) -> bool {
    &&& op.status == UpdateOperationStatus::Installing
    &&& op.package_filename@.len() != 0
    &&& file_name(op.package_filename@) == Some(op.package_filename@)
    &&& has_suffix(op.package_filename@, ".popkg"@)
    &&& op.package_size != 0
    &&& lower_hex_of_len(op.package_sha256@, 64)
}

/// Rebuilds the package to install from the claimed database record alone.
pub fn verified_agent_package_from_operation(operation: &VerifiedUpdateOperationRecord) -> (r: Result<
    VerifiedAgentPackage,
    String,
>)
    ensures
        r is Ok <==> claim_accepts(*operation),
        operation.status != UpdateOperationStatus::Installing ==> (r matches Err(e) && e@
            == "update operation is not claimed for install"@),
        operation.status == UpdateOperationStatus::Installing && !claim_accepts(*operation) ==> (
        r matches Err(e) && e@ == "claimed update package identity is invalid"@),
        r matches Ok(p) ==> {
            &&& p.identity.filename@ == operation.package_filename@
            &&& p.identity.sha256@ == operation.package_sha256@
            &&& p.identity.size == operation.package_size
            &&& p.version@ == operation.target_version@
        },
{
    if operation.status != UpdateOperationStatus::Installing {
        return Err("update operation is not claimed for install".to_string());
    }
    let filename = operation.package_filename.as_str();
    let leaf_ok = match file_name_of(filename) {
        Some(leaf) => text_eq(leaf.as_str(), filename),
        None => false,
    };
    if filename.unicode_len() == 0 || !leaf_ok || !str_ends_with(filename, ".popkg")
        || operation.package_size == 0 || !valid_sha256(operation.package_sha256.as_str()) {
        return Err("claimed update package identity is invalid".to_string());
    }
    Ok(
        VerifiedAgentPackage {
            identity: AgentPackageIdentity {
                filename: operation.package_filename.clone(),
                sha256: operation.package_sha256.clone(),
                size: operation.package_size,
            },
            version: operation.target_version.clone(),
        },
    )
}

/// What is installed is what the agent verified: recording a verification
/// and later claiming that record for installation gives back the verified
/// file, hash and size, and the requested version (when the verified file
/// name is a `.popkg` leaf).
pub proof fn lemma_install_identity_round_trip(
    operation_id: Seq<char>,
    target: VerifyStagedUpdateRequest,
    verified: VerifiedAgentPackage,
    recorded: VerifiedUpdateOperationRecord,
    claimed: VerifiedUpdateOperationRecord,
)
    requires
        operation_accepts(operation_id, target, verified),
        recorded.package_filename@ == verified.identity.filename@,
        recorded.package_sha256@ == verified.identity.sha256@,
        recorded.package_size == verified.identity.size,
        recorded.target_version@ == target.version@,
        claimed == (VerifiedUpdateOperationRecord {
            status: UpdateOperationStatus::Installing,
            ..recorded
        }),
        file_name(verified.identity.filename@) == Some(verified.identity.filename@),
        has_suffix(verified.identity.filename@, ".popkg"@),
    ensures
        claim_accepts(claimed),
{
    assert(verified.identity.filename@.len() != 0) by {
        reveal_strlit(".popkg");
    }
}

/// What is known of the staged file before its bytes are trusted: whether
/// the staging directory is a real directory (not a symbolic link), whether
/// the staged file is a regular file (not a symbolic link), whether its
/// resolved path lies directly in the resolved staging directory, and the
/// size its metadata reports.
#[derive(Debug, Clone)]
pub struct StagedFileFacts {
    pub path: String,
    pub staging_is_real_dir: bool,
    pub file_is_regular: bool,
    pub inside_staging: bool,
    pub size: u64,
}

/// Verdict on a staged file read back from the server's own staging
/// directory: the identity the client named must match the signed
/// manifest, the file must be a regular file directly inside a real
/// staging directory, and its size and SHA-256 must be the manifest's.
pub open spec fn staged_check(
    target: VerifyStagedUpdateRequest,
    manifest: ValidatedManifest,
    facts: StagedFileFacts,
    content: Seq<u8>,
) -> Result<(), Seq<char>> {
    if !same_identity(target.version@, target.release_id@, target.package_filename@, manifest) {
        Err("requested staged update identity does not match the current signed manifest"@)
    } else if !facts.staging_is_real_dir {
        Err("staging directory is not a real directory"@)
    } else if !facts.file_is_regular {
        Err("staged package must be a regular file"@)
    } else if !facts.inside_staging {
        Err("staged package escaped the staging directory"@)
    } else if facts.size != manifest.package_size {
        Err("staged package size does not match signed manifest"@)
    } else if content.len() != manifest.package_size {
        Err("staged package size changed during verification"@)
    } else if hex_of(sha256_digest(content)) != manifest.package_sha256@ {
        Err("staged package SHA256 does not match signed manifest"@)
    } else {
        Ok(())
    }
}

/// Checks a staged package against the signed manifest. The client names
/// only the version, release id and file name; the size and hash come from
/// the manifest, and the bytes are hashed here.
pub fn check_staged_package(
    target: &VerifyStagedUpdateRequest,
    manifest: &ValidatedManifest,
    facts: &StagedFileFacts,
    content: &[u8],
) -> (r: Result<StagedPackage, String>)
    ensures
        match staged_check(*target, *manifest, *facts, content@) {
            Ok(()) => r matches Ok(p) && {
                &&& p.path@ == facts.path@
                &&& p.size == manifest.package_size
                &&& p.sha256@ == manifest.package_sha256@
                &&& p.sha256@ == hex_of(sha256_digest(content@))
            },
            Err(m) => r matches Err(e) && e@ == m,
        },
{
    validate_verify_target(target, manifest)?;
    if !facts.staging_is_real_dir {
        return Err("staging directory is not a real directory".to_string());
    }
    if !facts.file_is_regular {
        return Err("staged package must be a regular file".to_string());
    }
    if !facts.inside_staging {
        return Err("staged package escaped the staging directory".to_string());
    }
    if facts.size != manifest.package_size {
        return Err("staged package size does not match signed manifest".to_string());
    }
    if content.len() as u64 != manifest.package_size {
        return Err("staged package size changed during verification".to_string());
    }
    let sha256 = sha256_hex(content);
    if !text_eq(sha256.as_str(), manifest.package_sha256.as_str()) {
        return Err("staged package SHA256 does not match signed manifest".to_string());
    }
    Ok(StagedPackage { path: facts.path.clone(), size: content.len() as u64, sha256 })
}

} // verus!
