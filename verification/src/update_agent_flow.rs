//! The exchange with the local Update Agent that uploads a staged package,
//! has the agent verify it, and installs it only on explicit approval.
//!
//! Each step here is the decision taken on what the agent answered; the
//! caller performs the HTTP requests in between.
use vstd::prelude::*;

use crate::paths::{file_name, file_name_of};
use crate::text::{chars_of, contains_char, has_char, has_suffix, str_ends_with, text_eq};
use crate::update_discovery::{lower_hex_of_len, valid_lower_hex};

verus! {

/// What identifies a package to the agent.
#[derive(Debug, Clone, PartialEq, Eq)]
pub struct AgentPackageIdentity {
    pub filename: String,
    pub sha256: String,
    pub size: u64,
}

/// A package the agent verified, with the version it reported.
#[derive(Debug, Clone, PartialEq, Eq)]
pub struct VerifiedAgentPackage {
    pub identity: AgentPackageIdentity,
    pub version: String,
}

/// Whether the administrator approved an installation.
#[derive(Debug, Clone, Copy, PartialEq, Eq, Structural)]
pub enum InstallApproval {
    NotApproved,
    Approved,
}

/// Why the exchange with the agent stopped.
#[derive(Debug, Clone, PartialEq, Eq)]
pub enum AgentFlowError {
    InvalidStagedPackage,
    Transport(String),
    UploadRejected(u16),
    UploadResponseInvalid,
    UploadIdentityMismatch,
    VerifyRejected,
    VerifyIdentityMismatch,
    InstallNotApproved,
    InstallRejected(u16),
    InstallResponseInvalid,
}

/// A package downloaded and hashed into the staging directory.
#[derive(Debug, Clone, PartialEq, Eq)]
pub struct StagedPackage {
    pub path: String,
    pub size: u64,
    pub sha256: String,
}

/// The fields of the agent's upload answer that the flow reads.
#[derive(Debug, Clone)]
pub struct UploadReply {
    pub success: Option<bool>,
    pub uploaded: Option<bool>,
    pub filename: Option<String>,
    pub sha256: Option<String>,
    pub size_bytes: Option<u64>,
}

/// The fields of the agent's verification answer that the flow reads.
#[derive(Debug, Clone)]
pub struct VerifyReply {
    pub valid: Option<bool>,
    pub filename: Option<String>,
    pub package_sha256: Option<String>,
    pub version: Option<String>,
}

/// The fields of the agent's install answer that the flow reads.
#[derive(Debug, Clone, Copy)]
pub struct InstallReply {
    pub accepted: Option<bool>,
    pub success: Option<bool>,
    pub started: Option<bool>,
}

pub open spec fn identity_eq(a: AgentPackageIdentity, b: AgentPackageIdentity) -> bool {
    a.filename@ == b.filename@ && a.sha256@ == b.sha256@ && a.size == b.size
}

pub open spec fn status_ok(status: u16) -> bool {
    200 <= status < 300
}

/// A staged file name the agent may receive.
pub open spec fn staged_name_ok(name: Seq<char>) -> bool {
    &&& name.len() != 0
    &&& name != "."@
    &&& name != ".."@
    &&& !has_char(name, '/')
    &&& !has_char(name, '\\')
    &&& has_suffix(name, ".popkg"@)
}

/// The file name under which a staged package is uploaded, if it is valid.
pub open spec fn staged_name(staged: StagedPackage) -> Option<Seq<char>> {
    match file_name(staged.path@) {
        None => None,
        Some(n) => if staged_name_ok(n) && staged.size != 0 && lower_hex_of_len(
            staged.sha256@,
            64,
        ) {
            Some(n)
        } else {
            None
        },
    }
}

/// 64 lower-case hexadecimal digits.
pub fn valid_sha256(value: &str) -> (r: bool)
    ensures
        r == lower_hex_of_len(value@, 64),
{
    valid_lower_hex(value, 64)
}

/// A 2xx HTTP status.
pub fn successful_status(status: u16) -> (r: bool)
    ensures
        r == status_ok(status),
{
    200 <= status && status < 300
}

/// The name under which the staged package is uploaded: its file name,
/// which must be a `.popkg` leaf, for a non-empty package with a valid hash.
pub fn staged_filename(staged: &StagedPackage) -> (r: Result<String, AgentFlowError>)
    ensures
        match staged_name(*staged) {
            Some(n) => r matches Ok(s) && s@ == n,
            None => r == Err::<String, AgentFlowError>(AgentFlowError::InvalidStagedPackage),
        },
{
    let filename = match file_name_of(staged.path.as_str()) {
        Some(f) => f,
        None => return Err(AgentFlowError::InvalidStagedPackage),
    };
    let chars = chars_of(filename.as_str());
    if chars.len() == 0 || text_eq(filename.as_str(), ".") || text_eq(filename.as_str(), "..")
        || contains_char(&chars, '/') || contains_char(&chars, '\\') || !str_ends_with(
        filename.as_str(),
        ".popkg",
    ) {
        return Err(AgentFlowError::InvalidStagedPackage);
    }
    if staged.size == 0 || !valid_sha256(staged.sha256.as_str()) {
        return Err(AgentFlowError::InvalidStagedPackage);
    }
    Ok(filename)
}

pub open spec fn upload_identity(reply: UploadReply) -> Option<(Seq<char>, Seq<char>, u64)> {
    if !(reply.success == Some(true) || reply.uploaded == Some(true)) {
        None
    } else {
        match (reply.filename, reply.sha256, reply.size_bytes) {
            (Some(f), Some(h), Some(n)) => if f@.len() == 0 || !lower_hex_of_len(h@, 64) || n
                == 0 {
                None
            } else {
                Some((f@, h@, n))
            },
            _ => None,
        }
    }
}

/// The identity the agent reports for an upload: the upload must be marked
/// successful and name a file, a valid hash and a non-zero size.
pub fn parse_upload_identity(reply: &UploadReply) -> (r: Result<AgentPackageIdentity, AgentFlowError>)
    ensures
        match upload_identity(*reply) {
            Some((f, h, n)) => r matches Ok(id) && id.filename@ == f && id.sha256@ == h && id.size
                == n,
            None => r == Err::<AgentPackageIdentity, AgentFlowError>(
                AgentFlowError::UploadResponseInvalid,
            ),
        },
{
    let succeeded = reply.success == Some(true) || reply.uploaded == Some(true);
    if !succeeded {
        return Err(AgentFlowError::UploadResponseInvalid);
    }
    let filename = match &reply.filename {
        Some(f) => f.clone(),
        None => return Err(AgentFlowError::UploadResponseInvalid),
    };
    let sha256 = match &reply.sha256 {
        Some(h) => h.clone(),
        None => return Err(AgentFlowError::UploadResponseInvalid),
    };
    let size = match reply.size_bytes {
        Some(n) => n,
        None => return Err(AgentFlowError::UploadResponseInvalid),
    };
    if filename.as_str().unicode_len() == 0 || !valid_sha256(sha256.as_str()) || size == 0 {
        return Err(AgentFlowError::UploadResponseInvalid);
    }
    Ok(AgentPackageIdentity { filename, sha256, size })
}

/// Starts the exchange: the name to upload the staged package under.
pub fn begin_upload(staged: &StagedPackage) -> (r: Result<String, AgentFlowError>)
    ensures
        match staged_name(*staged) {
            Some(n) => r matches Ok(s) && s@ == n,
            None => r == Err::<String, AgentFlowError>(AgentFlowError::InvalidStagedPackage),
        },
{
    staged_filename(staged)
}

/// Decides on the agent's answer to the upload of `staged` under `filename`:
/// it must be a 2xx answer that reports exactly the staged file name, hash
/// and size; only then may verification be requested, for that identity.
pub fn after_upload(
    staged: &StagedPackage,
    filename: &String,
    status: u16,
    reply: &UploadReply,
) -> (r: Result<AgentPackageIdentity, AgentFlowError>)
    ensures
        !status_ok(status) ==> r == Err::<AgentPackageIdentity, AgentFlowError>(
            AgentFlowError::UploadRejected(status),
        ),
        status_ok(status) && upload_identity(*reply) is None ==> r == Err::<
            AgentPackageIdentity,
            AgentFlowError,
        >(AgentFlowError::UploadResponseInvalid),
        status_ok(status) ==> (upload_identity(*reply) matches Some(u) ==> (if u.0 == filename@
            && u.1 == staged.sha256@ && u.2 == staged.size {
            r matches Ok(id) && id.filename@ == filename@ && id.sha256@ == staged.sha256@
                && id.size == staged.size
        } else {
            r == Err::<AgentPackageIdentity, AgentFlowError>(
                AgentFlowError::UploadIdentityMismatch,
            )
        })),
{
    if !successful_status(status) {
        return Err(AgentFlowError::UploadRejected(status));
    }
    let uploaded = parse_upload_identity(reply)?;
    let expected = AgentPackageIdentity {
        filename: filename.clone(),
        sha256: staged.sha256.clone(),
        size: staged.size,
    };
    if !(text_eq(uploaded.filename.as_str(), expected.filename.as_str()) && text_eq(
        uploaded.sha256.as_str(),
        expected.sha256.as_str(),
    ) && uploaded.size == expected.size) {
        return Err(AgentFlowError::UploadIdentityMismatch);
    }
    Ok(expected)
}

pub open spec fn verify_accepts(
    reply: VerifyReply,
    expected: AgentPackageIdentity,
    expected_version: Seq<char>,
) -> bool {
    match (reply.filename, reply.package_sha256, reply.version) {
        (Some(f), Some(h), Some(v)) => f@ == expected.filename@ && h@ == expected.sha256@ && v@
            == expected_version,
        _ => false,
    }
}

/// Decides on the agent's verification answer: a 2xx answer with
/// `valid: true` that names the uploaded file and hash and the expected
/// version yields the verified package.
pub fn after_verify(
    expected: &AgentPackageIdentity,
    expected_version: &str,
    status: u16,
    reply: &VerifyReply,
) -> (r: Result<VerifiedAgentPackage, AgentFlowError>)
    ensures
        !status_ok(status) || reply.valid != Some(true) ==> r == Err::<
            VerifiedAgentPackage,
            AgentFlowError,
        >(AgentFlowError::VerifyRejected),
        status_ok(status) && reply.valid == Some(true) ==> (if verify_accepts(
            *reply,
            *expected,
            expected_version@,
        ) {
            r matches Ok(p) && identity_eq(p.identity, *expected) && p.version@ == expected_version@
        } else {
            r == Err::<VerifiedAgentPackage, AgentFlowError>(AgentFlowError::VerifyIdentityMismatch)
        }),
{
    if !successful_status(status) {
        return Err(AgentFlowError::VerifyRejected);
    }
    if reply.valid != Some(true) {
        return Err(AgentFlowError::VerifyRejected);
    }
    let filename = match &reply.filename {
        Some(f) => f,
        None => return Err(AgentFlowError::VerifyIdentityMismatch),
    };
    let sha256 = match &reply.package_sha256 {
        Some(h) => h,
        None => return Err(AgentFlowError::VerifyIdentityMismatch),
    };
    let version = match &reply.version {
        Some(v) => v,
        None => return Err(AgentFlowError::VerifyIdentityMismatch),
    };
    if !text_eq(filename.as_str(), expected.filename.as_str()) || !text_eq(
        sha256.as_str(),
        expected.sha256.as_str(),
    ) || !text_eq(version.as_str(), expected_version) {
        return Err(AgentFlowError::VerifyIdentityMismatch);
    }
    Ok(
        VerifiedAgentPackage {
            identity: AgentPackageIdentity {
                filename: expected.filename.clone(),
                sha256: expected.sha256.clone(),
                size: expected.size,
            },
            version: version.clone(),
        },
    )
}

/// The approval gate, passed before any install request is sent.
pub fn install_gate(approval: InstallApproval) -> (r: Result<(), AgentFlowError>)
    ensures
        r is Ok <==> approval == InstallApproval::Approved,
        r is Err ==> r == Err::<(), AgentFlowError>(AgentFlowError::InstallNotApproved),
{
    if approval != InstallApproval::Approved {
        return Err(AgentFlowError::InstallNotApproved);
    }
    Ok(())
}

/// Decides on the agent's answer to an install request: any 2xx answer is
/// accepted unless it marks `accepted`, `success` or `started` as false.
pub fn after_install(status: u16, reply: &InstallReply) -> (r: Result<(), AgentFlowError>)
    ensures
        !status_ok(status) ==> r == Err::<(), AgentFlowError>(AgentFlowError::InstallRejected(status)),
        status_ok(status) ==> (if reply.accepted == Some(false) || reply.success == Some(false)
            || reply.started == Some(false) {
            r == Err::<(), AgentFlowError>(AgentFlowError::InstallResponseInvalid)
        } else {
            r is Ok
        }),
{
    if !successful_status(status) {
        return Err(AgentFlowError::InstallRejected(status));
    }
    if reply.accepted == Some(false) || reply.success == Some(false) || reply.started == Some(
        false,
    ) {
        return Err(AgentFlowError::InstallResponseInvalid);
    }
    Ok(())
}

/// Whatever the agent answers, a verified package carries exactly the staged
/// package's file name, hash and size, and the version that was expected:
/// an upload or verification that names anything else stops the flow.
pub proof fn lemma_verified_package_is_the_staged_package(
    staged: StagedPackage,
    filename: String,
    expected: AgentPackageIdentity,
    expected_version: Seq<char>,
    verified: VerifiedAgentPackage,
)
    requires
        staged_name(staged) == Some(filename@),
        expected.filename@ == filename@,
        expected.sha256@ == staged.sha256@,
        expected.size == staged.size,
        identity_eq(verified.identity, expected),
        verified.version@ == expected_version,
    ensures
        file_name(staged.path@) == Some(verified.identity.filename@),
        verified.identity.sha256@ == staged.sha256@,
        verified.identity.size == staged.size,
        staged.size != 0,
        has_suffix(verified.identity.filename@, ".popkg"@),
{
}

} // verus!
