//! The decisions of the update API's handlers, one step at a time. A
//! handler runs a loop: it asks the step function what to do, performs that
//! outside work (reading the channel, asking the agent, fetching the signed
//! manifest, staging or verifying a package) and hands back what came of it.
//! The step functions decide every answer and every piece of outside work.
use vstd::prelude::*;

use crate::text::{
    contains_char, contains_sub, has_char, has_sub, chars_of, find_char, first_index, has_suffix, lemma_first_index, seq_eq, slice_chars, split_chars,
    split_on, str_ends_with, string_of, text_eq, trim, trim_string, trimmed, views,
};
use crate::paths::{file_name, file_name_of};
use crate::update_agent_flow::{InstallApproval, StagedPackage, VerifiedAgentPackage};
use crate::update_channel::{UpdateChannel, channel_named, parse_update_channel_name};
use crate::update_discovery::{DiscoveryOutcome, ValidatedManifest};
use crate::updates::{
    StagedFileFacts, check_staged_package, staged_check,
    DownloadUpdateRequest, InstallVerifiedUpdateRequest, PackageDownloadRequest,
    VerifiedUpdateOperationRecord, VerifyStagedUpdateRequest, claim_accepts, explicit_install_approval,
    is_uuid, operation_accepts, package_download_request_from_manifest, same_identity,
    staging_directory_of, staging_error, uuid_accepts, validate_download_target, validate_verify_target,
    verified_agent_package_from_operation, verified_operation_from_agent,
};

verus! {

/// The answer of an update handler.
#[derive(Debug, Clone)]
pub enum UpdateReply {
    /// An error answer: HTTP status, error code and an optional message.
    Refused { status: u16, error: &'static str, message: Option<String> },
    /// The result of a discovery check (200).
    Discovery {
        channel: UpdateChannel,
        running_version: String,
        update_agent_version: String,
        outcome: DiscoveryOutcome,
    },
    /// A package was downloaded and staged (201).
    Staged {
        version: String,
        release_id: String,
        package_filename: String,
        size: u64,
        sha256: String,
    },
    /// The agent verified the staged package; an operation records it (200).
    Verified {
        operation_id: String,
        version: String,
        release_id: String,
        package_filename: String,
        size: u64,
        sha256: String,
    },
    /// The agent refused or failed the installation of an operation (502).
    InstallFailed { operation_id: String, reason: String },
    /// The agent started installing (202).
    Installing {
        operation_id: String,
        version: String,
        release_id: String,
        package_filename: String,
    },
}

/// Outside work that failed, with what it reported.
#[derive(Debug, Clone)]
pub enum OutsideFailure {
    /// The update state store could not be read or written.
    UpdateState(String),
    /// The agent's status could not be fetched.
    AgentUnavailable(String),
    /// The agent answered its status with a status code outside 2xx.
    AgentStatus(u16),
    /// The agent's status named no version.
    AgentResponseInvalid,
    /// The discovery service could not be set up.
    DiscoveryInit(String),
    /// The signed manifest could not be fetched or verified again.
    ManifestRefresh(String),
    /// The update check itself failed.
    UpdateCheck(String),
    /// The package downloader could not be set up.
    DownloaderInit(String),
    /// Downloading or staging the package failed.
    Download(String),
    /// The staged package does not match the signed manifest.
    StagedPackage(String),
    /// The agent's token could not be read.
    AgentConfiguration(String),
    /// Uploading to or verifying with the agent failed.
    AgentVerification(String),
    /// The verified operation could not be stored.
    OperationPersist(String),
    /// The agent refused or failed the installation.
    AgentInstall(String),
}

pub open spec fn refused(r: UpdateReply, status: u16, error: Seq<char>, message: Option<Seq<char>>) -> bool {
    r matches UpdateReply::Refused { status: s, error: e, message: m } && s == status && e@ == error
        && match (m, message) {
        (Some(a), Some(b)) => a@ == b,
        (None, None) => true,
        _ => false,
    }
}

/// An error answer with this status and code, whatever its message.
pub open spec fn refused_as(r: UpdateReply, status: u16, error: Seq<char>) -> bool {
    r matches UpdateReply::Refused { status: s, error: e, .. } && s == status && e@ == error
}

/// The answer for failed outside work.
pub open spec fn failure_reply_spec(f: OutsideFailure, r: UpdateReply) -> bool {
    match f {
        OutsideFailure::UpdateState(m) => refused(r, 500, "update_state_error"@, Some(m@)),
        OutsideFailure::AgentUnavailable(m) => refused(r, 502, "agent_unavailable"@, Some(m@)),
        OutsideFailure::AgentStatus(_) => refused(r, 502, "agent_status_failed"@, None),
        OutsideFailure::AgentResponseInvalid => refused(r, 502, "invalid_agent_response"@, None),
        OutsideFailure::DiscoveryInit(m) => refused(
            r,
            500,
            "discovery_initialization_failed"@,
            Some(m@),
        ),
        OutsideFailure::ManifestRefresh(m) => refused(
            r,
            502,
            "signed_manifest_refresh_failed"@,
            Some(m@),
        ),
        OutsideFailure::UpdateCheck(m) => refused(r, 502, "update_check_failed"@, Some(m@)),
        OutsideFailure::DownloaderInit(m) => refused(
            r,
            500,
            "download_initialization_failed"@,
            Some(m@),
        ),
        OutsideFailure::Download(m) => refused(r, 502, "package_download_failed"@, Some(m@)),
        OutsideFailure::StagedPackage(m) => refused(r, 409, "invalid_staged_package"@, Some(m@)),
        OutsideFailure::AgentConfiguration(m) => refused(
            r,
            500,
            "agent_configuration_error"@,
            Some(m@),
        ),
        OutsideFailure::AgentVerification(m) => refused(
            r,
            502,
            "agent_package_verification_failed"@,
            Some(m@),
        ),
        OutsideFailure::OperationPersist(m) => refused(
            r,
            500,
            "verified_operation_persist_failed"@,
            Some(m@),
        ),
        OutsideFailure::AgentInstall(m) => refused(r, 502, "agent_install_failed"@, Some(m@)),
    }
}

fn refuse(status: u16, error: &'static str, message: Option<String>) -> (r: UpdateReply)
    ensures
        r == (UpdateReply::Refused { status, error, message }),
{
    UpdateReply::Refused { status, error, message }
}

/// The answer for failed outside work.
pub fn failure_reply(f: OutsideFailure) -> (r: UpdateReply)
    ensures
        failure_reply_spec(f, r),
{
    match f {
        OutsideFailure::UpdateState(m) => refuse(500, "update_state_error", Some(m)),
        OutsideFailure::AgentUnavailable(m) => refuse(502, "agent_unavailable", Some(m)),
        OutsideFailure::AgentStatus(_) => refuse(502, "agent_status_failed", None),
        OutsideFailure::AgentResponseInvalid => refuse(502, "invalid_agent_response", None),
        OutsideFailure::DiscoveryInit(m) => refuse(500, "discovery_initialization_failed", Some(m)),
        OutsideFailure::ManifestRefresh(m) => refuse(502, "signed_manifest_refresh_failed", Some(m)),
        OutsideFailure::UpdateCheck(m) => refuse(502, "update_check_failed", Some(m)),
        OutsideFailure::DownloaderInit(m) => refuse(500, "download_initialization_failed", Some(m)),
        OutsideFailure::Download(m) => refuse(502, "package_download_failed", Some(m)),
        OutsideFailure::StagedPackage(m) => refuse(409, "invalid_staged_package", Some(m)),
        OutsideFailure::AgentConfiguration(m) => refuse(500, "agent_configuration_error", Some(m)),
        OutsideFailure::AgentVerification(m) => refuse(
            502,
            "agent_package_verification_failed",
            Some(m),
        ),
        OutsideFailure::OperationPersist(m) => refuse(
            500,
            "verified_operation_persist_failed",
            Some(m),
        ),
        OutsideFailure::AgentInstall(m) => refuse(502, "agent_install_failed", Some(m)),
    }
}

/// The agent's reported version, from the status code of its status answer
/// and the `agent_version` it named: only a 2xx answer naming a non-empty
/// version is accepted.
pub fn agent_version_from_status(status: u16, version: Option<String>) -> (r: Result<
    String,
    OutsideFailure,
>)
    ensures
        !(200 <= status < 300) ==> r == Err::<String, OutsideFailure>(OutsideFailure::AgentStatus(status)),
        (200 <= status < 300) ==> match version {
            Some(v) => if v@.len() != 0 {
                r matches Ok(s) && s@ == v@
            } else {
                r matches Err(OutsideFailure::AgentResponseInvalid)
            },
            None => r matches Err(OutsideFailure::AgentResponseInvalid),
        },
{
    if !(200 <= status && status < 300) {
        return Err(OutsideFailure::AgentStatus(status));
    }
    match version {
        Some(v) => {
            if v.as_str().unicode_len() != 0 {
                Ok(v)
            } else {
                Err(OutsideFailure::AgentResponseInvalid)
            }
        },
        None => Err(OutsideFailure::AgentResponseInvalid),
    }
}

/// Why a refreshed manifest offers nothing to act on: the 409 error code
/// for each outcome other than an available update.
pub open spec fn outcome_refusal(outcome: DiscoveryOutcome) -> Option<Seq<char>> {
    match outcome {
        DiscoveryOutcome::UpdateAvailable { .. } => None,
        DiscoveryOutcome::UpToDate => Some("already_up_to_date"@),
        DiscoveryOutcome::Incompatible => Some("update_incompatible"@),
        DiscoveryOutcome::ReplayRejected => Some("manifest_replay_rejected"@),
        DiscoveryOutcome::Disabled => Some("updates_disabled"@),
    }
}

fn outcome_gate(outcome: &DiscoveryOutcome) -> (r: Option<UpdateReply>)
    ensures
        match outcome_refusal(*outcome) {
            Some(code) => r matches Some(reply) && refused(reply, 409, code, None),
            None => r is None,
        },
{
    match outcome {
        DiscoveryOutcome::UpdateAvailable { .. } => None,
        DiscoveryOutcome::UpToDate => Some(refuse(409, "already_up_to_date", None)),
        DiscoveryOutcome::Incompatible => Some(refuse(409, "update_incompatible", None)),
        DiscoveryOutcome::ReplayRejected => Some(refuse(409, "manifest_replay_rejected", None)),
        DiscoveryOutcome::Disabled => Some(refuse(409, "updates_disabled", None)),
    }
}

// ---------------------------------------------------------------------------
// Administrators only
// ---------------------------------------------------------------------------

/// Who asks: the user a valid session token names, if any, and the role
/// stored for that user, if one was found.
#[derive(Debug, Clone)]
pub struct Caller {
    pub user: Option<i64>,
    pub role: Option<String>,
}

/// Whether a handler's caller was admitted: the administrator's user id.
#[derive(Debug, Clone, Copy, PartialEq, Eq, Structural)]
pub struct Admission {
    pub admin: Option<i64>,
}

impl Admission {
    /// Nobody admitted yet.
    pub fn new() -> (r: Self)
        ensures
            r.admin is None,
    {
        Admission { admin: None }
    }
}

pub open spec fn role_text(role: Option<String>) -> Option<Seq<char>> {
    match role {
        Some(r) => Some(r@),
        None => None,
    }
}

/// Only administrators may use the update actions: without a session the
/// answer is 401, with a role other than `admin` (or none found) 403.
pub open spec fn admin_verdict(user: Option<i64>, role: Option<Seq<char>>) -> Result<i64, u16> {
    match user {
        None => Err(401),
        Some(u) => if role == Some("admin"@) {
            Ok(u)
        } else {
            Err(403)
        },
    }
}

/// The refusal that a failed administrator check answers with.
pub open spec fn gate_refused(reply: UpdateReply, status: u16) -> bool {
    if status == 401 {
        refused(reply, 401, "unauthorized"@, Some("Oturum doğrulanamadı."@))
    } else {
        refused(reply, 403, "forbidden"@, Some("Bu işlem yalnızca yöneticiler içindir."@))
    }
}

/// The answer to any event before the caller was admitted: forbidden, and
/// nothing else happens.
pub open spec fn not_admitted(reply: UpdateReply) -> bool {
    gate_refused(reply, 403)
}

/// Checks that the caller is an administrator: the user id, or the
/// refusal (401 without a session, 403 for any other role).
pub fn admin_gate(caller: &Caller) -> (r: Result<i64, UpdateReply>)
    ensures
        match admin_verdict(caller.user, role_text(caller.role)) {
            Ok(u) => r == Ok::<i64, UpdateReply>(u),
            Err(status) => r matches Err(reply) && gate_refused(reply, status),
        },
{
    let user = match caller.user {
        None => {
            return Err(refuse(401, "unauthorized", Some("Oturum doğrulanamadı.".to_string())));
        },
        Some(u) => u,
    };
    let is_admin = match &caller.role {
        Some(role) => text_eq(role.as_str(), "admin"),
        None => false,
    };
    if !is_admin {
        return Err(forbidden());
    }
    Ok(user)
}

fn forbidden() -> (r: UpdateReply)
    ensures
        not_admitted(r),
{
    refuse(403, "forbidden", Some("Bu işlem yalnızca yöneticiler içindir.".to_string()))
}

// ---------------------------------------------------------------------------
// Downloading an update
// ---------------------------------------------------------------------------

/// What came of the last piece of outside work while downloading.
#[derive(Debug, Clone)]
pub enum DownloadEvent {
    Start,
    /// The session and role of the caller were looked up.
    Caller(Caller),
    Channel(UpdateChannel),
    AgentVersion(String),
    Manifest(ValidatedManifest, DiscoveryOutcome),
    Staged(StagedPackage),
    Failed(OutsideFailure),
}

/// The next piece of outside work while downloading, or the answer.
#[derive(Debug, Clone)]
pub enum DownloadStep {
    /// Look up the caller's session and role.
    Authenticate,
    ReadChannel,
    FetchAgentVersion,
    RefreshManifest,
    Stage(PackageDownloadRequest),
    Reply(UpdateReply),
}

/// The downloader request that the signed manifest alone determines.
pub open spec fn request_from_manifest(q: PackageDownloadRequest, m: ValidatedManifest, dir: Seq<char>) -> bool {
    &&& q.download_url@ == m.package_download_url@
    &&& q.signature_url@ == m.package_signature_url@
    &&& q.filename@ == m.package_filename@
    &&& q.expected_size == m.package_size
    &&& q.expected_sha256@ == m.package_sha256@
    &&& q.staging_directory@ == dir
}

/// What the download handler does after the caller was admitted.
pub open spec fn download_event_spec(
    target: DownloadUpdateRequest,
    root: Seq<char>,
    event: DownloadEvent,
    r: DownloadStep,
) -> bool {
    match event {
        DownloadEvent::Start | DownloadEvent::Caller(_) => r is ReadChannel,
        DownloadEvent::Channel(c) => if c == UpdateChannel::Disabled {
            r matches DownloadStep::Reply(reply) && refused(
                reply,
                409,
                "updates_disabled"@,
                Some("G?ncelleme kanal? devre d???."@),
            )
        } else {
            r is FetchAgentVersion
        },
        DownloadEvent::AgentVersion(_) => r is RefreshManifest,
        DownloadEvent::Manifest(m, o) => match outcome_refusal(o) {
            Some(code) => r matches DownloadStep::Reply(reply) && refused(reply, 409, code, None),
            None => if !same_identity(
                target.version@,
                target.release_id@,
                target.package_filename@,
                m,
            ) {
                r matches DownloadStep::Reply(reply) && refused(
                    reply,
                    409,
                    "update_target_changed"@,
                    Some("requested update identity no longer matches the current signed manifest"@),
                )
            } else {
                match staging_directory_of(root) {
                    None => r matches DownloadStep::Reply(reply) && refused(
                        reply,
                        500,
                        "invalid_update_staging_path"@,
                        Some(staging_error(root)),
                    ),
                    Some(dir) => r matches DownloadStep::Stage(q) && request_from_manifest(q, m, dir),
                }
            },
        },
        DownloadEvent::Staged(p) => r matches DownloadStep::Reply(
            UpdateReply::Staged { version, release_id, package_filename, size, sha256 },
        ) && version@ == target.version@ && release_id@ == target.release_id@
            && package_filename@ == target.package_filename@ && size == p.size && sha256@
            == p.sha256@,
        DownloadEvent::Failed(f) => r matches DownloadStep::Reply(reply) && failure_reply_spec(f, reply),
    }
}

/// What the download handler does after each event: first it admits an
/// administrator, and before that every other event is refused.
pub open spec fn download_step_spec(
    target: DownloadUpdateRequest,
    root: Seq<char>,
    before: Admission,
    event: DownloadEvent,
    after: Admission,
    r: DownloadStep,
) -> bool {
    match event {
        DownloadEvent::Start => after == before && r is Authenticate,
        DownloadEvent::Caller(c) => match admin_verdict(c.user, role_text(c.role)) {
            Ok(u) => after.admin == Some(u) && r is ReadChannel,
            Err(status) => after == before && (r matches DownloadStep::Reply(reply) && gate_refused(reply, status)),
        },
        _ => after == before && if before.admin is None {
            r matches DownloadStep::Reply(reply) && not_admitted(reply)
        } else {
            download_event_spec(target, root, event, r)
        },
    }
}

/// The next step of downloading the update a client named. Only an
/// administrator gets past the first step. The client names only version,
/// release id and file name; the downloader is told what the freshly
/// verified signed manifest says.
pub fn download_step(
    target: &DownloadUpdateRequest,
    runtime_root: &str,
    admission: &mut Admission,
    event: DownloadEvent,
) -> (r: DownloadStep)
    ensures
        download_step_spec(*target, runtime_root@, *old(admission), event, *final(admission), r),
{
    match event {
        DownloadEvent::Start => DownloadStep::Authenticate,
        DownloadEvent::Caller(c) => match admin_gate(&c) {
            Ok(u) => {
                admission.admin = Some(u);
                DownloadStep::ReadChannel
            },
            Err(reply) => DownloadStep::Reply(reply),
        },
        other => {
            if admission.admin.is_none() {
                DownloadStep::Reply(forbidden())
            } else {
                download_admitted(target, runtime_root, other)
            }
        },
    }
}

fn download_admitted(target: &DownloadUpdateRequest, runtime_root: &str, event: DownloadEvent) -> (r:
    DownloadStep)
    ensures
        download_event_spec(*target, runtime_root@, event, r),
{
    match event {
        DownloadEvent::Start | DownloadEvent::Caller(_) => DownloadStep::ReadChannel,
        DownloadEvent::Channel(c) => {
            if c == UpdateChannel::Disabled {
                DownloadStep::Reply(
                    refuse(409, "updates_disabled", Some("G?ncelleme kanal? devre d???.".to_string())),
                )
            } else {
                DownloadStep::FetchAgentVersion
            }
        },
        DownloadEvent::AgentVersion(_) => DownloadStep::RefreshManifest,
        DownloadEvent::Manifest(m, o) => {
            if let Some(reply) = outcome_gate(&o) {
                return DownloadStep::Reply(reply);
            }
            if let Err(e) = validate_download_target(target, &m) {
                return DownloadStep::Reply(refuse(409, "update_target_changed", Some(e)));
            }
            match package_download_request_from_manifest(&m, runtime_root) {
                Ok(q) => DownloadStep::Stage(q),
                Err(e) => DownloadStep::Reply(refuse(500, "invalid_update_staging_path", Some(e))),
            }
        },
        DownloadEvent::Staged(p) => DownloadStep::Reply(
            UpdateReply::Staged {
                version: target.version.clone(),
                release_id: target.release_id.clone(),
                package_filename: target.package_filename.clone(),
                size: p.size,
                sha256: p.sha256,
            },
        ),
        DownloadEvent::Failed(f) => DownloadStep::Reply(failure_reply(f)),
    }
}

// ---------------------------------------------------------------------------
// Checking for updates
// ---------------------------------------------------------------------------

/// The status word and availability flag of a discovery answer.
pub open spec fn discovery_status_spec(outcome: DiscoveryOutcome) -> (Seq<char>, bool) {
    match outcome {
        DiscoveryOutcome::Disabled => ("disabled"@, false),
        DiscoveryOutcome::UpToDate => ("up_to_date"@, false),
        DiscoveryOutcome::Incompatible => ("incompatible"@, false),
        DiscoveryOutcome::ReplayRejected => ("replay_rejected"@, false),
        DiscoveryOutcome::UpdateAvailable { .. } => ("update_available"@, true),
    }
}

/// The status word and availability flag that a discovery answer carries.
pub fn discovery_status(outcome: &DiscoveryOutcome) -> (r: (&'static str, bool))
    ensures
        (r.0@, r.1) == discovery_status_spec(*outcome),
{
    match outcome {
        DiscoveryOutcome::Disabled => ("disabled", false),
        DiscoveryOutcome::UpToDate => ("up_to_date", false),
        DiscoveryOutcome::Incompatible => ("incompatible", false),
        DiscoveryOutcome::ReplayRejected => ("replay_rejected", false),
        DiscoveryOutcome::UpdateAvailable { .. } => ("update_available", true),
    }
}

/// What came of the last piece of outside work while checking.
#[derive(Debug, Clone)]
pub enum CheckEvent {
    Start,
    /// The session and role of the caller were looked up.
    Caller(Caller),
    Channel(UpdateChannel),
    AgentVersion(String),
    Checked { channel: UpdateChannel, update_agent_version: String, outcome: DiscoveryOutcome },
    Failed(OutsideFailure),
}

/// The next piece of outside work while checking, or the answer.
#[derive(Debug, Clone)]
pub enum CheckStep {
    /// Look up the caller's session and role.
    Authenticate,
    ReadChannel,
    FetchAgentVersion,
    CheckChannel,
    Reply(UpdateReply),
}

pub open spec fn discovery_reply(
    r: UpdateReply,
    channel: UpdateChannel,
    running: Seq<char>,
    agent: Seq<char>,
    outcome: DiscoveryOutcome,
) -> bool {
    r matches UpdateReply::Discovery {
        channel: c,
        running_version: rv,
        update_agent_version: av,
        outcome: o,
    } && c == channel && rv@ == running && av@ == agent && o == outcome
}

/// What the check handler does after the caller was admitted.
pub open spec fn check_event_spec(running: Seq<char>, event: CheckEvent, r: CheckStep) -> bool {
    match event {
        CheckEvent::Start | CheckEvent::Caller(_) => r is ReadChannel,
        CheckEvent::Channel(c) => if c == UpdateChannel::Disabled {
            r matches CheckStep::Reply(reply) && discovery_reply(
                reply,
                c,
                running,
                "not_checked"@,
                DiscoveryOutcome::Disabled,
            )
        } else {
            r is FetchAgentVersion
        },
        CheckEvent::AgentVersion(_) => r is CheckChannel,
        CheckEvent::Checked { channel, update_agent_version, outcome } => r matches CheckStep::Reply(
            reply,
        ) && discovery_reply(reply, channel, running, update_agent_version@, outcome),
        CheckEvent::Failed(f) => r matches CheckStep::Reply(reply) && failure_reply_spec(f, reply),
    }
}

/// What the check handler does after each event: first it admits an
/// administrator, and before that every other event is refused.
pub open spec fn check_step_spec(running: Seq<char>, before: Admission, event: CheckEvent, after: Admission, r: CheckStep) -> bool {
    match event {
        CheckEvent::Start => after == before && r is Authenticate,
        CheckEvent::Caller(c) => match admin_verdict(c.user, role_text(c.role)) {
            Ok(u) => after.admin == Some(u) && r is ReadChannel,
            Err(status) => after == before && (r matches CheckStep::Reply(reply) && gate_refused(reply, status)),
        },
        _ => after == before && if before.admin is None {
            r matches CheckStep::Reply(reply) && not_admitted(reply)
        } else {
            check_event_spec(running, event, r)
        },
    }
}

/// The next step of an update check. Only an administrator gets past the
/// first step. A disabled channel is answered before the agent or any
/// remote manifest is asked.
pub fn check_step(running_version: &str, admission: &mut Admission, event: CheckEvent) -> (r: CheckStep)
    ensures
        check_step_spec(running_version@, *old(admission), event, *final(admission), r),
{
    match event {
        CheckEvent::Start => CheckStep::Authenticate,
        CheckEvent::Caller(c) => match admin_gate(&c) {
            Ok(u) => {
                admission.admin = Some(u);
                CheckStep::ReadChannel
            },
            Err(reply) => CheckStep::Reply(reply),
        },
        other => {
            if admission.admin.is_none() {
                CheckStep::Reply(forbidden())
            } else {
                check_admitted(running_version, other)
            }
        },
    }
}

fn check_admitted(running_version: &str, event: CheckEvent) -> (r: CheckStep)
    ensures
        check_event_spec(running_version@, event, r),
{
    match event {
        CheckEvent::Start | CheckEvent::Caller(_) => CheckStep::ReadChannel,
        CheckEvent::Channel(c) => {
            if c == UpdateChannel::Disabled {
                CheckStep::Reply(
                    UpdateReply::Discovery {
                        channel: c,
                        running_version: running_version.to_string(),
                        update_agent_version: "not_checked".to_string(),
                        outcome: DiscoveryOutcome::Disabled,
                    },
                )
            } else {
                CheckStep::FetchAgentVersion
            }
        },
        CheckEvent::AgentVersion(_) => CheckStep::CheckChannel,
        CheckEvent::Checked { channel, update_agent_version, outcome } => CheckStep::Reply(
            UpdateReply::Discovery {
                channel,
                running_version: running_version.to_string(),
                update_agent_version,
                outcome,
            },
        ),
        CheckEvent::Failed(f) => CheckStep::Reply(failure_reply(f)),
    }
}

// ---------------------------------------------------------------------------
// Verifying a staged update
// ---------------------------------------------------------------------------

/// What came of the last piece of outside work while verifying.
#[derive(Debug, Clone)]
pub enum VerifyEvent {
    Start,
    /// The session and role of the caller were looked up.
    Caller(Caller),
    Channel(UpdateChannel),
    AgentVersion(String),
    Manifest(ValidatedManifest, DiscoveryOutcome),
    /// The staged file named by the signed manifest was looked at and read.
    StagedRead(StagedFileFacts, Vec<u8>),
    /// The agent's token was read.
    Token(String),
    /// The agent verified the uploaded package.
    AgentVerified(VerifiedAgentPackage),
    /// A fresh operation id and time were drawn for the verification.
    OperationAssigned { operation_id: String, updated_at: String },
    /// The operation record of the last `Persist` step was stored.
    Persisted,
    Failed(OutsideFailure),
}

/// The next piece of outside work while verifying, or the answer.
#[derive(Debug, Clone)]
pub enum VerifyStep {
    /// Look up the caller's session and role.
    Authenticate,
    ReadChannel,
    FetchAgentVersion,
    RefreshManifest,
    /// Look at and read the staged file named by the signed manifest.
    ReadStaged,
    ReadToken,
    /// Upload this staged package to the agent and have it verified as
    /// this version.
    VerifyWithAgent { staged: StagedPackage, version: String },
    /// Draw an operation id and the current time.
    AssignOperation,
    /// Store the operation record.
    Persist(VerifiedUpdateOperationRecord),
    Reply(UpdateReply),
}

/// What the verify handler has learnt so far: the freshly verified signed
/// manifest, the staged package that matched it, what the agent verified
/// of that package, and the operation record made of it.
#[derive(Debug, Clone)]
pub struct VerifyState {
    /// The administrator admitted as the caller.
    pub admin: Option<i64>,
    pub manifest: Option<ValidatedManifest>,
    pub staged: Option<StagedPackage>,
    pub verified: Option<VerifiedAgentPackage>,
    pub record: Option<VerifiedUpdateOperationRecord>,
}

impl VerifyState {
    /// Nothing learnt yet.
    pub fn new() -> (r: Self)
        ensures
            r.manifest is None,
            r.staged is None,
            r.verified is None,
            r.record is None,
            r.admin is None,
            verify_state_ok(r),
    {
        VerifyState { admin: None, manifest: None, staged: None, verified: None, record: None }
    }
}

/// The agent verified exactly the staged package, as the manifest's
/// version.
pub open spec fn agent_verified_staged(
    v: VerifiedAgentPackage,
    m: ValidatedManifest,
    staged: StagedPackage,
) -> bool {
    &&& v.identity.filename@ == m.package_filename@
    &&& v.identity.sha256@ == staged.sha256@
    &&& v.identity.size == staged.size
    &&& v.version@ == m.version@
}

/// The answer to an event that comes before what it needs is known.
pub open spec fn out_of_order(r: VerifyStep) -> bool {
    r matches VerifyStep::Reply(reply) && refused(reply, 500, "verify_sequence_invalid"@, None)
}

/// What the verify handler does after the caller was admitted, and what
/// it then knows.
pub open spec fn verify_event_spec(
    target: VerifyStagedUpdateRequest,
    before: VerifyState,
    event: VerifyEvent,
    after: VerifyState,
    r: VerifyStep,
) -> bool {
    match event {
        VerifyEvent::Start | VerifyEvent::Caller(_) => r is ReadChannel && after == before,
        VerifyEvent::Channel(c) => {
            &&& after == before
            &&& if c == UpdateChannel::Disabled {
                r matches VerifyStep::Reply(reply) && refused(reply, 409, "updates_disabled"@, None)
            } else {
                r is FetchAgentVersion
            }
        },
        VerifyEvent::AgentVersion(_) => after == before && r is RefreshManifest,
        VerifyEvent::Manifest(m, o) => match outcome_refusal(o) {
            Some(code) => {
                &&& after == before
                &&& r matches VerifyStep::Reply(reply) && refused(reply, 409, code, None)
            },
            None => if !same_identity(
                target.version@,
                target.release_id@,
                target.package_filename@,
                m,
            ) {
                &&& after == before
                &&& r matches VerifyStep::Reply(reply) && refused(
                    reply,
                    409,
                    "update_target_changed"@,
                    Some("requested staged update identity does not match the current signed manifest"@),
                )
            } else {
                &&& r is ReadStaged
                &&& after == (VerifyState {
                    admin: before.admin,
                    manifest: Some(m),
                    staged: None,
                    verified: None,
                    record: None,
                })
            },
        },
        VerifyEvent::StagedRead(facts, content) => match before.manifest {
            None => after == before && out_of_order(r),
            Some(m) => match staged_check(target, m, facts, content@) {
                Err(e) => {
                    &&& after == before
                    &&& r matches VerifyStep::Reply(reply) && refused(
                        reply,
                        409,
                        "invalid_staged_package"@,
                        Some(e),
                    )
                },
                Ok(()) => {
                    &&& r is ReadToken
                    &&& after.admin == before.admin
                    &&& after.manifest == before.manifest
                    &&& after.verified is None
                    &&& after.record is None
                    &&& after.staged matches Some(p) && p.path@ == facts.path@ && p.size
                        == m.package_size && p.sha256@ == m.package_sha256@
                },
            },
        },
        VerifyEvent::Token(_) => {
            &&& after == before
            &&& match (before.manifest, before.staged) {
                (Some(m), Some(p)) => r matches VerifyStep::VerifyWithAgent { staged, version }
                    && staged.path@ == p.path@ && staged.size == p.size && staged.sha256@ == p.sha256@
                    && version@ == m.version@,
                _ => out_of_order(r),
            }
        },
        VerifyEvent::AgentVerified(v) => match (before.manifest, before.staged) {
            (Some(m), Some(p)) => if agent_verified_staged(v, m, p) {
                &&& r is AssignOperation
                &&& after == (VerifyState { verified: Some(v), record: None, ..before })
            } else {
                &&& after == before
                &&& r matches VerifyStep::Reply(reply) && refused_as(reply, 409, "invalid_staged_package"@)
            },
            _ => after == before && out_of_order(r),
        },
        VerifyEvent::OperationAssigned { operation_id, updated_at } => match (
            before.manifest,
            before.staged,
            before.verified,
        ) {
            (Some(m), Some(p), Some(v)) => if operation_accepts(operation_id@, target, v) {
                &&& r matches VerifyStep::Persist(rec) && {
                    &&& rec.operation_id@ == operation_id@
                    &&& rec.target_version@ == target.version@
                    &&& rec.release_id@ == target.release_id@
                    &&& rec.package_filename@ == v.identity.filename@
                    &&& rec.package_sha256@ == v.identity.sha256@
                    &&& rec.package_size == v.identity.size
                    &&& rec.status == crate::updates::UpdateOperationStatus::Verified
                    &&& rec.updated_at@ == updated_at@
                    &&& (verify_state_ok(before) ==> {
                        &&& rec.package_filename@ == m.package_filename@
                        &&& rec.package_sha256@ == m.package_sha256@
                        &&& rec.package_size == m.package_size
                        &&& rec.package_sha256@ == p.sha256@
                        &&& rec.package_size == p.size
                    })
                    &&& after.record matches Some(kept) && same_record(kept, rec)
                }
                &&& after.admin == before.admin
                &&& after.manifest == before.manifest
                &&& after.staged == before.staged
                &&& after.verified == before.verified
            } else {
                &&& after == before
                &&& r matches VerifyStep::Reply(reply) && refused_as(reply, 500, "verified_operation_invalid"@)
            },
            _ => after == before && out_of_order(r),
        },
        VerifyEvent::Persisted => {
            &&& after == before
            &&& match before.record {
                Some(rec) => r matches VerifyStep::Reply(
                    UpdateReply::Verified { operation_id, version, release_id, package_filename, size, sha256 },
                ) && operation_id@ == rec.operation_id@ && version@ == rec.target_version@ && release_id@
                    == target.release_id@ && package_filename@ == rec.package_filename@ && size
                    == rec.package_size && sha256@ == rec.package_sha256@,
                None => out_of_order(r),
            }
        },
        VerifyEvent::Failed(f) => {
            &&& after == before
            &&& r matches VerifyStep::Reply(reply) && failure_reply_spec(f, reply)
        },
    }
}

/// What the verify handler does after each event, and what it then knows:
/// first it admits an administrator, and before that every other event is
/// refused.
pub open spec fn verify_step_spec(
    target: VerifyStagedUpdateRequest,
    before: VerifyState,
    event: VerifyEvent,
    after: VerifyState,
    r: VerifyStep,
) -> bool {
    match event {
        VerifyEvent::Start => after == before && r is Authenticate,
        VerifyEvent::Caller(c) => match admin_verdict(c.user, role_text(c.role)) {
            Ok(u) => after == (VerifyState { admin: Some(u), ..before }) && r is ReadChannel,
            Err(status) => after == before && (r matches VerifyStep::Reply(reply) && gate_refused(reply, status)),
        },
        _ => if before.admin is None {
            after == before && (r matches VerifyStep::Reply(reply) && not_admitted(reply))
        } else {
            verify_event_spec(target, before, event, after, r)
        },
    }
}

/// Two operation records with the same contents.
pub open spec fn same_record(a: VerifiedUpdateOperationRecord, b: VerifiedUpdateOperationRecord) -> bool {
    &&& a.operation_id@ == b.operation_id@
    &&& a.target_version@ == b.target_version@
    &&& a.release_id@ == b.release_id@
    &&& a.package_filename@ == b.package_filename@
    &&& a.package_sha256@ == b.package_sha256@
    &&& a.package_size == b.package_size
    &&& a.status == b.status
    &&& a.updated_at@ == b.updated_at@
}

/// What a step keeps of the state: the manifest once it matched, the staged
/// package only as the manifest describes it, the agent's verification
/// only of that package, and an operation record only of what the agent
/// verified, with the manifest's file name, size and hash.
pub open spec fn verify_state_ok(s: VerifyState) -> bool {
    &&& s.staged is Some ==> s.manifest is Some
    &&& s.verified is Some ==> s.staged is Some
    &&& s.record is Some ==> s.verified is Some
    &&& s.record matches Some(rec) ==> {
        &&& rec.package_filename@ == s.manifest->Some_0.package_filename@
        &&& rec.package_sha256@ == s.manifest->Some_0.package_sha256@
        &&& rec.package_size == s.manifest->Some_0.package_size
    }
    &&& s.staged matches Some(p) ==> p.size == s.manifest->Some_0.package_size && p.sha256@
        == s.manifest->Some_0.package_sha256@
    &&& s.verified matches Some(v) ==> agent_verified_staged(
        v,
        s.manifest->Some_0,
        s.staged->Some_0,
    )
}

fn copy_staged(p: &StagedPackage) -> (r: StagedPackage)
    ensures
        r.path@ == p.path@,
        r.size == p.size,
        r.sha256@ == p.sha256@,
{
    StagedPackage { path: p.path.clone(), size: p.size, sha256: p.sha256.clone() }
}

fn copy_record(r: &VerifiedUpdateOperationRecord) -> (c: VerifiedUpdateOperationRecord)
    ensures
        same_record(c, *r),
{
    VerifiedUpdateOperationRecord {
        operation_id: r.operation_id.clone(),
        target_version: r.target_version.clone(),
        release_id: r.release_id.clone(),
        package_filename: r.package_filename.clone(),
        package_sha256: r.package_sha256.clone(),
        package_size: r.package_size,
        status: r.status,
        updated_at: r.updated_at.clone(),
    }
}

fn sequence_refused() -> (r: VerifyStep)
    ensures
        out_of_order(r),
{
    VerifyStep::Reply(refuse(500, "verify_sequence_invalid", None))
}

/// The next step of verifying the staged update a client named. The staged
/// bytes are re-read from the server's own staging directory and must carry
/// the signed manifest's size and hash; what is recorded as verified is
/// exactly that package, as the agent verified it.
pub fn verify_step(target: &VerifyStagedUpdateRequest, state: &mut VerifyState, event: VerifyEvent) -> (r:
    VerifyStep)
    ensures
        verify_step_spec(*target, *old(state), event, *final(state), r),
        verify_state_ok(*old(state)) ==> verify_state_ok(*final(state)),
{
    match event {
        VerifyEvent::Start => VerifyStep::Authenticate,
        VerifyEvent::Caller(c) => match admin_gate(&c) {
            Ok(u) => {
                state.admin = Some(u);
                VerifyStep::ReadChannel
            },
            Err(reply) => VerifyStep::Reply(reply),
        },
        other => {
            if state.admin.is_none() {
                VerifyStep::Reply(forbidden())
            } else {
                verify_admitted(target, state, other)
            }
        },
    }
}

fn verify_admitted(target: &VerifyStagedUpdateRequest, state: &mut VerifyState, event: VerifyEvent) -> (r:
    VerifyStep)
    ensures
        verify_event_spec(*target, *old(state), event, *final(state), r),
        verify_state_ok(*old(state)) ==> verify_state_ok(*final(state)),
{
    match event {
        VerifyEvent::Start | VerifyEvent::Caller(_) => VerifyStep::ReadChannel,
        VerifyEvent::Channel(c) => {
            if c == UpdateChannel::Disabled {
                VerifyStep::Reply(refuse(409, "updates_disabled", None))
            } else {
                VerifyStep::FetchAgentVersion
            }
        },
        VerifyEvent::AgentVersion(_) => VerifyStep::RefreshManifest,
        VerifyEvent::Manifest(m, o) => {
            if let Some(reply) = outcome_gate(&o) {
                return VerifyStep::Reply(reply);
            }
            match validate_verify_target(target, &m) {
                Err(e) => VerifyStep::Reply(refuse(409, "update_target_changed", Some(e))),
                Ok(()) => {
                    state.manifest = Some(m);
                    state.staged = None;
                    state.verified = None;
                    state.record = None;
                    VerifyStep::ReadStaged
                },
            }
        },
        VerifyEvent::StagedRead(facts, content) => {
            let checked = match &state.manifest {
                Some(m) => check_staged_package(target, m, &facts, content.as_slice()),
                None => return sequence_refused(),
            };
            match checked {
                Err(e) => VerifyStep::Reply(refuse(409, "invalid_staged_package", Some(e))),
                Ok(p) => {
                    state.staged = Some(p);
                    state.verified = None;
                    state.record = None;
                    VerifyStep::ReadToken
                },
            }
        },
        VerifyEvent::Token(_) => {
            match (&state.manifest, &state.staged) {
                (Some(m), Some(p)) => VerifyStep::VerifyWithAgent {
                    staged: copy_staged(p),
                    version: m.version.clone(),
                },
                _ => sequence_refused(),
            }
        },
        VerifyEvent::AgentVerified(v) => {
            let ok = match (&state.manifest, &state.staged) {
                (Some(m), Some(p)) => text_eq(v.identity.filename.as_str(), m.package_filename.as_str())
                    && text_eq(v.identity.sha256.as_str(), p.sha256.as_str()) && v.identity.size
                    == p.size && text_eq(v.version.as_str(), m.version.as_str()),
                _ => return sequence_refused(),
            };
            if !ok {
                return VerifyStep::Reply(
                    refuse(
                        409,
                        "invalid_staged_package",
                        Some("verified Agent identity does not match the staged package".to_string()),
                    ),
                );
            }
            state.verified = Some(v);
            state.record = None;
            VerifyStep::AssignOperation
        },
        VerifyEvent::OperationAssigned { operation_id, updated_at } => {
            let v = match (&state.manifest, &state.staged, &state.verified) {
                (Some(_), Some(_), Some(v)) => v,
                _ => return sequence_refused(),
            };
            match verified_operation_from_agent(operation_id.as_str(), target, v, updated_at.as_str()) {
                Ok(rec) => {
                    state.record = Some(copy_record(&rec));
                    VerifyStep::Persist(rec)
                },
                Err(e) => VerifyStep::Reply(refuse(500, "verified_operation_invalid", Some(e))),
            }
        },
        VerifyEvent::Persisted => match &state.record {
            Some(rec) => VerifyStep::Reply(
                UpdateReply::Verified {
                    operation_id: rec.operation_id.clone(),
                    version: rec.target_version.clone(),
                    release_id: target.release_id.clone(),
                    package_filename: rec.package_filename.clone(),
                    size: rec.package_size,
                    sha256: rec.package_sha256.clone(),
                },
            ),
            None => sequence_refused(),
        },
        VerifyEvent::Failed(f) => VerifyStep::Reply(failure_reply(f)),
    }
}

// ---------------------------------------------------------------------------
// Installing a verified update
// ---------------------------------------------------------------------------

/// What came of the last piece of outside work while installing.
#[derive(Debug, Clone)]
pub enum InstallEvent {
    Start,
    /// The session and role of the caller were looked up.
    Caller(Caller),
    /// The verified operation was atomically claimed for installation, or
    /// none could be claimed.
    Claimed(Option<VerifiedUpdateOperationRecord>),
    /// Claiming failed in the state store.
    ClaimFailed(String),
    /// The agent's token was read for the claimed operation.
    TokenRead(VerifiedUpdateOperationRecord),
    /// The agent's token could not be read for the claimed operation.
    TokenFailed(VerifiedUpdateOperationRecord, String),
    /// The agent accepted the installation of the claimed operation.
    Installed(VerifiedUpdateOperationRecord),
    /// The agent refused or failed the installation.
    InstallFailed(VerifiedUpdateOperationRecord, String),
}

/// The next piece of outside work while installing, or the answer.
#[derive(Debug, Clone)]
pub enum InstallStep {
    /// Look up the caller's session and role.
    Authenticate,
    /// Claim the verified operation with this id.
    Claim(String),
    ReadToken,
    /// Ask the agent to install this package.
    Install(VerifiedAgentPackage, InstallApproval),
    /// Mark the operation failed, then answer.
    FailOperation(String, UpdateReply),
    Reply(UpdateReply),
}

pub open spec fn package_of_record(p: VerifiedAgentPackage, op: VerifiedUpdateOperationRecord) -> bool {
    &&& p.identity.filename@ == op.package_filename@
    &&& p.identity.sha256@ == op.package_sha256@
    &&& p.identity.size == op.package_size
    &&& p.version@ == op.target_version@
}

/// What the install handler does after the caller was admitted; its
/// first step checks the approval and the operation id.
pub open spec fn install_event_spec(request: InstallVerifiedUpdateRequest, event: InstallEvent, r: InstallStep) -> bool {
    match event {
        InstallEvent::Start | InstallEvent::Caller(_) => if !request.approved {
            r matches InstallStep::Reply(reply) && refused(
                reply,
                400,
                "install_approval_required"@,
                Some("explicit install approval is required"@),
            )
        } else if !uuid_accepts(trim(request.operation_id@)) {
            r matches InstallStep::Reply(reply) && refused(reply, 400, "invalid_operation_id"@, None)
        } else {
            r matches InstallStep::Claim(id) && id@ == trim(request.operation_id@)
        },
        InstallEvent::Claimed(None) => r matches InstallStep::Reply(reply) && refused(
            reply,
            409,
            "verified_operation_unavailable"@,
            Some("Operation is unknown, already used, or no longer verified."@),
        ),
        InstallEvent::Claimed(Some(op)) => if claim_accepts(op) {
            r is ReadToken
        } else {
            r matches InstallStep::FailOperation(id, reply) && id@ == op.operation_id@
                && refused_as(reply, 409, "verified_operation_invalid"@)
        },
        InstallEvent::ClaimFailed(m) => r matches InstallStep::Reply(reply) && refused(
            reply,
            500,
            "update_state_error"@,
            Some(m@),
        ),
        InstallEvent::TokenRead(op) => if claim_accepts(op) {
            if request.approved {
                r matches InstallStep::Install(p, a) && package_of_record(p, op) && a
                    == InstallApproval::Approved
            } else {
                r matches InstallStep::Reply(reply) && refused(
                    reply,
                    400,
                    "install_approval_required"@,
                    Some("explicit install approval is required"@),
                )
            }
        } else {
            r matches InstallStep::FailOperation(id, reply) && id@ == op.operation_id@
                && refused_as(reply, 409, "verified_operation_invalid"@)
        },
        InstallEvent::TokenFailed(op, m) => r matches InstallStep::FailOperation(id, reply) && id@
            == op.operation_id@ && refused(reply, 500, "agent_configuration_error"@, Some(m@)),
        InstallEvent::Installed(op) => r matches InstallStep::Reply(
            UpdateReply::Installing { operation_id, version, release_id, package_filename },
        ) && operation_id@ == op.operation_id@ && version@ == op.target_version@ && release_id@
            == op.release_id@ && package_filename@ == op.package_filename@,
        InstallEvent::InstallFailed(op, m) => r matches InstallStep::FailOperation(
            id,
            UpdateReply::InstallFailed { operation_id, reason },
        ) && id@ == op.operation_id@ && operation_id@ == op.operation_id@ && reason@ == m@,
    }
}

/// What the install handler does after each event: first it admits an
/// administrator (then checks approval and operation id), and before that
/// every other event is refused.
pub open spec fn install_step_spec(
    request: InstallVerifiedUpdateRequest,
    before: Admission,
    event: InstallEvent,
    after: Admission,
    r: InstallStep,
) -> bool {
    match event {
        InstallEvent::Start => after == before && r is Authenticate,
        InstallEvent::Caller(c) => match admin_verdict(c.user, role_text(c.role)) {
            Ok(u) => after.admin == Some(u) && install_event_spec(request, InstallEvent::Start, r),
            Err(status) => after == before && (r matches InstallStep::Reply(reply) && gate_refused(reply, status)),
        },
        _ => after == before && if before.admin is None {
            r matches InstallStep::Reply(reply) && not_admitted(reply)
        } else {
            install_event_spec(request, event, r)
        },
    }
}

/// The next step of installing a verified update. Only an administrator
/// gets past the first step. Approval and a well-formed operation id are
/// checked before the state store or the agent is asked; what is installed
/// is rebuilt from the claimed record alone; a claimed operation that
/// cannot be installed is marked failed.
pub fn install_step(request: &InstallVerifiedUpdateRequest, admission: &mut Admission, event: InstallEvent) -> (r:
    InstallStep)
    ensures
        install_step_spec(*request, *old(admission), event, *final(admission), r),
{
    match event {
        InstallEvent::Start => InstallStep::Authenticate,
        InstallEvent::Caller(c) => match admin_gate(&c) {
            Ok(u) => {
                admission.admin = Some(u);
                install_admitted(request, InstallEvent::Start)
            },
            Err(reply) => InstallStep::Reply(reply),
        },
        other => {
            if admission.admin.is_none() {
                InstallStep::Reply(forbidden())
            } else {
                install_admitted(request, other)
            }
        },
    }
}

fn install_admitted(request: &InstallVerifiedUpdateRequest, event: InstallEvent) -> (r: InstallStep)
    ensures
        install_event_spec(*request, event, r),
{
    match event {
        InstallEvent::Start | InstallEvent::Caller(_) => {
            if let Err(e) = explicit_install_approval(request) {
                return InstallStep::Reply(refuse(400, "install_approval_required", Some(e)));
            }
            let id = trim_string(request.operation_id.as_str());
            if !is_uuid(id.as_str()) {
                return InstallStep::Reply(refuse(400, "invalid_operation_id", None));
            }
            InstallStep::Claim(id)
        },
        InstallEvent::Claimed(None) => InstallStep::Reply(
            refuse(
                409,
                "verified_operation_unavailable",
                Some("Operation is unknown, already used, or no longer verified.".to_string()),
            ),
        ),
        InstallEvent::Claimed(Some(op)) => {
            match verified_agent_package_from_operation(&op) {
                Ok(_) => InstallStep::ReadToken,
                Err(e) => InstallStep::FailOperation(
                    op.operation_id,
                    refuse(409, "verified_operation_invalid", Some(e)),
                ),
            }
        },
        InstallEvent::ClaimFailed(m) => InstallStep::Reply(refuse(500, "update_state_error", Some(m))),
        InstallEvent::TokenRead(op) => {
            match verified_agent_package_from_operation(&op) {
                Ok(p) => {
                    match explicit_install_approval(request) {
                        Ok(a) => InstallStep::Install(p, a),
                        Err(e) => InstallStep::Reply(refuse(400, "install_approval_required", Some(e))),
                    }
                },
                Err(e) => InstallStep::FailOperation(
                    op.operation_id,
                    refuse(409, "verified_operation_invalid", Some(e)),
                ),
            }
        },
        InstallEvent::TokenFailed(op, m) => InstallStep::FailOperation(
            op.operation_id,
            refuse(500, "agent_configuration_error", Some(m)),
        ),
        InstallEvent::Installed(op) => InstallStep::Reply(
            UpdateReply::Installing {
                operation_id: op.operation_id,
                version: op.target_version,
                release_id: op.release_id,
                package_filename: op.package_filename,
            },
        ),
        InstallEvent::InstallFailed(op, m) => {
            let id = op.operation_id.clone();
            InstallStep::FailOperation(
                op.operation_id,
                UpdateReply::InstallFailed { operation_id: id, reason: m },
            )
        },
    }
}

// ---------------------------------------------------------------------------
// Laws of the update handlers
// ---------------------------------------------------------------------------

/// Only an administrator gets the update actions going: until a caller is
/// admitted, every step of the download, check, verify and install handlers
/// is to look up the caller or to answer, and the only way past is a
/// signed-in caller whose stored role is `admin` (401 without a session,
/// 403 otherwise).
pub proof fn lemma_update_actions_need_an_administrator(
    target: DownloadUpdateRequest,
    staged_target: VerifyStagedUpdateRequest,
    install: InstallVerifiedUpdateRequest,
    root: Seq<char>,
    running: Seq<char>,
    a: Admission,
    a2: Admission,
    vs: VerifyState,
    vs2: VerifyState,
    de: DownloadEvent,
    ce: CheckEvent,
    ve: VerifyEvent,
    ie: InstallEvent,
    d: DownloadStep,
    c: CheckStep,
    v: VerifyStep,
    i: InstallStep,
)
    requires
        a.admin is None,
        vs.admin is None,
    ensures
        download_step_spec(target, root, a, de, a2, d) && !(d is Authenticate) && !(d is Reply) ==> (de matches DownloadEvent::Caller(k) && admin_verdict(k.user, role_text(k.role)) is Ok && d is ReadChannel),
        check_step_spec(running, a, ce, a2, c) && !(c is Authenticate) && !(c is Reply) ==> (ce matches CheckEvent::Caller(k) && admin_verdict(k.user, role_text(k.role)) is Ok && c is ReadChannel),
        verify_step_spec(staged_target, vs, ve, vs2, v) && !(v is Authenticate) && !(v is Reply) ==> (ve matches VerifyEvent::Caller(k) && admin_verdict(k.user, role_text(k.role)) is Ok && v is ReadChannel),
        install_step_spec(install, a, ie, a2, i) && !(i is Authenticate) && !(i is Reply) ==> (ie matches InstallEvent::Caller(k) && admin_verdict(k.user, role_text(k.role)) is Ok && i is Claim),
        admin_verdict(None, None) == Err::<i64, u16>(401),
{
}

/// A disabled channel is answered at once: no handler then asks the agent,
/// fetches a manifest or touches a package.
pub proof fn lemma_disabled_channel_is_answered_at_once(
    target: DownloadUpdateRequest,
    staged_target: VerifyStagedUpdateRequest,
    root: Seq<char>,
    running: Seq<char>,
    a: Admission,
    a2: Admission,
    d: DownloadStep,
    vs: VerifyState,
    vs2: VerifyState,
    v: VerifyStep,
    c: CheckStep,
)
    requires
        download_step_spec(target, root, a, DownloadEvent::Channel(UpdateChannel::Disabled), a2, d),
        verify_step_spec(staged_target, vs, VerifyEvent::Channel(UpdateChannel::Disabled), vs2, v),
        check_step_spec(running, a, CheckEvent::Channel(UpdateChannel::Disabled), a2, c),
    ensures
        d is Reply,
        v is Reply,
        c is Reply,
{
}

/// What is recorded as verified is exactly the package the signed manifest
/// names: in every run that starts from an empty state, a stored operation
/// carries the manifest's file name, hash and size, which are also those of
/// the staged bytes that were re-read and hashed, and only an administrator
/// got it recorded.
pub proof fn lemma_recorded_operation_is_the_signed_package(
    target: VerifyStagedUpdateRequest,
    before: VerifyState,
    event: VerifyEvent,
    after: VerifyState,
    rec: VerifiedUpdateOperationRecord,
)
    requires
        verify_state_ok(before),
        verify_step_spec(target, before, event, after, VerifyStep::Persist(rec)),
    ensures
        before.admin is Some,
        before.manifest matches Some(m) && before.staged matches Some(p) && {
            &&& rec.package_filename@ == m.package_filename@
            &&& rec.package_sha256@ == m.package_sha256@
            &&& rec.package_size == m.package_size
            &&& rec.package_sha256@ == p.sha256@
            &&& rec.package_size == p.size
            &&& rec.target_version@ == target.version@
        },
{
}

/// A successful verification is answered with exactly the signed
/// manifest's package, as its operation was recorded.
pub proof fn lemma_verified_answer_is_the_signed_package(
    target: VerifyStagedUpdateRequest,
    before: VerifyState,
    after: VerifyState,
    r: VerifyStep,
)
    requires
        verify_state_ok(before),
        verify_step_spec(target, before, VerifyEvent::Persisted, after, r),
        r matches VerifyStep::Reply(reply) && reply is Verified,
    ensures
        before.manifest matches Some(m) && before.record matches Some(rec) && r matches VerifyStep::Reply(
            UpdateReply::Verified { operation_id, package_filename, size, sha256, .. },
        ) && {
            &&& package_filename@ == m.package_filename@
            &&& size == m.package_size
            &&& sha256@ == m.package_sha256@
            &&& operation_id@ == rec.operation_id@
        },
{
}

/// A package is uploaded to the agent only once the staged bytes matched
/// the signed manifest, and then exactly that package, as that version.
pub proof fn lemma_agent_sees_only_the_signed_package(
    target: VerifyStagedUpdateRequest,
    before: VerifyState,
    event: VerifyEvent,
    after: VerifyState,
    staged: StagedPackage,
    version: String,
)
    requires
        verify_state_ok(before),
        verify_step_spec(target, before, event, after, VerifyStep::VerifyWithAgent { staged, version }),
    ensures
        before.admin is Some,
        before.manifest matches Some(m) && {
            &&& staged.size == m.package_size
            &&& staged.sha256@ == m.package_sha256@
            &&& version@ == m.version@
        },
{
}

/// A package is downloaded only for an administrator, for a freshly
/// verified manifest that offers an update with exactly the requested
/// identity, and the downloader is told only what that manifest says.
pub proof fn lemma_download_follows_signed_manifest(
    target: DownloadUpdateRequest,
    root: Seq<char>,
    before: Admission,
    event: DownloadEvent,
    after: Admission,
    q: PackageDownloadRequest,
)
    requires
        download_step_spec(target, root, before, event, after, DownloadStep::Stage(q)),
    ensures
        before.admin is Some,
        event matches DownloadEvent::Manifest(m, o) && o is UpdateAvailable && same_identity(
            target.version@,
            target.release_id@,
            target.package_filename@,
            m,
        ) && (staging_directory_of(root) matches Some(dir) && request_from_manifest(q, m, dir)),
{
}

/// The agent is asked to install only for an administrator, with explicit
/// approval, for a record claimed for installation, and exactly the package
/// that record names.
pub proof fn lemma_install_needs_approval_and_claim(
    request: InstallVerifiedUpdateRequest,
    before: Admission,
    event: InstallEvent,
    after: Admission,
    p: VerifiedAgentPackage,
    a: InstallApproval,
)
    requires
        install_step_spec(request, before, event, after, InstallStep::Install(p, a)),
    ensures
        before.admin is Some,
        request.approved,
        a == InstallApproval::Approved,
        event matches InstallEvent::TokenRead(op) && claim_accepts(op) && package_of_record(p, op),
{
}

/// Without approval, nothing is claimed: once the administrator is
/// admitted, the answer refuses.
pub proof fn lemma_unapproved_install_claims_nothing(
    request: InstallVerifiedUpdateRequest,
    before: Admission,
    caller: Caller,
    after: Admission,
    r: InstallStep,
)
    requires
        !request.approved,
        install_step_spec(request, before, InstallEvent::Caller(caller), after, r),
    ensures
        r is Reply,
{
}

// ---------------------------------------------------------------------------
// The agent's token and uploaded packages
// ---------------------------------------------------------------------------

/// What one line of the agent's environment file says of the token: nothing
/// (blank, comment, no `=`, another key), an empty token, or the token.
pub open spec fn token_line(line: Seq<char>) -> Option<Result<Seq<char>, Seq<char>>> {
    let t = trim(line);
    if t.len() == 0 || t[0] == '#' {
        None
    } else {
        let i = first_index(t, '=');
        if i < 0 {
            None
        } else if trim(t.take(i)) != "PHOTOOS_UPDATE_TOKEN"@ {
            None
        } else if trim(t.skip(i + 1)).len() == 0 {
            Some(Err("Update Agent anahtarı boş."@))
        } else {
            Some(Ok(trim(t.skip(i + 1))))
        }
    }
}

/// The first line that names the token decides.
pub open spec fn token_from_lines(lines: Seq<Seq<char>>) -> Result<Seq<char>, Seq<char>>
    decreases lines.len(),
{
    if lines.len() == 0 {
        Err("PHOTOOS_UPDATE_TOKEN bulunamadı."@)
    } else {
        match token_line(lines[0]) {
            Some(r) => r,
            None => token_from_lines(lines.drop_first()),
        }
    }
}

fn read_token_line(line: &Vec<char>) -> (r: Option<Result<String, String>>)
    ensures
        match token_line(line@) {
            None => r is None,
            Some(Ok(v)) => r matches Some(Ok(s)) && s@ == v,
            Some(Err(e)) => r matches Some(Err(s)) && s@ == e,
        },
{
    let t = trimmed(line);
    if t.len() == 0 || t[0] == '#' {
        return None;
    }
    let i = match find_char(&t, '=') {
        Some(i) => i,
        None => return None,
    };
    proof {
        lemma_first_index(t@, '=');
    }
    let key = slice_chars(&t, 0, i);
    let key = trimmed(&key);
    let name = chars_of("PHOTOOS_UPDATE_TOKEN");
    assert(t@.take(i as int) =~= t@.subrange(0, i as int));
    if !seq_eq(&key, &name) {
        return None;
    }
    let value = slice_chars(&t, i + 1, t.len());
    assert(t@.skip(i + 1) =~= t@.subrange(i + 1, t.len() as int));
    let value = trimmed(&value);
    if value.len() == 0 {
        return Some(Err("Update Agent anahtarı boş.".to_string()));
    }
    Some(Ok(string_of(&value)))
}

/// The agent's token from the text of its environment file: the trimmed
/// value of the first `PHOTOOS_UPDATE_TOKEN=` line, skipping blank lines and
/// `#` comments; an error when that value is empty or no line names it.
pub fn update_token_from_env(text: &str) -> (r: Result<String, String>)
    ensures
        match token_from_lines(split_on(text@, '\n')) {
            Ok(v) => r matches Ok(s) && s@ == v,
            Err(e) => r matches Err(s) && s@ == e,
        },
{
    let chars = chars_of(text);
    let lines = split_chars(&chars, '\n');
    let mut i: usize = 0;
    assert(views(lines@).skip(0) =~= views(lines@));
    while i < lines.len()
        invariant
            i <= lines.len(),
            views(lines@) == split_on(text@, '\n'),
            token_from_lines(views(lines@)) == token_from_lines(views(lines@).skip(i as int)),
        decreases lines.len() - i,
    {
        proof {
            assert(views(lines@).skip(i as int).drop_first() =~= views(lines@).skip(i + 1));
            assert(views(lines@).skip(i as int)[0] == lines@[i as int]@);
        }
        match read_token_line(&lines[i]) {
            Some(r) => {
                proof {
                    let rest = views(lines@).skip(i as int);
                    assert(rest.len() > 0);
                    assert(rest[0] == lines@[i as int]@);
                    assert(token_line(rest[0]) is Some);
                    assert(token_from_lines(rest) == token_line(rest[0]).unwrap());
                    assert(views(lines@) == split_on(text@, '\n'));
                }
                return r;
            },
            None => {},
        }
        i += 1;
    }
    assert(views(lines@).skip(i as int) =~= Seq::<Seq<char>>::empty());
    Err("PHOTOOS_UPDATE_TOKEN bulunamadı.".to_string())
}

/// Largest package an administrator may upload: 512 MiB.
pub const MAX_PACKAGE_BYTES: usize = 536870912;

/// Whether an uploaded package is accepted: a `.popkg` leaf file name
/// (trimmed) and between one byte and 512 MiB. Returns the trimmed name.
pub open spec fn package_upload_verdict(filename: Seq<char>, size: nat) -> Result<Seq<char>, (u16, Seq<char>)> {
    let name = trim(filename);
    if name.len() == 0 || file_name(name) != Some(name) || !has_suffix(name, ".popkg"@) {
        Err((400, "invalid_filename"@))
    } else if size == 0 || size > MAX_PACKAGE_BYTES {
        Err((413, "invalid_package_size"@))
    } else {
        Ok(name)
    }
}

/// Checks a package an administrator uploads, first its file name, then its
/// size.
pub fn validate_package_upload(filename: &str, size: usize) -> (r: Result<String, UpdateReply>)
    ensures
        match package_upload_verdict(filename@, size as nat) {
            Ok(name) => r matches Ok(s) && s@ == name,
            Err((status, code)) => r matches Err(reply) && refused_as(reply, status, code),
        },
{
    let name = trim_string(filename);
    let leaf_ok = match file_name_of(name.as_str()) {
        Some(leaf) => text_eq(leaf.as_str(), name.as_str()),
        None => false,
    };
    if name.as_str().unicode_len() == 0 || !leaf_ok || !str_ends_with(name.as_str(), ".popkg") {
        return Err(
            refuse(
                400,
                "invalid_filename",
                Some("Yalnızca geçerli .popkg paketleri yüklenebilir.".to_string()),
            ),
        );
    }
    if size == 0 || size > MAX_PACKAGE_BYTES {
        return Err(
            refuse(
                413,
                "invalid_package_size",
                Some("Paket boş veya 512 MB sınırından büyük.".to_string()),
            ),
        );
    }
    Ok(name)
}

/// A package an administrator asks the agent to verify or install, by name.
#[derive(Debug, Clone)]
pub struct PackageActionRequest {
    pub filename: String,
}

/// A version an administrator asks the agent to roll back to.
#[derive(Debug, Clone)]
pub struct RollbackRequest {
    pub version: String,
}

/// The channel an administrator switches to.
#[derive(Debug, Clone)]
pub struct UpdateChannelRequest {
    pub channel: String,
}

/// A package named in an action is a `.popkg` leaf file name, trimmed.
pub open spec fn package_action_name(filename: Seq<char>) -> Option<Seq<char>> {
    let name = trim(filename);
    if name.len() == 0 || file_name(name) != Some(name) || !has_suffix(name, ".popkg"@) {
        None
    } else {
        Some(name)
    }
}

/// Checks the package named in a verify or install action; the trimmed
/// name goes to the agent.
pub fn validate_package_action(request: &PackageActionRequest) -> (r: Result<String, UpdateReply>)
    ensures
        match package_action_name(request.filename@) {
            Some(name) => r matches Ok(s) && s@ == name,
            None => r matches Err(reply) && refused(
                reply,
                400,
                "invalid_filename"@,
                Some("Geçerli bir .popkg paket adı girilmelidir."@),
            ),
        },
{
    let name = trim_string(request.filename.as_str());
    let leaf_ok = match file_name_of(name.as_str()) {
        Some(leaf) => text_eq(leaf.as_str(), name.as_str()),
        None => false,
    };
    if name.as_str().unicode_len() == 0 || !leaf_ok || !str_ends_with(name.as_str(), ".popkg") {
        return Err(
            refuse(
                400,
                "invalid_filename",
                Some("Geçerli bir .popkg paket adı girilmelidir.".to_string()),
            ),
        );
    }
    Ok(name)
}

/// A rollback version is trimmed and holds no `/`, `\\` or `..`.
pub open spec fn rollback_version(version: Seq<char>) -> Option<Seq<char>> {
    let v = trim(version);
    if v.len() == 0 || has_char(v, '/') || has_char(v, '\\') || has_sub(v, ".."@) {
        None
    } else {
        Some(v)
    }
}

/// Checks the version of a rollback request; the trimmed version goes to
/// the agent.
pub fn validate_rollback(request: &RollbackRequest) -> (r: Result<String, UpdateReply>)
    ensures
        match rollback_version(request.version@) {
            Some(v) => r matches Ok(s) && s@ == v,
            None => r matches Err(reply) && refused(
                reply,
                400,
                "invalid_version"@,
                Some("Geçersiz sürüm bilgisi."@),
            ),
        },
{
    let v = trimmed(&chars_of(request.version.as_str()));
    let dots = chars_of("..");
    proof {
        reveal_strlit("..");
    }
    if v.len() == 0 || contains_char(&v, '/') || contains_char(&v, '\\') || contains_sub(&v, &dots) {
        return Err(
            refuse(400, "invalid_version", Some("Geçersiz sürüm bilgisi.".to_string())),
        );
    }
    Ok(string_of(&v))
}

/// The channel a change request names; an unknown name is refused with 400.
pub fn requested_channel(request: &UpdateChannelRequest) -> (r: Result<UpdateChannel, UpdateReply>)
    ensures
        match channel_named(request.channel@) {
            Some(c) => r == Ok::<UpdateChannel, UpdateReply>(c),
            None => r matches Err(reply) && refused(
                reply,
                400,
                "invalid_update_channel"@,
                Some("channel must be stable, beta or disabled"@),
            ),
        },
{
    match parse_update_channel_name(request.channel.as_str()) {
        Ok(c) => Ok(c),
        Err(m) => Err(refuse(400, "invalid_update_channel", Some(m))),
    }
}

} // verus!
