use photoos::update_agent_flow::{AgentPackageIdentity, InstallApproval, VerifiedAgentPackage};
use photoos::update_channel::{parse_update_channel_name, update_channel_name, UpdateChannel};
use photoos::update_discovery::{DiscoveryOutcome, ValidatedManifest};
use photoos::update_workflow::{
    check_step, discovery_status, download_step, install_step, requested_channel, verify_step,
    VerifyEvent, VerifyState, VerifyStep, admin_gate, Admission, Caller, CheckEvent, CheckStep,
    DownloadEvent, DownloadStep, InstallEvent, InstallStep,
    validate_package_action, validate_rollback, PackageActionRequest, RollbackRequest, UpdateReply,
    UpdateChannelRequest,
};
use photoos::updates::{
    explicit_install_approval, package_download_request_from_manifest, update_staging_directory,
    validate_download_target, validate_verify_target, verified_agent_package_from_operation,
    verified_operation_from_agent, DownloadUpdateRequest, InstallVerifiedUpdateRequest,
    UpdateOperationStatus, VerifiedUpdateOperationRecord, VerifyStagedUpdateRequest,
    check_staged_package, StagedFileFacts,
};
use sha2::{Digest, Sha256};

fn manifest() -> ValidatedManifest {
    ValidatedManifest {
        version: "1.2.4".to_string(),
        release_id: "1.2.4-test-release".to_string(),
        published_at: "2026-09-22T20:00:00Z".to_string(),
        source_commit: "a".repeat(40),
        package_filename: "PhotoOS-1.2.4-test.popkg".to_string(),
        package_size: 123_456,
        package_sha256: "b".repeat(64),
        package_signature_url:
            "https://github.com/deniz3446/PhotoOS-Updates/releases/download/v1.2.4/PhotoOS-1.2.4-test.popkg.sig"
                .to_string(),
        package_download_url:
            "https://github.com/deniz3446/PhotoOS-Updates/releases/download/v1.2.4/PhotoOS-1.2.4-test.popkg"
                .to_string(),
        minimum_photoos_version: "1.2.1".to_string(),
        minimum_update_agent_version: "1.0.0".to_string(),
        release_notes: vec![],
    }
}

fn download_target() -> DownloadUpdateRequest {
    DownloadUpdateRequest {
        version: "1.2.4".to_string(),
        release_id: "1.2.4-test-release".to_string(),
        package_filename: "PhotoOS-1.2.4-test.popkg".to_string(),
    }
}

fn verify_target() -> VerifyStagedUpdateRequest {
    VerifyStagedUpdateRequest {
        version: "1.2.4".to_string(),
        release_id: "1.2.4-test-release".to_string(),
        package_filename: "PhotoOS-1.2.4-test.popkg".to_string(),
    }
}

fn verified() -> VerifiedAgentPackage {
    VerifiedAgentPackage {
        identity: AgentPackageIdentity {
            filename: "PhotoOS-1.2.4-test.popkg".to_string(),
            sha256: "b".repeat(64),
            size: 123_456,
        },
        version: "1.2.4".to_string(),
    }
}

fn sha256(bytes: &[u8]) -> String {
    format!("{:x}", Sha256::digest(bytes))
}

fn manifest_for(bytes: &[u8]) -> ValidatedManifest {
    let mut m = manifest();
    m.package_size = bytes.len() as u64;
    m.package_sha256 = sha256(bytes);
    m
}

#[test]
fn task8a_channel_parser_is_strict() {
    assert_eq!(parse_update_channel_name("stable").unwrap(), UpdateChannel::Stable);
    assert_eq!(parse_update_channel_name("beta").unwrap(), UpdateChannel::Beta);
    assert_eq!(parse_update_channel_name("disabled").unwrap(), UpdateChannel::Disabled);
    assert!(parse_update_channel_name("Stable").is_err());
    assert!(parse_update_channel_name("nightly").is_err());
    assert!(parse_update_channel_name("").is_err());
}

#[test]
fn task8a_api_handler_symbols_exist() {
    // The decisions behind reading, changing and checking the channel.
    let _ = update_channel_name;
    let _ = requested_channel;
    let _ = check_step;
}

#[test]
fn task8b_target_identity_must_match_signed_manifest_exactly() {
    let manifest = manifest();
    let exact = download_target();
    validate_download_target(&exact, &manifest).expect("exact signed identity must match");

    let mut wrong_version = exact.clone();
    wrong_version.version = "1.2.5".to_string();
    assert!(validate_download_target(&wrong_version, &manifest).is_err());

    let mut wrong_release = exact.clone();
    wrong_release.release_id = "different-release".to_string();
    assert!(validate_download_target(&wrong_release, &manifest).is_err());

    let mut wrong_filename = exact;
    wrong_filename.package_filename = "PhotoOS-other.popkg".to_string();
    assert!(validate_download_target(&wrong_filename, &manifest).is_err());
}

#[test]
fn task8b_staging_directory_is_beneath_runtime_root() {
    let runtime = "/var/lib/photoos/runtime";
    let staging = update_staging_directory(runtime).expect("valid absolute runtime root");
    assert_eq!(staging, "/var/lib/photoos/runtime/updates/staging");
    assert!(staging.starts_with(runtime));
}

#[test]
fn task8b_relative_or_empty_runtime_root_is_rejected() {
    assert!(update_staging_directory("").is_err());
    assert!(update_staging_directory("relative/runtime").is_err());
}

#[test]
fn task8b_downloader_request_is_derived_only_from_signed_manifest() {
    let manifest = manifest();
    let request = package_download_request_from_manifest(&manifest, "/var/lib/photoos/runtime")
        .expect("build downloader request");
    assert_eq!(request.filename, manifest.package_filename);
    assert_eq!(request.download_url, manifest.package_download_url);
    assert_eq!(request.signature_url, manifest.package_signature_url);
    assert_eq!(request.expected_size, manifest.package_size);
    assert_eq!(request.expected_sha256, manifest.package_sha256);
    assert_eq!(request.staging_directory, "/var/lib/photoos/runtime/updates/staging");
}

#[test]
fn task8c_target_identity_must_match_signed_manifest() {
    let bytes = b"signed-package";
    let manifest = manifest_for(bytes);
    let exact = verify_target();
    validate_verify_target(&exact, &manifest).expect("exact identity");

    let mut wrong = exact.clone();
    wrong.package_filename = "other.popkg".to_string();
    assert!(validate_verify_target(&wrong, &manifest).is_err());

    let mut wrong = verify_target();
    wrong.version = "1.2.5".to_string();
    assert!(validate_verify_target(&wrong, &manifest).is_err());

    let mut wrong = verify_target();
    wrong.release_id = "other-release".to_string();
    assert!(validate_verify_target(&wrong, &manifest).is_err());
}

#[test]
fn task8d2_false_approval_is_rejected_before_install_authority() {
    let denied = InstallVerifiedUpdateRequest { operation_id: "op-123".to_string(), approved: false };
    assert!(explicit_install_approval(&denied).is_err());

    let approved = InstallVerifiedUpdateRequest { operation_id: "op-123".to_string(), approved: true };
    assert_eq!(explicit_install_approval(&approved).expect("explicit approval"), InstallApproval::Approved);
}

#[test]
fn task8d2_successful_8c_verification_creates_bound_operation_identity() {
    let record = verified_operation_from_agent(
        "550e8400-e29b-41d4-a716-446655440000",
        &verify_target(),
        &verified(),
        "2026-09-22T20:00:00+00:00",
    )
    .expect("build verified operation");
    assert_eq!(record.operation_id, "550e8400-e29b-41d4-a716-446655440000");
    assert_eq!(record.target_version, "1.2.4");
    assert_eq!(record.release_id, "1.2.4-test-release");
    assert_eq!(record.package_filename, "PhotoOS-1.2.4-test.popkg");
    assert_eq!(record.package_sha256, "b".repeat(64));
    assert_eq!(record.package_size, 123_456);
    assert_eq!(record.status, UpdateOperationStatus::Verified);
}

#[test]
fn task8d2_install_identity_is_reconstructed_only_from_claimed_db_record() {
    let operation = VerifiedUpdateOperationRecord {
        operation_id: "op-123".to_string(),
        target_version: "1.2.4".to_string(),
        release_id: "1.2.4-test-release".to_string(),
        package_filename: "PhotoOS-1.2.4-test.popkg".to_string(),
        package_sha256: "b".repeat(64),
        package_size: 123_456,
        status: UpdateOperationStatus::Installing,
        updated_at: "2026-09-22T20:01:00+00:00".to_string(),
    };
    let package = verified_agent_package_from_operation(&operation).expect("reconstruct verified package");
    assert_eq!(package, verified());
}

#[test]
fn operation_id_must_be_a_uuid() {
    let result = verified_operation_from_agent("op-123", &verify_target(), &verified(), "now");
    assert_eq!(result, Err("invalid update operation id".to_string()));

    let mut wrong = verified();
    wrong.version = "1.2.5".to_string();
    let result = verified_operation_from_agent(
        "550e8400-e29b-41d4-a716-446655440000",
        &verify_target(),
        &wrong,
        "now",
    );
    assert_eq!(result, Err("verified Agent identity is invalid".to_string()));
}

#[test]
fn unclaimed_or_malformed_records_give_no_install_authority() {
    let mut operation = VerifiedUpdateOperationRecord {
        operation_id: "op-123".to_string(),
        target_version: "1.2.4".to_string(),
        release_id: "1.2.4-test-release".to_string(),
        package_filename: "PhotoOS-1.2.4-test.popkg".to_string(),
        package_sha256: "b".repeat(64),
        package_size: 123_456,
        status: UpdateOperationStatus::Verified,
        updated_at: "2026-09-22T20:01:00+00:00".to_string(),
    };
    assert_eq!(
        verified_agent_package_from_operation(&operation),
        Err("update operation is not claimed for install".to_string())
    );
    operation.status = UpdateOperationStatus::Installing;
    operation.package_filename = "../PhotoOS-1.2.4-test.popkg".to_string();
    assert_eq!(
        verified_agent_package_from_operation(&operation),
        Err("claimed update package identity is invalid".to_string())
    );
    operation.package_filename = "PhotoOS-1.2.4-test.popkg".to_string();
    operation.package_sha256 = "B".repeat(64);
    assert!(verified_agent_package_from_operation(&operation).is_err());
}

#[test]
fn update_available_status_carries_no_install_flag() {
    let outcome = DiscoveryOutcome::UpdateAvailable {
        version: "1.2.3".to_string(),
        release_id: "1.2.3-test".to_string(),
        package_filename: "PhotoOS-test.popkg".to_string(),
    };
    assert_eq!(discovery_status(&outcome), ("update_available", true));
    assert_eq!(discovery_status(&DiscoveryOutcome::Disabled), ("disabled", false));
    assert_eq!(discovery_status(&DiscoveryOutcome::UpToDate), ("up_to_date", false));
}

#[test]
fn package_actions_need_a_popkg_leaf_name() {
    let ok = validate_package_action(&PackageActionRequest { filename: "  PhotoOS-1.popkg ".to_string() });
    assert_eq!(ok.unwrap(), "PhotoOS-1.popkg");
    for bad in ["", "   ", "dir/PhotoOS-1.popkg", "PhotoOS-1.zip", "../x.popkg"] {
        match validate_package_action(&PackageActionRequest { filename: bad.to_string() }) {
            Err(UpdateReply::Refused { status, error, message }) => {
                assert_eq!(status, 400);
                assert_eq!(error, "invalid_filename");
                assert_eq!(message.as_deref(), Some("Geçerli bir .popkg paket adı girilmelidir."));
            }
            other => panic!("expected refusal for {bad:?}, got {other:?}"),
        }
    }
}

#[test]
fn rollback_versions_cannot_name_paths() {
    assert_eq!(validate_rollback(&RollbackRequest { version: " 1.2.3 ".to_string() }).unwrap(), "1.2.3");
    for bad in ["", "1.2/3", "1.2\\3", "1..2", "  "] {
        match validate_rollback(&RollbackRequest { version: bad.to_string() }) {
            Err(UpdateReply::Refused { status, error, .. }) => {
                assert_eq!(status, 400);
                assert_eq!(error, "invalid_version");
            }
            other => panic!("expected refusal for {bad:?}, got {other:?}"),
        }
    }
}

#[test]
fn channel_change_names_one_of_three_channels() {
    assert_eq!(
        requested_channel(&UpdateChannelRequest { channel: "beta".to_string() }).unwrap(),
        UpdateChannel::Beta
    );
    match requested_channel(&UpdateChannelRequest { channel: "Beta".to_string() }) {
        Err(UpdateReply::Refused { status, error, message }) => {
            assert_eq!(status, 400);
            assert_eq!(error, "invalid_update_channel");
            assert_eq!(message.as_deref(), Some("channel must be stable, beta or disabled"));
        }
        other => panic!("expected refusal, got {other:?}"),
    }
}

#[test]
fn step_functions_are_public() {
    let _ = download_step;
    let _ = verify_step;
    let _ = install_step;
}

const STAGED_PATH: &str = "/var/lib/photoos/runtime/updates/staging/PhotoOS-1.2.4-test.popkg";

fn good_facts(size: u64) -> StagedFileFacts {
    StagedFileFacts {
        path: STAGED_PATH.to_string(),
        staging_is_real_dir: true,
        file_is_regular: true,
        inside_staging: true,
        size,
    }
}

fn update_available() -> DiscoveryOutcome {
    DiscoveryOutcome::UpdateAvailable {
        version: "1.2.4".to_string(),
        release_id: "1.2.4-test-release".to_string(),
        package_filename: "PhotoOS-1.2.4-test.popkg".to_string(),
    }
}

fn refused_code(step: &VerifyStep) -> Option<(u16, &'static str)> {
    match step {
        VerifyStep::Reply(UpdateReply::Refused { status, error, .. }) => Some((*status, *error)),
        _ => None,
    }
}

#[test]
fn staged_package_is_rehashed_and_checked_against_manifest() {
    let bytes = b"signed-content";
    let m = manifest_for(bytes);
    let staged = check_staged_package(&verify_target(), &m, &good_facts(bytes.len() as u64), bytes).unwrap();
    assert_eq!(staged.path, STAGED_PATH);
    assert_eq!(staged.size, bytes.len() as u64);
    assert_eq!(staged.sha256, sha256(bytes));
}

#[test]
fn tampered_staged_package_is_rejected() {
    let m = manifest_for(b"signed-content");
    let tampered = b"tampered-cntnt";
    assert_eq!(tampered.len(), b"signed-content".len());
    let err = check_staged_package(&verify_target(), &m, &good_facts(tampered.len() as u64), tampered)
        .unwrap_err();
    assert_eq!(err, "staged package SHA256 does not match signed manifest");
}

#[test]
fn staged_file_shape_is_checked_before_its_bytes() {
    let bytes = b"signed-content";
    let m = manifest_for(bytes);
    let size = bytes.len() as u64;
    let mut facts = good_facts(size);
    facts.staging_is_real_dir = false;
    assert_eq!(
        check_staged_package(&verify_target(), &m, &facts, bytes).unwrap_err(),
        "staging directory is not a real directory"
    );
    let mut facts = good_facts(size);
    facts.file_is_regular = false;
    assert_eq!(
        check_staged_package(&verify_target(), &m, &facts, bytes).unwrap_err(),
        "staged package must be a regular file"
    );
    let mut facts = good_facts(size);
    facts.inside_staging = false;
    assert_eq!(
        check_staged_package(&verify_target(), &m, &facts, bytes).unwrap_err(),
        "staged package escaped the staging directory"
    );
    assert_eq!(
        check_staged_package(&verify_target(), &m, &good_facts(size + 1), bytes).unwrap_err(),
        "staged package size does not match signed manifest"
    );
    assert_eq!(
        check_staged_package(&verify_target(), &m, &good_facts(size), b"signed-conten").unwrap_err(),
        "staged package size changed during verification"
    );
    let mut other = verify_target();
    other.version = "1.2.5".to_string();
    assert_eq!(
        check_staged_package(&other, &m, &good_facts(size), bytes).unwrap_err(),
        "requested staged update identity does not match the current signed manifest"
    );
}

#[test]
fn verify_sequence_records_exactly_the_signed_package() {
    let bytes = b"signed-content";
    let m = manifest_for(bytes);
    let target = verify_target();
    let mut state = VerifyState::new();

    assert!(matches!(verify_step(&target, &mut state, VerifyEvent::Start), VerifyStep::Authenticate));
    assert!(matches!(
        verify_step(&target, &mut state, VerifyEvent::Caller(admin())),
        VerifyStep::ReadChannel
    ));
    assert!(matches!(
        verify_step(&target, &mut state, VerifyEvent::Channel(UpdateChannel::Stable)),
        VerifyStep::FetchAgentVersion
    ));
    assert!(matches!(
        verify_step(&target, &mut state, VerifyEvent::AgentVersion("1.0.0".to_string())),
        VerifyStep::RefreshManifest
    ));
    assert!(matches!(
        verify_step(&target, &mut state, VerifyEvent::Manifest(m.clone(), update_available())),
        VerifyStep::ReadStaged
    ));
    assert!(matches!(
        verify_step(
            &target,
            &mut state,
            VerifyEvent::StagedRead(good_facts(bytes.len() as u64), bytes.to_vec())
        ),
        VerifyStep::ReadToken
    ));
    match verify_step(&target, &mut state, VerifyEvent::Token("t".repeat(64))) {
        VerifyStep::VerifyWithAgent { staged, version } => {
            assert_eq!(staged.path, STAGED_PATH);
            assert_eq!(staged.sha256, sha256(bytes));
            assert_eq!(staged.size, bytes.len() as u64);
            assert_eq!(version, "1.2.4");
        }
        other => panic!("expected agent verification, got {other:?}"),
    }
    let agent = VerifiedAgentPackage {
        identity: AgentPackageIdentity {
            filename: "PhotoOS-1.2.4-test.popkg".to_string(),
            sha256: sha256(bytes),
            size: bytes.len() as u64,
        },
        version: "1.2.4".to_string(),
    };
    assert!(matches!(
        verify_step(&target, &mut state, VerifyEvent::AgentVerified(agent)),
        VerifyStep::AssignOperation
    ));
    let operation_id = "3f2504e0-4f89-41d3-9a0c-0305e82c3301".to_string();
    match verify_step(
        &target,
        &mut state,
        VerifyEvent::OperationAssigned {
            operation_id: operation_id.clone(),
            updated_at: "2026-09-22T20:00:00Z".to_string(),
        },
    ) {
        VerifyStep::Persist(rec) => {
            assert_eq!(rec.operation_id, operation_id);
            assert_eq!(rec.package_sha256, m.package_sha256);
            assert_eq!(rec.package_size, m.package_size);
            assert_eq!(rec.package_filename, m.package_filename);
            assert_eq!(rec.status, UpdateOperationStatus::Verified);
        }
        other => panic!("expected a record to persist, got {other:?}"),
    }
    match verify_step(&target, &mut state, VerifyEvent::Persisted) {
        VerifyStep::Reply(UpdateReply::Verified {
            operation_id: id,
            version,
            release_id,
            package_filename,
            size,
            sha256: hash,
        }) => {
            assert_eq!(id, operation_id);
            assert_eq!(version, "1.2.4");
            assert_eq!(release_id, "1.2.4-test-release");
            assert_eq!(package_filename, m.package_filename);
            assert_eq!(size, m.package_size);
            assert_eq!(hash, m.package_sha256);
        }
        other => panic!("expected the verified answer, got {other:?}"),
    }
}

#[test]
fn persisted_before_a_record_is_out_of_order() {
    let mut state = admitted();
    let step = verify_step(&verify_target(), &mut state, VerifyEvent::Persisted);
    assert_eq!(refused_code(&step), Some((500, "verify_sequence_invalid")));
}

#[test]
fn agent_verification_of_another_package_is_refused() {
    let bytes = b"signed-content";
    let m = manifest_for(bytes);
    let target = verify_target();
    let mut state = admitted();
    verify_step(&target, &mut state, VerifyEvent::Manifest(m, update_available()));
    verify_step(&target, &mut state, VerifyEvent::StagedRead(good_facts(bytes.len() as u64), bytes.to_vec()));
    let other = VerifiedAgentPackage {
        identity: AgentPackageIdentity {
            filename: "PhotoOS-1.2.4-test.popkg".to_string(),
            sha256: "c".repeat(64),
            size: bytes.len() as u64,
        },
        version: "1.2.4".to_string(),
    };
    let step = verify_step(&target, &mut state, VerifyEvent::AgentVerified(other));
    assert_eq!(refused_code(&step), Some((409, "invalid_staged_package")));
    let step = verify_step(
        &target,
        &mut state,
        VerifyEvent::OperationAssigned {
            operation_id: "3f2504e0-4f89-41d3-9a0c-0305e82c3301".to_string(),
            updated_at: "2026-09-22T20:00:00Z".to_string(),
        },
    );
    assert_eq!(refused_code(&step), Some((500, "verify_sequence_invalid")));
}

#[test]
fn tampered_bytes_stop_the_verify_sequence() {
    let m = manifest_for(b"signed-content");
    let target = verify_target();
    let mut state = admitted();
    verify_step(&target, &mut state, VerifyEvent::Manifest(m, update_available()));
    let tampered = b"tampered-cntnt";
    let step = verify_step(
        &target,
        &mut state,
        VerifyEvent::StagedRead(good_facts(tampered.len() as u64), tampered.to_vec()),
    );
    assert_eq!(refused_code(&step), Some((409, "invalid_staged_package")));
    let step = verify_step(&target, &mut state, VerifyEvent::Token("t".repeat(64)));
    assert_eq!(refused_code(&step), Some((500, "verify_sequence_invalid")));
}

#[test]
fn staged_read_before_manifest_is_out_of_order() {
    let mut state = admitted();
    let step = verify_step(
        &verify_target(),
        &mut state,
        VerifyEvent::StagedRead(good_facts(3), b"abc".to_vec()),
    );
    assert_eq!(refused_code(&step), Some((500, "verify_sequence_invalid")));
}

#[test]
fn operation_ids_take_every_uuid_form() {
    let good = [
        "550e8400e29b41d4a716446655440000",
        "550E8400-E29B-41D4-A716-446655440000",
        "{550e8400-e29b-41d4-a716-446655440000}",
        "URN:uuid:550e8400-e29b-41d4-a716-446655440000",
    ];
    for id in good {
        assert!(verified_operation_from_agent(id, &verify_target(), &verified(), "now").is_ok(), "{id}");
    }
    let bad = [
        "550e8400-e29b-41d4-a716-44665544000g",
        "550e8400e29b-41d4-a716-4466554400000",
        "{550e8400-e29b-41d4-a716-446655440000",
        "urn:uuid:550e8400e29b41d4a716446655440000",
        "",
    ];
    for id in bad {
        assert_eq!(
            verified_operation_from_agent(id, &verify_target(), &verified(), "now"),
            Err("invalid update operation id".to_string()),
            "{id}"
        );
    }
}

fn admin() -> Caller {
    Caller { user: Some(1), role: Some("admin".to_string()) }
}

fn admitted() -> VerifyState {
    let mut state = VerifyState::new();
    verify_step(&verify_target(), &mut state, VerifyEvent::Caller(admin()));
    assert_eq!(state.admin, Some(1));
    state
}

fn refusal(reply: &UpdateReply) -> (u16, &'static str, Option<String>) {
    match reply {
        UpdateReply::Refused { status, error, message } => (*status, *error, message.clone()),
        other => panic!("expected a refusal, got {other:?}"),
    }
}

#[test]
fn update_actions_are_for_administrators_only() {
    let anonymous = Caller { user: None, role: Some("admin".to_string()) };
    assert_eq!(
        refusal(&admin_gate(&anonymous).unwrap_err()),
        (401, "unauthorized", Some("Oturum doğrulanamadı.".to_string()))
    );
    for role in [None, Some("user".to_string()), Some("Admin".to_string())] {
        let caller = Caller { user: Some(7), role };
        assert_eq!(
            refusal(&admin_gate(&caller).unwrap_err()),
            (403, "forbidden", Some("Bu işlem yalnızca yöneticiler içindir.".to_string()))
        );
    }
    assert_eq!(admin_gate(&admin()).unwrap(), 1);
}

#[test]
fn verify_refuses_a_non_administrator_before_anything_else() {
    let target = verify_target();
    let mut state = VerifyState::new();
    let step = verify_step(
        &target,
        &mut state,
        VerifyEvent::Caller(Caller { user: Some(3), role: Some("user".to_string()) }),
    );
    assert_eq!(refused_code(&step), Some((403, "forbidden")));
    assert_eq!(state.admin, None);
    let step = verify_step(&target, &mut state, VerifyEvent::Manifest(manifest(), update_available()));
    assert_eq!(refused_code(&step), Some((403, "forbidden")));
    assert!(state.manifest.is_none());
    let step = verify_step(&target, &mut state, VerifyEvent::Caller(Caller { user: None, role: None }));
    assert_eq!(refused_code(&step), Some((401, "unauthorized")));
}

#[test]
fn download_check_and_install_start_by_admitting_the_caller() {
    let mut admission = Admission::new();
    let target = download_target();
    assert!(matches!(
        download_step(&target, "/var/lib/photoos/runtime", &mut admission, DownloadEvent::Start),
        DownloadStep::Authenticate
    ));
    match download_step(&target, "/var/lib/photoos/runtime", &mut admission, DownloadEvent::Channel(UpdateChannel::Stable)) {
        DownloadStep::Reply(reply) => assert_eq!(refusal(&reply).0, 403),
        other => panic!("unexpected {other:?}"),
    }
    assert!(matches!(
        download_step(&target, "/var/lib/photoos/runtime", &mut admission, DownloadEvent::Caller(admin())),
        DownloadStep::ReadChannel
    ));
    assert!(matches!(
        download_step(&target, "/var/lib/photoos/runtime", &mut admission, DownloadEvent::Channel(UpdateChannel::Stable)),
        DownloadStep::FetchAgentVersion
    ));

    let mut admission = Admission::new();
    assert!(matches!(check_step("1.2.3", &mut admission, CheckEvent::Start), CheckStep::Authenticate));
    match check_step("1.2.3", &mut admission, CheckEvent::Caller(Caller { user: Some(2), role: None })) {
        CheckStep::Reply(reply) => assert_eq!(refusal(&reply).0, 403),
        other => panic!("unexpected {other:?}"),
    }
    assert!(matches!(check_step("1.2.3", &mut admission, CheckEvent::Caller(admin())), CheckStep::ReadChannel));

    let request = InstallVerifiedUpdateRequest {
        operation_id: "550e8400-e29b-41d4-a716-446655440000".to_string(),
        approved: true,
    };
    let mut admission = Admission::new();
    assert!(matches!(install_step(&request, &mut admission, InstallEvent::Start), InstallStep::Authenticate));
    match install_step(&request, &mut admission, InstallEvent::Claimed(None)) {
        InstallStep::Reply(reply) => assert_eq!(refusal(&reply).0, 403),
        other => panic!("unexpected {other:?}"),
    }
    match install_step(&request, &mut admission, InstallEvent::Caller(admin())) {
        InstallStep::Claim(id) => assert_eq!(id, "550e8400-e29b-41d4-a716-446655440000"),
        other => panic!("unexpected {other:?}"),
    }
}
