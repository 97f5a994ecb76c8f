use photoos::update_channel::UpdateChannel;
use photoos::update_discovery::{
    outcome_after_replay, replay_candidate, ReplayDecision,
    evaluate_signed_manifest, evaluate_signed_manifest_for_versions, parse_version,
    validate_manifest_document, DiscoveryError, DiscoveryOutcome, ManifestDocument, ManifestFault,
    ManifestMinimums, ManifestPackage, NumericVersion,
};

// The published beta manifest for PhotoOS 1.2.3, as decoded, and the sizes of
// the manifest and its detached signature as fetched.
const BETA_MANIFEST_LEN: u64 = 1_200;
const BETA_SIGNATURE_LEN: u64 = 64;

fn beta_manifest() -> ManifestDocument {
    ManifestDocument {
        schema_version: 1,
        product: "PhotoOS".to_string(),
        channel: "beta".to_string(),
        version: "1.2.3".to_string(),
        release_id: "1.2.3-login-redesign-4756c28b753f".to_string(),
        published_at: "2026-05-01T12:00:00Z".to_string(),
        source_commit: "4756c28b753f".to_string() + &"0".repeat(28),
        package: ManifestPackage {
            filename: "PhotoOS-1.2.3-4756c28b753f.popkg".to_string(),
            size: 7_434_622,
            sha256: "c".repeat(64),
            signature_url:
                "https://github.com/deniz3446/PhotoOS-Updates/releases/download/v1.2.3/PhotoOS-1.2.3-4756c28b753f.popkg.sig"
                    .to_string(),
            download_url:
                "https://github.com/deniz3446/PhotoOS-Updates/releases/download/v1.2.3/PhotoOS-1.2.3-4756c28b753f.popkg"
                    .to_string(),
        },
        minimums: ManifestMinimums {
            photoos_version: "1.2.0".to_string(),
            update_agent_version: "1.0.0".to_string(),
        },
        release_notes: vec!["Yeni giriş ekranı".to_string()],
    }
}

#[test]
fn published_signed_beta_fixture_is_update_available() {
    let outcome = evaluate_signed_manifest(
        UpdateChannel::Beta,
        "1.2.2",
        BETA_MANIFEST_LEN,
        BETA_SIGNATURE_LEN,
        true,
        Some(beta_manifest()),
    )
    .expect("published signed beta fixture");
    match outcome {
        DiscoveryOutcome::UpdateAvailable { version, release_id, package_filename } => {
            assert_eq!(version, "1.2.3");
            assert_eq!(release_id, "1.2.3-login-redesign-4756c28b753f");
            assert_eq!(package_filename, "PhotoOS-1.2.3-4756c28b753f.popkg");
        }
        other => panic!("expected UpdateAvailable, got {other:?}"),
    }
}

#[test]
fn invalid_signature_is_rejected_before_json_parse() {
    // Bytes that are not JSON, with a signature that does not verify.
    let result = evaluate_signed_manifest(UpdateChannel::Beta, "1.2.2", 27, 64, false, None);
    assert!(
        matches!(result, Err(DiscoveryError::InvalidSignature)),
        "signature verification must happen before JSON parsing: {result:?}"
    );
}

#[test]
fn manifest_contract_rejects_invalid_identity_hash_size_and_urls() {
    let base = beta_manifest();
    validate_manifest_document(&base, UpdateChannel::Beta).expect("published fixture contract");

    let mut wrong_product = base.clone();
    wrong_product.product = "NotPhotoOS".to_string();
    assert!(validate_manifest_document(&wrong_product, UpdateChannel::Beta).is_err());

    let mut wrong_channel = base.clone();
    wrong_channel.channel = "stable".to_string();
    assert!(validate_manifest_document(&wrong_channel, UpdateChannel::Beta).is_err());

    let mut wrong_hash = base.clone();
    wrong_hash.package.sha256 = "ABC123".to_string();
    assert!(validate_manifest_document(&wrong_hash, UpdateChannel::Beta).is_err());

    let mut zero_size = base.clone();
    zero_size.package.size = 0;
    assert!(validate_manifest_document(&zero_size, UpdateChannel::Beta).is_err());

    let mut evil_download = base.clone();
    evil_download.package.download_url =
        "https://evil.example/PhotoOS-1.2.3-4756c28b753f.popkg".to_string();
    assert!(validate_manifest_document(&evil_download, UpdateChannel::Beta).is_err());

    let mut evil_signature = base.clone();
    evil_signature.package.signature_url =
        "https://evil.example/PhotoOS-1.2.3-4756c28b753f.popkg.sig".to_string();
    assert!(validate_manifest_document(&evil_signature, UpdateChannel::Beta).is_err());
}

#[test]
fn task8a_agent_below_signed_minimum_is_incompatible() {
    let outcome = evaluate_signed_manifest_for_versions(
        UpdateChannel::Beta,
        "1.2.2",
        "0.9.0",
        BETA_MANIFEST_LEN,
        BETA_SIGNATURE_LEN,
        true,
        Some(beta_manifest()),
    )
    .expect("valid signed manifest");
    assert_eq!(outcome, DiscoveryOutcome::Incompatible);
}

#[test]
fn contract_faults_are_reported_by_kind() {
    let mut d = beta_manifest();
    d.channel = "stable".to_string();
    assert_eq!(
        validate_manifest_document(&d, UpdateChannel::Beta).unwrap_err(),
        DiscoveryError::InvalidManifest(ManifestFault::ChannelMismatch)
    );
    let mut d = beta_manifest();
    d.package.size = 0;
    assert_eq!(
        validate_manifest_document(&d, UpdateChannel::Beta).unwrap_err(),
        DiscoveryError::InvalidManifest(ManifestFault::PackageSize)
    );
    let mut d = beta_manifest();
    d.published_at = "yesterday".to_string();
    assert_eq!(
        validate_manifest_document(&d, UpdateChannel::Beta).unwrap_err(),
        DiscoveryError::InvalidManifest(ManifestFault::PublishedAt)
    );
    assert_eq!(
        validate_manifest_document(&beta_manifest(), UpdateChannel::Disabled).unwrap_err(),
        DiscoveryError::InvalidManifest(ManifestFault::DisabledChannel)
    );
}

#[test]
fn running_release_at_or_above_offer_is_up_to_date() {
    for running in ["1.2.3", "1.10.0", "2.0.0"] {
        let outcome = evaluate_signed_manifest(
            UpdateChannel::Beta,
            running,
            BETA_MANIFEST_LEN,
            BETA_SIGNATURE_LEN,
            true,
            Some(beta_manifest()),
        )
        .unwrap();
        assert_eq!(outcome, DiscoveryOutcome::UpToDate, "running {running}");
    }
    let outcome = evaluate_signed_manifest(
        UpdateChannel::Beta,
        "1.1.9",
        BETA_MANIFEST_LEN,
        BETA_SIGNATURE_LEN,
        true,
        Some(beta_manifest()),
    )
    .unwrap();
    assert_eq!(outcome, DiscoveryOutcome::Incompatible);
}

#[test]
fn oversized_or_empty_envelopes_are_refused_first() {
    let result =
        evaluate_signed_manifest(UpdateChannel::Beta, "1.2.2", 0, 64, true, Some(beta_manifest()));
    assert_eq!(result, Err(DiscoveryError::ResponseTooLarge));
    let result = evaluate_signed_manifest(
        UpdateChannel::Beta,
        "1.2.2",
        BETA_MANIFEST_LEN,
        5_000,
        true,
        Some(beta_manifest()),
    );
    assert_eq!(result, Err(DiscoveryError::ResponseTooLarge));
    let result =
        evaluate_signed_manifest(UpdateChannel::Beta, "1.2.2", BETA_MANIFEST_LEN, 64, true, None);
    assert_eq!(result, Err(DiscoveryError::InvalidJson));
}

#[test]
fn versions_parse_strictly() {
    assert_eq!(parse_version("1.2.3"), Ok(NumericVersion { major: 1, minor: 2, patch: 3 }));
    assert!(parse_version("1.2").is_err());
    assert!(parse_version("1.2.3.4").is_err());
    assert!(parse_version("v1.2.3").is_err());
    assert!(parse_version("1..3").is_err());
}

#[test]
fn versions_parse_only_in_their_decimal_form() {
    for (major, minor, patch) in [(0_u64, 0_u64, 0_u64), (1, 2, 3), (10, 0, 7), (u64::MAX, 1, 0)] {
        let text = format!("{major}.{minor}.{patch}");
        assert_eq!(parse_version(&text), Ok(NumericVersion { major, minor, patch }));
    }
    for bad in ["01.2.3", "1.02.3", "1.2.03", "+1.2.3", "1.2.3-rc", "", " 1.2.3", "18446744073709551616.0.0"] {
        assert!(parse_version(bad).is_err(), "{bad}");
    }
}

#[test]
fn replayed_regressions_are_refused_and_candidates_carry_the_digest() {
    let manifest = validate_manifest_document(&beta_manifest(), UpdateChannel::Beta).unwrap();
    assert_eq!(
        outcome_after_replay(ReplayDecision::RejectedRegression, "1.2.2", "1.0.0", &manifest),
        Ok(DiscoveryOutcome::ReplayRejected)
    );
    assert!(matches!(
        outcome_after_replay(ReplayDecision::AlreadySeen, "1.2.2", "1.0.0", &manifest),
        Ok(DiscoveryOutcome::UpdateAvailable { .. })
    ));
    let candidate = replay_candidate(UpdateChannel::Beta, &manifest, b"abc");
    assert_eq!(candidate.channel, UpdateChannel::Beta);
    assert_eq!(candidate.version, "1.2.3");
    assert_eq!(
        candidate.manifest_sha256,
        "ba7816bf8f01cfea414140de5dae2223b00361a396177a9cb410ff61f20015ad"
    );
}
