use photoos::update_channel::UpdateChannel;
use photoos::update_distribution::{
    can_follow_redirect, channel_manifest_url, channel_signature_url, validate_manifest_response_size,
    validate_package_size, validate_redirect_target, validate_release_asset_url,
    validate_signature_response_size, MAX_MANIFEST_BYTES, MAX_PACKAGE_BYTES, MAX_REDIRECTS,
    MAX_SIGNATURE_BYTES,
};

#[test]
fn channel_urls_are_fixed_and_disabled_has_no_remote_url() {
    assert_eq!(
        channel_manifest_url(UpdateChannel::Stable),
        Some("https://raw.githubusercontent.com/deniz3446/PhotoOS-Updates/main/channels/stable.json")
    );
    assert_eq!(
        channel_signature_url(UpdateChannel::Stable),
        Some("https://raw.githubusercontent.com/deniz3446/PhotoOS-Updates/main/channels/stable.json.sig")
    );
    assert_eq!(
        channel_manifest_url(UpdateChannel::Beta),
        Some("https://raw.githubusercontent.com/deniz3446/PhotoOS-Updates/main/channels/beta.json")
    );
    assert_eq!(
        channel_signature_url(UpdateChannel::Beta),
        Some("https://raw.githubusercontent.com/deniz3446/PhotoOS-Updates/main/channels/beta.json.sig")
    );
    assert_eq!(channel_manifest_url(UpdateChannel::Disabled), None);
    assert_eq!(channel_signature_url(UpdateChannel::Disabled), None);
}

#[test]
fn release_asset_url_requires_exact_https_repo_and_filename() {
    let filename = "PhotoOS-1.2.4-deadbeef.popkg";
    let valid = format!(
        "https://github.com/deniz3446/PhotoOS-Updates/releases/download/v1.2.4/{filename}"
    );
    validate_release_asset_url(&valid, filename)
        .expect("official GitHub release asset must be accepted");

    let signature = format!("{filename}.sig");
    let valid_signature = format!(
        "https://github.com/deniz3446/PhotoOS-Updates/releases/download/v1.2.4/{signature}"
    );
    validate_release_asset_url(&valid_signature, &signature)
        .expect("official detached signature URL must be accepted");

    let invalid = [
        format!("http://github.com/deniz3446/PhotoOS-Updates/releases/download/v1.2.4/{filename}"),
        format!("https://evil.example/deniz3446/PhotoOS-Updates/releases/download/v1.2.4/{filename}"),
        format!("https://github.com/attacker/PhotoOS-Updates/releases/download/v1.2.4/{filename}"),
        format!("https://github.com/deniz3446/OtherRepo/releases/download/v1.2.4/{filename}"),
        format!(
            "https://attacker@github.com/deniz3446/PhotoOS-Updates/releases/download/v1.2.4/{filename}"
        ),
        format!("https://github.com:444/deniz3446/PhotoOS-Updates/releases/download/v1.2.4/{filename}"),
        format!(
            "https://github.com/deniz3446/PhotoOS-Updates/releases/download/v1.2.4/{filename}?download=1"
        ),
        format!(
            "https://github.com/deniz3446/PhotoOS-Updates/releases/download/v1.2.4/{filename}#fragment"
        ),
        format!(
            "https://github.com/deniz3446/PhotoOS-Updates/releases/download/v1.2.4/{filename}.evil"
        ),
    ];
    for url in invalid {
        assert!(validate_release_asset_url(&url, filename).is_err(), "must reject {url}");
    }
}

#[test]
fn release_asset_url_rejects_path_traversal_and_encoded_separators() {
    let filename = "PhotoOS-1.2.4-deadbeef.popkg";
    let invalid = [
        format!(
            "https://github.com/deniz3446/PhotoOS-Updates/releases/download/../v1.2.4/{filename}"
        ),
        format!(
            "https://github.com/deniz3446/PhotoOS-Updates/releases/download/%2e%2e/v1.2.4/{filename}"
        ),
        format!(
            "https://github.com/deniz3446/PhotoOS-Updates/releases/download/v1.2.4/%2e%2e/{filename}"
        ),
        format!(
            "https://github.com/deniz3446/PhotoOS-Updates/releases/download/v1.2.4%2fextra/{filename}"
        ),
        format!(
            "https://github.com/deniz3446/PhotoOS-Updates/releases/download/v1.2.4/%2F{filename}"
        ),
        format!(
            "https://github.com/deniz3446/PhotoOS-Updates/releases/download/v1.2.4/%5c{filename}"
        ),
    ];
    for url in invalid {
        assert!(
            validate_release_asset_url(&url, filename).is_err(),
            "must reject traversal-like URL {url}"
        );
    }
}

#[test]
fn redirect_policy_is_bounded_and_host_allowlisted() {
    assert_eq!(MAX_REDIRECTS, 3);
    assert!(can_follow_redirect(0));
    assert!(can_follow_redirect(1));
    assert!(can_follow_redirect(2));
    assert!(!can_follow_redirect(3));

    validate_redirect_target(
        "https://github.com/deniz3446/PhotoOS-Updates/releases/download/v1.2.4/PhotoOS-1.2.4-deadbeef.popkg",
    )
    .expect("official github redirect target");
    validate_redirect_target(
        "https://release-assets.githubusercontent.com/github-production-release-asset/123456/example?sp=r&sv=1&sig=abc",
    )
    .expect("GitHub release asset CDN redirect");

    let invalid = [
        "http://release-assets.githubusercontent.com/github-production-release-asset/123456/example",
        "https://release-assets.githubusercontent.com.evil.example/example",
        "https://evil.example/example",
        "https://attacker@release-assets.githubusercontent.com/example",
        "https://release-assets.githubusercontent.com:444/example",
        "https://raw.githubusercontent.com/deniz3446/PhotoOS-Updates/main/channels/stable.json",
    ];
    for url in invalid {
        assert!(validate_redirect_target(url).is_err(), "must reject redirect target {url}");
    }
}

#[test]
fn manifest_and_signature_response_sizes_are_bounded() {
    assert!(MAX_MANIFEST_BYTES > 0);
    assert!(MAX_SIGNATURE_BYTES >= 64);
    validate_manifest_response_size(1).expect("small manifest");
    validate_manifest_response_size(MAX_MANIFEST_BYTES).expect("manifest at maximum");
    assert!(validate_manifest_response_size(MAX_MANIFEST_BYTES + 1).is_err());
    validate_signature_response_size(64).expect("Ed25519 signature");
    validate_signature_response_size(MAX_SIGNATURE_BYTES).expect("signature response at maximum");
    assert!(validate_signature_response_size(MAX_SIGNATURE_BYTES + 1).is_err());
}

#[test]
fn package_size_must_be_positive_and_within_agent_limit() {
    assert_eq!(MAX_PACKAGE_BYTES, 512 * 1024 * 1024);
    assert!(validate_package_size(0).is_err());
    validate_package_size(1).expect("minimum positive size");
    validate_package_size(7_434_622).expect("published PhotoOS 1.2.3 package size");
    validate_package_size(MAX_PACKAGE_BYTES).expect("maximum package size");
    assert!(validate_package_size(MAX_PACKAGE_BYTES + 1).is_err());
}
