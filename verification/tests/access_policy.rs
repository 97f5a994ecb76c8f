use photoos::access::{
    photoos_admin_required, photoos_protected_api, photoos_public_media_read, request_gate, Gate,
    HttpMethod,
};

#[test]
fn sensitive_api_routes_require_auth() {
    for path in [
        "/api/v1/users",
        "/api/v1/photos",
        "/api/v1/photos/count",
        "/api/v1/photos/timeline",
        "/api/v1/photos/upload",
        "/api/v1/photos/download-zip",
        "/api/v1/albums",
        "/api/v1/albums/42",
        "/api/v1/me",
        "/api/v1/setup/preferences",
    ] {
        assert!(photoos_protected_api(path), "expected protected route: {path}");
    }
}

#[test]
fn media_get_compatibility_is_explicit() {
    assert!(photoos_public_media_read(HttpMethod::Get, "/api/v1/photos/thumb/example.jpg"));
    assert!(photoos_public_media_read(HttpMethod::Head, "/api/v1/photos/file/example.jpg"));
    assert!(!photoos_public_media_read(HttpMethod::Delete, "/api/v1/photos/file/example.jpg"));
    assert!(!photoos_public_media_read(HttpMethod::Get, "/api/v1/photos/count"));
}

#[test]
fn bootstrap_routes_remain_public() {
    for path in ["/api/v1/login", "/api/v1/setup/status", "/api/v1/setup/initialize"] {
        assert!(!photoos_protected_api(path), "expected public bootstrap route: {path}");
    }
}

#[test]
fn device_and_pc_library_metadata_is_admin_only() {
    assert!(photoos_admin_required(HttpMethod::Get, "/api/v1/devices"));
    assert!(photoos_admin_required(HttpMethod::Get, "/api/v1/pc-backups"));
    assert!(photoos_admin_required(HttpMethod::Get, "/api/v1/pc-backups/browse"));
    assert!(!photoos_admin_required(HttpMethod::Get, "/api/v1/photos"));
}

#[test]
fn public_media_reads_pass_the_gate_without_a_token() {
    let gate = request_gate(HttpMethod::Get, "/api/v1/photos/file/example.jpg");
    assert!(!matches!(gate, Gate::Authenticate { .. }), "{gate:?}");
}
