use photoos::access::{is_admin_role, requesting_user, FALLBACK_USER_ID};
use photoos::albums::{album_title, CreateAlbumRequest};
use photoos::config::{port_override, resolve_release_version, ServerConfig, Settings};
use photoos::devices::{device_online, online_cutoff};
use photoos::logs::{journal_fetch_count, journal_record, normalize_query, priority_level, service_units, LogsQuery};
use photoos::notifications::NotificationApiError;
use photoos::performance::{parse_cpu_sample, truthy, LOOP_SECONDS, PRODUCER_NAME, PRODUCER_VERSION};
use photoos::session::{check_secret_length, token_claims, TOKEN_LIFETIME_SECONDS};
use photoos::system::{health_response, info_response};

#[test]
fn secure_server_defaults_bind_localhost() {
    let server = ServerConfig::default();
    assert_eq!(server.host, "127.0.0.1");
    assert_eq!(server.port, 8081);
}

#[test]
fn system_info_uses_photoos_product_and_configured_release() {
    let mut settings = Settings::default();
    settings.release.version = "9.9.9-test".to_string();
    let response = info_response(&settings);
    assert_eq!(response.product, "PhotoOS Server");
    assert_eq!(response.version, "9.9.9-test");
    assert_eq!(response.status, "running");
    assert_eq!(response.api, "v1");
    assert_eq!(health_response().status, "healthy");
}

#[test]
fn active_release_version_text_overrides_stale_config() {
    assert_eq!(resolve_release_version("1.2.1", Some("1.2.4\n")), "1.2.4");
    assert_eq!(resolve_release_version("1.2.1", Some("   ")), "1.2.1");
    assert_eq!(resolve_release_version("1.2.1", None), "1.2.1");
}

#[test]
fn priority_mapping_matches_syslog_contract() {
    assert_eq!(priority_level(0), "emergency");
    assert_eq!(priority_level(1), "alert");
    assert_eq!(priority_level(2), "critical");
    assert_eq!(priority_level(3), "error");
    assert_eq!(priority_level(4), "warning");
    assert_eq!(priority_level(5), "notice");
    assert_eq!(priority_level(6), "info");
    assert_eq!(priority_level(7), "debug");
    assert_eq!(priority_level(99), "unknown");
}

#[test]
fn query_is_bounded_and_whitelisted() {
    let q = normalize_query(&LogsQuery {
        service: Some("photoos".into()),
        limit: Some(99999),
        since_minutes: Some(0),
        priority: Some("warning".into()),
        search: Some("  Disk Error  ".into()),
    })
    .unwrap();
    assert_eq!(q.service, "photoos");
    assert_eq!(q.limit, 2000);
    assert_eq!(q.since_minutes, 1);
    assert_eq!(q.priority, "warning");
    assert_eq!(q.search.as_deref(), Some("disk error"));
    assert!(normalize_query(&LogsQuery { service: Some("../../etc".into()), ..Default::default() }).is_err());
    assert!(normalize_query(&LogsQuery { priority: Some("bad".into()), ..Default::default() }).is_err());
    let d = normalize_query(&LogsQuery::default()).unwrap();
    assert_eq!(d.service, "photoos");
    assert_eq!(d.limit, 200);
    assert_eq!(d.since_minutes, 120);
    assert_eq!(d.priority, "all");
    let thirty_days = normalize_query(&LogsQuery { since_minutes: Some(43200), ..Default::default() }).unwrap();
    assert_eq!(thirty_days.since_minutes, 43200);
    let capped = normalize_query(&LogsQuery { since_minutes: Some(99999), ..Default::default() }).unwrap();
    assert_eq!(capped.since_minutes, 43200);
}

#[test]
fn service_whitelist_rejects_arbitrary_units() {
    assert!(service_units("photoos").unwrap().contains(&"photoos.service"));
    assert!(service_units("all").unwrap().contains(&"photoos-storage-core.service"));
    assert!(service_units("../../../root").is_none());
    assert!(service_units("docker.service").is_none());
}

#[test]
fn devices_are_online_for_two_minutes() {
    let now = 1_800_000_000_i64;
    assert_eq!(online_cutoff(now), now - 120);
    assert!(device_online(now - 60, now));
    assert!(device_online(now - 120, now));
    assert!(!device_online(now - 121, now));
    assert_eq!(online_cutoff(i64::MIN + 5), i64::MIN);
}

#[test]
fn album_titles_are_trimmed_and_required() {
    let title = album_title(&CreateAlbumRequest { title: "  Yaz 2025 ".to_string(), description: None });
    assert_eq!(title.as_deref(), Some("Yaz 2025"));
    assert_eq!(album_title(&CreateAlbumRequest { title: "   ".to_string(), description: None }), None);
    assert_eq!(requesting_user(Some(7)), 7);
    assert_eq!(requesting_user(None), FALLBACK_USER_ID);
    assert_eq!(FALLBACK_USER_ID, 1);
    assert!(is_admin_role("admin"));
    assert!(!is_admin_role("Admin"));
}

#[test]
fn notification_listing_errors_are_answered() {
    let (status, code, message) = NotificationApiError::FileNotFound("/run/x.json".to_string()).reply();
    assert_eq!(status, 503);
    assert_eq!(code, "notification_aggregate_missing");
    assert_eq!(message, "Notification aggregate dosyası bulunamadı: /run/x.json");
    let (status, code, _) = NotificationApiError::InvalidJson("eof".to_string()).reply();
    assert_eq!((status, code), (500, "notification_aggregate_invalid_json"));
}

#[test]
fn performance_producer_identity_and_switches() {
    assert_eq!(PRODUCER_NAME, "performance-alert-engine");
    assert_eq!(PRODUCER_VERSION, "1.0B");
    assert_eq!(LOOP_SECONDS, 15);
    assert!(truthy("1"));
    assert!(truthy("TRUE"));
    assert!(truthy("on"));
    assert!(!truthy("0"));
    assert!(!truthy("false"));
}

#[test]
fn cpu_samples_parse_from_proc_stat() {
    let first = parse_cpu_sample("cpu  100 0 50 850 0 0 0 0\n").unwrap();
    let second = parse_cpu_sample("cpu  150 0 70 880 0 0 0 0\n").unwrap();
    assert!(second.total > first.total);
    assert!(parse_cpu_sample("intr 1 2 3\n").is_none());
}

#[test]
fn session_claims_last_a_day() {
    let claims = token_claims(42, 1_000);
    assert_eq!(claims.sub, 42);
    assert_eq!(claims.exp as i64, 1_000 + TOKEN_LIFETIME_SECONDS);
    assert!(check_secret_length("/run/jwt-secret", 32).is_ok());
    assert_eq!(
        check_secret_length("/run/jwt-secret", 5).unwrap_err(),
        "JWT secret çok kısa: /run/jwt-secret (5 byte, minimum 32)"
    );
}

#[test]
fn port_variables_are_checked() {
    assert_eq!(port_override(None), Ok(None));
    assert_eq!(port_override(Some("  ")), Ok(None));
    assert_eq!(port_override(Some(" 8081 ")), Ok(Some(8081)));
    assert_eq!(port_override(Some("+80")), Ok(Some(80)));
    assert_eq!(port_override(Some("0")), Err(()));
    assert_eq!(port_override(Some("65536")), Err(()));
    assert_eq!(port_override(Some("http")), Err(()));
}

#[test]
fn journal_fetch_is_five_times_the_limit_capped() {
    assert_eq!(journal_fetch_count(200), 1000);
    assert_eq!(journal_fetch_count(2000), 10000);
    assert_eq!(journal_fetch_count(3000), 10000);
    assert_eq!(journal_fetch_count(1), 5);
}

#[test]
fn parses_systemd_journal_json_contract() {
    let line = r#"{"__CURSOR":"s=cursor-1","__REALTIME_TIMESTAMP":"1720000000123456","PRIORITY":"3","_SYSTEMD_UNIT":"photoos.service","SYSLOG_IDENTIFIER":"photoos","_PID":"1234","_BOOT_ID":"boot-1","MESSAGE":"example failure"}"#;
    let e = journal_record(line).unwrap();
    assert_eq!(e.id, "s=cursor-1");
    assert_eq!(e.timestamp_micros / 1_000_000, 1720000000);
    assert_eq!(e.timestamp_micros, 1720000000123456);
    assert_eq!(e.priority, 3);
    assert_eq!(e.level, "error");
    assert_eq!(e.unit.as_deref(), Some("photoos.service"));
    assert_eq!(e.identifier.as_deref(), Some("photoos"));
    assert_eq!(e.pid.as_deref(), Some("1234"));
    assert_eq!(e.boot_id.as_deref(), Some("boot-1"));
    assert_eq!(e.message, "example failure");
    assert!(journal_record("{broken-json").is_none());
}

#[test]
fn journal_entries_fall_back_field_by_field() {
    let e = journal_record(r#"{"__REALTIME_TIMESTAMP":"5","_PID":42,"_SYSTEMD_UNIT":"x.service"}"#).unwrap();
    assert_eq!(e.id, "5:42:x.service");
    assert_eq!(e.priority, 255);
    assert_eq!(e.level, "unknown");
    assert_eq!(e.message, "");
    assert_eq!(e.pid.as_deref(), Some("42"));
    let e = journal_record(r#"{"__REALTIME_TIMESTAMP":"7","PRIORITY":"300","MESSAGE":true}"#).unwrap();
    assert_eq!(e.id, "7:-:system");
    assert_eq!(e.priority, 255);
    assert_eq!(e.message, "true");
    let e = journal_record(r#"{"__REALTIME_TIMESTAMP":"9","PRIORITY":6,"SYSLOG_IDENTIFIER":"kernel","_SYSTEMD_UNIT":"u"}"#).unwrap();
    assert_eq!((e.priority, e.level.as_str(), e.id.as_str()), (6, "info", "9:-:kernel"));
    assert!(journal_record(r#"{"__REALTIME_TIMESTAMP":"12.5"}"#).is_none());
    assert!(journal_record(r#"{"MESSAGE":"no time"}"#).is_none());
    assert!(journal_record("[1,2]").is_none());
}
