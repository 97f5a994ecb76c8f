use photoos::notifications::{
    aggregate_is_fresh, build_notification_aggregate, generated_age_seconds, notification_level_rank,
    normalize_notification_item, order_notifications, websocket_severity, NotificationItem,
};

fn item(id: &str, level: &str, status: &str, generated_at: Option<i64>, active: bool) -> NotificationItem {
    NotificationItem {
        id: id.to_string(),
        producer: "disk-monitor".to_string(),
        producer_version: "1.0".to_string(),
        status: status.to_string(),
        level: level.to_string(),
        code: "code".to_string(),
        title: "title".to_string(),
        message: "message".to_string(),
        error: String::new(),
        generated_at,
        age_seconds: None,
        fresh: true,
        state_file: "/run/photoos/disk-monitor.json".to_string(),
        active,
    }
}

#[test]
fn aggregate_partitions_reports_and_names_the_worst() {
    let reports = vec![
        item("a", "warning", "warning", Some(10), true),
        item("b", "info", "ok", Some(20), false),
        item("c", "success", "ok", Some(30), false),
        item("d", "critical", "failed", Some(40), true),
    ];
    let aggregate = build_notification_aggregate(reports, 1_000);
    assert_eq!(aggregate.schema_version, 1);
    assert_eq!(aggregate.generated_at, 1_000);
    assert_eq!(aggregate.counts.total, 4);
    assert_eq!(aggregate.counts.active, 2);
    assert_eq!(aggregate.problems.len(), 2);
    assert_eq!(aggregate.information.len(), 1);
    assert_eq!(aggregate.healthy.len(), 2);
    assert_eq!(aggregate.counts.fresh + aggregate.counts.stale, 4);
    assert_eq!(aggregate.overall.status, "critical");
    assert_eq!(aggregate.overall.message, "1 kritik bildirim aktif.");

    let empty = build_notification_aggregate(vec![], 5);
    assert_eq!(empty.overall.status, "healthy");
    assert_eq!(empty.overall.message, "Aktif bildirim üreticisi bulunmuyor.");
}

#[test]
fn reports_are_ordered_by_level_then_time_stably() {
    let ordered = order_notifications(vec![
        item("info-old", "info", "ok", Some(1), false),
        item("crit", "critical", "failed", Some(5), true),
        item("info-new", "info", "ok", Some(9), false),
        item("info-same", "info", "ok", Some(9), false),
    ]);
    let ids: Vec<&str> = ordered.iter().map(|i| i.id.as_str()).collect();
    assert_eq!(ids, vec!["crit", "info-new", "info-same", "info-old"]);
}

#[test]
fn levels_rank_and_map_to_socket_severities() {
    assert!(notification_level_rank("critical") > notification_level_rank("error"));
    assert!(notification_level_rank("error") > notification_level_rank("warning"));
    assert_eq!(websocket_severity("critical"), "critical");
}

#[test]
fn reports_are_normalised_with_defaults() {
    let mut raw = item("", "", "", None, false);
    raw.producer = String::new();
    let n = normalize_notification_item(raw, "/run/photoos/storage-core.json", 500);
    assert_eq!(n.producer, "storage-core");
    assert_eq!(n.id, ":code");
}

#[test]
fn aggregate_freshness() {
    assert_eq!(generated_age_seconds(0, 100), None);
    assert_eq!(generated_age_seconds(40, 100), Some(60));
    assert!(aggregate_is_fresh(40, 100));
    assert!(!aggregate_is_fresh(40, 400));
    assert!(!aggregate_is_fresh(0, 10));
}
