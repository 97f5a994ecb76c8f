use photoos::backup_progress::read_progress_line;
use photoos::backups::{
    backup_overlap_refusal, backup_target_for_disk, finish_backup, normalize_allowed_path,
    photoos_disk_root, rsync_path_arg, start_refusal, stop_refusal,
};

#[test]
fn backup_target_can_be_selected_before_destination_folder_exists() {
    let root = "/srv/photoos/disks/disk2";
    let target = backup_target_for_disk("TEST", root, true);
    assert!(target.available);
    assert_eq!(target.path, "/srv/photoos/disks/disk2/backups/photoos");
}

#[test]
fn photoos_disk_root_resolves_only_a_disk_child() {
    assert_eq!(
        photoos_disk_root("/srv/photoos/disks/disk2/backups/photoos"),
        Some("/srv/photoos/disks/disk2".to_string())
    );
    assert_eq!(photoos_disk_root("/srv/photoos/disks"), None);
    assert_eq!(photoos_disk_root("/tmp/not-photoos"), None);
}

#[test]
fn disk_targets_are_named_and_trailing_slashes_dropped() {
    let target = backup_target_for_disk("PHOTOOS_DATA1", "/srv/photoos/disks/disk1///", false);
    assert_eq!(target.name, "PHOTOOS_DATA1 Yedekleri");
    assert_eq!(target.path, "/srv/photoos/disks/disk1/backups/photoos");
    assert_eq!(target.kind, "backup_directory");
    assert!(!target.available);
}

#[test]
fn backup_paths_must_be_absolute_clean_and_under_the_disks() {
    assert_eq!(
        normalize_allowed_path("  /srv/photoos/disks/disk1/Fotos  ").unwrap(),
        "/srv/photoos/disks/disk1/Fotos"
    );
    assert_eq!(normalize_allowed_path("srv/photoos/disks/disk1").unwrap_err(), "Yol mutlak olmalıdır.");
    assert_eq!(
        normalize_allowed_path("/srv/photoos/disks/disk1/../../etc").unwrap_err(),
        "Yolda '..' kullanılamaz."
    );
    assert_eq!(
        normalize_allowed_path("/srv/photoos/diskss/disk1").unwrap_err(),
        "Yalnızca /srv/photoos/disks altındaki yollar kullanılabilir."
    );
    assert!(normalize_allowed_path("/srv/photoos/disks").is_ok());
}

#[test]
fn destination_inside_the_source_is_refused() {
    let message = "Hedef, kaynakla aynı veya kaynağın altında olamaz.";
    assert_eq!(
        backup_overlap_refusal("/srv/photoos/disks/disk1", "/srv/photoos/disks/disk1/").as_deref(),
        Some(message)
    );
    assert_eq!(
        backup_overlap_refusal("/srv/photoos/disks/disk1", "/srv/photoos/disks/disk1/backups").as_deref(),
        Some(message)
    );
    assert_eq!(
        backup_overlap_refusal("/srv/photoos/disks/disk1", "/srv/photoos/disks/disk10/backups"),
        None
    );
    assert_eq!(backup_overlap_refusal("/srv/photoos/disks/disk1", "/srv/photoos/disks/disk2"), None);
}

#[test]
fn rsync_gets_directory_contents() {
    assert_eq!(rsync_path_arg("/srv/photoos/disks/disk1"), "/srv/photoos/disks/disk1/");
    assert_eq!(rsync_path_arg("/srv/photoos/disks/disk1//"), "/srv/photoos/disks/disk1/");
}

#[test]
fn one_backup_at_a_time() {
    assert_eq!(start_refusal(true), Some((409, "Başka bir yedekleme zaten çalışıyor.".to_string())));
    assert_eq!(start_refusal(false), None);
    assert_eq!(stop_refusal(false), Some((409, "Çalışan yedekleme yok.".to_string())));
    assert_eq!(stop_refusal(true), None);
}

#[test]
fn finished_runs_are_recorded_by_outcome() {
    assert_eq!(
        finish_backup(true, false, ""),
        ("completed", "Yedekleme başarıyla tamamlandı.".to_string())
    );
    assert_eq!(
        finish_backup(true, true, "ignored"),
        ("stopped", "Yedekleme kullanıcı tarafından durduruldu.".to_string())
    );
    assert_eq!(finish_backup(false, false, ""), ("failed", "Yedekleme başarısız oldu.".to_string()));
    assert_eq!(
        finish_backup(false, false, "rsync: disk full"),
        ("failed", "rsync: disk full".to_string())
    );
}

#[test]
fn progress_lines_yield_their_counters() {
    let r = read_progress_line("  1,234,567  45%   12.34MB/s    0:01:02 (xfr#17, to-chk=3/40)");
    assert!(r.copying);
    assert_eq!(r.percent_text.as_deref(), Some("45"));
    assert_eq!(r.transferred_bytes, Some(1_234_567));
    assert_eq!(r.speed_text.as_deref(), Some("12.34MB/s"));
    assert_eq!(r.eta_seconds, Some(Some(62)));
    assert_eq!(r.files_transferred, Some(17));

    let r = read_progress_line("   2.5G  100%  1,00GB/s   1:02 (xfr#3");
    assert_eq!(r.transferred_bytes, None);
    assert_eq!(r.eta_seconds, Some(Some(62)));
    assert_eq!(r.files_transferred, Some(3));

    let r = read_progress_line("sending incremental file list");
    assert!(!r.copying);
    assert_eq!(r.percent_text, None);
    assert_eq!(r.transferred_bytes, None);
    assert_eq!(r.eta_seconds, None);
    assert_eq!(r.files_transferred, None);

    let r = read_progress_line("50% fast ??");
    assert!(r.copying);
    assert_eq!(r.transferred_bytes, None);
    assert_eq!(r.speed_text.as_deref(), Some("fast"));
    assert_eq!(r.eta_seconds, Some(None));
}
