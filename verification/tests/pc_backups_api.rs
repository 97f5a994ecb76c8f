use photoos::pc_backups::{
    check_resolved_root, check_root_shape, selected_primary_disk, PcDisk, PC_ALLOWED_ROOT,
    chunk_continues, chunk_end, chunk_received, take_chunk, parse_pc_disks, part_file_name, pc_bearer_token,
    safe_browse_path, safe_relative_path, touch_timestamp, validate_device_name, validate_pc_pair_request,
    validate_upload_id, AssignmentRecord, PairDeviceRequest, PcError, MAX_PC_CHUNK_BYTES,
    PC_ONLINE_SECONDS, PC_PAIRING_TTL_SECONDS,
};

fn record(slot: u32, slot_name: &str, role: &str, mountpoint: &str) -> AssignmentRecord {
    AssignmentRecord {
        slot,
        slot_name: slot_name.to_string(),
        role: role.to_string(),
        mountpoint: mountpoint.to_string(),
    }
}

#[test]
fn assignment_parser_prefers_primary_and_keeps_secondary() {
    // The assignment document's entries, in the order its keys sort.
    let records = vec![
        record(1, "disk1", "pc_primary", "/srv/photoos/disks/disk1"),
        record(2, "disk2", "pc_backup", "/srv/photoos/disks/disk2"),
        record(3, "disk3", "phone_primary", "/srv/photoos/disks/disk3"),
    ];
    let disks = parse_pc_disks(&records);
    assert_eq!(disks.len(), 2);
    assert!(disks[0].primary);
    assert_eq!(disks[0].index, 1);
    assert!(!disks[1].primary);
}

#[test]
fn primary_disk_sorts_first_whatever_the_slot() {
    let records = vec![
        record(1, "disk1", "pc_backup", "/srv/photoos/disks/disk1"),
        record(2, "disk2", "pc_primary", "/srv/photoos/disks/disk2"),
        record(4, "disk4", "pc_backup", "relative/path"),
    ];
    let disks = parse_pc_disks(&records);
    assert_eq!(disks.len(), 2);
    assert!(disks[0].primary);
    assert_eq!(disks[0].index, 2);
    assert_eq!(disks[0].root, "/srv/photoos/disks/disk2");
    assert_eq!(disks[1].index, 1);
}

#[test]
fn relative_paths_and_upload_ids_are_strict() {
    assert_eq!(
        safe_relative_path(r"Documents\PhotoOS\a.txt").unwrap().replace('\\', "/"),
        "Documents/PhotoOS/a.txt"
    );
    for bad in ["../a", "/etc/passwd", r"C:\Windows\a", "a/../../b", ""] {
        assert!(safe_relative_path(bad).is_err(), "{bad}");
    }
    assert!(validate_upload_id("abc-123_DEF").is_ok());
    assert!(validate_upload_id("../bad").is_err());
}

#[test]
fn online_window_and_pairing_ttl_match_live_contract() {
    assert_eq!(PC_PAIRING_TTL_SECONDS, 600);
    assert_eq!(PC_ONLINE_SECONDS, 120);
}

#[test]
fn internal_staging_namespace_is_reserved_from_device_names() {
    assert!(validate_device_name(".photoos-parts").is_err());
    assert!(validate_device_name(" .PHOTOOS-PARTS ").is_err());
    assert_eq!(validate_device_name("OFFICE-PC").unwrap(), "OFFICE-PC");
}

#[test]
fn chunk_offsets_must_follow_the_partial_file() {
    assert_eq!(chunk_end(10, 5).unwrap(), 15);
    match chunk_end(0, MAX_PC_CHUNK_BYTES + 1) {
        Err(PcError::BadRequest(m)) => assert_eq!(m, "PC Backup chunk boyut sınırını aşıyor."),
        other => panic!("unexpected {other:?}"),
    }
    match chunk_end(u64::MAX, 1) {
        Err(PcError::BadRequest(m)) => assert_eq!(m, "Chunk offset taşması."),
        other => panic!("unexpected {other:?}"),
    }
    assert!(chunk_continues(None, 0).is_ok());
    assert!(chunk_continues(Some(7), 7).is_ok());
    match chunk_continues(None, 7) {
        Err(PcError::Conflict(m)) => assert_eq!(m, "Chunk sırası eşleşmiyor."),
        other => panic!("unexpected {other:?}"),
    }
    assert!(matches!(chunk_continues(Some(3), 7), Err(PcError::Conflict(_))));
    assert!(chunk_received(15, 15).is_ok());
    assert!(matches!(chunk_received(14, 15), Err(PcError::Conflict(_))));
}

#[test]
fn part_files_and_touch_times() {
    assert_eq!(part_file_name("abc"), "abc.part");
    assert_eq!(touch_timestamp(Some(1_700_000_000)), Some("@1700000000".to_string()));
    assert_eq!(touch_timestamp(Some(0)), None);
    assert_eq!(touch_timestamp(None), None);
}

#[test]
fn pc_pairing_needs_code_and_name() {
    let ok = validate_pc_pair_request(&PairDeviceRequest {
        code: "654321".to_string(),
        device_name: "OFFICE-PC".to_string(),
    })
    .unwrap();
    assert_eq!(ok, ("654321".to_string(), "OFFICE-PC".to_string()));
    match validate_pc_pair_request(&PairDeviceRequest { code: "6543".to_string(), device_name: "PC".to_string() }) {
        Err(PcError::BadRequest(m)) => assert_eq!(m, "Eşleştirme kodu 6 rakam olmalıdır."),
        other => panic!("unexpected {other:?}"),
    }
    assert!(matches!(pc_bearer_token(None), Err(PcError::Unauthorized)));
    assert_eq!(pc_bearer_token(Some("Bearer tok")).unwrap(), "tok");
    let (status, code, message) = PcError::NotConfigured.reply();
    assert_eq!((status, code, message.as_str()), (503, "pc_backup_not_configured", "PC Ana Yedek diski atanmamış."));
}

#[test]
fn browse_paths_stay_relative() {
    assert!(safe_browse_path("../etc").is_err());
    assert_eq!(safe_browse_path("  ").unwrap(), "");
    assert_eq!(safe_browse_path("Docs//a").unwrap(), "Docs/a");
}

#[test]
fn backup_roots_must_lie_below_the_allowed_directory() {
    assert!(check_root_shape("/srv/photoos/disks/disk1", PC_ALLOWED_ROOT).is_ok());
    assert!(matches!(check_root_shape("/srv/photoos/disk", PC_ALLOWED_ROOT), Err(PcError::NotConfigured)));
    assert!(matches!(
        check_root_shape("/srv/photoos/disks/../etc", PC_ALLOWED_ROOT),
        Err(PcError::NotConfigured)
    ));
    assert!(matches!(check_root_shape("srv/photoos/disks/disk1", PC_ALLOWED_ROOT), Err(PcError::NotConfigured)));
    assert!(check_resolved_root("/srv/photoos/disks/disk1", "/srv/photoos/disks").is_ok());
    assert!(matches!(check_resolved_root("/tmp/outside", "/srv/photoos/disks"), Err(PcError::NotConfigured)));
}

#[test]
fn the_first_primary_disk_is_selected() {
    let disk = |index: u32, primary: bool| PcDisk {
        index,
        name: format!("disk{index}"),
        root: format!("/srv/photoos/disks/disk{index}"),
        primary,
    };
    let chosen = selected_primary_disk(&vec![disk(2, false), disk(1, true), disk(3, true)]).unwrap();
    assert_eq!(chosen.index, 1);
    assert!(matches!(selected_primary_disk(&vec![disk(2, false)]), Err(PcError::NotConfigured)));
}

fn conflict_message(r: Result<u64, PcError>) -> String {
    match r {
        Err(PcError::Conflict(m)) => m,
        other => panic!("expected a conflict, got {other:?}"),
    }
}

#[test]
fn chunks_continue_exactly_where_the_partial_file_ends() {
    // first chunk starts the file, "abc"
    assert_eq!(take_chunk(None, 0, 3).unwrap(), 3);
    // a chunk at a wrong offset is refused and nothing is appended
    assert_eq!(
        conflict_message(take_chunk(Some(3), 2, 1)),
        "Chunk offset değeri mevcut dosya boyutuyla eşleşmiyor."
    );
    // the next chunk at the end of the file, "def"
    assert_eq!(take_chunk(Some(3), 3, 3).unwrap(), 6);
    // a later chunk without a partial file
    assert_eq!(conflict_message(take_chunk(None, 5, 1)), "Chunk sırası eşleşmiyor.");
    // offset 0 restarts whatever was there
    assert_eq!(take_chunk(Some(9), 0, 2).unwrap(), 2);
}

#[test]
fn oversized_chunks_are_refused_before_order_is_checked() {
    match take_chunk(None, 7, MAX_PC_CHUNK_BYTES + 1) {
        Err(PcError::BadRequest(m)) => assert_eq!(m, "PC Backup chunk boyut sınırını aşıyor."),
        other => panic!("unexpected {other:?}"),
    }
    match take_chunk(Some(u64::MAX), u64::MAX, 1) {
        Err(PcError::BadRequest(m)) => assert_eq!(m, "Chunk offset taşması."),
        other => panic!("unexpected {other:?}"),
    }
    match take_chunk(Some(4 * 1024 * 1024 * 1024 * 1024), 4 * 1024 * 1024 * 1024 * 1024, 1) {
        Err(PcError::BadRequest(m)) => assert_eq!(m, "PC Backup dosya boyut sınırını aşıyor."),
        other => panic!("unexpected {other:?}"),
    }
}
