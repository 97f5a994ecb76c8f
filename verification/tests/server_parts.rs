use photoos::digest::{hex_bytes, sha256_hex};
use photoos::disk_health::{resolve_physical_device, smartctl_message};
use photoos::photos::{download_archive, make_thumbnail, read_taken_at_from_exif, THUMBNAIL_EDGE, THUMBNAIL_QUALITY};
use photoos::raid::{parse_mdstat, raid_status};
use photoos::setup::{normalize_hostname, validate_initialize, InitializeSetupRequest, SetupRejection};
use photoos::users::{check_login_password, hash_new_password};

#[test]
fn digests_are_lowercase_hex() {
    assert_eq!(hex_bytes(&[0x00, 0xab, 0x10]), "00ab10");
    assert_eq!(
        sha256_hex(b""),
        "e3b0c44298fc1c149afbf4c8996fb92427ae41e4649b934ca495991b7852b855"
    );
}

#[test]
fn stored_password_logs_in_and_others_do_not() {
    let stored = hash_new_password("correct horse");
    assert!(stored.starts_with("$argon2"));
    assert!(check_login_password("correct horse", &stored).is_ok());
    assert_eq!(check_login_password("wrong", &stored).unwrap_err(), "E-posta veya şifre hatalı.");
    assert_eq!(check_login_password("x", "not-a-hash").unwrap_err(), "Geçersiz parola.");
}

#[test]
fn images_without_exif_have_no_capture_time() {
    assert_eq!(read_taken_at_from_exif(b"plain bytes"), None);
}

#[test]
fn undecodable_images_get_no_thumbnail() {
    assert_eq!(make_thumbnail(b"not an image"), Err(415));
}

#[test]
fn smartctl_output_falls_back_to_errors() {
    assert_eq!(smartctl_message(b"  PASSED \n", b"ignored"), "PASSED");
    assert_eq!(smartctl_message(b"  ", b" no device \n"), "no device");
    assert_eq!(smartctl_message(b"", b""), "smartctl çıktı üretmedi.");
    assert_eq!(smartctl_message(&[0x66, 0xff, 0x6f], b""), "f\u{fffd}o");
}

#[test]
fn only_listed_physical_devices_resolve() {
    let physical = vec!["/dev/sda".to_string(), "/dev/nvme0n1".to_string()];
    assert_eq!(resolve_physical_device("sda", &physical), Some("/dev/sda".to_string()));
    assert_eq!(resolve_physical_device("nvme0n1", &physical), Some("/dev/nvme0n1".to_string()));
    assert_eq!(resolve_physical_device("/dev/sda", &physical), None);
    assert_eq!(resolve_physical_device("sdz", &physical), None);
    assert_eq!(resolve_physical_device("", &physical), None);
}

#[test]
fn mdstat_arrays_are_read() {
    let text = "Personalities : [raid1]\nmd0 : active raid1 sdb1[1] sda1[0]\n      976630464 blocks super 1.2 [2/2] [UU]\n\nunused devices: <none>\n";
    let arrays = parse_mdstat(text);
    assert_eq!(arrays.len(), 1);
    assert_eq!(arrays[0].device, "/dev/md0");
    assert_eq!(arrays[0].name, "md0");
    assert_eq!(arrays[0].level, "raid1");
    assert_eq!(arrays[0].state, "active");
    assert_eq!(arrays[0].total_devices, 2);
    assert_eq!(arrays[0].active_devices, 2);
    assert_eq!(arrays[0].failed_devices, 0);
    assert_eq!(arrays[0].sync_action, None);
    let (configured, healthy, _) = raid_status(&arrays);
    assert!(configured);
    assert!(healthy);

    let degraded = "md1 : active raid1 sdc1[0]\n      100 blocks [2/1] [U_]\n      [==>...]  recovery = 12.5% (1/8) finish=1.0min\n";
    let arrays = parse_mdstat(degraded);
    assert_eq!(arrays.len(), 1);
    assert_eq!(arrays[0].failed_devices, 1);
    assert_eq!(arrays[0].sync_action.as_deref(), Some("recovery"));
    assert_eq!(arrays[0].sync_percent_text.as_deref(), Some("12.5"));
}

fn setup_request() -> InitializeSetupRequest {
    InitializeSetupRequest {
        username: " admin ".to_string(),
        email: " Admin@Example.COM ".to_string(),
        password: "password1".to_string(),
        server_name: "PhotoOS".to_string(),
        hostname: "PhotoOS-Box".to_string(),
        timezone: "Europe/Istanbul".to_string(),
        language: "tr-TR".to_string(),
        selected_disks: vec!["/dev/sda".to_string()],
        raid_type: "RAID1".to_string(),
        web_notifications: true,
        email_notifications: true,
        critical_only: false,
    }
}

#[test]
fn first_run_form_is_normalised_or_refused_in_order() {
    let values = validate_initialize(&setup_request()).ok().unwrap();
    assert_eq!(values.username, "admin");
    assert_eq!(values.email, "admin@example.com");
    assert_eq!(values.hostname, "photoos-box");
    assert_eq!(values.raid_type, "raid1");
    assert_eq!(values.selected_disks_json, "[\"/dev/sda\"]");

    let mut r = setup_request();
    r.username = "ab".to_string();
    r.password = "short".to_string();
    assert_eq!(validate_initialize(&r).err(), Some(SetupRejection::InvalidUsername));
    let mut r = setup_request();
    r.password = "short".to_string();
    assert_eq!(validate_initialize(&r).err(), Some(SetupRejection::WeakPassword));
    let mut r = setup_request();
    r.hostname = "-bad".to_string();
    assert_eq!(validate_initialize(&r).err(), Some(SetupRejection::InvalidHostname));
    assert_eq!(normalize_hostname("  İSTANBUL "), "i̇stanbul");
}

#[test]
fn thumbnails_fit_the_edge_as_jpeg() {
    let picture = image::RgbImage::from_pixel(840, 420, image::Rgb([200, 10, 10]));
    let mut png = std::io::Cursor::new(Vec::new());
    image::DynamicImage::ImageRgb8(picture).write_to(&mut png, image::ImageFormat::Png).unwrap();
    let thumb = make_thumbnail(png.get_ref()).unwrap();
    assert_eq!(image::guess_format(&thumb).unwrap(), image::ImageFormat::Jpeg);
    let decoded = image::load_from_memory(&thumb).unwrap();
    assert_eq!((decoded.width(), decoded.height()), (420, 210));
    assert_eq!(THUMBNAIL_EDGE, 420);
    assert_eq!(THUMBNAIL_QUALITY, 72);
}

#[test]
fn small_images_keep_their_size_in_thumbnails() {
    let picture = image::RgbImage::from_pixel(420, 420, image::Rgb([1, 2, 3]));
    let mut png = std::io::Cursor::new(Vec::new());
    image::DynamicImage::ImageRgb8(picture).write_to(&mut png, image::ImageFormat::Png).unwrap();
    let decoded = image::load_from_memory(&make_thumbnail(png.get_ref()).unwrap()).unwrap();
    assert_eq!((decoded.width(), decoded.height()), (420, 420));
}

#[test]
fn selected_disks_are_stored_as_a_json_list() {
    let mut r = setup_request();
    r.selected_disks = vec!["a\"b".to_string(), "c\\d\n\u{1}".to_string(), "é".to_string()];
    let values = validate_initialize(&r).ok().unwrap();
    assert_eq!(values.selected_disks_json, "[\"a\\\"b\",\"c\\\\d\\n\\u0001\",\"é\"]");
    let mut r = setup_request();
    r.selected_disks = vec![];
    assert_eq!(validate_initialize(&r).ok().unwrap().selected_disks_json, "[]");
}

#[test]
fn download_archive_holds_each_photo_in_order() {
    let files = vec![
        ("a.jpg".to_string(), b"first".to_vec()),
        ("  ".to_string(), b"second".to_vec()),
    ];
    // 2024-05-06 07:08:10
    let dos_date: u16 = ((2024 - 1980) << 9) | (5 << 5) | 6;
    let dos_time: u16 = (7 << 11) | (8 << 5) | 5;
    let bytes = download_archive(files, dos_date, dos_time);
    let mut archive = zip::ZipArchive::new(std::io::Cursor::new(bytes)).unwrap();
    assert_eq!(archive.len(), 2);
    let names: Vec<String> = archive.file_names().map(|n| n.to_string()).collect();
    assert!(names.contains(&"a.jpg".to_string()) && names.contains(&"dosya".to_string()));
    {
        let mut first = archive.by_index(0).unwrap();
        assert_eq!(first.name(), "a.jpg");
        assert_eq!(first.compression(), zip::CompressionMethod::Deflated);
        let stamp = first.last_modified().unwrap();
        assert_eq!((stamp.year(), stamp.month(), stamp.day()), (2024, 5, 6));
        assert_eq!((stamp.hour(), stamp.minute(), stamp.second()), (7, 8, 10));
        let mut content = Vec::new();
        std::io::Read::read_to_end(&mut first, &mut content).unwrap();
        assert_eq!(content, b"first");
    }
    let mut second = archive.by_index(1).unwrap();
    assert_eq!(second.name(), "dosya");
    let mut content = Vec::new();
    std::io::Read::read_to_end(&mut second, &mut content).unwrap();
    assert_eq!(content, b"second");
}
