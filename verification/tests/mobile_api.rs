use photoos::digest::hash_token;
use photoos::mobile::{
    detect_media_signature, media_file_url, mobile_bearer_token, normalize_source_type, pairing_code,
    pairing_expires_at, safe_original_name, stored_media_name, upload_sort_timestamp,
    validate_pair_request, duplicate_decision, first_forwarded_entry, request_ip, DuplicateDecision, DuplicateLookup, UploadForm, ReceivedUpload, MobileError, PairAttempts, PairRequest, PairRequestError, UploadProgress,
    MOBILE_ONLINE_SECONDS, PAIRING_TTL_SECONDS, PAIR_RATE_LIMIT_MAX, PAIR_RATE_LIMIT_WINDOW_SECONDS,
};

#[test]
fn online_window_contract_is_two_minutes() {
    assert_eq!(MOBILE_ONLINE_SECONDS, 120);
    assert_eq!(PAIRING_TTL_SECONDS, 600);
}

#[test]
fn media_signature_controls_mime_and_extension() {
    let jpeg = detect_media_signature(&[0xff, 0xd8, 0xff, 0x00]).unwrap();
    assert_eq!(jpeg.mime_type, "image/jpeg");
    assert_eq!(jpeg.extension, "jpg");
    assert!(!jpeg.video);

    let mp4 = detect_media_signature(b"\0\0\0\x18ftypisom\0\0\0\0").unwrap();
    assert_eq!(mp4.mime_type, "video/mp4");
    assert_eq!(mp4.extension, "mp4");
    assert!(mp4.video);

    assert!(detect_media_signature(b"not-media").is_none());
}

#[test]
fn pairing_attempts_are_bounded() {
    let mut attempts = PairAttempts::new();
    for _ in 0..PAIR_RATE_LIMIT_MAX {
        assert!(attempts.allow(1000));
    }
    assert!(!attempts.allow(1000));
    assert!(attempts.allow(1000 + PAIR_RATE_LIMIT_WINDOW_SECONDS));
}

#[test]
fn device_tokens_hash_stably_and_sources_are_normalised() {
    assert_eq!(hash_token("same"), hash_token("same"));
    assert_ne!(hash_token("same"), hash_token("different"));
    assert_eq!(hash_token("same").len(), 64);

    assert_eq!(normalize_source_type(None, Some("/storage/emulated/0/DCIM/Camera/a.jpg")), "camera");
    assert_eq!(
        normalize_source_type(None, Some("/WhatsApp/Media/WhatsApp Images/Sent/a.jpg")),
        "whatsapp_sent"
    );
    assert_eq!(normalize_source_type(Some("screenshot"), None), "screenshot");
}

#[test]
fn sha256_of_a_known_token() {
    assert_eq!(
        hash_token("abc"),
        "ba7816bf8f01cfea414140de5dae2223b00361a396177a9cb410ff61f20015ad"
    );
}

#[test]
fn pair_requests_need_six_digits_and_a_name() {
    let ok = validate_pair_request(&PairRequest { code: " 123456 ".to_string(), device_name: " Phone ".to_string() });
    assert_eq!(ok, Ok(("123456".to_string(), "Phone".to_string())));
    let bad_code = validate_pair_request(&PairRequest { code: "12345".to_string(), device_name: "Phone".to_string() });
    assert_eq!(bad_code, Err(PairRequestError::InvalidCode));
    let bad_name = validate_pair_request(&PairRequest { code: "123456".to_string(), device_name: "   ".to_string() });
    assert_eq!(bad_name, Err(PairRequestError::InvalidDeviceName));
}

#[test]
fn pairing_codes_have_six_digits_and_expire_after_ten_minutes() {
    assert_eq!(pairing_code(42), "000042");
    assert_eq!(pairing_code(999_999), "999999");
    assert_eq!(pairing_code(1_000_000), "000000");
    assert_eq!(pairing_expires_at(1_000), 1_600);
}

#[test]
fn bearer_tokens_are_trimmed_and_required() {
    assert_eq!(mobile_bearer_token(Some("Bearer  abc ")).unwrap(), "abc");
    assert_eq!(mobile_bearer_token(Some("abc")).unwrap(), "abc");
    assert!(matches!(mobile_bearer_token(Some("Bearer   ")), Err(MobileError::Unauthorized)));
    assert!(matches!(mobile_bearer_token(None), Err(MobileError::Unauthorized)));
    let (status, code, _) = MobileError::Unauthorized.reply();
    assert_eq!((status, code), (401, "unauthorized"));
}

#[test]
fn stored_names_and_urls() {
    assert_eq!(stored_media_name("id-1", "jpg"), "id-1.jpg");
    assert_eq!(media_file_url("id-1.jpg"), "/api/v1/photos/file/id-1.jpg");
    assert_eq!(upload_sort_timestamp(Some(5), 9), 5);
    assert_eq!(upload_sort_timestamp(None, 9), 9);
    assert_eq!(safe_original_name("  "), "mobile-upload");
    assert_eq!(safe_original_name("/sdcard/DCIM/ a.jpg "), "a.jpg");
}

#[test]
fn upload_progress_counts_bytes() {
    let mut progress = UploadProgress::new();
    progress.absorb(&[0xff, 0xd8, 0xff]).unwrap();
    progress.absorb(&[0u8; 40]).unwrap();
    assert_eq!(progress.size_bytes, 43);
    assert_eq!(progress.probe.len(), 32);
}

#[test]
fn received_upload_carries_the_sha256_of_all_its_bytes() {
    let mut progress = UploadProgress::new();
    progress.absorb(b"hello ").unwrap();
    progress.absorb(b"").unwrap();
    progress.absorb(b"world").unwrap();
    let upload = progress.finish();
    assert_eq!(upload.size_bytes, 11);
    assert_eq!(upload.probe, b"hello world".to_vec());
    assert_eq!(upload.content_hash, hash_token("hello world"));
    assert_eq!(upload.content_hash, "b94d27b9934d3e08a52e52d7da7dabfac484efe37a5380ee9088f7ace2efcde9");
    assert_eq!(UploadProgress::new().finish().content_hash, "e3b0c44298fc1c149afbf4c8996fb92427ae41e4649b934ca495991b7852b855");
}

#[test]
fn oversized_upload_is_refused_and_not_hashed_further() {
    let mut progress = UploadProgress::new();
    progress.absorb(b"abc").unwrap();
    progress.size_bytes = 2_000_000_000 - 1;
    match progress.absorb(b"xy") {
        Err(MobileError::BadRequest(m)) => assert_eq!(m, "Mobil yükleme boyut sınırını aşıyor."),
        other => panic!("unexpected {other:?}"),
    }
}

#[test]
fn upload_form_takes_one_media_file() {
    let mut form = UploadForm::new();
    assert!(form.finish().is_err());
    match form.finish() {
        Err(MobileError::BadRequest(m)) => assert_eq!(m, "Yüklenecek medya dosyası bulunamadı."),
        other => panic!("unexpected {other:?}"),
    }
    assert!(form.file_part().is_ok());
    form.text_part("source_type", "camera".to_string());
    form.text_part("modified_at", " 1700000000000 ".to_string());
    assert!(form.finish().is_ok());
    match form.file_part() {
        Err(MobileError::BadRequest(m)) => {
            assert_eq!(m, "Her istekte yalnızca bir medya dosyası gönderilebilir.");
            assert_eq!(MobileError::BadRequest(m).reply().0, 400);
        }
        other => panic!("unexpected {other:?}"),
    }
    assert_eq!(form.metadata.source_type.as_deref(), Some("camera"));
    assert_eq!(form.metadata.modified_at, Some(1_700_000_000_000));
}

#[test]
fn duplicate_content_is_answered_with_the_stored_photo() {
    let found = DuplicateLookup::Found {
        filename: "a.jpg".to_string(),
        url: Some("/api/v1/photos/file/a.jpg".to_string()),
    };
    let upload = ReceivedUpload { size_bytes: 3, probe: vec![1, 2, 3], content_hash: "ab".repeat(32) };
    match duplicate_decision(found, &upload) {
        DuplicateDecision::Duplicate { filename, url, content_hash } => {
            assert_eq!(filename, "a.jpg");
            assert_eq!(url.as_deref(), Some("/api/v1/photos/file/a.jpg"));
            assert_eq!(content_hash, "ab".repeat(32));
        }
        other => panic!("unexpected {other:?}"),
    }
    assert!(matches!(duplicate_decision(DuplicateLookup::Absent, &upload), DuplicateDecision::Store));
    match duplicate_decision(DuplicateLookup::Failed, &upload) {
        DuplicateDecision::Refuse(e) => assert_eq!(e.reply().0, 500),
        other => panic!("unexpected {other:?}"),
    }
}

#[test]
fn peer_ip_trusts_proxy_headers_only_from_loopback() {
    let real_ip = Some("8.8.8.8".to_string());
    assert_eq!(request_ip("192.168.1.10".to_string(), false, real_ip.clone(), None), "192.168.1.10");
    assert_eq!(request_ip("127.0.0.1".to_string(), true, real_ip, None), "8.8.8.8");
}

#[test]
fn forwarded_for_names_its_first_entry() {
    assert_eq!(first_forwarded_entry(" 203.0.113.7 , 10.0.0.1"), "203.0.113.7");
    assert_eq!(first_forwarded_entry("198.51.100.2"), "198.51.100.2");
    assert_eq!(first_forwarded_entry(""), "");
    let forwarded = Some(first_forwarded_entry("203.0.113.7, 10.0.0.1"));
    assert_eq!(request_ip("127.0.0.1".to_string(), true, None, forwarded.clone()), "203.0.113.7");
    assert_eq!(request_ip("127.0.0.1".to_string(), true, Some("8.8.4.4".to_string()), forwarded), "8.8.4.4");
    assert_eq!(request_ip("127.0.0.1".to_string(), true, None, None), "127.0.0.1");
}
