use executorch_bencher::artifacts::{
    ArtifactKind, ArtifactRecord, ArtifactRow, ArtifactStoreError, Compression, artifact_urls,
    ascii_filename, content_disposition, download_basename, percent_encode_utf8, record_from_row,
    relative_path_for, store_error_response, stored_artifact,
};
use executorch_bencher::digest::{hex_encode, sha256_hex};

#[test]
fn invalid_kind_strings_are_rejected() {
    for bad in ["", "PROMPT", "log", "crash-log"] {
        match ArtifactKind::parse(bad) {
            Err(ArtifactStoreError::Other(m)) => assert_eq!(m, format!("invalid artifact kind: {bad:?}")),
            other => panic!("unexpected {other:?}"),
        }
    }
    for good in ["prompt", "stdout", "stderr", "output", "crash_log", "logcat", "correctness_report"] {
        assert_eq!(ArtifactKind::parse(good).unwrap().as_str(), good);
    }
}

#[test]
fn log_shaped_kinds_are_compressed_and_prompts_and_outputs_are_not() {
    assert!(!ArtifactKind::Prompt.compresses());
    assert!(!ArtifactKind::Output.compresses());
    assert!(ArtifactKind::Stdout.compresses());
    assert!(ArtifactKind::CorrectnessReport.compresses());
    assert_eq!(Compression::for_kind(ArtifactKind::Logcat), Compression::Zstd);
    assert_eq!(Compression::parse("zstd").unwrap(), Compression::Zstd);
    assert_eq!(Compression::Uncompressed.as_str(), "none");
    assert!(Compression::parse("gzip").is_err());
}

#[test]
fn storage_paths_derive_from_the_content_hash_alone() {
    let h = sha256_hex(b"hello");
    assert_eq!(h, "2cf24dba5fb0a30e26e83b2ac5b9e29e1b161e5c1fa7425e73043362938b9824");
    assert_eq!(relative_path_for(&h), format!("sha256/2c/{h}"));
    let s = stored_artifact(5, ArtifactKind::Stderr, h.clone(), 5);
    assert_eq!(s.storage_path, format!("sha256/2c/{h}"));
    assert_eq!(s.compression, Compression::Zstd);
    assert!(!s.storage_path.starts_with('/'));
    assert_eq!(hex_encode(&[0x00, 0xff, 0x1a]), "00ff1a");
}

fn record(name: Option<&str>) -> ArtifactRecord {
    record_from_row(ArtifactRow {
        id: "00000000-0000-0000-0000-000000000003".into(),
        sha256: "0123456789abcdef".repeat(4),
        size_bytes: 4,
        kind: "crash_log".into(),
        original_filename: name.map(Into::into),
        storage_path: "sha256/01/x".into(),
        media_type: None,
        compression: "zstd".into(),
        created_at: "2026-09-01T00:00:00.000Z".into(),
    })
    .unwrap()
}

#[test]
fn download_names_never_carry_a_directory() {
    assert_eq!(download_basename(&record(Some("../../../../etc/passwd"))), "passwd");
    assert_eq!(download_basename(&record(None)), "crash_log-0123456789ab.bin");
    assert_eq!(download_basename(&record(Some(".."))), "crash_log-0123456789ab.bin");
}

#[test]
fn content_disposition_offers_an_ascii_and_a_utf8_name() {
    assert_eq!(content_disposition(&record(Some("log.txt"))), "attachment; filename=\"log.txt\"");
    assert_eq!(
        content_disposition(&record(Some("réport \"1\".txt"))),
        "attachment; filename=\"r_port _1_.txt\"; filename*=UTF-8''r%C3%A9port%20%221%22.txt"
    );
    assert_eq!(ascii_filename("__ __"), "download.bin");
    assert_eq!(ascii_filename(" _ "), " _ ");
    assert_eq!(percent_encode_utf8("a-b.c_d~e f"), "a-b.c_d~e%20f");
}

#[test]
fn artifact_rows_read_back_and_failures_map_to_answers() {
    let r = record(None);
    assert_eq!(r.id, 3);
    assert_eq!(r.kind, ArtifactKind::CrashLog);
    let (content, download) = artifact_urls(3);
    assert_eq!(content, "/api/v1/artifacts/00000000-0000-0000-0000-000000000003/content");
    assert_eq!(download, "/api/v1/artifacts/00000000-0000-0000-0000-000000000003/download");
    let e = store_error_response(ArtifactStoreError::FileMissing);
    assert_eq!((e.status, e.code.as_str()), (410, "artifact_file_missing"));
    let e = store_error_response(ArtifactStoreError::Io("disk".into()));
    assert_eq!((e.status, e.message.as_str()), (500, "internal storage error"));
    let e = store_error_response(ArtifactStoreError::Other("invalid artifact kind: \"x\"".into()));
    assert_eq!((e.status, e.code.as_str()), (400, "invalid_request"));
}
