use executorch_bencher::integrity::{IntegrityReport, content_relative_path, orphaned_files, parse_ids};
use executorch_bencher::model_registry::{
    ExternalModelStorage, ModelAssetRow, ModelRegistryError, ModelStorageMode, VerifyStep, asset_from_row, model_digest_filter,
    registered_name, registration_path, registry_error_response, verify_step, verify_supported,
};
use executorch_bencher::time::Timestamp;

fn row() -> ModelAssetRow {
    ModelAssetRow {
        id: "00000000-0000-0000-0000-000000000004".into(),
        sha256: "d".repeat(64),
        original_name: "m.pte".into(),
        size_bytes: 100,
        model_format: "pte".into(),
        storage_mode: "external".into(),
        external_path: Some("/models/m.pte".into()),
        relative_path: None,
        file_modified_at: Some(Timestamp::new(1_700_000_000, 0).unwrap()),
        registered_at: Timestamp::new(1_700_000_100, 0).unwrap(),
        last_verified_at: None,
        available: 1,
    }
}

#[test]
fn an_unchanged_model_keeps_its_cached_digest() {
    let asset = asset_from_row(row()).unwrap();
    let t = Timestamp::new(1_700_000_000, 0).unwrap();
    assert_eq!(verify_step(&asset, Some((100, t))).unwrap(), VerifyStep::Unchanged);
    assert_eq!(verify_step(&asset, Some((101, t))).unwrap(), VerifyStep::Rehash);
    let later = Timestamp::new(1_700_000_001, 0).unwrap();
    assert_eq!(verify_step(&asset, Some((100, later))).unwrap(), VerifyStep::Rehash);
    assert_eq!(verify_step(&asset, None).unwrap(), VerifyStep::MarkUnavailable);
    let mut r = row();
    r.available = 0;
    let unavailable = asset_from_row(r).unwrap();
    assert_eq!(verify_step(&unavailable, Some((100, t))).unwrap(), VerifyStep::Rehash);
    let mut r = row();
    r.external_path = None;
    let managed = asset_from_row(r).unwrap();
    match verify_step(&managed, None) {
        Err(ModelRegistryError::Other(m)) => assert_eq!(m, "external verification requires an external_path"),
        other => panic!("unexpected {other:?}"),
    }
}

#[test]
fn model_rows_and_failures_read_back() {
    let a = asset_from_row(row()).unwrap();
    assert_eq!(a.id, 4);
    assert_eq!(a.storage_mode, ModelStorageMode::External);
    assert!(a.available);
    let mut r = row();
    r.storage_mode = "copied".into();
    match asset_from_row(r) {
        Err(ModelRegistryError::Other(m)) => assert_eq!(m, "invalid model storage mode: \"copied\""),
        other => panic!("unexpected {other:?}"),
    }
    let e = registry_error_response(ModelRegistryError::NotARegularFile("/nope".into()));
    assert_eq!((e.status, e.message.as_str()), (400, "not a regular file: /nope"));
    let e = registry_error_response(ModelRegistryError::Db("locked".into()));
    assert_eq!(e.status, 500);
    assert_eq!(registered_name("/srv/models/llama.pte"), "llama.pte");
    assert!(verify_supported(ModelStorageMode::External).is_ok());
    assert_eq!(verify_supported(ModelStorageMode::Managed).unwrap_err().status, 501);
    let e = model_digest_filter(Some("XYZ".into())).unwrap_err();
    assert_eq!(e.field.as_deref(), Some("sha256"));
    assert!(model_digest_filter(None).unwrap().is_none());
}

#[test]
fn the_integrity_report_names_orphans_and_bad_ids() {
    let on_disk = vec![
        content_relative_path("ab", &"ab".repeat(32)),
        content_relative_path("cd", &"cd".repeat(32)),
    ];
    let recorded = vec![format!("sha256/ab/{}", "ab".repeat(32))];
    assert_eq!(orphaned_files(on_disk, &recorded), vec![format!("sha256/cd/{}", "cd".repeat(32))]);
    assert_eq!(parse_ids(&vec!["00000000-0000-0000-0000-000000000009".into()], "artifact").unwrap(), vec![9]);
    assert!(parse_ids(&vec!["bad".into()], "artifact").unwrap_err().0.starts_with("invalid stored artifact id: "));
    let clean = IntegrityReport {
        unreferenced_artifacts: vec![],
        artifacts_missing_files: vec![],
        orphaned_artifact_files: vec![],
        orphaned_model_files: vec![],
        unavailable_models: vec![],
    };
    assert!(clean.is_clean());
    let dirty = IntegrityReport { unavailable_models: vec![1], ..clean };
    assert!(!dirty.is_clean());
}

#[test]
fn an_external_asset_is_read_where_it_was_registered() {
    let asset = asset_from_row(row()).unwrap();
    assert_eq!(ExternalModelStorage.resolve_content_path(&asset), "/models/m.pte");
    let mut r = row();
    r.external_path = None;
    let without = asset_from_row(r).unwrap();
    assert_eq!(ExternalModelStorage.resolve_content_path(&without), "");
}

fn try_register(requested: &str, resolved: Option<&str>, regular_file: bool, roots: &[&str]) -> Result<String, (u16, String, String, Option<String>)> {
    let roots: Vec<String> = roots.iter().map(|r| r.to_string()).collect();
    registration_path(requested, resolved.map(|r| r.to_string()), regular_file, &roots)
        .map_err(|e| (e.status, e.code, e.message, e.field))
}

#[test]
fn registration_is_confined_to_pte_files_beneath_a_root() {
    let roots = ["/srv/models"];
    assert_eq!(
        try_register("/srv/models/ok.pte", Some("/srv/models/ok.pte"), true, &roots),
        Ok("/srv/models/ok.pte".to_string())
    );
    assert_eq!(
        try_register("/srv/models/sub/../deep/m.pte", Some("/srv/models/deep/m.pte"), true, &roots),
        Ok("/srv/models/deep/m.pte".to_string())
    );
    let refused = Err((
        400u16,
        "invalid_request".to_string(),
        "path: must be an existing .pte file beneath a registrable root".to_string(),
        Some("path".to_string()),
    ));
    let cases: [(&str, Option<&str>, bool); 8] = [
        ("/srv/outside/secret.pte", Some("/srv/outside/secret.pte"), true),
        ("/srv/models/notes.txt", Some("/srv/models/notes.txt"), true),
        ("/srv/models/link.pte", Some("/srv/outside/secret.pte"), true),
        ("/srv/models/../outside/secret.pte", Some("/srv/outside/secret.pte"), true),
        ("relative.pte", Some("/srv/models/relative.pte"), true),
        ("/srv/models/missing.pte", None, false),
        ("/srv/models", Some("/srv/models"), false),
        ("/srv/models-evil/x.pte", Some("/srv/models-evil/x.pte"), true),
    ];
    for (requested, resolved, regular) in cases {
        assert_eq!(try_register(requested, resolved, regular, &roots), refused, "{requested}");
    }
    assert_eq!(try_register("/srv/models/.pte", Some("/srv/models/.pte"), true, &roots), refused);
    assert_eq!(try_register("/x.pte", Some("/x.pte"), true, &["/"]), Ok("/x.pte".to_string()));
    assert_eq!(try_register("/srv/models/ok.pte", Some("/srv/models/ok.pte"), true, &[]), refused);
}
