use executorch_bencher::parameters::{observer_parameter, parameter_list, ParameterSources};

fn sources() -> ParameterSources {
    ParameterSources {
        host_extra: Vec::new(),
        benchmark: "llama-decode".into(),
        tag: "q4".into(),
        model_export: "{\"dtype\":\"int4\"}".into(),
        manifest_name: "m.json".into(),
        log_name: "run.log".into(),
        log_sha256: "ab".into(),
        line_number: 12,
        rep: -3,
        executable_path: "/bin/runner".into(),
        executable_note: None,
        git_modified_files: vec!["a.rs".into(), "b \"q\".rs".into()],
        git_notes: None,
        vulkan_api_version: Some("1.3".into()),
        tokenizer_sha256: None,
        stdout_capture: None,
        notes: Some("line\nbreak".into()),
    }
}

#[test]
fn an_imported_run_records_its_sources_in_order() {
    let entries = parameter_list(&sources(), "null".into(), false).unwrap();
    let expected: Vec<(String, String)> = vec![
        ("benchmark", "\"llama-decode\""),
        ("tag", "\"q4\""),
        ("model_export", "{\"dtype\":\"int4\"}"),
        ("observer", "null"),
        ("import", "{\"line\":12,\"log\":\"run.log\",\"log_sha256\":\"ab\",\"manifest\":\"m.json\",\"rep\":-3,\"tag\":\"q4\"}"),
        ("executable", "{\"note\":null,\"path\":\"/bin/runner\"}"),
        ("git_modified_files", "[\"a.rs\",\"b \\\"q\\\".rs\"]"),
        ("vulkan_api_version", "\"1.3\""),
        ("notes", "\"line\\nbreak\""),
    ]
    .into_iter()
    .map(|(k, v)| (k.to_string(), v.to_string()))
    .collect();
    assert_eq!(entries, expected);
}

#[test]
fn host_extras_and_an_estimated_start_add_their_keys() {
    let mut s = sources();
    s.host_extra = vec![("gpu".into(), "\"Adreno\"".into()), ("cores".into(), "8".into())];
    s.executable_note = Some("debug build".into());
    let entries = parameter_list(&s, "{\"x\":1}".into(), true).unwrap();
    assert_eq!(entries[0], ("host".to_string(), "{\"gpu\":\"Adreno\",\"cores\":8}".to_string()));
    assert_eq!(entries[4].1, "{\"x\":1}");
    assert_eq!(entries[6].1, "{\"note\":\"debug build\",\"path\":\"/bin/runner\"}");
    let last = entries.last().unwrap();
    assert_eq!(last.0, "started_at_estimated");
    assert!(last.1.starts_with("\"no timestamp was captured"));
    for (_, text) in &entries {
        assert!(serde_json::from_str::<serde_json::Value>(text).is_ok(), "{text}");
    }
}

#[test]
fn the_observer_parameter_is_the_json_after_the_prefix() {
    assert_eq!(observer_parameter(None).unwrap(), "null");
    assert_eq!(
        observer_parameter(Some("PyTorchObserver {\"b\": 2, \"a\": [1]}")).unwrap(),
        "{\"a\":[1],\"b\":2}"
    );
    let err = observer_parameter(Some("PyTorchObserver {oops")).unwrap_err();
    assert!(err.starts_with("observer JSON: "), "{err}");
}
