use executorch_bencher::domain::{DeviceClass, ExitStatus};
use executorch_bencher::float64::Float64;
use executorch_bencher::runs::NewRun;
use executorch_bencher::events::run_created;
use executorch_bencher::runs::HostState;
use executorch_bencher::runs_write::{
    CreateRunRequest, FieldError, field_error_response, missing_artifact, missing_model, referenced_artifacts,
    run_conflict, sha, to_new_run,
};
use executorch_bencher::stored::{row_for_insert, run_from_row};
use executorch_bencher::time::Timestamp;

fn f(v: f64) -> Float64 {
    Float64 { bits: v.to_bits() }
}

fn linux_request() -> CreateRunRequest {
    CreateRunRequest {
        id: 0x0190_0000_0000_7000_8000_0000_0000_0001,
        started_at: Timestamp::parse_rfc3339("2026-09-01T12:00:00Z").unwrap(),
        finished_at: Some(Timestamp::parse_rfc3339("2026-09-01T12:00:05Z").unwrap()),
        repetition: 0,
        command_args: r#"["--model_path=m.pte", "--max_new_tokens=1"]"#.into(),
        command_line: Some("llama_main --model_path=m.pte --max_new_tokens=1".into()),
        input_parameters: r#"{"backend": "vulkan"}"#.into(),
        env_vars: r#"{"ET_LOG": null}"#.into(),
        env_allowlist_version: "v1".into(),
        collector_version: "collector/0.1".into(),
        platform: "linux".into(),
        device_class: "external".into(),
        device_serial: "ubuntu-lts-gpu".into(),
        device_model: None,
        device_uptime_seconds: None,
        thermal_throttling: None,
        bsp_version: None,
        sumd_driver_version: None,
        battery_charging: None,
        initial_temperature_celsius: None,
        max_temperature_celsius: None,
        gpu_clock_mhz: None,
        mif_clock_mhz: None,
        int_clock_mhz: None,
        host_os: Some("Ubuntu 24.04.4 LTS".into()),
        host_kernel: Some("7.0.0-30-generic".into()),
        host_cpu_model: Some("AMD EPYC 4464P".into()),
        host_cpu_count: None,
        host_memory_bytes: None,
        host_accelerator: Some("Intel Arc B580".into()),
        host_accelerator_driver: None,
        git_commit_sha: "e4d02f41f".into(),
        git_dirty: false,
        git_branch: None,
        git_commit_timestamp: None,
        git_commit_subject: None,
        executable_sha256: Some("a".repeat(64)),
        model_asset_id: 0x0190_0000_0000_7000_8000_0000_0000_0002,
        prompt_sha256: "c".repeat(64),
        input_token_count: 2048,
        output_token_count: 0,
        prefill_tokens_per_sec: f(385.6),
        decode_tokens_per_sec: None,
        exit_status: "succeeded".into(),
        correctness_result: "not_checked".into(),
        input_artifact_id: None,
        output_artifact_id: None,
        output_preview: None,
        stdout_artifact_id: None,
        stderr_artifact_id: None,
        crash_artifact_id: None,
        error_summary: None,
    }
}

fn android_internal_request() -> CreateRunRequest {
    let mut req = linux_request();
    req.platform = "android".into();
    req.device_class = "internal".into();
    req.device_serial = "R5CX12ABCDE".into();
    req.host_os = None;
    req.host_kernel = None;
    req.host_cpu_model = None;
    req.host_accelerator = None;
    req.bsp_version = Some("bsp-2.3.1".into());
    req.sumd_driver_version = Some("sumd-1.8.0".into());
    req.gpu_clock_mhz = Some(980);
    req.mif_clock_mhz = Some(5333);
    req.int_clock_mhz = Some(934);
    req.device_uptime_seconds = Some(3600);
    req.battery_charging = Some(true);
    req.initial_temperature_celsius = Some(f(31.0));
    req.max_temperature_celsius = Some(f(40.5));
    req.thermal_throttling = Some(false);
    req
}

fn android_external_request() -> CreateRunRequest {
    let mut req = linux_request();
    req.platform = "android".into();
    req.device_class = "external".into();
    req.device_serial = "3A021JEHN02756".into();
    req.device_model = Some("Pixel 7a".into());
    req.host_os = Some("Android 17 (CP2A.260705.006)".into());
    req.host_cpu_model = Some("GS201".into());
    req.host_accelerator = Some("Mali-G710".into());
    req
}

fn field_of(result: Result<NewRun, FieldError>) -> &'static str {
    result.expect_err("expected a validation error").field
}

#[test]
fn linux_happy_path_builds_a_linux_host() {
    let run = to_new_run(&linux_request(), 2048).unwrap();
    assert_eq!(run.device_class, DeviceClass::External);
    let linux = run.host.linux().expect("linux host");
    assert_eq!(linux.accelerator, "Intel Arc B580");
    assert_eq!(run.command_args_json, r#"["--model_path=m.pte","--max_new_tokens=1"]"#);
    assert_eq!(run.env_vars_json, r#"{"ET_LOG":null}"#);
    assert_eq!(run.exit_status, ExitStatus::Succeeded);
}

#[test]
fn android_internal_happy_path_builds_the_lab_snapshot() {
    let run = to_new_run(&android_internal_request(), 2048).unwrap();
    let android = run.host.android().expect("android host");
    assert!(android.is_complete_lab_snapshot());
    assert_eq!(android.lab.as_ref().unwrap().gpu_clock_mhz, 980);
}

#[test]
fn android_external_happy_path_has_no_lab_config() {
    let run = to_new_run(&android_external_request(), 2048).unwrap();
    let android = run.host.android().expect("android host");
    assert!(android.lab.is_none());
    assert_eq!(android.gpu.as_deref(), Some("Mali-G710"));
    assert_eq!(run.device_model.as_deref(), Some("Pixel 7a"));
}

#[test]
fn each_rejection_rule_names_its_field() {
    let mut r = linux_request();
    r.platform = "ios".into();
    assert_eq!(field_of(to_new_run(&r, 10)), "platform");

    let mut r = linux_request();
    r.device_class = "lab".into();
    assert_eq!(field_of(to_new_run(&r, 10)), "device_class");

    let mut r = linux_request();
    r.exit_status = "exploded".into();
    assert_eq!(field_of(to_new_run(&r, 10)), "exit_status");

    let mut r = linux_request();
    r.correctness_result = "maybe".into();
    assert_eq!(field_of(to_new_run(&r, 10)), "correctness_result");

    let mut r = linux_request();
    r.repetition = -1;
    assert_eq!(field_of(to_new_run(&r, 10)), "repetition");

    let mut r = linux_request();
    r.command_args = r#"{"not": "an array"}"#.into();
    assert_eq!(field_of(to_new_run(&r, 10)), "command_args");

    let mut r = linux_request();
    r.input_parameters = "[1, 2]".into();
    assert_eq!(field_of(to_new_run(&r, 10)), "input_parameters");

    let mut r = linux_request();
    r.env_vars = r#""x""#.into();
    assert_eq!(field_of(to_new_run(&r, 10)), "env_vars");

    let mut r = linux_request();
    r.prompt_sha256 = "abc".into();
    assert_eq!(field_of(to_new_run(&r, 10)), "prompt_sha256");

    let mut r = linux_request();
    r.executable_sha256 = Some("A".repeat(64));
    assert_eq!(field_of(to_new_run(&r, 10)), "executable_sha256");

    let mut r = linux_request();
    r.input_token_count = -5;
    assert_eq!(field_of(to_new_run(&r, 10)), "input_token_count");

    let mut r = linux_request();
    r.output_token_count = -5;
    assert_eq!(field_of(to_new_run(&r, 10)), "output_token_count");

    let mut r = linux_request();
    r.prefill_tokens_per_sec = f(-1.0);
    assert_eq!(field_of(to_new_run(&r, 10)), "prefill_tokens_per_sec");

    let mut r = linux_request();
    r.decode_tokens_per_sec = Some(f(f64::NAN));
    assert_eq!(field_of(to_new_run(&r, 10)), "decode_tokens_per_sec");

    let mut r = linux_request();
    r.host_os = None;
    assert_eq!(field_of(to_new_run(&r, 10)), "host_os");
    let mut r = linux_request();
    r.host_accelerator = None;
    assert_eq!(field_of(to_new_run(&r, 10)), "host_accelerator");
    let mut r = linux_request();
    r.gpu_clock_mhz = Some(980);
    assert_eq!(field_of(to_new_run(&r, 10)), "gpu_clock_mhz");
    let mut r = linux_request();
    r.bsp_version = Some("bsp".into());
    assert_eq!(field_of(to_new_run(&r, 10)), "bsp_version");
    let mut r = linux_request();
    r.battery_charging = Some(true);
    assert_eq!(field_of(to_new_run(&r, 10)), "battery_charging");

    let mut r = android_internal_request();
    r.mif_clock_mhz = Some(0);
    assert_eq!(field_of(to_new_run(&r, 10)), "mif_clock_mhz");
    let mut r = android_internal_request();
    r.max_temperature_celsius = Some(f(400.0));
    assert_eq!(field_of(to_new_run(&r, 10)), "max_temperature_celsius");

    let mut r = android_internal_request();
    r.bsp_version = None;
    assert_eq!(field_of(to_new_run(&r, 10)), "bsp_version");
    let mut r = android_internal_request();
    r.battery_charging = None;
    assert_eq!(field_of(to_new_run(&r, 10)), "battery_charging");
    let mut r = android_internal_request();
    r.thermal_throttling = None;
    assert_eq!(field_of(to_new_run(&r, 10)), "thermal_throttling");

    let mut r = android_external_request();
    r.gpu_clock_mhz = Some(980);
    assert_eq!(field_of(to_new_run(&r, 10)), "bsp_version");
}

#[test]
fn output_preview_is_truncated_to_the_configured_length() {
    let mut r = linux_request();
    r.output_preview = Some("héllo world".into());
    let run = to_new_run(&r, 5).unwrap();
    assert_eq!(run.output_preview.as_deref(), Some("héllo"));
}

#[test]
fn a_refused_field_is_answered_naming_it() {
    let mut r = linux_request();
    r.repetition = -1;
    let e = field_error_response(to_new_run(&r, 10).unwrap_err());
    assert_eq!(e.status, 400);
    assert_eq!(e.code, "invalid_request");
    assert_eq!(e.message, "repetition: must not be negative");
    assert_eq!(e.field.as_deref(), Some("repetition"));
}

#[test]
fn a_linux_run_reads_back_from_its_stored_row() {
    let run = to_new_run(&linux_request(), 2048).unwrap();
    let row = row_for_insert(&run).unwrap();
    assert_eq!(row.id, "01900000-0000-7000-8000-000000000001");
    assert_eq!(row.platform, "linux");
    assert_eq!(row.git_dirty, 0);
    assert_eq!(row.bsp_version, None);
    assert_eq!(row.host_accelerator.as_deref(), Some("Intel Arc B580"));
    let back = run_from_row(&row).unwrap();
    assert_eq!(back.id, run.id);
    assert_eq!(back.started_at, run.started_at);
    assert_eq!(back.finished_at, run.finished_at);
    assert_eq!(back.host, run.host);
    assert_eq!(back.device_class, run.device_class);
    assert_eq!(back.command_args_json, run.command_args_json);
    assert_eq!(back.prefill_tokens_per_sec, run.prefill_tokens_per_sec);
    assert_eq!(back.executable_sha256.as_ref().map(|h| h.as_str().to_string()), Some("a".repeat(64)));
    assert_eq!(back.prompt_sha256.as_str(), "c".repeat(64));
    assert_eq!(back.model_asset_id, run.model_asset_id);
}

#[test]
fn an_internal_android_run_reads_back_with_its_lab_snapshot() {
    let run = to_new_run(&android_internal_request(), 2048).unwrap();
    let row = row_for_insert(&run).unwrap();
    assert_eq!(row.platform, "android");
    assert_eq!(row.device_class, "internal");
    assert_eq!(row.gpu_clock_mhz, Some(980));
    assert_eq!(row.battery_charging, Some(1));
    assert_eq!(row.thermal_throttling, Some(0));
    let back = run_from_row(&row).unwrap();
    assert_eq!(back.host, run.host);
    assert!(back.host.android().unwrap().is_complete_lab_snapshot());
}

#[test]
fn an_incomplete_internal_snapshot_is_refused_for_storage() {
    let mut run = to_new_run(&android_internal_request(), 2048).unwrap();
    if let HostState::Android(a) = &mut run.host {
        a.thermal_throttling = None;
    }
    let err = row_for_insert(&run).unwrap_err();
    assert_eq!(
        err.0,
        "an internal Android device must record the complete lab snapshot (BSP, SUMD driver, clocks, uptime, battery, temperatures, throttling)"
    );
}

#[test]
fn a_stored_row_with_an_unknown_platform_is_reported() {
    let run = to_new_run(&linux_request(), 2048).unwrap();
    let mut row = row_for_insert(&run).unwrap();
    row.platform = "windows".into();
    assert!(run_from_row(&row).is_err());
}

#[test]
fn referenced_artifacts_list_the_set_references_in_field_order() {
    let mut r = linux_request();
    r.stdout_artifact_id = Some(7);
    r.input_artifact_id = Some(3);
    let run = to_new_run(&r, 2048).unwrap();
    assert_eq!(referenced_artifacts(&run), vec![("input_artifact_id", 3u128), ("stdout_artifact_id", 7u128)]);
}

#[test]
fn missing_references_and_duplicates_are_answered() {
    let id: u128 = 0x0190_0000_0000_7000_8000_0000_0000_0002;
    let m = missing_model(id);
    assert_eq!(m.status, 400);
    assert_eq!(m.message, "model_asset_id: no registered model asset 01900000-0000-7000-8000-000000000002");
    assert_eq!(m.field.as_deref(), Some("model_asset_id"));
    let a = missing_artifact("stdout_artifact_id", id);
    assert_eq!(a.message, "stdout_artifact_id: no artifact 01900000-0000-7000-8000-000000000002");
    assert_eq!(a.field.as_deref(), Some("stdout_artifact_id"));
    let c = run_conflict(id);
    assert_eq!(c.status, 409);
    assert_eq!(c.code, "conflict");
    assert_eq!(c.message, "run 01900000-0000-7000-8000-000000000002 already exists");
    assert_eq!(c.field, None);
}

#[test]
fn the_run_created_event_summarises_the_stored_run() {
    let run = to_new_run(&android_external_request(), 2048).unwrap();
    let e = run_created(&run, "llama.pte".into());
    assert_eq!(e.id, run.id);
    assert_eq!(e.platform.as_str(), "android");
    assert_eq!(e.device_serial, "3A021JEHN02756");
    assert_eq!(e.model_original_name, "llama.pte");
    assert_eq!(e.prefill_tokens_per_sec, run.prefill_tokens_per_sec);
    assert_eq!(e.exit_status, ExitStatus::Succeeded);
}

#[test]
fn a_digest_field_is_read_or_refused_naming_the_field() {
    let ok = sha("prompt_sha256", &"c".repeat(64)).unwrap();
    assert_eq!(ok.as_str(), "c".repeat(64));
    let err = sha("executable_sha256", &"XYZ".to_string()).unwrap_err();
    assert_eq!(err.field, "executable_sha256");
    assert_eq!(err.message, "not a 64-character lowercase hexadecimal SHA-256 digest: \"XYZ\"");
}

#[test]
fn an_internal_linux_submission_is_refused_naming_the_device_class() {
    let mut r = linux_request();
    r.device_class = "internal".into();
    let e = field_error_response(to_new_run(&r, 10).unwrap_err());
    assert_eq!(e.status, 400);
    assert_eq!(e.message, "device_class: must be external on a linux run");
    assert_eq!(e.field.as_deref(), Some("device_class"));
}
