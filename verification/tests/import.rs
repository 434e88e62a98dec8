use executorch_bencher::domain::{DeviceClass, ExitStatus, Platform};
use executorch_bencher::float64::Float64;
use executorch_bencher::import::{
    FailureFacts, HostFacts, ObserverValues, PromptSpec, command_line, default_device_class,
    default_platform, epoch_ms, expand_args, find_failure, last_end_before, log_host_state,
    manifest_host, measurements, parse_log, repetition_of, replace_all, split_lines, timing,
};
use executorch_bencher::runs::HostState;

#[test]
fn a_log_reads_markers_and_observer_lines() {
    let log = "=== llama rep1 ===\nPyTorchObserver {\"a\":1}\n\n=== llama rep2 ===\n=== qwen 3b rep1 ===\r\nPyTorchObserver {}\n=== DONE ===\n";
    let scan = parse_log(log);
    assert!(scan.error.is_none());
    let r = &scan.records;
    assert_eq!(r.len(), 3);
    assert_eq!((r[0].tag.as_str(), r[0].rep, r[0].line_number), ("llama", 1, 1));
    assert_eq!(r[0].observer, Some((2, "PyTorchObserver {\"a\":1}".to_string())));
    assert_eq!((r[1].tag.as_str(), r[1].rep, r[1].line_number), ("llama", 2, 4));
    assert!(r[1].observer.is_none());
    assert_eq!((r[2].tag.as_str(), r[2].rep), ("qwen 3b", 1));
    assert_eq!(r[2].observer.as_ref().unwrap().0, 6);
}

#[test]
fn a_trailing_marker_without_an_observer_line_is_a_record() {
    let scan = parse_log("=== m rep3 ===");
    assert!(scan.error.is_none());
    assert_eq!(scan.records.len(), 1);
    assert!(scan.records[0].observer.is_none());
}

#[test]
fn refused_lines_name_their_line_number() {
    let scan = parse_log("=== m repX ===\n");
    assert_eq!(scan.error.as_deref(), Some("line 1: bad repetition in marker \"=== m repX ===\""));
    let scan = parse_log("\nPyTorchObserver {}\n");
    assert_eq!(scan.error.as_deref(), Some("line 2: observer line without a preceding marker"));
    let scan = parse_log("=== m rep1 ===\nPyTorchObserver {}\nsomething else\n");
    assert_eq!(scan.error.as_deref(), Some("line 3: unrecognized line \"something else\""));
    assert_eq!(scan.records.len(), 1);
}

#[test]
fn lines_split_as_str_lines_does() {
    assert_eq!(split_lines("a\r\nb\n\nc"), vec!["a", "b", "", "c"]);
    assert_eq!(split_lines("a\n"), vec!["a"]);
    assert!(split_lines("").is_empty());
    assert_eq!(split_lines("x\r"), vec!["x\r"]);
}

#[test]
fn placeholders_are_filled_in() {
    let template = vec![
        "--model_path={model}".to_string(),
        "--device={model_on_device}".to_string(),
        "--tokenizer={tokenizer}".to_string(),
        "--prompt_file={prompt_path}".to_string(),
        "--prompt={prompt_text}".to_string(),
    ];
    let args = expand_args(&template, "/m.pte", &None, "/tok.bin", &Some("/p.txt".into()), &None);
    assert_eq!(
        args,
        vec!["--model_path=/m.pte", "--device=/m.pte", "--tokenizer=/tok.bin", "--prompt_file=/p.txt", "--prompt="]
    );
    let args = expand_args(&template[1..2].to_vec(), "/m.pte", &Some("/data/m.pte".into()), "", &None, &None);
    assert_eq!(args, vec!["--device=/data/m.pte"]);
    assert_eq!(command_line("llama_main", &vec!["a".into(), "b c".into()]), "llama_main a b c");
    assert_eq!(command_line("llama_main", &Vec::new()), "llama_main ");
    assert_eq!(replace_all("aaa", "aa", "b"), "ba");
}

#[test]
fn manifest_hosts_default_to_external_linux_and_refuse_internal_devices() {
    assert_eq!(default_platform(), "linux");
    assert_eq!(default_device_class(), "external");
    let facts = HostFacts {
        os: Some("Ubuntu".into()),
        kernel: Some("6.8".into()),
        cpu_model: Some("EPYC".into()),
        cpu_count: Some(16),
        memory_bytes: None,
        accelerator: None,
        accelerator_driver: None,
    };
    assert_eq!(log_host_state(&facts, Platform::Linux).unwrap_err(), "linux host is missing host.accelerator");
    match log_host_state(&facts, Platform::Android).unwrap() {
        HostState::Android(a) => {
            assert_eq!(a.soc.as_deref(), Some("EPYC"));
            assert!(a.lab.is_none());
        },
        HostState::Linux(_) => panic!("expected an android snapshot"),
    }
    assert_eq!(manifest_host("ios", "external", &facts).unwrap_err(), "host.platform: invalid platform: \"ios\"");
    assert!(manifest_host("android", "internal", &facts).unwrap_err().starts_with("this importer only records external hosts"));
    let (p, c, _) = manifest_host("android", "external", &facts).unwrap();
    assert_eq!((p, c), (Platform::Android, DeviceClass::External));
}

#[test]
fn repetitions_are_zero_based_and_start_at_one() {
    assert_eq!(repetition_of("m", 1), Ok(0));
    assert_eq!(repetition_of("m", 0), Err("m rep0: repetitions start at 1".to_string()));
}

#[test]
fn epoch_milliseconds_become_instants() {
    let t = epoch_ms(1_500).unwrap();
    assert_eq!((t.seconds(), t.nanos()), (1, 500_000_000));
    let t = epoch_ms(-1).unwrap();
    assert_eq!((t.seconds(), t.nanos()), (-1, 999_000_000));
    assert_eq!(epoch_ms(i64::MAX).unwrap_err(), format!("bad epoch ms {}", i64::MAX));
}

fn observer(generated: i64) -> ObserverValues {
    ObserverValues {
        prefill_token_per_sec: Float64 { bits: 50.0f64.to_bits() },
        decode_token_per_sec: Some(Float64 { bits: 7.0f64.to_bits() }),
        prompt_tokens: 12,
        generated_tokens: generated,
        model_load_start_ms: 1_000,
        inference_end_ms: 9_000,
    }
}

#[test]
fn measurements_drop_decode_when_nothing_was_generated() {
    let (p, g, _, d) = measurements(Some(observer(0)), None);
    assert_eq!((p, g, d), (12, 0, None));
    let (_, _, _, d) = measurements(Some(observer(3)), None);
    assert_eq!(d.map(|x| f64::from_bits(x.bits)), Some(7.0));
    let (p, g, pre, d) = measurements(None, Some(2048));
    assert_eq!((p, g, pre.bits, d), (2048, 0, 0, None));
    assert_eq!(measurements(None, None).0, 0);
    let prompt = PromptSpec::Text { text: "hi".into(), token_count: Some(2) };
    assert_eq!(prompt.token_count(), Some(2));
}

#[test]
fn failed_repetitions_take_their_timing_from_the_manifest() {
    let failures = vec![FailureFacts {
        tag: "m".into(),
        rep: 2,
        exit_status: "crashed".into(),
        error_summary: "device rebooted".into(),
        started_at: None,
    }];
    assert_eq!(find_failure(&failures, "m", 2), Some(0));
    assert_eq!(find_failure(&failures, "m", 3), None);
    let ends = vec![Some(5_000), None, Some(8_000), None];
    assert_eq!(last_end_before(&ends, 4), Some(8_000));
    assert_eq!(last_end_before(&ends, 2), Some(5_000));
    assert_eq!(last_end_before(&ends, 0), None);
    let t = timing(None, Some(&failures[0]), Some(8_000), "m", 2).unwrap();
    assert_eq!(t.exit_status, ExitStatus::Crashed);
    assert!(t.started_at_estimated);
    assert_eq!(t.started_at.seconds(), 8);
    assert_eq!(t.error_summary.as_deref(), Some("device rebooted"));
    let e = timing(None, Some(&failures[0]), None, "m", 2).unwrap_err();
    assert_eq!(e, "m rep2: no timestamp precedes this failed rep; give failures[].started_at");
    let t = timing(Some(observer(1)), None, None, "m", 1).unwrap();
    assert_eq!((t.started_at.seconds(), t.finished_at.unwrap().seconds()), (1, 9));
    assert_eq!(t.exit_status, ExitStatus::Succeeded);
}
