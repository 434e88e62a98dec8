use executorch_bencher::domain::{DeviceClass, Platform};
use executorch_bencher::float64::Float64;
use executorch_bencher::results::{
    FacetRow, ModelFacetRow, ResultGroups, ResultSampleRow, ResultsPage, facets_from, sample_from_row,
    MAX_ROWS,
};
use executorch_bencher::time::Timestamp;

const MODEL: &str = "00000000-0000-0000-0000-0000000000aa";

fn f(v: f64) -> Float64 {
    Float64 { bits: v.to_bits() }
}

fn row(prefill: f64, minute: i64) -> ResultSampleRow {
    ResultSampleRow {
        platform: "android".into(),
        device_class: "internal".into(),
        device_serial: "device-001".into(),
        device_model: None,
        model_asset_id: MODEL.into(),
        git_commit_sha: "deadbeef".into(),
        git_dirty: 0,
        sumd_driver_version: Some("sumd-1.0".into()),
        bsp_version: Some("bsp-1.0".into()),
        gpu_clock_mhz: Some(980),
        mif_clock_mhz: Some(5333),
        int_clock_mhz: Some(934),
        host_accelerator: None,
        prompt_sha256: "c".repeat(64),
        git_branch: None,
        git_commit_timestamp: None,
        git_commit_subject: None,
        input_token_count: 10,
        started_at: Timestamp::new(1_788_000_000 + 60 * minute, 0).unwrap(),
        exit_status: "succeeded".into(),
        correctness_result: "passed".into(),
        thermal_throttling: Some(0),
        prefill_tokens_per_sec: f(prefill),
        decode_tokens_per_sec: None,
        model_original_name: Some("m.pte".into()),
    }
}

fn grouped(rows: Vec<ResultSampleRow>, max_rows: usize) -> ResultsPage {
    let mut g = ResultGroups::new();
    for r in rows {
        g.add(sample_from_row(r).unwrap());
    }
    g.finish(max_rows)
}

fn values(v: &[Float64]) -> Vec<f64> {
    v.iter().map(|x| f64::from_bits(x.bits)).collect()
}

#[test]
fn repetitions_collapse_into_one_row() {
    let mut rows = Vec::new();
    for (i, p) in [100.0, 110.0, 120.0, 130.0, 900.0].into_iter().enumerate() {
        let mut r = row(p, i as i64);
        r.decode_tokens_per_sec = if i == 0 { None } else { Some(f(10.0 * i as f64)) };
        rows.push(r);
    }
    let page = grouped(rows, MAX_ROWS);
    assert_eq!(page.rows.len(), 1);
    assert!(!page.truncated);
    let r = &page.rows[0];
    assert_eq!(values(&r.prefill_samples), vec![100.0, 110.0, 120.0, 130.0, 900.0]);
    assert_eq!(values(&r.decode_samples), vec![10.0, 20.0, 30.0, 40.0]);
    assert_eq!(r.total_runs, 5);
    assert_eq!(r.model_original_name, "m.pte");
    assert_eq!(r.input_token_count, 10);
    assert!(r.first_started_at.le(r.last_started_at) && r.first_started_at != r.last_started_at);
}

#[test]
fn only_succeeded_runs_contribute_samples() {
    let mut rows = vec![row(100.0, 0), row(200.0, 0), row(300.0, 0)];
    for _ in 0..2 {
        let mut r = row(999.0, 0);
        r.exit_status = "crashed".into();
        r.thermal_throttling = Some(1);
        rows.push(r);
    }
    let mut r = row(250.0, 0);
    r.correctness_result = "failed".into();
    rows.push(r);
    let page = grouped(rows, MAX_ROWS);
    let r = &page.rows[0];
    assert_eq!(r.prefill_samples.len(), 4);
    assert_eq!(values(&r.prefill_samples).into_iter().fold(0.0f64, f64::max), 300.0);
    assert_eq!(r.total_runs, 6);
    assert_eq!(r.not_succeeded, 2);
    assert_eq!(r.correctness_failed, 1);
    assert_eq!(r.throttled, 2);
}

#[test]
fn a_configuration_with_no_succeeded_runs_has_no_samples() {
    let mut r = row(1.0, 0);
    r.exit_status = "timed_out".into();
    let page = grouped(vec![r], MAX_ROWS);
    let r = &page.rows[0];
    assert!(r.prefill_samples.is_empty());
    assert!(r.decode_samples.is_empty());
    assert_eq!(r.not_succeeded, 1);
    assert_eq!(r.total_runs, 1);
}

#[test]
fn dirty_and_clean_runs_of_one_commit_are_separate_rows() {
    let mut dirty = row(100.0, 1);
    dirty.git_dirty = 1;
    let page = grouped(vec![row(100.0, 0), dirty], MAX_ROWS);
    assert_eq!(page.rows.len(), 2);
    assert_ne!(page.rows[0].key.git_dirty, page.rows[1].key.git_dirty);
    assert_eq!(page.rows[0].key.git_commit_sha, page.rows[1].key.git_commit_sha);
}

#[test]
fn rows_order_by_commit_timestamp_with_first_run_fallback_and_truncate() {
    let ts = |s: &str| Timestamp::parse_rfc3339(s).unwrap();
    let mut a = row(1.0, 0);
    a.git_commit_sha = "aaaa".into();
    a.git_commit_timestamp = Some(ts("2026-08-01T00:00:00Z"));
    a.git_branch = Some("main".into());
    let mut b = row(1.0, 1);
    b.git_commit_sha = "bbbb".into();
    b.git_commit_timestamp = Some(ts("2026-08-20T00:00:00Z"));
    let mut c = row(1.0, 2);
    c.git_commit_sha = "cccc".into();
    c.device_serial = "other-device".into();
    c.started_at = ts("2026-09-01T00:00:00Z");
    let page = grouped(vec![a, b, c], MAX_ROWS);
    let order: Vec<&str> = page.rows.iter().map(|r| r.key.git_commit_sha.as_str()).collect();
    assert_eq!(order, vec!["cccc", "bbbb", "aaaa"]);
    assert_eq!(page.rows[2].git_branch.as_deref(), Some("main"));

    let mut a = row(1.0, 0);
    a.git_commit_sha = "aaaa".into();
    let mut b = row(1.0, 1);
    b.git_commit_sha = "bbbb".into();
    let mut c = row(1.0, 2);
    c.git_commit_sha = "cccc".into();
    let capped = grouped(vec![a, b, c], 2);
    assert_eq!(capped.rows.len(), 2);
    assert!(capped.truncated);
    let order: Vec<&str> = capped.rows.iter().map(|r| r.key.git_commit_sha.as_str()).collect();
    assert_eq!(order, vec!["cccc", "bbbb"]);
}

#[test]
fn linux_hosts_group_by_hostname_and_accelerator() {
    let linux = |host: &str, accel: &str, p: f64| {
        let mut r = row(p, 0);
        r.platform = "linux".into();
        r.device_class = "external".into();
        r.device_serial = host.into();
        r.sumd_driver_version = None;
        r.bsp_version = None;
        r.gpu_clock_mhz = None;
        r.mif_clock_mhz = None;
        r.int_clock_mhz = None;
        r.thermal_throttling = None;
        r.host_accelerator = Some(accel.into());
        r
    };
    let rows = vec![
        row(100.0, 0),
        linux("box-a", "Intel Arc B580", 900.0),
        linux("box-a", "Intel Arc B580", 1000.0),
        linux("box-a", "Intel Arc B580", 1100.0),
        linux("box-a", "llvmpipe", 5.0),
        linux("box-b", "Intel Arc B580", 50.0),
    ];
    let page = grouped(rows, MAX_ROWS);
    assert_eq!(page.rows.len(), 4);
    let arc_a = page
        .rows
        .iter()
        .find(|r| r.key.platform == Platform::Linux && r.key.device_serial == "box-a"
            && r.key.host_accelerator.as_deref() == Some("Intel Arc B580"))
        .unwrap();
    assert_eq!(values(&arc_a.prefill_samples), vec![900.0, 1000.0, 1100.0]);
    assert_eq!(arc_a.key.sumd_driver_version, None);
    assert_eq!(arc_a.throttled, 0);
}

#[test]
fn a_bad_stored_value_is_reported() {
    let mut r = row(1.0, 0);
    r.platform = "ios".into();
    assert_eq!(
        sample_from_row(r).unwrap_err().0,
        "invalid stored platform: invalid platform: \"ios\""
    );
    let mut r = row(1.0, 0);
    r.model_asset_id = "zz".into();
    assert!(sample_from_row(r).unwrap_err().0.starts_with("invalid stored model_asset_id: "));
}

fn facet_row(platform: &str, class: &str, serial: &str, branch: Option<&str>, bsp: Option<&str>) -> FacetRow {
    FacetRow {
        platform: platform.into(),
        device_class: class.into(),
        device_serial: serial.into(),
        git_branch: branch.map(Into::into),
        sumd_driver_version: None,
        bsp_version: bsp.map(Into::into),
        host_accelerator: None,
    }
}

#[test]
fn facets_list_distinct_values_in_order() {
    let models = vec![
        ModelFacetRow { id: "00000000-0000-0000-0000-000000000001".into(), original_name: "a.pte".into() },
        ModelFacetRow { id: "00000000-0000-0000-0000-000000000002".into(), original_name: "b.pte".into() },
    ];
    let rows = vec![
        facet_row("linux", "external", "dev-2", Some("main"), None),
        facet_row("android", "internal", "dev-1", None, Some("bsp-2")),
        facet_row("android", "internal", "dev-1", Some("main"), Some("bsp-1.0")),
    ];
    let f = facets_from(models, rows).unwrap();
    assert_eq!(f.platforms, vec![Platform::Android, Platform::Linux]);
    assert_eq!(f.device_classes, vec![DeviceClass::External, DeviceClass::Internal]);
    assert_eq!(f.device_serials, vec!["dev-1", "dev-2"]);
    assert_eq!(f.git_branches, vec!["main"]);
    assert_eq!(f.bsp_versions, vec!["bsp-1.0", "bsp-2"]);
    assert!(f.sumd_driver_versions.is_empty());
    assert_eq!(f.models.iter().map(|(_, n)| n.as_str()).collect::<Vec<_>>(), vec!["a.pte", "b.pte"]);
    assert_eq!(f.models[1].0, 2);
}

#[test]
fn facets_report_the_least_bad_stored_platform() {
    let rows = vec![facet_row("zeta", "external", "d", None, None), facet_row("beta", "external", "d", None, None)];
    let e = facets_from(Vec::new(), rows).unwrap_err();
    assert_eq!(e.0, "invalid stored platform: invalid platform: \"beta\"");
    let models = vec![ModelFacetRow { id: "x".into(), original_name: "a".into() }];
    assert!(facets_from(models, Vec::new()).unwrap_err().0.starts_with("invalid stored model id: "));
}

#[test]
fn facets_depend_on_the_runs_not_on_their_order() {
    let rows = || {
        vec![
            facet_row("linux", "external", "dev-2", Some("main"), None),
            facet_row("android", "internal", "dev-1", Some("dev"), Some("bsp-2")),
            facet_row("android", "internal", "dev-1", Some("main"), Some("bsp-1.0")),
        ]
    };
    let mut reversed = rows();
    reversed.reverse();
    let a = facets_from(Vec::new(), rows()).unwrap();
    let b = facets_from(Vec::new(), reversed).unwrap();
    assert_eq!(a.platforms, b.platforms);
    assert_eq!(a.device_classes, b.device_classes);
    assert_eq!(a.device_serials, b.device_serials);
    assert_eq!(a.git_branches, vec!["dev", "main"]);
    assert_eq!(a.git_branches, b.git_branches);
    assert_eq!(a.bsp_versions, b.bsp_versions);
    assert_eq!(a.host_accelerators, b.host_accelerators);
}
