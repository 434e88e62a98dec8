use executorch_bencher::api::{ListRunsParams, Rejection, ResultsParams, parse_list_params, parse_results_params, rejection_error};
use executorch_bencher::cursor::RunCursor;
use executorch_bencher::domain::{CorrectnessResult, DeviceClass, ExitStatus, Platform, Sha256Hex};
use executorch_bencher::float64::Float64;
use executorch_bencher::listing::{
    BindValue, ResultsFilter, RunListFilter, RunSummary, SummaryRow, page_of, summary_from_row,
};
use executorch_bencher::time::Timestamp;

fn params() -> ListRunsParams {
    ListRunsParams {
        limit: None,
        cursor: None,
        platform: None,
        device_class: None,
        device_serial: None,
        model_asset_id: None,
        git_commit_sha: None,
        git_branch: None,
        git_dirty: None,
        sumd_driver_version: None,
        bsp_version: None,
        gpu_clock_mhz: None,
        mif_clock_mhz: None,
        int_clock_mhz: None,
        host_accelerator: None,
        prompt_sha256: None,
        exit_status: None,
        correctness_result: None,
    }
}

fn clause_texts(filter: &RunListFilter) -> Vec<(String, String)> {
    filter
        .where_clauses()
        .into_iter()
        .map(|c| {
            let v = match c.value {
                BindValue::Text(t) => t,
                BindValue::Integer(i) => format!("#{i}"),
            };
            (c.column.to_string(), v)
        })
        .collect()
}

#[test]
fn an_empty_filter_adds_no_condition() {
    assert!(RunListFilter::default().where_clauses().is_empty());
}

#[test]
fn set_filters_become_conditions_in_field_order() {
    let mut f = RunListFilter::default();
    f.correctness_result = Some(CorrectnessResult::Failed);
    f.platform = Some(Platform::Android);
    f.git_dirty = Some(true);
    f.gpu_clock_mhz = Some(980);
    f.model_asset_id = Some(1);
    f.prompt_sha256 = Some(Sha256Hex::try_from("b".repeat(64)).unwrap());
    assert_eq!(
        clause_texts(&f),
        vec![
            ("r.platform".to_string(), "android".to_string()),
            ("r.model_asset_id".to_string(), "00000000-0000-0000-0000-000000000001".to_string()),
            ("r.git_dirty".to_string(), "#1".to_string()),
            ("r.gpu_clock_mhz".to_string(), "#980".to_string()),
            ("r.prompt_sha256".to_string(), "b".repeat(64)),
            ("r.correctness_result".to_string(), "failed".to_string()),
        ]
    );
}

#[test]
fn a_results_filter_selects_the_same_runs() {
    let rf = ResultsFilter {
        device_serial: Some("dev-1".into()),
        device_class: Some(DeviceClass::External),
        ..Default::default()
    };
    let f = RunListFilter::from_results_filter(&rf);
    assert_eq!(
        clause_texts(&f),
        vec![
            ("r.device_class".to_string(), "external".to_string()),
            ("r.device_serial".to_string(), "dev-1".to_string()),
        ]
    );
}

#[test]
fn listing_parameters_default_and_bound_the_page_size() {
    let (_, limit, cursor) = parse_list_params(params()).unwrap();
    assert_eq!(limit, 50);
    assert!(cursor.is_none());
    for bad in [0u32, 201] {
        let e = parse_list_params(ListRunsParams { limit: Some(bad), ..params() }).unwrap_err();
        assert_eq!(e.status, 400);
        assert_eq!(e.code, "invalid_request");
        assert_eq!(e.message, "limit must be between 1 and 200");
    }
    let (_, limit, _) = parse_list_params(ListRunsParams { limit: Some(200), ..params() }).unwrap();
    assert_eq!(limit, 200);
}

#[test]
fn invalid_listing_parameters_are_refused_in_order() {
    let e = parse_list_params(ListRunsParams { cursor: Some("%%%".into()), ..params() }).unwrap_err();
    assert_eq!(e.message, "invalid cursor: not base64url");
    let e = parse_list_params(ListRunsParams {
        exit_status: Some("exploded".into()),
        platform: Some("ios".into()),
        ..params()
    })
    .unwrap_err();
    assert_eq!(e.message, "invalid exit status: \"exploded\"");
    let e = parse_list_params(ListRunsParams { platform: Some("ios".into()), ..params() }).unwrap_err();
    assert_eq!(e.message, "invalid platform: \"ios\"");
    let e = parse_list_params(ListRunsParams { prompt_sha256: Some("abc".into()), ..params() }).unwrap_err();
    assert_eq!(e.message, "not a 64-character lowercase hexadecimal SHA-256 digest: \"abc\"");
}

#[test]
fn listing_parameters_become_a_filter_and_cursor() {
    let cursor = RunCursor { started_at: Timestamp::new(1_800_000_000, 0).unwrap(), id: 9 };
    let (f, limit, c) = parse_list_params(ListRunsParams {
        limit: Some(10),
        cursor: Some(cursor.encode()),
        exit_status: Some("crashed".into()),
        device_serial: Some("box".into()),
        ..params()
    })
    .unwrap();
    assert_eq!(limit, 10);
    assert_eq!(c, Some(cursor));
    assert_eq!(f.exit_status, Some(ExitStatus::Crashed));
    assert_eq!(f.device_serial.as_deref(), Some("box"));
}

#[test]
fn results_parameters_are_checked_digest_first() {
    let p = ResultsParams {
        platform: Some("ios".into()),
        device_class: None,
        device_serial: None,
        model_asset_id: None,
        git_commit_sha: None,
        git_branch: None,
        git_dirty: None,
        sumd_driver_version: None,
        bsp_version: None,
        host_accelerator: None,
        prompt_sha256: Some("A".into()),
    };
    let e = parse_results_params(p).unwrap_err();
    assert_eq!(e.message, "not a 64-character lowercase hexadecimal SHA-256 digest: \"A\"");
}

#[test]
fn rejected_request_parts_get_the_envelope() {
    let e = rejection_error(Rejection::Query, "limit: bad", false);
    assert_eq!((e.status, e.code.as_str(), e.message.as_str()), (400, "invalid_request", "invalid query string: limit: bad"));
    let e = rejection_error(Rejection::Path, "x", false);
    assert_eq!(e.message, "invalid path parameter: x");
    let e = rejection_error(Rejection::Json, "eof", false);
    assert_eq!(e.message, "invalid JSON body: eof");
    let e = rejection_error(Rejection::Json, "too big", true);
    assert_eq!((e.status, e.code.as_str()), (413, "payload_too_large"));
}

fn summary_row(id: &str, minute: i64) -> SummaryRow {
    SummaryRow {
        id: id.into(),
        started_at: Timestamp::new(1_800_000_000 + 60 * minute, 0).unwrap(),
        finished_at: None,
        repetition: 0,
        platform: "linux".into(),
        device_class: "external".into(),
        device_serial: "box".into(),
        device_model: None,
        git_commit_sha: "abc".into(),
        git_dirty: 1,
        git_branch: None,
        sumd_driver_version: None,
        bsp_version: None,
        host_accelerator: Some("gpu".into()),
        model_asset_id: "00000000-0000-0000-0000-000000000002".into(),
        model_original_name: None,
        exit_status: "succeeded".into(),
        correctness_result: "passed".into(),
        prefill_tokens_per_sec: Float64 { bits: 100.0f64.to_bits() },
        decode_tokens_per_sec: None,
        thermal_throttling: Some(1),
    }
}

fn summary(n: u128) -> RunSummary {
    let mut s = summary_from_row(summary_row("00000000-0000-0000-0000-000000000001", n as i64)).unwrap();
    s.id = n;
    s
}

#[test]
fn a_summary_row_reads_back() {
    let s = summary_from_row(summary_row("00000000-0000-0000-0000-00000000000a", 0)).unwrap();
    assert_eq!(s.id, 10);
    assert_eq!(s.platform, Platform::Linux);
    assert!(s.git_dirty);
    assert_eq!(s.thermal_throttling, Some(true));
    assert_eq!(s.model_original_name, "");
    let mut bad = summary_row("nope", 0);
    bad.platform = "ios".into();
    assert!(summary_from_row(bad).unwrap_err().0.starts_with("invalid run id: "));
    let mut bad = summary_row("00000000-0000-0000-0000-00000000000a", 0);
    bad.exit_status = "gone".into();
    assert_eq!(summary_from_row(bad).unwrap_err().0, "invalid stored exit_status: invalid exit status: \"gone\"");
}

#[test]
fn a_page_has_a_cursor_only_when_more_remain() {
    let fetched: Vec<RunSummary> = (0..4).map(summary).collect();
    let page = page_of(fetched, 3);
    assert_eq!(page.items.len(), 3);
    let c = page.next_cursor.unwrap();
    assert_eq!(c.id, 2);
    assert_eq!(c.started_at, page.items[2].started_at);

    let fetched: Vec<RunSummary> = (0..3).map(summary).collect();
    let page = page_of(fetched, 3);
    assert_eq!(page.items.len(), 3);
    assert!(page.next_cursor.is_none());
}

#[test]
fn following_cursors_lists_every_run_once_newest_first() {
    // Newest first by (started_at, id); two runs share each start minute.
    let mut all: Vec<RunSummary> = (0..7u128)
        .map(|n| {
            let mut s = summary(n / 2);
            s.id = n;
            s
        })
        .collect();
    all.reverse();
    let key = |s: &RunSummary| (s.started_at.seconds(), s.started_at.nanos(), s.id);
    let limit = 3;
    let mut listed: Vec<u128> = Vec::new();
    let mut cursor: Option<(i64, u32, u128)> = None;
    loop {
        let admitted: Vec<RunSummary> = all
            .iter()
            .filter(|s| cursor.map_or(true, |c| key(s) < c))
            .take(limit + 1)
            .map(|s| {
                let mut t = summary(0);
                t.id = s.id;
                t.started_at = s.started_at;
                t
            })
            .collect();
        let page = page_of(admitted, limit);
        listed.extend(page.items.iter().map(|s| s.id));
        match page.next_cursor {
            Some(c) => cursor = Some((c.started_at.seconds(), c.started_at.nanos(), c.id)),
            None => break,
        }
    }
    assert_eq!(listed, vec![6, 5, 4, 3, 2, 1, 0]);
}
