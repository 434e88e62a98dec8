//! Grouped benchmark results: one row per configuration key, holding the
//! throughput samples of its succeeded runs and its run counts, ordered
//! newest configuration first.

use vstd::prelude::*;
use crate::domain::{CorrectnessResult, DeviceClass, ExitStatus, Platform};
use crate::float64::Float64;
use crate::ids::{uuid_from_text, uuid_reading};
use crate::listing::sv;
use crate::order::{
    compare_int, compare_opt_int, compare_opt_text, compare_text, int_order, lemma_lex_law,
    lemma_opt_text_order_law, lemma_text_order_basic, lemma_text_order_law, lex, opt_int_order,
    opt_text_order, order_law, text_order,
};
use crate::runs::RunsError;
use crate::stored::text_of;
use crate::text::debug_quoted;
use crate::time::{Timestamp, ts_le};

verus! {

broadcast use vstd::string::group_string_axioms;

/// Upper bound on the rows the HTTP API returns.
pub const MAX_ROWS: usize = 500;

/// The benchmark configuration key: every dimension that changes measured
/// performance. Dirty and clean runs of one commit are distinct keys.
#[derive(Debug)]
pub struct ConfigKey {
    pub platform: Platform,
    pub device_class: DeviceClass,
    pub device_serial: String,
    pub model_asset_id: u128,
    pub git_commit_sha: String,
    pub git_dirty: bool,
    pub sumd_driver_version: Option<String>,
    pub bsp_version: Option<String>,
    pub gpu_clock_mhz: Option<i64>,
    pub mif_clock_mhz: Option<i64>,
    pub int_clock_mhz: Option<i64>,
    pub host_accelerator: Option<String>,
    pub prompt_sha256: String,
}

/// A configuration key, as a view.
pub struct KeyView {
    pub platform: Platform,
    pub device_class: DeviceClass,
    pub device_serial: Seq<char>,
    pub model_asset_id: u128,
    pub git_commit_sha: Seq<char>,
    pub git_dirty: bool,
    pub sumd_driver_version: Option<Seq<char>>,
    pub bsp_version: Option<Seq<char>>,
    pub gpu_clock_mhz: Option<i64>,
    pub mif_clock_mhz: Option<i64>,
    pub int_clock_mhz: Option<i64>,
    pub host_accelerator: Option<Seq<char>>,
    pub prompt_sha256: Seq<char>,
}

impl View for ConfigKey {
    type V = KeyView;

    open spec fn view(&self) -> KeyView {
        KeyView {
            platform: self.platform,
            device_class: self.device_class,
            device_serial: self.device_serial@,
            model_asset_id: self.model_asset_id,
            git_commit_sha: self.git_commit_sha@,
            git_dirty: self.git_dirty,
            sumd_driver_version: sv(self.sumd_driver_version),
            bsp_version: sv(self.bsp_version),
            gpu_clock_mhz: self.gpu_clock_mhz,
            mif_clock_mhz: self.mif_clock_mhz,
            int_clock_mhz: self.int_clock_mhz,
            host_accelerator: sv(self.host_accelerator),
            prompt_sha256: self.prompt_sha256@,
        }
    }
}

/// The declaration rank of a platform.
pub open spec fn platform_rank(p: Platform) -> int {
    match p {
        Platform::Android => 0,
        Platform::Linux => 1,
    }
}

/// The declaration rank of a device class.
pub open spec fn class_rank(c: DeviceClass) -> int {
    match c {
        DeviceClass::Internal => 0,
        DeviceClass::External => 1,
    }
}

/// The rank of a flag: unset first.
pub open spec fn flag_rank(b: bool) -> int {
    if b {
        1
    } else {
        0
    }
}

/// Keys compared field by field in declaration order.
pub open spec fn key_order(a: KeyView, b: KeyView) -> int {
    lex(
        int_order(platform_rank(a.platform), platform_rank(b.platform)),
        lex(
            int_order(class_rank(a.device_class), class_rank(b.device_class)),
            lex(
                text_order(a.device_serial, b.device_serial),
                lex(
                    int_order(a.model_asset_id as int, b.model_asset_id as int),
                    lex(
                        text_order(a.git_commit_sha, b.git_commit_sha),
                        lex(
                            int_order(flag_rank(a.git_dirty), flag_rank(b.git_dirty)),
                            lex(
                                opt_text_order(a.sumd_driver_version, b.sumd_driver_version),
                                lex(
                                    opt_text_order(a.bsp_version, b.bsp_version),
                                    lex(
                                        opt_int_order(a.gpu_clock_mhz, b.gpu_clock_mhz),
                                        lex(
                                            opt_int_order(a.mif_clock_mhz, b.mif_clock_mhz),
                                            lex(
                                                opt_int_order(a.int_clock_mhz, b.int_clock_mhz),
                                                lex(
                                                    opt_text_order(
                                                        a.host_accelerator,
                                                        b.host_accelerator,
                                                    ),
                                                    text_order(a.prompt_sha256, b.prompt_sha256),
                                                ),
                                            ),
                                        ),
                                    ),
                                ),
                            ),
                        ),
                    ),
                ),
            ),
        ),
    )
}

/// Key order is 0 exactly on equal keys, and transitive.
pub proof fn lemma_key_order_law(a: KeyView, b: KeyView, c: KeyView)
    ensures
        order_law(key_order(a, b), key_order(b, c), key_order(a, c)),
        (key_order(a, b) == 0) == (a == b),
{
    lemma_text_order_law(a.device_serial, b.device_serial, c.device_serial);
    lemma_text_order_basic(a.device_serial, b.device_serial);
    lemma_text_order_law(a.git_commit_sha, b.git_commit_sha, c.git_commit_sha);
    lemma_text_order_basic(a.git_commit_sha, b.git_commit_sha);
    lemma_opt_text_order_law(a.sumd_driver_version, b.sumd_driver_version, c.sumd_driver_version);
    lemma_opt_text_order_law(a.bsp_version, b.bsp_version, c.bsp_version);
    lemma_opt_text_order_law(a.host_accelerator, b.host_accelerator, c.host_accelerator);
    lemma_text_order_law(a.prompt_sha256, b.prompt_sha256, c.prompt_sha256);
    lemma_text_order_basic(a.prompt_sha256, b.prompt_sha256);
    lemma_text_order_basic(a.device_serial, c.device_serial);
    lemma_text_order_basic(b.device_serial, c.device_serial);
    lemma_text_order_basic(a.git_commit_sha, c.git_commit_sha);
    lemma_text_order_basic(b.git_commit_sha, c.git_commit_sha);
    lemma_text_order_basic(a.prompt_sha256, c.prompt_sha256);
    lemma_text_order_basic(b.prompt_sha256, c.prompt_sha256);
    let p13 = text_order(a.prompt_sha256, b.prompt_sha256);
    let q13 = text_order(b.prompt_sha256, c.prompt_sha256);
    let r13 = text_order(a.prompt_sha256, c.prompt_sha256);
    let p12 = opt_text_order(a.host_accelerator, b.host_accelerator);
    let q12 = opt_text_order(b.host_accelerator, c.host_accelerator);
    let r12 = opt_text_order(a.host_accelerator, c.host_accelerator);
    lemma_lex_law(p12, q12, r12, p13, q13, r13);
    let p11 = opt_int_order(a.int_clock_mhz, b.int_clock_mhz);
    let q11 = opt_int_order(b.int_clock_mhz, c.int_clock_mhz);
    let r11 = opt_int_order(a.int_clock_mhz, c.int_clock_mhz);
    lemma_lex_law(p11, q11, r11, lex(p12, p13), lex(q12, q13), lex(r12, r13));
    let p10 = opt_int_order(a.mif_clock_mhz, b.mif_clock_mhz);
    let q10 = opt_int_order(b.mif_clock_mhz, c.mif_clock_mhz);
    let r10 = opt_int_order(a.mif_clock_mhz, c.mif_clock_mhz);
    let t11 = (lex(p11, lex(p12, p13)), lex(q11, lex(q12, q13)), lex(r11, lex(r12, r13)));
    lemma_lex_law(p10, q10, r10, t11.0, t11.1, t11.2);
    let p9 = opt_int_order(a.gpu_clock_mhz, b.gpu_clock_mhz);
    let q9 = opt_int_order(b.gpu_clock_mhz, c.gpu_clock_mhz);
    let r9 = opt_int_order(a.gpu_clock_mhz, c.gpu_clock_mhz);
    let t10 = (lex(p10, t11.0), lex(q10, t11.1), lex(r10, t11.2));
    lemma_lex_law(p9, q9, r9, t10.0, t10.1, t10.2);
    let p8 = opt_text_order(a.bsp_version, b.bsp_version);
    let q8 = opt_text_order(b.bsp_version, c.bsp_version);
    let r8 = opt_text_order(a.bsp_version, c.bsp_version);
    let t9 = (lex(p9, t10.0), lex(q9, t10.1), lex(r9, t10.2));
    lemma_lex_law(p8, q8, r8, t9.0, t9.1, t9.2);
    let p7 = opt_text_order(a.sumd_driver_version, b.sumd_driver_version);
    let q7 = opt_text_order(b.sumd_driver_version, c.sumd_driver_version);
    let r7 = opt_text_order(a.sumd_driver_version, c.sumd_driver_version);
    let t8 = (lex(p8, t9.0), lex(q8, t9.1), lex(r8, t9.2));
    lemma_lex_law(p7, q7, r7, t8.0, t8.1, t8.2);
    let p6 = int_order(flag_rank(a.git_dirty), flag_rank(b.git_dirty));
    let q6 = int_order(flag_rank(b.git_dirty), flag_rank(c.git_dirty));
    let r6 = int_order(flag_rank(a.git_dirty), flag_rank(c.git_dirty));
    let t7 = (lex(p7, t8.0), lex(q7, t8.1), lex(r7, t8.2));
    lemma_lex_law(p6, q6, r6, t7.0, t7.1, t7.2);
    let p5 = text_order(a.git_commit_sha, b.git_commit_sha);
    let q5 = text_order(b.git_commit_sha, c.git_commit_sha);
    let r5 = text_order(a.git_commit_sha, c.git_commit_sha);
    let t6 = (lex(p6, t7.0), lex(q6, t7.1), lex(r6, t7.2));
    lemma_lex_law(p5, q5, r5, t6.0, t6.1, t6.2);
    let p4 = int_order(a.model_asset_id as int, b.model_asset_id as int);
    let q4 = int_order(b.model_asset_id as int, c.model_asset_id as int);
    let r4 = int_order(a.model_asset_id as int, c.model_asset_id as int);
    let t5 = (lex(p5, t6.0), lex(q5, t6.1), lex(r5, t6.2));
    lemma_lex_law(p4, q4, r4, t5.0, t5.1, t5.2);
    let p3 = text_order(a.device_serial, b.device_serial);
    let q3 = text_order(b.device_serial, c.device_serial);
    let r3 = text_order(a.device_serial, c.device_serial);
    let t4 = (lex(p4, t5.0), lex(q4, t5.1), lex(r4, t5.2));
    lemma_lex_law(p3, q3, r3, t4.0, t4.1, t4.2);
    let p2 = int_order(class_rank(a.device_class), class_rank(b.device_class));
    let q2 = int_order(class_rank(b.device_class), class_rank(c.device_class));
    let r2 = int_order(class_rank(a.device_class), class_rank(c.device_class));
    let t3 = (lex(p3, t4.0), lex(q3, t4.1), lex(r3, t4.2));
    lemma_lex_law(p2, q2, r2, t3.0, t3.1, t3.2);
    let p1 = int_order(platform_rank(a.platform), platform_rank(b.platform));
    let q1 = int_order(platform_rank(b.platform), platform_rank(c.platform));
    let r1 = int_order(platform_rank(a.platform), platform_rank(c.platform));
    let t2 = (lex(p2, t3.0), lex(q2, t3.1), lex(r2, t3.2));
    lemma_lex_law(p1, q1, r1, t2.0, t2.1, t2.2);
}

/// Compares two keys field by field in declaration order.
pub fn compare_keys(a: &ConfigKey, b: &ConfigKey) -> (r: i8)
    ensures
        r == key_order(a@, b@),
{
    let pa: i64 = match a.platform {
        Platform::Android => 0,
        Platform::Linux => 1,
    };
    let pb: i64 = match b.platform {
        Platform::Android => 0,
        Platform::Linux => 1,
    };
    let c = compare_int(pa, pb);
    if c != 0 {
        return c;
    }
    let ca: i64 = match a.device_class {
        DeviceClass::Internal => 0,
        DeviceClass::External => 1,
    };
    let cb: i64 = match b.device_class {
        DeviceClass::Internal => 0,
        DeviceClass::External => 1,
    };
    let c = compare_int(ca, cb);
    if c != 0 {
        return c;
    }
    let c = compare_text(a.device_serial.as_str(), b.device_serial.as_str());
    if c != 0 {
        return c;
    }
    let c: i8 = if a.model_asset_id < b.model_asset_id {
        -1
    } else if a.model_asset_id == b.model_asset_id {
        0
    } else {
        1
    };
    if c != 0 {
        return c;
    }
    let c = compare_text(a.git_commit_sha.as_str(), b.git_commit_sha.as_str());
    if c != 0 {
        return c;
    }
    let c: i8 = if a.git_dirty == b.git_dirty {
        0
    } else if b.git_dirty {
        -1
    } else {
        1
    };
    if c != 0 {
        return c;
    }
    let c = compare_opt_text(&a.sumd_driver_version, &b.sumd_driver_version);
    if c != 0 {
        return c;
    }
    let c = compare_opt_text(&a.bsp_version, &b.bsp_version);
    if c != 0 {
        return c;
    }
    let c = compare_opt_int(a.gpu_clock_mhz, b.gpu_clock_mhz);
    if c != 0 {
        return c;
    }
    let c = compare_opt_int(a.mif_clock_mhz, b.mif_clock_mhz);
    if c != 0 {
        return c;
    }
    let c = compare_opt_int(a.int_clock_mhz, b.int_clock_mhz);
    if c != 0 {
        return c;
    }
    let c = compare_opt_text(&a.host_accelerator, &b.host_accelerator);
    if c != 0 {
        return c;
    }
    compare_text(a.prompt_sha256.as_str(), b.prompt_sha256.as_str())
}

/// One stored run as the results query returns it: the key columns, the
/// descriptive columns, the outcome and the throughputs.
#[derive(Debug)]
pub struct ResultSampleRow {
    pub platform: String,
    pub device_class: String,
    pub device_serial: String,
    pub device_model: Option<String>,
    pub model_asset_id: String,
    pub git_commit_sha: String,
    pub git_dirty: i64,
    pub sumd_driver_version: Option<String>,
    pub bsp_version: Option<String>,
    pub gpu_clock_mhz: Option<i64>,
    pub mif_clock_mhz: Option<i64>,
    pub int_clock_mhz: Option<i64>,
    pub host_accelerator: Option<String>,
    pub prompt_sha256: String,
    pub git_branch: Option<String>,
    pub git_commit_timestamp: Option<Timestamp>,
    pub git_commit_subject: Option<String>,
    pub input_token_count: i64,
    pub started_at: Timestamp,
    pub exit_status: String,
    pub correctness_result: String,
    pub thermal_throttling: Option<i64>,
    pub prefill_tokens_per_sec: Float64,
    pub decode_tokens_per_sec: Option<Float64>,
    pub model_original_name: Option<String>,
}

/// One run read for grouping.
#[derive(Debug)]
pub struct ResultSample {
    pub key: ConfigKey,
    pub device_model: Option<String>,
    pub model_original_name: Option<String>,
    pub git_branch: Option<String>,
    pub git_commit_timestamp: Option<Timestamp>,
    pub git_commit_subject: Option<String>,
    pub input_token_count: i64,
    pub started_at: Timestamp,
    pub exit_status: ExitStatus,
    pub correctness_result: CorrectnessResult,
    /// The stored throttling flag is exactly 1.
    pub throttled: bool,
    pub prefill: Float64,
    pub decode: Option<Float64>,
}

/// A run read for grouping, as a view.
pub struct SampleView {
    pub key: KeyView,
    pub device_model: Option<Seq<char>>,
    pub model_original_name: Option<Seq<char>>,
    pub git_branch: Option<Seq<char>>,
    pub git_commit_timestamp: Option<Timestamp>,
    pub git_commit_subject: Option<Seq<char>>,
    pub input_token_count: i64,
    pub started_at: Timestamp,
    pub exit_status: ExitStatus,
    pub correctness_result: CorrectnessResult,
    pub throttled: bool,
    pub prefill: Float64,
    pub decode: Option<Float64>,
}

impl View for ResultSample {
    type V = SampleView;

    open spec fn view(&self) -> SampleView {
        SampleView {
            key: self.key@,
            device_model: sv(self.device_model),
            model_original_name: sv(self.model_original_name),
            git_branch: sv(self.git_branch),
            git_commit_timestamp: self.git_commit_timestamp,
            git_commit_subject: sv(self.git_commit_subject),
            input_token_count: self.input_token_count,
            started_at: self.started_at,
            exit_status: self.exit_status,
            correctness_result: self.correctness_result,
            throttled: self.throttled,
            prefill: self.prefill,
            decode: self.decode,
        }
    }
}

/// The first inconsistency found reading a results row, in reading order:
/// platform, device class, model id, exit status, correctness result.
pub open spec fn sample_violation(row: ResultSampleRow) -> Option<Seq<char>> {
    if Platform::from_text(row.platform@) is None {
        Some("invalid stored platform: "@ + ("invalid platform: "@ + debug_quoted(row.platform@)))
    } else if DeviceClass::from_text(row.device_class@) is None {
        Some("invalid stored device_class: "@ + ("invalid device class: "@ + debug_quoted(row.device_class@)))
    } else if uuid_reading(row.model_asset_id@) is Err {
        Some("invalid stored model_asset_id: "@ + uuid_reading(row.model_asset_id@)->Err_0)
    } else if ExitStatus::from_text(row.exit_status@) is None {
        Some("invalid stored exit_status: "@ + ("invalid exit status: "@ + debug_quoted(row.exit_status@)))
    } else if CorrectnessResult::from_text(row.correctness_result@) is None {
        Some(
            "invalid stored correctness_result: "@ + ("invalid correctness result: "@ + debug_quoted(
                row.correctness_result@,
            )),
        )
    } else {
        None
    }
}

/// `s` is what reading the consistent results row `row` gives.
pub open spec fn sample_read(row: ResultSampleRow, s: SampleView) -> bool {
    &&& Platform::from_text(row.platform@) == Some(s.key.platform)
    &&& DeviceClass::from_text(row.device_class@) == Some(s.key.device_class)
    &&& s.key.device_serial == row.device_serial@
    &&& uuid_reading(row.model_asset_id@) == Ok::<u128, Seq<char>>(s.key.model_asset_id)
    &&& s.key.git_commit_sha == row.git_commit_sha@
    &&& s.key.git_dirty == (row.git_dirty != 0)
    &&& s.key.sumd_driver_version == sv(row.sumd_driver_version)
    &&& s.key.bsp_version == sv(row.bsp_version)
    &&& s.key.gpu_clock_mhz == row.gpu_clock_mhz
    &&& s.key.mif_clock_mhz == row.mif_clock_mhz
    &&& s.key.int_clock_mhz == row.int_clock_mhz
    &&& s.key.host_accelerator == sv(row.host_accelerator)
    &&& s.key.prompt_sha256 == row.prompt_sha256@
    &&& s.device_model == sv(row.device_model)
    &&& s.model_original_name == sv(row.model_original_name)
    &&& s.git_branch == sv(row.git_branch)
    &&& s.git_commit_timestamp == row.git_commit_timestamp
    &&& s.git_commit_subject == sv(row.git_commit_subject)
    &&& s.input_token_count == row.input_token_count
    &&& s.started_at == row.started_at
    &&& ExitStatus::from_text(row.exit_status@) == Some(s.exit_status)
    &&& CorrectnessResult::from_text(row.correctness_result@) == Some(s.correctness_result)
    &&& s.throttled == (row.thermal_throttling == Some(1i64))
    &&& s.prefill == row.prefill_tokens_per_sec
    &&& s.decode == row.decode_tokens_per_sec
}

/// Reads a results row, reporting the first inconsistency.
pub fn sample_from_row(row: ResultSampleRow) -> (r: Result<ResultSample, RunsError>)
    ensures
        match r {
            Ok(s) => sample_violation(row) is None && sample_read(row, s@),
            Err(e) => sample_violation(row) == Some(e.0@),
        },
{
    let platform = match Platform::parse(row.platform.as_str()) {
        Ok(v) => v,
        Err(e) => return Err(text_of("invalid stored platform: ", e.0.as_str())),
    };
    let device_class = match DeviceClass::parse(row.device_class.as_str()) {
        Ok(v) => v,
        Err(e) => return Err(text_of("invalid stored device_class: ", e.0.as_str())),
    };
    let model_asset_id = match uuid_from_text(row.model_asset_id.as_str()) {
        Ok(v) => v,
        Err(e) => return Err(text_of("invalid stored model_asset_id: ", e.as_str())),
    };
    let exit_status = match ExitStatus::parse(row.exit_status.as_str()) {
        Ok(v) => v,
        Err(e) => return Err(text_of("invalid stored exit_status: ", e.0.as_str())),
    };
    let correctness_result = match CorrectnessResult::parse(row.correctness_result.as_str()) {
        Ok(v) => v,
        Err(e) => return Err(text_of("invalid stored correctness_result: ", e.0.as_str())),
    };
    let throttled = match row.thermal_throttling {
        Some(v) => v == 1,
        None => false,
    };
    Ok(ResultSample {
        key: ConfigKey {
            platform,
            device_class,
            device_serial: row.device_serial,
            model_asset_id,
            git_commit_sha: row.git_commit_sha,
            git_dirty: row.git_dirty != 0,
            sumd_driver_version: row.sumd_driver_version,
            bsp_version: row.bsp_version,
            gpu_clock_mhz: row.gpu_clock_mhz,
            mif_clock_mhz: row.mif_clock_mhz,
            int_clock_mhz: row.int_clock_mhz,
            host_accelerator: row.host_accelerator,
            prompt_sha256: row.prompt_sha256,
        },
        device_model: row.device_model,
        model_original_name: row.model_original_name,
        git_branch: row.git_branch,
        git_commit_timestamp: row.git_commit_timestamp,
        git_commit_subject: row.git_commit_subject,
        input_token_count: row.input_token_count,
        started_at: row.started_at,
        exit_status,
        correctness_result,
        throttled,
        prefill: row.prefill_tokens_per_sec,
        decode: row.decode_tokens_per_sec,
    })
}

/// One configuration's row: its key, what its runs first recorded, the
/// throughput samples of its succeeded runs, and its counts.
#[derive(Debug)]
pub struct ResultRow {
    pub key: ConfigKey,
    pub device_model: Option<String>,
    pub model_original_name: String,
    pub git_branch: Option<String>,
    pub git_commit_timestamp: Option<Timestamp>,
    pub git_commit_subject: Option<String>,
    pub input_token_count: i64,
    /// Prefill throughput of every succeeded run, in arrival order.
    pub prefill_samples: Vec<Float64>,
    /// Decode throughput of every succeeded run that recorded one.
    pub decode_samples: Vec<Float64>,
    pub total_runs: u64,
    pub not_succeeded: u64,
    /// Succeeded runs whose correctness result is `failed`.
    pub correctness_failed: u64,
    pub throttled: u64,
    pub first_started_at: Timestamp,
    pub last_started_at: Timestamp,
}

/// A configuration's row, as a view.
pub struct GroupView {
    pub key: KeyView,
    pub device_model: Option<Seq<char>>,
    pub model_original_name: Seq<char>,
    pub git_branch: Option<Seq<char>>,
    pub git_commit_timestamp: Option<Timestamp>,
    pub git_commit_subject: Option<Seq<char>>,
    pub input_token_count: i64,
    pub prefill: Seq<Float64>,
    pub decode: Seq<Float64>,
    pub total_runs: nat,
    pub not_succeeded: nat,
    pub correctness_failed: nat,
    pub throttled: nat,
    pub first_started_at: Timestamp,
    pub last_started_at: Timestamp,
}

impl View for ResultRow {
    type V = GroupView;

    open spec fn view(&self) -> GroupView {
        GroupView {
            key: self.key@,
            device_model: sv(self.device_model),
            model_original_name: self.model_original_name@,
            git_branch: sv(self.git_branch),
            git_commit_timestamp: self.git_commit_timestamp,
            git_commit_subject: sv(self.git_commit_subject),
            input_token_count: self.input_token_count,
            prefill: self.prefill_samples@,
            decode: self.decode_samples@,
            total_runs: self.total_runs as nat,
            not_succeeded: self.not_succeeded as nat,
            correctness_failed: self.correctness_failed as nat,
            throttled: self.throttled as nat,
            first_started_at: self.first_started_at,
            last_started_at: self.last_started_at,
        }
    }
}

/// `current` unless it is unset, else `next`.
pub open spec fn first_set<T>(current: Option<T>, next: Option<T>) -> Option<T> {
    if current is None {
        next
    } else {
        current
    }
}

/// 1 when `b` holds, else 0.
pub open spec fn one_if(b: bool) -> nat {
    if b {
        1
    } else {
        0
    }
}

/// The row a configuration's first run opens.
pub open spec fn opened(s: SampleView) -> GroupView {
    let ok = s.exit_status == ExitStatus::Succeeded;
    GroupView {
        key: s.key,
        device_model: s.device_model,
        model_original_name: match s.model_original_name {
            Some(n) => n,
            None => Seq::empty(),
        },
        git_branch: s.git_branch,
        git_commit_timestamp: s.git_commit_timestamp,
        git_commit_subject: s.git_commit_subject,
        input_token_count: s.input_token_count,
        prefill: if ok {
            seq![s.prefill]
        } else {
            Seq::empty()
        },
        decode: if ok && s.decode is Some {
            seq![s.decode->0]
        } else {
            Seq::empty()
        },
        total_runs: 1,
        not_succeeded: one_if(!ok),
        correctness_failed: one_if(ok && s.correctness_result == CorrectnessResult::Failed),
        throttled: one_if(s.throttled),
        first_started_at: s.started_at,
        last_started_at: s.started_at,
    }
}

/// A configuration's row after one more of its runs: descriptive fields
/// not yet set are taken from the run, its samples are kept when it
/// succeeded, the counts grow, and its start is the latest.
pub open spec fn merged(g: GroupView, s: SampleView) -> GroupView {
    let ok = s.exit_status == ExitStatus::Succeeded;
    GroupView {
        key: g.key,
        device_model: first_set(g.device_model, s.device_model),
        model_original_name: g.model_original_name,
        git_branch: first_set(g.git_branch, s.git_branch),
        git_commit_timestamp: first_set(g.git_commit_timestamp, s.git_commit_timestamp),
        git_commit_subject: first_set(g.git_commit_subject, s.git_commit_subject),
        input_token_count: g.input_token_count,
        prefill: if ok {
            g.prefill.push(s.prefill)
        } else {
            g.prefill
        },
        decode: if ok && s.decode is Some {
            g.decode.push(s.decode->0)
        } else {
            g.decode
        },
        total_runs: g.total_runs + 1,
        not_succeeded: g.not_succeeded + one_if(!ok),
        correctness_failed: g.correctness_failed + one_if(
            ok && s.correctness_result == CorrectnessResult::Failed,
        ),
        throttled: g.throttled + one_if(s.throttled),
        first_started_at: g.first_started_at,
        last_started_at: s.started_at,
    }
}

/// The views of a list of rows.
pub open spec fn row_views(v: Seq<ResultRow>) -> Seq<GroupView> {
    v.map_values(|r: ResultRow| r@)
}

/// No two rows share a key.
pub open spec fn distinct_keys(gs: Seq<GroupView>) -> bool {
    forall|i: int, j: int| 0 <= i < j < gs.len() ==> gs[i].key != gs[j].key
}

/// The row counts agree: every row has a run; each run is succeeded (one
/// prefill sample) or not; decode samples and failed correctness come only
/// from succeeded runs; throttled runs are among its runs.
pub open spec fn counts_agree(g: GroupView) -> bool {
    &&& g.total_runs >= 1
    &&& g.total_runs == g.not_succeeded + g.prefill.len()
    &&& g.decode.len() <= g.prefill.len()
    &&& g.correctness_failed <= g.prefill.len()
    &&& g.throttled <= g.total_runs
}

/// The runs counted over all rows.
pub open spec fn runs_in(gs: Seq<GroupView>) -> nat
    decreases gs.len(),
{
    if gs.len() == 0 {
        0
    } else {
        runs_in(gs.drop_last()) + gs.last().total_runs
    }
}

/// The rows after one more run: its configuration's row is merged with
/// it, or a new row is opened at the end.
pub open spec fn grouped(gs: Seq<GroupView>, s: SampleView) -> Seq<GroupView> {
    if exists|i: int| 0 <= i < gs.len() && gs[i].key == s.key {
        let i = choose|i: int| 0 <= i < gs.len() && gs[i].key == s.key;
        gs.update(i, merged(gs[i], s))
    } else {
        gs.push(opened(s))
    }
}

/// Each row's first run started no later than its last.
pub open spec fn starts_in_order(gs: Seq<GroupView>) -> bool {
    forall|i: int| 0 <= i < gs.len() ==> ts_le(#[trigger] gs[i].first_started_at, gs[i].last_started_at)
}

/// No row's last run started after `t`.
pub open spec fn started_by(gs: Seq<GroupView>, t: Timestamp) -> bool {
    forall|i: int| 0 <= i < gs.len() ==> ts_le(#[trigger] gs[i].last_started_at, t)
}

/// Runs counted in start order keep every row's first start no later than
/// its last: counting a run that started no earlier than every run counted
/// before keeps that so, and the run's start is then the latest.
pub proof fn lemma_grouped_in_start_order(gs: Seq<GroupView>, s: SampleView)
    requires
        starts_in_order(gs),
        started_by(gs, s.started_at),
    ensures
        starts_in_order(grouped(gs, s)),
        started_by(grouped(gs, s), s.started_at),
{
    let r = grouped(gs, s);
    if exists|i: int| 0 <= i < gs.len() && gs[i].key == s.key {
        let i = choose|i: int| 0 <= i < gs.len() && gs[i].key == s.key;
        assert(r == gs.update(i, merged(gs[i], s)));
        assert(ts_le(gs[i].first_started_at, gs[i].last_started_at));
        assert(ts_le(gs[i].last_started_at, s.started_at));
        assert forall|k: int| 0 <= k < r.len() implies ts_le(#[trigger] r[k].first_started_at, r[k].last_started_at)
            && ts_le(r[k].last_started_at, s.started_at) by {
            if k != i {
                assert(r[k] == gs[k]);
            }
        }
    } else {
        assert(r == gs.push(opened(s)));
        assert forall|k: int| 0 <= k < r.len() implies ts_le(#[trigger] r[k].first_started_at, r[k].last_started_at)
            && ts_le(r[k].last_started_at, s.started_at) by {
            if k < gs.len() {
                assert(r[k] == gs[k]);
            }
        }
    }
}

/// Instants compared chronologically.
pub open spec fn time_order(a: Timestamp, b: Timestamp) -> int {
    lex(int_order(a.secs() as int, b.secs() as int), int_order(a.subsec() as int, b.subsec() as int))
}

/// The instant a row is ordered by: its commit time, else its first run.
pub open spec fn sort_time(g: GroupView) -> Timestamp {
    match g.git_commit_timestamp {
        Some(t) => t,
        None => g.first_started_at,
    }
}

/// Rows compared for presentation: later commit (or first run) first,
/// then model name, then device serial, then the whole key.
pub open spec fn row_order(a: GroupView, b: GroupView) -> int {
    lex(
        time_order(sort_time(b), sort_time(a)),
        lex(
            text_order(a.model_original_name, b.model_original_name),
            lex(text_order(a.key.device_serial, b.key.device_serial), key_order(a.key, b.key)),
        ),
    )
}

/// The lexicographic combination of reversing comparisons reverses.
proof fn lemma_lex_neg(p1: int, q1: int, p: int, q: int)
    requires
        q1 == -p1,
        q == -p,
    ensures
        lex(q1, q) == -lex(p1, p),
{
}

proof fn lemma_time_order(a: Timestamp, b: Timestamp, c: Timestamp)
    ensures
        order_law(time_order(a, b), time_order(b, c), time_order(a, c)),
        time_order(a, b) == -time_order(b, a),
        (time_order(a, b) == 0) == (a == b),
{
    if time_order(a, b) == 0 {
        Timestamp::lemma_same_instant(a, b);
    }
    if time_order(b, c) == 0 {
        Timestamp::lemma_same_instant(b, c);
    }
    if time_order(a, c) == 0 {
        Timestamp::lemma_same_instant(a, c);
    }
}

/// Key order reverses with its arguments.
pub proof fn lemma_key_order_anti(a: KeyView, b: KeyView)
    ensures
        key_order(a, b) == -key_order(b, a),
{
    lemma_text_order_basic(a.device_serial, b.device_serial);
    lemma_text_order_basic(a.git_commit_sha, b.git_commit_sha);
    lemma_text_order_basic(a.prompt_sha256, b.prompt_sha256);
    if a.sumd_driver_version is Some && b.sumd_driver_version is Some {
        lemma_text_order_basic(a.sumd_driver_version->0, b.sumd_driver_version->0);
    }
    if a.bsp_version is Some && b.bsp_version is Some {
        lemma_text_order_basic(a.bsp_version->0, b.bsp_version->0);
    }
    if a.host_accelerator is Some && b.host_accelerator is Some {
        lemma_text_order_basic(a.host_accelerator->0, b.host_accelerator->0);
    }
}

/// Row order is transitive, reverses with its arguments, and is 0 only
/// between rows of one key.
pub proof fn lemma_row_order_law(a: GroupView, b: GroupView, c: GroupView)
    ensures
        order_law(row_order(a, b), row_order(b, c), row_order(a, c)),
        row_order(a, b) == -row_order(b, a),
        row_order(a, b) == 0 ==> a.key == b.key,
{
    lemma_key_order_law(a.key, b.key, c.key);
    lemma_key_order_anti(a.key, b.key);
    lemma_text_order_law(a.key.device_serial, b.key.device_serial, c.key.device_serial);
    lemma_text_order_basic(a.key.device_serial, b.key.device_serial);
    lemma_text_order_basic(b.key.device_serial, c.key.device_serial);
    lemma_text_order_basic(a.key.device_serial, c.key.device_serial);
    lemma_text_order_law(a.model_original_name, b.model_original_name, c.model_original_name);
    lemma_text_order_basic(a.model_original_name, b.model_original_name);
    lemma_text_order_basic(b.model_original_name, c.model_original_name);
    lemma_text_order_basic(a.model_original_name, c.model_original_name);
    lemma_time_order(sort_time(c), sort_time(b), sort_time(a));
    lemma_time_order(sort_time(b), sort_time(a), sort_time(c));
    lemma_time_order(sort_time(a), sort_time(c), sort_time(b));
    let k = (key_order(a.key, b.key), key_order(b.key, c.key), key_order(a.key, c.key));
    let d = (
        text_order(a.key.device_serial, b.key.device_serial),
        text_order(b.key.device_serial, c.key.device_serial),
        text_order(a.key.device_serial, c.key.device_serial),
    );
    lemma_lex_law(d.0, d.1, d.2, k.0, k.1, k.2);
    let n = (
        text_order(a.model_original_name, b.model_original_name),
        text_order(b.model_original_name, c.model_original_name),
        text_order(a.model_original_name, c.model_original_name),
    );
    lemma_lex_law(n.0, n.1, n.2, lex(d.0, k.0), lex(d.1, k.1), lex(d.2, k.2));
    let t = (
        time_order(sort_time(b), sort_time(a)),
        time_order(sort_time(c), sort_time(b)),
        time_order(sort_time(c), sort_time(a)),
    );
    assert(order_law(t.0, t.1, t.2));
    lemma_lex_law(
        t.0,
        t.1,
        t.2,
        lex(n.0, lex(d.0, k.0)),
        lex(n.1, lex(d.1, k.1)),
        lex(n.2, lex(d.2, k.2)),
    );
    lemma_lex_neg(
        text_order(a.key.device_serial, b.key.device_serial),
        text_order(b.key.device_serial, a.key.device_serial),
        key_order(a.key, b.key),
        key_order(b.key, a.key),
    );
    lemma_lex_neg(
        text_order(a.model_original_name, b.model_original_name),
        text_order(b.model_original_name, a.model_original_name),
        lex(d.0, k.0),
        lex(text_order(b.key.device_serial, a.key.device_serial), key_order(b.key, a.key)),
    );
}

/// Instant `a` is strictly before instant `b`.
pub open spec fn earlier(a: Timestamp, b: Timestamp) -> bool {
    a.secs() < b.secs() || (a.secs() == b.secs() && a.subsec() < b.subsec())
}

/// Rows come newest first: a row whose configuration's commit is later
/// (or, without a commit time, whose first run started later) is presented
/// before the other, whatever their later runs, names or keys; at the same
/// instant the model name decides, then the device serial.
pub proof fn lemma_rows_newest_first(a: GroupView, b: GroupView)
    ensures
        match (a.git_commit_timestamp, b.git_commit_timestamp) {
            (Some(ta), Some(tb)) => earlier(tb, ta) ==> row_order(a, b) < 0,
            (Some(ta), None) => earlier(b.first_started_at, ta) ==> row_order(a, b) < 0,
            (None, Some(tb)) => earlier(tb, a.first_started_at) ==> row_order(a, b) < 0,
            (None, None) => earlier(b.first_started_at, a.first_started_at) ==> row_order(a, b) < 0,
        },
        match (a.git_commit_timestamp, b.git_commit_timestamp) {
            (Some(ta), Some(tb)) => ta == tb,
            (None, None) => a.first_started_at == b.first_started_at,
            _ => false,
        } ==> {
            &&& text_order(a.model_original_name, b.model_original_name) < 0 ==> row_order(a, b) < 0
            &&& a.model_original_name == b.model_original_name && text_order(
                a.key.device_serial,
                b.key.device_serial,
            ) < 0 ==> row_order(a, b) < 0
        },
{
    lemma_text_order_basic(a.model_original_name, b.model_original_name);
}

fn sort_time_of(r: &ResultRow) -> (t: Timestamp)
    ensures
        t == sort_time(r@),
{
    match r.git_commit_timestamp {
        Some(t) => t,
        None => r.first_started_at,
    }
}

/// Compares two rows for presentation.
pub fn compare_rows(a: &ResultRow, b: &ResultRow) -> (r: i8)
    ensures
        r == row_order(a@, b@),
{
    let ta = sort_time_of(a);
    let tb = sort_time_of(b);
    let c = compare_int(tb.seconds(), ta.seconds());
    if c != 0 {
        return c;
    }
    let c = compare_int(tb.nanos() as i64, ta.nanos() as i64);
    if c != 0 {
        return c;
    }
    let c = compare_text(a.model_original_name.as_str(), b.model_original_name.as_str());
    if c != 0 {
        return c;
    }
    let c = compare_text(a.key.device_serial.as_str(), b.key.device_serial.as_str());
    if c != 0 {
        return c;
    }
    compare_keys(&a.key, &b.key)
}

/// Rows strictly in presentation order.
pub open spec fn sorted_rows(v: Seq<GroupView>) -> bool {
    forall|i: int, j: int| 0 <= i < j < v.len() ==> row_order(v[i], v[j]) < 0
}

/// The rows of the configurations seen so far, in order of first
/// appearance, with the number of runs added.
pub struct ResultGroups {
    groups: Vec<ResultRow>,
    runs: u64,
}

/// The grouped rows a results query returns.
#[derive(Debug)]
pub struct ResultsPage {
    pub rows: Vec<ResultRow>,
    /// More configurations matched than the page holds.
    pub truncated: bool,
}

proof fn lemma_runs_in_update(gs: Seq<GroupView>, i: int, g: GroupView)
    requires
        0 <= i < gs.len(),
    ensures
        runs_in(gs.update(i, g)) == runs_in(gs) - gs[i].total_runs + g.total_runs,
    decreases gs.len(),
{
    if i < gs.len() - 1 {
        lemma_runs_in_update(gs.drop_last(), i, g);
        assert(gs.update(i, g).drop_last() =~= gs.drop_last().update(i, g));
    } else {
        assert(gs.update(i, g).drop_last() =~= gs.drop_last());
    }
}

impl View for ResultGroups {
    type V = Seq<GroupView>;

    closed spec fn view(&self) -> Seq<GroupView> {
        row_views(self.groups@)
    }
}

impl ResultGroups {
    #[verifier::type_invariant]
    spec fn consistent(self) -> bool {
        let gs = row_views(self.groups@);
        &&& distinct_keys(gs)
        &&& forall|i: int| 0 <= i < gs.len() ==> counts_agree(#[trigger] gs[i]) && gs[i].total_runs <= self.runs
        &&& runs_in(gs) == self.runs
    }

    /// The number of runs added.
    pub closed spec fn runs(self) -> nat {
        self.runs as nat
    }

    /// No configuration yet.
    pub fn new() -> (g: ResultGroups)
        ensures
            g@ == Seq::<GroupView>::empty(),
            g.runs() == 0,
    {
        let g = ResultGroups { groups: Vec::new(), runs: 0 };
        assert(row_views(g.groups@) =~= Seq::<GroupView>::empty());
        g
    }

    /// Counts one more run into its configuration's row, opening the row
    /// when the configuration is new. Afterwards each configuration still
    /// has one row, the counts of every row agree, and the rows' runs add
    /// up to the runs added. Runs counted in start order keep each row's
    /// first start no later than its last.
    pub fn add(&mut self, sample: ResultSample)
        requires
            old(self).runs() < u64::MAX,
        ensures
            final(self)@ == grouped(old(self)@, sample@),
            final(self).runs() == old(self).runs() + 1,
            distinct_keys(final(self)@),
            forall|i: int| 0 <= i < final(self)@.len() ==> counts_agree(#[trigger] final(self)@[i]),
            runs_in(final(self)@) == final(self).runs(),
            starts_in_order(old(self)@) && started_by(old(self)@, sample@.started_at) ==> starts_in_order(
                final(self)@,
            ) && started_by(final(self)@, sample@.started_at),
    {
        let ghost before = self@;
        let ghost s = sample@;
        self.count_in(sample);
        proof {
            if starts_in_order(before) && started_by(before, s.started_at) {
                lemma_grouped_in_start_order(before, s);
            }
        }
    }

    /// Counts one run into its configuration's row.
    fn count_in(&mut self, sample: ResultSample)
        requires
            old(self).runs() < u64::MAX,
        ensures
            final(self)@ == grouped(old(self)@, sample@),
            final(self).runs() == old(self).runs() + 1,
            distinct_keys(final(self)@),
            forall|i: int| 0 <= i < final(self)@.len() ==> counts_agree(#[trigger] final(self)@[i]),
            runs_in(final(self)@) == final(self).runs(),
    {
        let mut taken = ResultGroups::new();
        std::mem::swap(self, &mut taken);
        proof {
            use_type_invariant(&taken);
        }
        let ResultGroups { mut groups, runs } = taken;
        let ghost before = row_views(groups@);
        let mut i: usize = 0;
        while i < groups.len()
            invariant
                i <= groups.len(),
                row_views(groups@) == before,
                forall|k: int| 0 <= k < i ==> before[k].key != sample@.key,
            ensures
                i <= groups.len(),
                forall|k: int| 0 <= k < i ==> before[k].key != sample@.key,
                i < groups.len() ==> before[i as int].key == sample@.key,
            decreases groups.len() - i,
        {
            let c = compare_keys(&groups[i].key, &sample.key);
            proof {
                lemma_key_order_law(groups@[i as int].key@, sample.key@, sample.key@);
            }
            if c == 0 {
                break;
            }
            i = i + 1;
        }
        if i < groups.len() {
            let mut row = groups.remove(i);
            assert(row@ == before[i as int]);
            let ok = match sample.exit_status {
                ExitStatus::Succeeded => true,
                _ => false,
            };
            if row.device_model.is_none() {
                row.device_model = sample.device_model;
            }
            if row.git_branch.is_none() {
                row.git_branch = sample.git_branch;
            }
            if row.git_commit_timestamp.is_none() {
                row.git_commit_timestamp = sample.git_commit_timestamp;
            }
            if row.git_commit_subject.is_none() {
                row.git_commit_subject = sample.git_commit_subject;
            }
            row.total_runs = row.total_runs + 1;
            if sample.throttled {
                row.throttled = row.throttled + 1;
            }
            row.last_started_at = sample.started_at;
            if ok {
                row.prefill_samples.push(sample.prefill);
                match sample.decode {
                    Some(d) => row.decode_samples.push(d),
                    None => {},
                }
                match sample.correctness_result {
                    CorrectnessResult::Failed => {
                        row.correctness_failed = row.correctness_failed + 1;
                    },
                    _ => {},
                }
            } else {
                row.not_succeeded = row.not_succeeded + 1;
            }
            assert(row@ == merged(before[i as int], sample@));
            groups.insert(i, row);
            proof {
                let after = row_views(groups@);
                assert(after =~= before.update(i as int, merged(before[i as int], sample@)));
                assert(exists|k: int| 0 <= k < before.len() && before[k].key == sample@.key);
                let k = choose|k: int| 0 <= k < before.len() && before[k].key == sample@.key;
                assert(k == i);
                lemma_runs_in_update(before, i as int, merged(before[i as int], sample@));
                assert forall|a: int| 0 <= a < after.len() implies counts_agree(#[trigger] after[a])
                    && after[a].total_runs <= runs + 1 by {
                    if a == i {
                        assert(counts_agree(before[a]));
                    } else {
                        assert(after[a] == before[a]);
                    }
                }
                assert forall|a: int, b: int| 0 <= a < b < after.len() implies after[a].key
                    != after[b].key by {
                    assert(after[a].key == before[a].key);
                    assert(after[b].key == before[b].key);
                }
            }
        } else {
            let ok = match sample.exit_status {
                ExitStatus::Succeeded => true,
                _ => false,
            };
            let mut prefill_samples: Vec<Float64> = Vec::new();
            let mut decode_samples: Vec<Float64> = Vec::new();
            let mut correctness_failed: u64 = 0;
            let mut not_succeeded: u64 = 0;
            if ok {
                prefill_samples.push(sample.prefill);
                match sample.decode {
                    Some(d) => decode_samples.push(d),
                    None => {},
                }
                match sample.correctness_result {
                    CorrectnessResult::Failed => {
                        correctness_failed = 1;
                    },
                    _ => {},
                }
            } else {
                not_succeeded = 1;
            }
            let row = ResultRow {
                key: sample.key,
                device_model: sample.device_model,
                model_original_name: match sample.model_original_name {
                    Some(n) => n,
                    None => String::new(),
                },
                git_branch: sample.git_branch,
                git_commit_timestamp: sample.git_commit_timestamp,
                git_commit_subject: sample.git_commit_subject,
                input_token_count: sample.input_token_count,
                prefill_samples,
                decode_samples,
                total_runs: 1,
                not_succeeded,
                correctness_failed,
                throttled: if sample.throttled {
                    1
                } else {
                    0
                },
                first_started_at: sample.started_at,
                last_started_at: sample.started_at,
            };
            assert(row@.prefill =~= opened(sample@).prefill);
            assert(row@.decode =~= opened(sample@).decode);
            assert(row@ == opened(sample@));
            groups.push(row);
            proof {
                let after = row_views(groups@);
                assert(after =~= before.push(opened(sample@)));
                assert(after.drop_last() =~= before);
                assert forall|a: int, b: int| 0 <= a < b < after.len() implies after[a].key
                    != after[b].key by {
                    assert(after[a].key == before[a].key);
                    if b < before.len() {
                        assert(after[b].key == before[b].key);
                    }
                }
                assert forall|a: int| 0 <= a < after.len() implies counts_agree(#[trigger] after[a])
                    && after[a].total_runs <= runs + 1 by {
                    if a < before.len() {
                        assert(after[a] == before[a]);
                    }
                }
            }
        }
        *self = ResultGroups { groups, runs: runs + 1 };
    }

    /// The rows in presentation order, at most `max_rows` of them: the
    /// page holds the first `max_rows` rows of that order, and says when
    /// more rows were left out.
    pub fn finish(self, max_rows: usize) -> (page: ResultsPage)
        ensures
            sorted_rows(row_views(page.rows@)),
            page.truncated == (self@.len() > max_rows),
            page.rows@.len() == if self@.len() > max_rows {
                max_rows as nat
            } else {
                self@.len()
            },
            forall|k: int| 0 <= k < page.rows@.len() ==> self@.contains(#[trigger] page.rows@[k]@),
            forall|g: GroupView, k: int|
                self@.contains(g) && !row_views(page.rows@).contains(g) && 0 <= k
                    < page.rows@.len() ==> #[trigger] row_order(page.rows@[k]@, g) < 0,
            starts_in_order(self@) ==> starts_in_order(row_views(page.rows@)),
    {
        proof {
            use_type_invariant(&self);
        }
        let ResultGroups { groups, runs: _ } = self;
        let ghost all = row_views(groups@);
        let out = sort_rows(groups);
        let truncated = out.len() > max_rows;
        let ghost sorted = row_views(out@);
        let mut out = out;
        out.truncate(max_rows);
        proof {
            let rv = row_views(out@);
            assert(rv =~= sorted.take(rv.len() as int));
            assert forall|k: int| 0 <= k < out@.len() implies all.contains(#[trigger] out@[k]@) by {
                assert(sorted[k] == out@[k]@);
                assert(sorted.contains(sorted[k]));
            }
            assert forall|g: GroupView, k: int|
                all.contains(g) && !rv.contains(g) && 0 <= k < out@.len() implies #[trigger] row_order(
                out@[k]@,
                g,
            ) < 0 by {
                assert(sorted.contains(g));
                let p = choose|p: int| 0 <= p < sorted.len() && sorted[p] == g;
                if p < rv.len() {
                    assert(rv[p] == g);
                }
                assert(sorted[k] == out@[k]@);
            }
            if starts_in_order(all) {
                assert forall|k: int| 0 <= k < rv.len() implies ts_le(
                    #[trigger] rv[k].first_started_at,
                    rv[k].last_started_at,
                ) by {
                    assert(rv[k] == out@[k]@);
                    assert(all.contains(out@[k]@));
                    let p = choose|p: int| 0 <= p < all.len() && all[p] == out@[k]@;
                    assert(ts_le(all[p].first_started_at, all[p].last_started_at));
                }
            }
        }
        ResultsPage { rows: out, truncated }
    }
}

/// Inserts `r` into rows in presentation order, before the first row it
/// precedes.
fn insert_sorted(out: &mut Vec<ResultRow>, r: ResultRow)
    requires
        sorted_rows(row_views(old(out)@)),
        forall|k: int| 0 <= k < old(out)@.len() ==> (#[trigger] old(out)@[k])@.key != r@.key,
    ensures
        sorted_rows(row_views(final(out)@)),
        final(out)@.len() == old(out)@.len() + 1,
        forall|x: GroupView| #[trigger] row_views(final(out)@).contains(x) <==> (row_views(
            old(out)@,
        ).contains(x) || x == r@),
{
    let ghost ov = row_views(out@);
    let mut j: usize = 0;
    while j < out.len()
        invariant
            j <= out.len(),
            row_views(out@) == ov,
            forall|k: int| 0 <= k < ov.len() ==> ov[k].key != r@.key,
            forall|k: int| 0 <= k < j ==> row_order(r@, ov[k]) > 0,
        ensures
            j <= out.len(),
            forall|k: int| 0 <= k < j ==> row_order(r@, ov[k]) > 0,
            j < out.len() ==> row_order(r@, ov[j as int]) < 0,
        decreases out.len() - j,
    {
        let c = compare_rows(&r, &out[j]);
        proof {
            lemma_row_order_law(r@, ov[j as int], ov[j as int]);
        }
        if c < 0 {
            break;
        }
        j = j + 1;
    }
    let ghost rv = r@;
    out.insert(j, r);
    proof {
        let nv = row_views(out@);
        assert(nv =~= ov.insert(j as int, rv));
        assert forall|a: int, b: int| 0 <= a < b < nv.len() implies row_order(nv[a], nv[b]) < 0 by {
            if a < j && b == j {
                lemma_row_order_law(rv, ov[a], ov[a]);
            } else if a == j && b > j {
                if b - 1 > j {
                    lemma_row_order_law(rv, ov[j as int], ov[b - 1]);
                }
            } else if a < j && b > j {
                assert(nv[b] == ov[b - 1]);
            } else if a > j {
                assert(nv[a] == ov[a - 1]);
                assert(nv[b] == ov[b - 1]);
            }
        }
        assert forall|x: GroupView| #[trigger] nv.contains(x) <==> (ov.contains(x) || x == rv) by {
            if nv.contains(x) {
                let p = choose|p: int| 0 <= p < nv.len() && nv[p] == x;
                if p < j {
                    assert(ov[p] == x);
                } else if p > j {
                    assert(ov[p - 1] == x);
                }
            }
            if ov.contains(x) {
                let p = choose|p: int| 0 <= p < ov.len() && ov[p] == x;
                if p < j {
                    assert(nv[p] == x);
                } else {
                    assert(nv[p + 1] == x);
                }
            }
            if x == rv {
                assert(nv[j as int] == x);
            }
        }
    }
}

/// The rows, of distinct keys, in presentation order.
fn sort_rows(groups: Vec<ResultRow>) -> (out: Vec<ResultRow>)
    requires
        distinct_keys(row_views(groups@)),
    ensures
        sorted_rows(row_views(out@)),
        out@.len() == groups@.len(),
        forall|x: GroupView| #[trigger] row_views(out@).contains(x) <==> row_views(groups@).contains(x),
{
    let ghost all = row_views(groups@);
    let mut groups = groups;
    let mut out: Vec<ResultRow> = Vec::new();
    while groups.len() > 0
        invariant
            distinct_keys(all),
            row_views(groups@) == all.take(groups@.len() as int),
            groups@.len() <= all.len(),
            out@.len() + groups@.len() == all.len(),
            sorted_rows(row_views(out@)),
            forall|x: GroupView| #[trigger] row_views(out@).contains(x) <==> exists|k: int|
                groups@.len() <= k < all.len() && all[k] == x,
        decreases groups@.len(),
    {
        let ghost n = groups@.len() as int;
        let ghost before = groups@;
        let ghost ov = row_views(out@);
        let r = groups.pop().unwrap();
        assert(row_views(before)[n - 1] == before[n - 1]@);
        assert(all.take(n)[n - 1] == all[n - 1]);
        assert(r@ == all[n - 1]);
        assert(row_views(groups@) =~= all.take(n - 1));
        assert forall|k: int| 0 <= k < out@.len() implies (#[trigger] out@[k])@.key != r@.key by {
            assert(ov[k] == out@[k]@);
            assert(ov.contains(ov[k]));
            let q = choose|q: int| n <= q < all.len() && all[q] == ov[k];
        }
        insert_sorted(&mut out, r);
        proof {
            let nv = row_views(out@);
            assert forall|x: GroupView| #[trigger] nv.contains(x) <==> exists|k: int|
                n - 1 <= k < all.len() && all[k] == x by {
                if exists|k: int| n - 1 <= k < all.len() && all[k] == x {
                    let k = choose|k: int| n - 1 <= k < all.len() && all[k] == x;
                    if k > n - 1 {
                        assert(ov.contains(x));
                    }
                }
            }
        }
    }
    proof {
        assert(all.take(0) =~= Seq::<GroupView>::empty());
        assert forall|x: GroupView| #[trigger] row_views(out@).contains(x) <==> all.contains(x) by {
            if all.contains(x) {
                let k = choose|k: int| 0 <= k < all.len() && all[k] == x;
            }
        }
    }
    out
}

/// The distinct values of one column of the runs table.
#[derive(Debug)]
pub struct FacetRow {
    pub platform: String,
    pub device_class: String,
    pub device_serial: String,
    pub git_branch: Option<String>,
    pub sumd_driver_version: Option<String>,
    pub bsp_version: Option<String>,
    pub host_accelerator: Option<String>,
}

/// A model asset referenced by a run, as stored: its id and name.
#[derive(Debug)]
pub struct ModelFacetRow {
    pub id: String,
    pub original_name: String,
}

/// Distinct filter values across all runs, each list in ascending order.
#[derive(Debug)]
pub struct Facets {
    pub platforms: Vec<Platform>,
    pub device_classes: Vec<DeviceClass>,
    pub device_serials: Vec<String>,
    /// `(id, original_name)` of every model asset referenced by a run.
    pub models: Vec<(u128, String)>,
    pub git_branches: Vec<String>,
    pub sumd_driver_versions: Vec<String>,
    pub bsp_versions: Vec<String>,
    pub host_accelerators: Vec<String>,
}

/// The values present in a column of optional texts.
pub open spec fn present(col: Seq<Option<Seq<char>>>) -> Set<Seq<char>> {
    Set::new(|x: Seq<char>| col.contains(Some(x)))
}

/// `v`, strictly ascending, lists exactly the texts of `values`.
pub open spec fn lists_sorted(v: Seq<Seq<char>>, values: Set<Seq<char>>) -> bool {
    &&& crate::order::strictly_sorted(v)
    &&& v.to_set() == values
}

/// Adds the present value of an optional text to a sorted list.
fn insert_present(v: &mut Vec<String>, o: &Option<String>)
    requires
        crate::order::strictly_sorted(crate::order::string_views(old(v)@)),
    ensures
        crate::order::strictly_sorted(crate::order::string_views(final(v)@)),
        crate::order::string_views(final(v)@).to_set() == match o {
            Some(s) => crate::order::string_views(old(v)@).to_set().insert(s@),
            None => crate::order::string_views(old(v)@).to_set(),
        },
{
    match o {
        Some(s) => crate::order::insert_sorted_unique(v, s.clone()),
        None => {},
    }
}

proof fn lemma_take_set<T>(col: Seq<T>, i: int)
    requires
        0 <= i < col.len(),
    ensures
        col.take(i + 1).to_set() == col.take(i).to_set().insert(col[i]),
{
    assert(col.take(i + 1) =~= col.take(i).push(col[i]));
    assert(col.take(i).push(col[i]).to_set() =~= col.take(i).to_set().insert(col[i])) by {
        let a = col.take(i).push(col[i]);
        assert forall|x: T| a.to_set().contains(x) <==> col.take(i).to_set().insert(col[i]).contains(x) by {
            if a.contains(x) {
                let k = choose|k: int| 0 <= k < a.len() && a[k] == x;
                if k < i {
                    assert(col.take(i)[k] == x);
                }
            }
            if col.take(i).contains(x) {
                let k = choose|k: int| 0 <= k < i && col.take(i)[k] == x;
                assert(a[k] == x);
            }
            if x == col[i] {
                assert(a[i] == x);
            }
        }
    }
}

proof fn lemma_present_step(col: Seq<Option<Seq<char>>>, i: int)
    requires
        0 <= i < col.len(),
    ensures
        present(col.take(i + 1)) == match col[i] {
            Some(x) => present(col.take(i)).insert(x),
            None => present(col.take(i)),
        },
{
    assert(col.take(i + 1) =~= col.take(i).push(col[i]));
    let a = col.take(i + 1);
    let b = col.take(i);
    let target = match col[i] {
        Some(x) => present(b).insert(x),
        None => present(b),
    };
    assert forall|x: Seq<char>| present(a).contains(x) <==> target.contains(x) by {
        if a.contains(Some(x)) {
            let k = choose|k: int| 0 <= k < a.len() && a[k] == Some(x);
            if k < i {
                assert(b[k] == Some(x));
            }
        }
        if b.contains(Some(x)) {
            let k = choose|k: int| 0 <= k < b.len() && b[k] == Some(x);
            assert(a[k] == Some(x));
        }
        if col[i] == Some(x) {
            assert(a[i] == Some(x));
        }
    }
    assert(present(a) =~= target);
}

/// The platform texts of the runs.
pub open spec fn platform_col(rows: Seq<FacetRow>) -> Seq<Seq<char>> {
    rows.map_values(|r: FacetRow| r.platform@)
}

/// The device class texts of the runs.
pub open spec fn class_col(rows: Seq<FacetRow>) -> Seq<Seq<char>> {
    rows.map_values(|r: FacetRow| r.device_class@)
}

/// The device serials of the runs.
pub open spec fn serial_col(rows: Seq<FacetRow>) -> Seq<Seq<char>> {
    rows.map_values(|r: FacetRow| r.device_serial@)
}

/// The git branches of the runs.
pub open spec fn branch_col(rows: Seq<FacetRow>) -> Seq<Option<Seq<char>>> {
    rows.map_values(|r: FacetRow| sv(r.git_branch))
}

/// The SUMD driver versions of the runs.
pub open spec fn sumd_col(rows: Seq<FacetRow>) -> Seq<Option<Seq<char>>> {
    rows.map_values(|r: FacetRow| sv(r.sumd_driver_version))
}

/// The BSP versions of the runs.
pub open spec fn bsp_col(rows: Seq<FacetRow>) -> Seq<Option<Seq<char>>> {
    rows.map_values(|r: FacetRow| sv(r.bsp_version))
}

/// The accelerators of the runs.
pub open spec fn accelerator_col(rows: Seq<FacetRow>) -> Seq<Option<Seq<char>>> {
    rows.map_values(|r: FacetRow| sv(r.host_accelerator))
}

/// The distinct texts of each facet column, each list strictly ascending.
struct ColumnLists {
    platforms: Vec<String>,
    classes: Vec<String>,
    serials: Vec<String>,
    branches: Vec<String>,
    sumd: Vec<String>,
    bsp: Vec<String>,
    accelerators: Vec<String>,
}

fn column_lists(rows: &Vec<FacetRow>) -> (c: ColumnLists)
    ensures
        lists_sorted(crate::order::string_views(c.platforms@), platform_col(rows@).to_set()),
        lists_sorted(crate::order::string_views(c.classes@), class_col(rows@).to_set()),
        lists_sorted(crate::order::string_views(c.serials@), serial_col(rows@).to_set()),
        lists_sorted(crate::order::string_views(c.branches@), present(branch_col(rows@))),
        lists_sorted(crate::order::string_views(c.sumd@), present(sumd_col(rows@))),
        lists_sorted(crate::order::string_views(c.bsp@), present(bsp_col(rows@))),
        lists_sorted(crate::order::string_views(c.accelerators@), present(accelerator_col(rows@))),
{
    let mut c = ColumnLists {
        platforms: Vec::new(),
        classes: Vec::new(),
        serials: Vec::new(),
        branches: Vec::new(),
        sumd: Vec::new(),
        bsp: Vec::new(),
        accelerators: Vec::new(),
    };
    let ghost r = rows@;
    proof {
        assert(platform_col(r).take(0) =~= Seq::empty());
        assert(class_col(r).take(0) =~= Seq::empty());
        assert(serial_col(r).take(0) =~= Seq::empty());
        assert(crate::order::string_views(c.platforms@) =~= Seq::empty());
        assert(crate::order::string_views(c.classes@) =~= Seq::empty());
        assert(crate::order::string_views(c.serials@) =~= Seq::empty());
        assert(crate::order::string_views(c.branches@) =~= Seq::empty());
        assert(crate::order::string_views(c.sumd@) =~= Seq::empty());
        assert(crate::order::string_views(c.bsp@) =~= Seq::empty());
        assert(crate::order::string_views(c.accelerators@) =~= Seq::empty());
        assert(present(branch_col(r).take(0)) =~= Set::empty());
        assert(present(sumd_col(r).take(0)) =~= Set::empty());
        assert(present(bsp_col(r).take(0)) =~= Set::empty());
        assert(present(accelerator_col(r).take(0)) =~= Set::empty());
        assert(crate::order::string_views(c.branches@).to_set() =~= present(branch_col(r).take(0)));
        assert(crate::order::string_views(c.sumd@).to_set() =~= present(sumd_col(r).take(0)));
        assert(crate::order::string_views(c.bsp@).to_set() =~= present(bsp_col(r).take(0)));
        assert(crate::order::string_views(c.accelerators@).to_set() =~= present(accelerator_col(r).take(0)));
    }
    let mut i: usize = 0;
    while i < rows.len()
        invariant
            r == rows@,
            i <= rows.len(),
            lists_sorted(crate::order::string_views(c.platforms@), platform_col(r).take(i as int).to_set()),
            lists_sorted(crate::order::string_views(c.classes@), class_col(r).take(i as int).to_set()),
            lists_sorted(crate::order::string_views(c.serials@), serial_col(r).take(i as int).to_set()),
            lists_sorted(crate::order::string_views(c.branches@), present(branch_col(r).take(i as int))),
            lists_sorted(crate::order::string_views(c.sumd@), present(sumd_col(r).take(i as int))),
            lists_sorted(crate::order::string_views(c.bsp@), present(bsp_col(r).take(i as int))),
            lists_sorted(
                crate::order::string_views(c.accelerators@),
                present(accelerator_col(r).take(i as int)),
            ),
        decreases rows.len() - i,
    {
        let row = &rows[i];
        crate::order::insert_sorted_unique(&mut c.platforms, row.platform.clone());
        crate::order::insert_sorted_unique(&mut c.classes, row.device_class.clone());
        crate::order::insert_sorted_unique(&mut c.serials, row.device_serial.clone());
        insert_present(&mut c.branches, &row.git_branch);
        insert_present(&mut c.sumd, &row.sumd_driver_version);
        insert_present(&mut c.bsp, &row.bsp_version);
        insert_present(&mut c.accelerators, &row.host_accelerator);
        proof {
            lemma_take_set(platform_col(r), i as int);
            lemma_take_set(class_col(r), i as int);
            lemma_take_set(serial_col(r), i as int);
            lemma_present_step(branch_col(r), i as int);
            lemma_present_step(sumd_col(r), i as int);
            lemma_present_step(bsp_col(r), i as int);
            lemma_present_step(accelerator_col(r), i as int);
        }
        i = i + 1;
    }
    proof {
        assert(platform_col(r).take(r.len() as int) =~= platform_col(r));
        assert(class_col(r).take(r.len() as int) =~= class_col(r));
        assert(serial_col(r).take(r.len() as int) =~= serial_col(r));
        assert(branch_col(r).take(r.len() as int) =~= branch_col(r));
        assert(sumd_col(r).take(r.len() as int) =~= sumd_col(r));
        assert(bsp_col(r).take(r.len() as int) =~= bsp_col(r));
        assert(accelerator_col(r).take(r.len() as int) =~= accelerator_col(r));
    }
    c
}

/// The first model whose stored id is not a UUID, as the refusal.
pub open spec fn model_violation(m: Seq<ModelFacetRow>) -> Option<Seq<char>>
    decreases m.len(),
{
    if m.len() == 0 {
        None
    } else {
        match model_violation(m.drop_last()) {
            Some(e) => Some(e),
            None => match uuid_reading(m.last().id@) {
                Err(e) => Some("invalid stored model id: "@ + e),
                Ok(_) => None,
            },
        }
    }
}

proof fn lemma_model_violation_sticks(m: Seq<ModelFacetRow>, i: int)
    requires
        0 <= i <= m.len(),
        model_violation(m.take(i)) is Some,
    ensures
        model_violation(m) == model_violation(m.take(i)),
    decreases m.len() - i,
{
    if i < m.len() {
        assert(m.take(i + 1).drop_last() =~= m.take(i));
        lemma_model_violation_sticks(m, i + 1);
    } else {
        assert(m.take(i) =~= m);
    }
}

proof fn lemma_platform_text(p: Platform)
    ensures
        Platform::from_text(p.text()) == Some(p),
{
    reveal_strlit("android");
    reveal_strlit("linux");
    assert("android"@[0] != "linux"@[0]);
}

/// The texts of a list of platforms.
pub open spec fn platform_texts(v: Seq<Platform>) -> Seq<Seq<char>> {
    v.map_values(|p: Platform| p.text())
}

/// The texts of a list of device classes.
pub open spec fn class_texts(v: Seq<DeviceClass>) -> Seq<Seq<char>> {
    v.map_values(|c: DeviceClass| c.text())
}

/// The refusal of a stored platform text.
pub open spec fn bad_platform(x: Seq<char>) -> Seq<char> {
    "invalid stored platform: "@ + ("invalid platform: "@ + debug_quoted(x))
}

/// The refusal of a stored device class text.
pub open spec fn bad_class(x: Seq<char>) -> Seq<char> {
    "invalid stored device_class: "@ + ("invalid device class: "@ + debug_quoted(x))
}

/// The least platform text of `values` that is no platform, if any.
pub open spec fn least_bad_platform(values: Set<Seq<char>>, x: Seq<char>) -> bool {
    &&& values.contains(x)
    &&& Platform::from_text(x) is None
    &&& forall|y: Seq<char>| values.contains(y) && text_order(y, x) < 0 ==> Platform::from_text(y) is Some
}

/// The least device class text of `values` that is no device class.
pub open spec fn least_bad_class(values: Set<Seq<char>>, x: Seq<char>) -> bool {
    &&& values.contains(x)
    &&& DeviceClass::from_text(x) is None
    &&& forall|y: Seq<char>| values.contains(y) && text_order(y, x) < 0 ==> DeviceClass::from_text(y) is Some
}

fn parse_platforms(texts: &Vec<String>) -> (r: Result<Vec<Platform>, RunsError>)
    requires
        crate::order::strictly_sorted(crate::order::string_views(texts@)),
    ensures
        match r {
            Ok(v) => platform_texts(v@) == crate::order::string_views(texts@),
            Err(e) => exists|x: Seq<char>|
                least_bad_platform(crate::order::string_views(texts@).to_set(), x) && e.0@ == bad_platform(x),
        },
{
    let ghost t = crate::order::string_views(texts@);
    let mut v: Vec<Platform> = Vec::new();
    let mut i: usize = 0;
    while i < texts.len()
        invariant
            t == crate::order::string_views(texts@),
            crate::order::strictly_sorted(t),
            i <= texts.len(),
            platform_texts(v@) == t.take(i as int),
            v@.len() == i,
        decreases texts.len() - i,
    {
        assert(t[i as int] == texts@[i as int]@);
        match Platform::parse(texts[i].as_str()) {
            Ok(p) => {
                assert(p.text() == t[i as int]);
                let ghost old_v = v@;
                v.push(p);
                assert forall|k: int| 0 <= k < i + 1 implies platform_texts(v@)[k] == t.take(i + 1)[k] by {
                    if k < i {
                        assert(platform_texts(old_v)[k] == t.take(i as int)[k]);
                        assert(v@[k] == old_v[k]);
                    }
                }
                assert(platform_texts(v@) =~= t.take(i + 1));
            },
            Err(e) => {
                let err = text_of("invalid stored platform: ", e.0.as_str());
                proof {
                    let x = t[i as int];
                    assert(t.to_set().contains(x));
                    assert forall|y: Seq<char>| t.to_set().contains(y) && text_order(y, x) < 0 implies Platform::from_text(
                        y,
                    ) is Some by {
                        assert(t.contains(y));
                        let k = choose|k: int| 0 <= k < t.len() && t[k] == y;
                        crate::order::lemma_text_order_basic(x, y);
                        if k >= i {
                            if k > i {
                                assert(text_order(x, y) < 0);
                            }
                        } else {
                            assert(platform_texts(v@)[k] == t[k]);
                            lemma_platform_text(v@[k]);
                        }
                    }
                    assert(least_bad_platform(t.to_set(), x));
                    assert(err.0@ == bad_platform(x));
                }
                return Err(err);
            },
        }
        i = i + 1;
    }
    assert(t.take(t.len() as int) =~= t);
    Ok(v)
}

fn parse_classes(texts: &Vec<String>) -> (r: Result<Vec<DeviceClass>, RunsError>)
    requires
        crate::order::strictly_sorted(crate::order::string_views(texts@)),
    ensures
        match r {
            Ok(v) => class_texts(v@) == crate::order::string_views(texts@),
            Err(e) => exists|x: Seq<char>|
                least_bad_class(crate::order::string_views(texts@).to_set(), x) && e.0@ == bad_class(x),
        },
{
    let ghost t = crate::order::string_views(texts@);
    let mut v: Vec<DeviceClass> = Vec::new();
    let mut i: usize = 0;
    while i < texts.len()
        invariant
            t == crate::order::string_views(texts@),
            crate::order::strictly_sorted(t),
            i <= texts.len(),
            class_texts(v@) == t.take(i as int),
            v@.len() == i,
        decreases texts.len() - i,
    {
        assert(t[i as int] == texts@[i as int]@);
        match DeviceClass::parse(texts[i].as_str()) {
            Ok(c) => {
                assert(c.text() == t[i as int]);
                let ghost old_v = v@;
                v.push(c);
                assert forall|k: int| 0 <= k < i + 1 implies class_texts(v@)[k] == t.take(i + 1)[k] by {
                    if k < i {
                        assert(class_texts(old_v)[k] == t.take(i as int)[k]);
                        assert(v@[k] == old_v[k]);
                    }
                }
                assert(class_texts(v@) =~= t.take(i + 1));
            },
            Err(e) => {
                let err = text_of("invalid stored device_class: ", e.0.as_str());
                proof {
                    let x = t[i as int];
                    assert(t.to_set().contains(x));
                    assert forall|y: Seq<char>| t.to_set().contains(y) && text_order(y, x) < 0 implies DeviceClass::from_text(
                        y,
                    ) is Some by {
                        assert(t.contains(y));
                        let k = choose|k: int| 0 <= k < t.len() && t[k] == y;
                        crate::order::lemma_text_order_basic(x, y);
                        if k >= i {
                            if k > i {
                                assert(text_order(x, y) < 0);
                            }
                        } else {
                            assert(class_texts(v@)[k] == t[k]);
                            crate::stored::lemma_device_class_text(v@[k]);
                        }
                    }
                    assert(least_bad_class(t.to_set(), x));
                    assert(err.0@ == bad_class(x));
                }
                return Err(err);
            },
        }
        i = i + 1;
    }
    assert(t.take(t.len() as int) =~= t);
    Ok(v)
}

/// The views of a list of `(id, name)` models.
pub open spec fn model_views(v: Seq<(u128, String)>) -> Seq<(u128, Seq<char>)> {
    v.map_values(|m: (u128, String)| (m.0, m.1@))
}

/// The stored models read: each id as its UUID, with its name.
pub open spec fn models_read(m: Seq<ModelFacetRow>) -> Seq<(u128, Seq<char>)> {
    m.map_values(|r: ModelFacetRow| (uuid_reading(r.id@)->Ok_0, r.original_name@))
}

/// `f` lists the models read from `models` in the order given and, for every
/// column of `rows`, its distinct values in strictly ascending order.
pub open spec fn facets_hold(models: Seq<ModelFacetRow>, rows: Seq<FacetRow>, f: Facets) -> bool {
    &&& model_views(f.models@) == models_read(models)
    &&& lists_sorted(platform_texts(f.platforms@), platform_col(rows).to_set())
    &&& lists_sorted(class_texts(f.device_classes@), class_col(rows).to_set())
    &&& lists_sorted(crate::order::string_views(f.device_serials@), serial_col(rows).to_set())
    &&& lists_sorted(crate::order::string_views(f.git_branches@), present(branch_col(rows)))
    &&& lists_sorted(crate::order::string_views(f.sumd_driver_versions@), present(sumd_col(rows)))
    &&& lists_sorted(crate::order::string_views(f.bsp_versions@), present(bsp_col(rows)))
    &&& lists_sorted(crate::order::string_views(f.host_accelerators@), present(accelerator_col(rows)))
}

/// Every list of a `Facets`, as views.
pub open spec fn facet_views(f: Facets) -> (
    Seq<(u128, Seq<char>)>,
    Seq<Seq<char>>,
    Seq<Seq<char>>,
    Seq<Seq<char>>,
    Seq<Seq<char>>,
    Seq<Seq<char>>,
    Seq<Seq<char>>,
    Seq<Seq<char>>,
) {
    (
        model_views(f.models@),
        platform_texts(f.platforms@),
        class_texts(f.device_classes@),
        crate::order::string_views(f.device_serials@),
        crate::order::string_views(f.git_branches@),
        crate::order::string_views(f.sumd_driver_versions@),
        crate::order::string_views(f.bsp_versions@),
        crate::order::string_views(f.host_accelerators@),
    )
}

/// A strictly ascending listing of a set of texts is unique: two such
/// listings of the same values are the same sequence.
pub proof fn lemma_sorted_listing_unique(v: Seq<Seq<char>>, w: Seq<Seq<char>>, values: Set<Seq<char>>)
    requires
        lists_sorted(v, values),
        lists_sorted(w, values),
    ensures
        v == w,
    decreases v.len(),
{
    if v.len() == 0 || w.len() == 0 {
        if v.len() > 0 {
            assert(v.to_set().contains(v[0]));
            assert(w.to_set().contains(v[0]));
        }
        if w.len() > 0 {
            assert(w.to_set().contains(w[0]));
            assert(v.to_set().contains(w[0]));
        }
        assert(v =~= w);
    } else {
        let x = v.last();
        let y = w.last();
        assert(v.to_set().contains(x));
        assert(w.to_set().contains(x));
        assert(w.to_set().contains(y));
        assert(v.to_set().contains(y));
        let j = choose|j: int| 0 <= j < w.len() && w[j] == x;
        let i = choose|i: int| 0 <= i < v.len() && v[i] == y;
        if x != y {
            assert(i != v.len() - 1);
            assert(j != w.len() - 1);
            assert(crate::order::text_order(y, x) < 0);
            assert(crate::order::text_order(x, y) < 0);
            crate::order::lemma_text_order_basic(x, y);
        }
        let v2 = v.drop_last();
        let w2 = w.drop_last();
        let rest = values.remove(x);
        assert forall|k: int, l: int| 0 <= k < l < v2.len() implies crate::order::text_order(v2[k], v2[l])
            < 0 by {
            assert(v2[k] == v[k] && v2[l] == v[l]);
        }
        assert forall|k: int, l: int| 0 <= k < l < w2.len() implies crate::order::text_order(w2[k], w2[l])
            < 0 by {
            assert(w2[k] == w[k] && w2[l] == w[l]);
        }
        assert forall|z: Seq<char>| v2.to_set().contains(z) <==> rest.contains(z) by {
            if v2.to_set().contains(z) {
                let k = choose|k: int| 0 <= k < v2.len() && v2[k] == z;
                assert(v[k] == z);
                assert(v.to_set().contains(z));
                assert(crate::order::text_order(z, x) < 0);
                crate::order::lemma_text_order_basic(z, x);
            }
            if rest.contains(z) {
                assert(v.to_set().contains(z));
                let k = choose|k: int| 0 <= k < v.len() && v[k] == z;
                assert(k != v.len() - 1);
                assert(v2[k] == z);
                assert(v2.to_set().contains(z));
            }
        }
        assert forall|z: Seq<char>| w2.to_set().contains(z) <==> rest.contains(z) by {
            if w2.to_set().contains(z) {
                let k = choose|k: int| 0 <= k < w2.len() && w2[k] == z;
                assert(w[k] == z);
                assert(w.to_set().contains(z));
                assert(crate::order::text_order(z, x) < 0);
                crate::order::lemma_text_order_basic(z, x);
            }
            if rest.contains(z) {
                assert(w.to_set().contains(z));
                let k = choose|k: int| 0 <= k < w.len() && w[k] == z;
                assert(k != w.len() - 1);
                assert(w2[k] == z);
                assert(w2.to_set().contains(z));
            }
        }
        assert(v2.to_set() =~= rest);
        assert(w2.to_set() =~= rest);
        lemma_sorted_listing_unique(v2, w2, rest);
        assert(v =~= v2.push(x));
        assert(w =~= w2.push(y));
    }
}

/// The facets are a function of the stored models and runs alone: two
/// results that both meet the contract of `facets_from` for the same input
/// list the same values in the same order. No filter enters them.
pub proof fn lemma_facets_determined(models: Seq<ModelFacetRow>, rows: Seq<FacetRow>, f: Facets, g: Facets)
    requires
        facets_hold(models, rows, f),
        facets_hold(models, rows, g),
    ensures
        facet_views(f) == facet_views(g),
{
    lemma_sorted_listing_unique(platform_texts(f.platforms@), platform_texts(g.platforms@), platform_col(rows).to_set());
    lemma_sorted_listing_unique(class_texts(f.device_classes@), class_texts(g.device_classes@), class_col(rows).to_set());
    lemma_sorted_listing_unique(
        crate::order::string_views(f.device_serials@),
        crate::order::string_views(g.device_serials@),
        serial_col(rows).to_set(),
    );
    lemma_sorted_listing_unique(
        crate::order::string_views(f.git_branches@),
        crate::order::string_views(g.git_branches@),
        present(branch_col(rows)),
    );
    lemma_sorted_listing_unique(
        crate::order::string_views(f.sumd_driver_versions@),
        crate::order::string_views(g.sumd_driver_versions@),
        present(sumd_col(rows)),
    );
    lemma_sorted_listing_unique(
        crate::order::string_views(f.bsp_versions@),
        crate::order::string_views(g.bsp_versions@),
        present(bsp_col(rows)),
    );
    lemma_sorted_listing_unique(
        crate::order::string_views(f.host_accelerators@),
        crate::order::string_views(g.host_accelerators@),
        present(accelerator_col(rows)),
    );
}

/// The facets of the runs: the referenced models in the order given, then
/// for every column the distinct values, ascending. Refused, in this order,
/// for the first model id that is no UUID, the least platform text that is
/// no platform, and the least device class text that is no device class.
pub fn facets_from(models: Vec<ModelFacetRow>, rows: Vec<FacetRow>) -> (r: Result<Facets, RunsError>)
    ensures
        match r {
            Ok(f) => model_violation(models@) is None && facets_hold(models@, rows@, f),
            Err(e) => {
                ||| model_violation(models@) == Some(e.0@)
                ||| model_violation(models@) is None && exists|x: Seq<char>|
                    least_bad_platform(platform_col(rows@).to_set(), x) && e.0@ == bad_platform(x)
                ||| model_violation(models@) is None && (forall|x: Seq<char>|
                    #[trigger] platform_col(rows@).to_set().contains(x) ==> Platform::from_text(x) is Some)
                    && exists|x: Seq<char>|
                    least_bad_class(class_col(rows@).to_set(), x) && e.0@ == bad_class(x)
            },
        },
{
    let mut parsed: Vec<(u128, String)> = Vec::new();
    let mut i: usize = 0;
    let ghost m = models@;
    while i < models.len()
        invariant
            m == models@,
            i <= models.len(),
            model_violation(m.take(i as int)) is None,
            model_views(parsed@) == models_read(m.take(i as int)),
            parsed@.len() == i,
        decreases models.len() - i,
    {
        assert(m.take(i + 1).drop_last() =~= m.take(i as int));
        assert(m.take(i + 1) =~= m.take(i as int).push(m[i as int]));
        match uuid_from_text(models[i].id.as_str()) {
            Ok(id) => {
                let ghost old_p = parsed@;
                let name = models[i].original_name.clone();
                parsed.push((id, name));
                assert forall|k: int| 0 <= k < i + 1 implies model_views(parsed@)[k] == models_read(
                    m.take(i + 1),
                )[k] by {
                    if k < i {
                        assert(model_views(old_p)[k] == models_read(m.take(i as int))[k]);
                        assert(parsed@[k] == old_p[k]);
                    }
                }
                assert(model_views(parsed@) =~= models_read(m.take(i + 1)));
            },
            Err(e) => {
                proof {
                    lemma_model_violation_sticks(m, i + 1);
                }
                return Err(text_of("invalid stored model id: ", e.as_str()));
            },
        }
        i = i + 1;
    }
    assert(m.take(m.len() as int) =~= m);
    let c = column_lists(&rows);
    let platforms = match parse_platforms(&c.platforms) {
        Ok(v) => v,
        Err(e) => return Err(e),
    };
    let device_classes = match parse_classes(&c.classes) {
        Ok(v) => v,
        Err(e) => {
            proof {
                assert forall|x: Seq<char>| #[trigger] platform_col(rows@).to_set().contains(x) implies Platform::from_text(
                    x,
                ) is Some by {
                    let t = crate::order::string_views(c.platforms@);
                    assert(t.to_set().contains(x));
                    let k = choose|k: int| 0 <= k < t.len() && t[k] == x;
                    assert(platform_texts(platforms@)[k] == x);
                }
            }
            return Err(e);
        },
    };
    Ok(Facets {
        platforms,
        device_classes,
        device_serials: c.serials,
        models: parsed,
        git_branches: c.branches,
        sumd_driver_versions: c.sumd,
        bsp_versions: c.bsp,
        host_accelerators: c.accelerators,
    })
}

} // verus!
