//! The flat `runs` row: what storing a [`NewRun`] writes, and how a stored
//! row is read back into a [`Run`], reporting any inconsistency rather
//! than papering over it.

use vstd::prelude::*;
use crate::domain::{CorrectnessResult, DeviceClass, ExitStatus, Platform, Sha256Hex, is_sha256_hex};
use crate::float64::Float64;
use crate::host_rules::clone_opt;
use crate::ids::{uuid_from_text, uuid_reading, uuid_text, uuid_to_text};
use crate::time::Timestamp;
use crate::runs::{
    AndroidDeviceState, AndroidLabConfig, HostState, LinuxHostState, NewRun, RunsError,
    complete_lab_snapshot,
};
use crate::text::debug_quoted;

verus! {

/// Every column of a stored run, in its stored type: identifiers and
/// enumerations as text, flags as integers (0 or 1).
#[derive(Debug)]
pub struct RunRow {
    pub id: String,
    pub started_at: Timestamp,
    pub finished_at: Option<Timestamp>,
    pub repetition: i64,
    pub command_args: String,
    pub command_line: Option<String>,
    pub input_parameters: String,
    pub env_vars: String,
    pub env_allowlist_version: String,
    pub collector_version: String,
    pub platform: String,
    pub device_class: String,
    pub device_serial: String,
    pub device_model: Option<String>,
    pub device_uptime_seconds: Option<i64>,
    pub thermal_throttling: Option<i64>,
    pub bsp_version: Option<String>,
    pub sumd_driver_version: Option<String>,
    pub battery_charging: Option<i64>,
    pub initial_temperature_celsius: Option<Float64>,
    pub max_temperature_celsius: Option<Float64>,
    pub gpu_clock_mhz: Option<i64>,
    pub mif_clock_mhz: Option<i64>,
    pub int_clock_mhz: Option<i64>,
    pub host_os: Option<String>,
    pub host_kernel: Option<String>,
    pub host_cpu_model: Option<String>,
    pub host_cpu_count: Option<i64>,
    pub host_memory_bytes: Option<i64>,
    pub host_accelerator: Option<String>,
    pub host_accelerator_driver: Option<String>,
    pub git_commit_sha: String,
    pub git_dirty: i64,
    pub git_branch: Option<String>,
    pub git_commit_timestamp: Option<Timestamp>,
    pub git_commit_subject: Option<String>,
    pub executable_sha256: Option<String>,
    pub model_asset_id: String,
    pub prompt_sha256: String,
    pub input_token_count: i64,
    pub output_token_count: i64,
    pub prefill_tokens_per_sec: Float64,
    pub decode_tokens_per_sec: Option<Float64>,
    pub exit_status: String,
    pub correctness_result: String,
    pub input_artifact_id: Option<String>,
    pub output_artifact_id: Option<String>,
    pub output_preview: Option<String>,
    pub stdout_artifact_id: Option<String>,
    pub stderr_artifact_id: Option<String>,
    pub crash_artifact_id: Option<String>,
    pub error_summary: Option<String>,
}

/// A run attempt as read back from storage.
#[derive(Debug)]
pub struct Run {
    pub id: u128,
    pub started_at: Timestamp,
    pub finished_at: Option<Timestamp>,
    pub repetition: i64,
    pub command_args_json: String,
    pub command_line: Option<String>,
    pub input_parameters_json: String,
    pub env_vars_json: String,
    pub env_allowlist_version: String,
    pub collector_version: String,
    pub device_class: DeviceClass,
    pub device_serial: String,
    pub device_model: Option<String>,
    pub host: HostState,
    pub git_commit_sha: String,
    pub git_dirty: bool,
    pub git_branch: Option<String>,
    pub git_commit_timestamp: Option<Timestamp>,
    pub git_commit_subject: Option<String>,
    pub executable_sha256: Option<Sha256Hex>,
    pub model_asset_id: u128,
    pub prompt_sha256: Sha256Hex,
    pub input_token_count: i64,
    pub output_token_count: i64,
    pub prefill_tokens_per_sec: Float64,
    pub decode_tokens_per_sec: Option<Float64>,
    pub exit_status: ExitStatus,
    pub correctness_result: CorrectnessResult,
    pub input_artifact_id: Option<u128>,
    pub output_artifact_id: Option<u128>,
    pub output_preview: Option<String>,
    pub stdout_artifact_id: Option<u128>,
    pub stderr_artifact_id: Option<u128>,
    pub crash_artifact_id: Option<u128>,
    pub error_summary: Option<String>,
}

/// A flag as a stored integer.
pub open spec fn flag_column(b: bool) -> i64 {
    if b { 1 } else { 0 }
}

/// An optional flag as a stored integer.
pub open spec fn opt_flag_column(b: Option<bool>) -> Option<i64> {
    match b {
        Some(v) => Some(flag_column(v)),
        None => None,
    }
}

/// A stored integer read back as a flag (anything but zero is set).
pub open spec fn opt_flag_read(v: Option<i64>) -> Option<bool> {
    match v {
        Some(x) => Some(x != 0),
        None => None,
    }
}

/// An optional identifier as stored text.
pub open spec fn opt_id_column(id: Option<u128>) -> Option<Seq<char>> {
    match id {
        Some(v) => Some(uuid_text(v)),
        None => None,
    }
}

/// An optional stored text, as a view.
pub open spec fn opt_text(o: Option<String>) -> Option<Seq<char>> {
    match o {
        Some(s) => Some(s@),
        None => None,
    }
}

/// The host columns of `row` are those written for snapshot `h`.
pub open spec fn host_columns_hold(h: HostState, row: RunRow) -> bool {
    match h {
        HostState::Android(a) => {
            &&& row.platform@ == "android"@
            &&& row.device_uptime_seconds == a.uptime_seconds
            &&& row.thermal_throttling == opt_flag_column(a.thermal_throttling)
            &&& row.battery_charging == opt_flag_column(a.battery_charging)
            &&& row.initial_temperature_celsius == a.initial_temperature_celsius
            &&& row.max_temperature_celsius == a.max_temperature_celsius
            &&& match a.lab {
                Some(l) => {
                    &&& row.bsp_version == Some(l.bsp_version)
                    &&& row.sumd_driver_version == Some(l.sumd_driver_version)
                    &&& row.gpu_clock_mhz == Some(l.gpu_clock_mhz)
                    &&& row.mif_clock_mhz == Some(l.mif_clock_mhz)
                    &&& row.int_clock_mhz == Some(l.int_clock_mhz)
                },
                None => {
                    &&& row.bsp_version is None
                    &&& row.sumd_driver_version is None
                    &&& row.gpu_clock_mhz is None
                    &&& row.mif_clock_mhz is None
                    &&& row.int_clock_mhz is None
                },
            }
            &&& row.host_os == a.os
            &&& row.host_kernel == a.kernel
            &&& row.host_cpu_model == a.soc
            &&& row.host_cpu_count == a.cpu_count
            &&& row.host_memory_bytes == a.memory_bytes
            &&& row.host_accelerator == a.gpu
            &&& row.host_accelerator_driver == a.gpu_driver
        },
        HostState::Linux(l) => {
            &&& row.platform@ == "linux"@
            &&& row.device_uptime_seconds == l.uptime_seconds
            &&& row.thermal_throttling == opt_flag_column(l.thermal_throttling)
            &&& row.battery_charging is None
            &&& row.initial_temperature_celsius is None
            &&& row.max_temperature_celsius is None
            &&& row.bsp_version is None
            &&& row.sumd_driver_version is None
            &&& row.gpu_clock_mhz is None
            &&& row.mif_clock_mhz is None
            &&& row.int_clock_mhz is None
            &&& row.host_os == Some(l.os)
            &&& row.host_kernel == Some(l.kernel)
            &&& row.host_cpu_model == Some(l.cpu_model)
            &&& row.host_cpu_count == l.cpu_count
            &&& row.host_memory_bytes == l.memory_bytes
            &&& row.host_accelerator == Some(l.accelerator)
            &&& row.host_accelerator_driver == l.accelerator_driver
        },
    }
}

/// Every stored identifier text of `row` reads back as the identifier
/// written for `n`.
pub open spec fn ids_read_back(n: NewRun, row: RunRow) -> bool {
    &&& uuid_reading(row.id@) == Ok::<u128, Seq<char>>(n.id)
    &&& uuid_reading(row.model_asset_id@) == Ok::<u128, Seq<char>>(n.model_asset_id)
    &&& opt_ids_read_back(row.input_artifact_id, n.input_artifact_id)
    &&& opt_ids_read_back(row.output_artifact_id, n.output_artifact_id)
    &&& opt_ids_read_back(row.stdout_artifact_id, n.stdout_artifact_id)
    &&& opt_ids_read_back(row.stderr_artifact_id, n.stderr_artifact_id)
    &&& opt_ids_read_back(row.crash_artifact_id, n.crash_artifact_id)
}

/// A stored optional identifier reads back as `id`.
pub open spec fn opt_ids_read_back(t: Option<String>, id: Option<u128>) -> bool {
    match (t, id) {
        (Some(x), Some(v)) => uuid_reading(x@) == Ok::<u128, Seq<char>>(v),
        (None, None) => true,
        _ => false,
    }
}

/// `row` holds exactly the columns written for `n`.
pub open spec fn row_holds(n: NewRun, row: RunRow) -> bool {
    &&& ids_read_back(n, row)
    &&& row.id@ == uuid_text(n.id)
    &&& row.started_at == n.started_at
    &&& row.finished_at == n.finished_at
    &&& row.repetition == n.repetition
    &&& row.command_args == n.command_args_json
    &&& row.command_line == n.command_line
    &&& row.input_parameters == n.input_parameters_json
    &&& row.env_vars == n.env_vars_json
    &&& row.env_allowlist_version == n.env_allowlist_version
    &&& row.collector_version == n.collector_version
    &&& row.device_class@ == n.device_class.text()
    &&& row.device_serial == n.device_serial
    &&& row.device_model == n.device_model
    &&& host_columns_hold(n.host, row)
    &&& row.git_commit_sha == n.git_commit_sha
    &&& row.git_dirty == flag_column(n.git_dirty)
    &&& row.git_branch == n.git_branch
    &&& row.git_commit_timestamp == n.git_commit_timestamp
    &&& row.git_commit_subject == n.git_commit_subject
    &&& opt_text(row.executable_sha256) == match n.executable_sha256 {
        Some(h) => Some(h@),
        None => None,
    }
    &&& row.model_asset_id@ == uuid_text(n.model_asset_id)
    &&& row.prompt_sha256@ == n.prompt_sha256@
    &&& row.input_token_count == n.input_token_count
    &&& row.output_token_count == n.output_token_count
    &&& row.prefill_tokens_per_sec == n.prefill_tokens_per_sec
    &&& row.decode_tokens_per_sec == n.decode_tokens_per_sec
    &&& row.exit_status@ == n.exit_status.text()
    &&& row.correctness_result@ == n.correctness_result.text()
    &&& opt_text(row.input_artifact_id) == opt_id_column(n.input_artifact_id)
    &&& opt_text(row.output_artifact_id) == opt_id_column(n.output_artifact_id)
    &&& row.output_preview == n.output_preview
    &&& opt_text(row.stdout_artifact_id) == opt_id_column(n.stdout_artifact_id)
    &&& opt_text(row.stderr_artifact_id) == opt_id_column(n.stderr_artifact_id)
    &&& opt_text(row.crash_artifact_id) == opt_id_column(n.crash_artifact_id)
    &&& row.error_summary == n.error_summary
}

/// The refusal of an internal Android run without its lab snapshot.
pub open spec fn incomplete_snapshot_message() -> Seq<char> {
    "an internal Android device must record the complete lab snapshot (BSP, SUMD driver, clocks, uptime, battery, temperatures, throttling)"@
}

/// An internal device whose Android snapshot is incomplete cannot be
/// stored.
pub open spec fn refused_for_storage(n: NewRun) -> bool {
    n.device_class == DeviceClass::Internal && (n.host matches HostState::Android(a)
        && !complete_lab_snapshot(a))
}

fn flag(b: bool) -> (v: i64)
    ensures
        v == flag_column(b),
{
    if b { 1 } else { 0 }
}

fn opt_flag(b: Option<bool>) -> (v: Option<i64>)
    ensures
        v == opt_flag_column(b),
{
    match b {
        Some(x) => Some(flag(x)),
        None => None,
    }
}

fn opt_id(id: Option<u128>) -> (t: Option<String>)
    ensures
        opt_text(t) == opt_id_column(id),
        opt_ids_read_back(t, id),
{
    match id {
        Some(v) => Some(uuid_to_text(v)),
        None => None,
    }
}

/// The row that storing `n` writes. An internal Android run whose
/// snapshot is incomplete is refused.
pub fn row_for_insert(n: &NewRun) -> (r: Result<RunRow, RunsError>)
    ensures
        match r {
            Ok(row) => !refused_for_storage(*n) && row_holds(*n, row),
            Err(e) => refused_for_storage(*n) && e.0@ == incomplete_snapshot_message(),
        },
{
    if n.device_class == DeviceClass::Internal {
        if let HostState::Android(a) = &n.host {
            if !a.is_complete_lab_snapshot() {
                return Err(RunsError(String::from_str(
                    "an internal Android device must record the complete lab snapshot (BSP, SUMD driver, clocks, uptime, battery, temperatures, throttling)",
                )));
            }
        }
    }
    let (platform, uptime, throttling, battery, initial, max) = match &n.host {
        HostState::Android(a) => (
            String::from_str("android"),
            a.uptime_seconds,
            opt_flag(a.thermal_throttling),
            opt_flag(a.battery_charging),
            a.initial_temperature_celsius,
            a.max_temperature_celsius,
        ),
        HostState::Linux(l) => (
            String::from_str("linux"),
            l.uptime_seconds,
            opt_flag(l.thermal_throttling),
            None,
            None,
            None,
        ),
    };
    let (bsp, sumd, gpu, mif, int_clock) = match &n.host {
        HostState::Android(a) => match &a.lab {
            Some(l) => (
                Some(l.bsp_version.clone()),
                Some(l.sumd_driver_version.clone()),
                Some(l.gpu_clock_mhz),
                Some(l.mif_clock_mhz),
                Some(l.int_clock_mhz),
            ),
            None => (None, None, None, None, None),
        },
        HostState::Linux(_) => (None, None, None, None, None),
    };
    let (os, kernel, cpu_model, cpu_count, memory, accelerator, driver) = match &n.host {
        HostState::Android(a) => (
            clone_opt(&a.os),
            clone_opt(&a.kernel),
            clone_opt(&a.soc),
            a.cpu_count,
            a.memory_bytes,
            clone_opt(&a.gpu),
            clone_opt(&a.gpu_driver),
        ),
        HostState::Linux(l) => (
            Some(l.os.clone()),
            Some(l.kernel.clone()),
            Some(l.cpu_model.clone()),
            l.cpu_count,
            l.memory_bytes,
            Some(l.accelerator.clone()),
            clone_opt(&l.accelerator_driver),
        ),
    };
    let executable = match &n.executable_sha256 {
        Some(h) => Some(String::from_str(h.as_str())),
        None => None,
    };
    Ok(RunRow {
        id: uuid_to_text(n.id),
        started_at: n.started_at,
        finished_at: n.finished_at,
        repetition: n.repetition,
        command_args: n.command_args_json.clone(),
        command_line: clone_opt(&n.command_line),
        input_parameters: n.input_parameters_json.clone(),
        env_vars: n.env_vars_json.clone(),
        env_allowlist_version: n.env_allowlist_version.clone(),
        collector_version: n.collector_version.clone(),
        platform,
        device_class: String::from_str(n.device_class.as_str()),
        device_serial: n.device_serial.clone(),
        device_model: clone_opt(&n.device_model),
        device_uptime_seconds: uptime,
        thermal_throttling: throttling,
        bsp_version: bsp,
        sumd_driver_version: sumd,
        battery_charging: battery,
        initial_temperature_celsius: initial,
        max_temperature_celsius: max,
        gpu_clock_mhz: gpu,
        mif_clock_mhz: mif,
        int_clock_mhz: int_clock,
        host_os: os,
        host_kernel: kernel,
        host_cpu_model: cpu_model,
        host_cpu_count: cpu_count,
        host_memory_bytes: memory,
        host_accelerator: accelerator,
        host_accelerator_driver: driver,
        git_commit_sha: n.git_commit_sha.clone(),
        git_dirty: flag(n.git_dirty),
        git_branch: clone_opt(&n.git_branch),
        git_commit_timestamp: n.git_commit_timestamp,
        git_commit_subject: clone_opt(&n.git_commit_subject),
        executable_sha256: executable,
        model_asset_id: uuid_to_text(n.model_asset_id),
        prompt_sha256: String::from_str(n.prompt_sha256.as_str()),
        input_token_count: n.input_token_count,
        output_token_count: n.output_token_count,
        prefill_tokens_per_sec: n.prefill_tokens_per_sec,
        decode_tokens_per_sec: n.decode_tokens_per_sec,
        exit_status: String::from_str(n.exit_status.as_str()),
        correctness_result: String::from_str(n.correctness_result.as_str()),
        input_artifact_id: opt_id(n.input_artifact_id),
        output_artifact_id: opt_id(n.output_artifact_id),
        output_preview: clone_opt(&n.output_preview),
        stdout_artifact_id: opt_id(n.stdout_artifact_id),
        stderr_artifact_id: opt_id(n.stderr_artifact_id),
        crash_artifact_id: opt_id(n.crash_artifact_id),
        error_summary: clone_opt(&n.error_summary),
    })
}

/// The refusal of a stored row missing a column its platform requires.
pub open spec fn missing_message(platform: Platform, column: Seq<char>) -> Seq<char> {
    "stored "@ + platform.text() + " run is missing "@ + column
}

/// The snapshot stored in `row`'s host columns: the platform column picks
/// the variant; an Android row with a BSP version carries the lab part and
/// must then hold every lab column; a Linux row must hold OS, kernel, CPU
/// model and accelerator.
pub open spec fn host_from_columns(row: RunRow) -> Result<HostState, Seq<char>> {
    match Platform::from_text(row.platform@) {
        None => Err("invalid stored platform: "@ + ("invalid platform: "@ + debug_quoted(row.platform@))),
        Some(Platform::Android) => {
            if row.bsp_version is Some && row.sumd_driver_version is None {
                Err(missing_message(Platform::Android, "sumd_driver_version"@))
            } else if row.bsp_version is Some && row.gpu_clock_mhz is None {
                Err(missing_message(Platform::Android, "gpu_clock_mhz"@))
            } else if row.bsp_version is Some && row.mif_clock_mhz is None {
                Err(missing_message(Platform::Android, "mif_clock_mhz"@))
            } else if row.bsp_version is Some && row.int_clock_mhz is None {
                Err(missing_message(Platform::Android, "int_clock_mhz"@))
            } else {
                Ok(
                    HostState::Android(
                        AndroidDeviceState {
                            os: row.host_os,
                            kernel: row.host_kernel,
                            soc: row.host_cpu_model,
                            cpu_count: row.host_cpu_count,
                            memory_bytes: row.host_memory_bytes,
                            gpu: row.host_accelerator,
                            gpu_driver: row.host_accelerator_driver,
                            uptime_seconds: row.device_uptime_seconds,
                            battery_charging: opt_flag_read(row.battery_charging),
                            initial_temperature_celsius: row.initial_temperature_celsius,
                            max_temperature_celsius: row.max_temperature_celsius,
                            thermal_throttling: opt_flag_read(row.thermal_throttling),
                            lab: if row.bsp_version is Some {
                                Some(
                                    AndroidLabConfig {
                                        bsp_version: row.bsp_version->0,
                                        sumd_driver_version: row.sumd_driver_version->0,
                                        gpu_clock_mhz: row.gpu_clock_mhz->0,
                                        mif_clock_mhz: row.mif_clock_mhz->0,
                                        int_clock_mhz: row.int_clock_mhz->0,
                                    },
                                )
                            } else {
                                None
                            },
                        },
                    ),
                )
            }
        },
        Some(Platform::Linux) => {
            if row.host_os is None {
                Err(missing_message(Platform::Linux, "host_os"@))
            } else if row.host_kernel is None {
                Err(missing_message(Platform::Linux, "host_kernel"@))
            } else if row.host_cpu_model is None {
                Err(missing_message(Platform::Linux, "host_cpu_model"@))
            } else if row.host_accelerator is None {
                Err(missing_message(Platform::Linux, "host_accelerator"@))
            } else {
                Ok(
                    HostState::Linux(
                        LinuxHostState {
                            os: row.host_os->0,
                            kernel: row.host_kernel->0,
                            cpu_model: row.host_cpu_model->0,
                            cpu_count: row.host_cpu_count,
                            memory_bytes: row.host_memory_bytes,
                            accelerator: row.host_accelerator->0,
                            accelerator_driver: row.host_accelerator_driver,
                            uptime_seconds: row.device_uptime_seconds,
                            thermal_throttling: opt_flag_read(row.thermal_throttling),
                        },
                    ),
                )
            }
        },
    }
}

/// The message refusing a stored optional artifact identifier.
pub open spec fn artifact_id_violation(field: Seq<char>, id: Option<String>) -> Option<Seq<char>> {
    match id {
        Some(t) => match uuid_reading(t@) {
            Err(e) => Some("invalid "@ + field + ": "@ + e),
            Ok(_) => None,
        },
        None => None,
    }
}

/// The first inconsistency found reading `row`, in the order it is read:
/// host columns, id, device class, executable digest, model id, prompt
/// digest, exit status, correctness result, artifact identifiers.
pub open spec fn row_violation(row: RunRow) -> Option<Seq<char>> {
    if host_from_columns(row) is Err {
        Some(host_from_columns(row)->Err_0)
    } else if uuid_reading(row.id@) is Err {
        Some("invalid run id: "@ + uuid_reading(row.id@)->Err_0)
    } else if DeviceClass::from_text(row.device_class@) is None {
        Some("invalid stored device_class: "@ + ("invalid device class: "@ + debug_quoted(row.device_class@)))
    } else if row.executable_sha256 is Some && !is_sha256_hex(row.executable_sha256->0@) {
        Some(
            "invalid stored executable_sha256: "@ + (
            "not a 64-character lowercase hexadecimal SHA-256 digest: "@ + debug_quoted(row.executable_sha256->0@)),
        )
    } else if uuid_reading(row.model_asset_id@) is Err {
        Some("invalid stored model_asset_id: "@ + uuid_reading(row.model_asset_id@)->Err_0)
    } else if !is_sha256_hex(row.prompt_sha256@) {
        Some(
            "invalid stored prompt_sha256: "@ + (
            "not a 64-character lowercase hexadecimal SHA-256 digest: "@ + debug_quoted(row.prompt_sha256@)),
        )
    } else if ExitStatus::from_text(row.exit_status@) is None {
        Some("invalid stored exit_status: "@ + ("invalid exit status: "@ + debug_quoted(row.exit_status@)))
    } else if CorrectnessResult::from_text(row.correctness_result@) is None {
        Some(
            "invalid stored correctness_result: "@ + ("invalid correctness result: "@ + debug_quoted(
                row.correctness_result@,
            )),
        )
    } else if artifact_id_violation("input_artifact_id"@, row.input_artifact_id) is Some {
        artifact_id_violation("input_artifact_id"@, row.input_artifact_id)
    } else if artifact_id_violation("output_artifact_id"@, row.output_artifact_id) is Some {
        artifact_id_violation("output_artifact_id"@, row.output_artifact_id)
    } else if artifact_id_violation("stdout_artifact_id"@, row.stdout_artifact_id) is Some {
        artifact_id_violation("stdout_artifact_id"@, row.stdout_artifact_id)
    } else if artifact_id_violation("stderr_artifact_id"@, row.stderr_artifact_id) is Some {
        artifact_id_violation("stderr_artifact_id"@, row.stderr_artifact_id)
    } else {
        artifact_id_violation("crash_artifact_id"@, row.crash_artifact_id)
    }
}

/// An optional stored identifier read back.
pub open spec fn opt_id_read(id: Option<String>) -> Option<u128> {
    match id {
        Some(t) => Some(uuid_reading(t@)->Ok_0),
        None => None,
    }
}

/// `run` is what reading the consistent row `row` gives.
pub open spec fn read_from(row: RunRow, run: Run) -> bool {
    &&& Ok::<u128, Seq<char>>(run.id) == uuid_reading(row.id@)
    &&& run.started_at == row.started_at
    &&& run.finished_at == row.finished_at
    &&& run.repetition == row.repetition
    &&& run.command_args_json == row.command_args
    &&& run.command_line == row.command_line
    &&& run.input_parameters_json == row.input_parameters
    &&& run.env_vars_json == row.env_vars
    &&& run.env_allowlist_version == row.env_allowlist_version
    &&& run.collector_version == row.collector_version
    &&& Some(run.device_class) == DeviceClass::from_text(row.device_class@)
    &&& run.device_serial == row.device_serial
    &&& run.device_model == row.device_model
    &&& Ok::<HostState, Seq<char>>(run.host) == host_from_columns(row)
    &&& run.git_commit_sha == row.git_commit_sha
    &&& run.git_dirty == (row.git_dirty != 0)
    &&& run.git_branch == row.git_branch
    &&& run.git_commit_timestamp == row.git_commit_timestamp
    &&& run.git_commit_subject == row.git_commit_subject
    &&& match run.executable_sha256 {
        Some(h) => row.executable_sha256 is Some && h@ == row.executable_sha256->0@,
        None => row.executable_sha256 is None,
    }
    &&& Ok::<u128, Seq<char>>(run.model_asset_id) == uuid_reading(row.model_asset_id@)
    &&& run.prompt_sha256@ == row.prompt_sha256@
    &&& run.input_token_count == row.input_token_count
    &&& run.output_token_count == row.output_token_count
    &&& run.prefill_tokens_per_sec == row.prefill_tokens_per_sec
    &&& run.decode_tokens_per_sec == row.decode_tokens_per_sec
    &&& Some(run.exit_status) == ExitStatus::from_text(row.exit_status@)
    &&& Some(run.correctness_result) == CorrectnessResult::from_text(row.correctness_result@)
    &&& run.input_artifact_id == opt_id_read(row.input_artifact_id)
    &&& run.output_artifact_id == opt_id_read(row.output_artifact_id)
    &&& run.output_preview == row.output_preview
    &&& run.stdout_artifact_id == opt_id_read(row.stdout_artifact_id)
    &&& run.stderr_artifact_id == opt_id_read(row.stderr_artifact_id)
    &&& run.crash_artifact_id == opt_id_read(row.crash_artifact_id)
    &&& run.error_summary == row.error_summary
}

pub(crate) fn text_of(prefix: &str, message: &str) -> (e: RunsError)
    ensures
        e.0@ == prefix@ + message@,
{
    let mut m = String::from_str(prefix);
    m.append(message);
    RunsError(m)
}

fn missing(platform: Platform, column: &str) -> (e: RunsError)
    ensures
        e.0@ == missing_message(platform, column@),
{
    let mut m = String::from_str("stored ");
    m.append(platform.as_str());
    m.append(" run is missing ");
    m.append(column);
    RunsError(m)
}

pub(crate) fn read_flag(v: Option<i64>) -> (b: Option<bool>)
    ensures
        b == opt_flag_read(v),
{
    match v {
        Some(x) => Some(x != 0),
        None => None,
    }
}

/// Reconstructs the platform-specific snapshot from the flat host columns.
pub fn host_state_from_columns(row: &RunRow) -> (r: Result<HostState, RunsError>)
    ensures
        match r {
            Ok(h) => host_from_columns(*row) == Ok::<HostState, Seq<char>>(h),
            Err(e) => host_from_columns(*row) == Err::<HostState, Seq<char>>(e.0@),
        },
{
    let platform = match Platform::parse(row.platform.as_str()) {
        Ok(p) => p,
        Err(e) => return Err(text_of("invalid stored platform: ", e.0.as_str())),
    };
    match platform {
        Platform::Android => {
            let lab = match &row.bsp_version {
                Some(bsp) => {
                    let sumd = match &row.sumd_driver_version {
                        Some(v) => v.clone(),
                        None => return Err(missing(platform, "sumd_driver_version")),
                    };
                    let gpu = match row.gpu_clock_mhz {
                        Some(v) => v,
                        None => return Err(missing(platform, "gpu_clock_mhz")),
                    };
                    let mif = match row.mif_clock_mhz {
                        Some(v) => v,
                        None => return Err(missing(platform, "mif_clock_mhz")),
                    };
                    let int_clock = match row.int_clock_mhz {
                        Some(v) => v,
                        None => return Err(missing(platform, "int_clock_mhz")),
                    };
                    Some(AndroidLabConfig {
                        bsp_version: bsp.clone(),
                        sumd_driver_version: sumd,
                        gpu_clock_mhz: gpu,
                        mif_clock_mhz: mif,
                        int_clock_mhz: int_clock,
                    })
                },
                None => None,
            };
            Ok(HostState::Android(AndroidDeviceState {
                os: clone_opt(&row.host_os),
                kernel: clone_opt(&row.host_kernel),
                soc: clone_opt(&row.host_cpu_model),
                cpu_count: row.host_cpu_count,
                memory_bytes: row.host_memory_bytes,
                gpu: clone_opt(&row.host_accelerator),
                gpu_driver: clone_opt(&row.host_accelerator_driver),
                uptime_seconds: row.device_uptime_seconds,
                battery_charging: read_flag(row.battery_charging),
                initial_temperature_celsius: row.initial_temperature_celsius,
                max_temperature_celsius: row.max_temperature_celsius,
                thermal_throttling: read_flag(row.thermal_throttling),
                lab,
            }))
        },
        Platform::Linux => {
            let os = match &row.host_os {
                Some(v) => v.clone(),
                None => return Err(missing(platform, "host_os")),
            };
            let kernel = match &row.host_kernel {
                Some(v) => v.clone(),
                None => return Err(missing(platform, "host_kernel")),
            };
            let cpu_model = match &row.host_cpu_model {
                Some(v) => v.clone(),
                None => return Err(missing(platform, "host_cpu_model")),
            };
            let accelerator = match &row.host_accelerator {
                Some(v) => v.clone(),
                None => return Err(missing(platform, "host_accelerator")),
            };
            Ok(HostState::Linux(LinuxHostState {
                os,
                kernel,
                cpu_model,
                cpu_count: row.host_cpu_count,
                memory_bytes: row.host_memory_bytes,
                accelerator,
                accelerator_driver: clone_opt(&row.host_accelerator_driver),
                uptime_seconds: row.device_uptime_seconds,
                thermal_throttling: read_flag(row.thermal_throttling),
            }))
        },
    }
}

fn artifact_id(field: &str, id: &Option<String>) -> (r: Result<Option<u128>, RunsError>)
    ensures
        match r {
            Ok(v) => artifact_id_violation(field@, *id) is None && v == opt_id_read(*id),
            Err(e) => artifact_id_violation(field@, *id) == Some(e.0@),
        },
{
    match id {
        Some(t) => match uuid_from_text(t.as_str()) {
            Ok(v) => Ok(Some(v)),
            Err(e) => {
                let mut m = String::from_str("invalid ");
                m.append(field);
                m.append(": ");
                m.append(e.as_str());
                Err(RunsError(m))
            },
        },
        None => Ok(None),
    }
}

/// Reads a stored row back into a run, reporting the first inconsistency.
pub fn run_from_row(row: &RunRow) -> (r: Result<Run, RunsError>)
    ensures
        match r {
            Ok(run) => row_violation(*row) is None && read_from(*row, run),
            Err(e) => row_violation(*row) == Some(e.0@),
        },
{
    let host = host_state_from_columns(row)?;
    let id = match uuid_from_text(row.id.as_str()) {
        Ok(v) => v,
        Err(e) => return Err(text_of("invalid run id: ", e.as_str())),
    };
    let device_class = match DeviceClass::parse(row.device_class.as_str()) {
        Ok(v) => v,
        Err(e) => return Err(text_of("invalid stored device_class: ", e.0.as_str())),
    };
    let executable_sha256 = match &row.executable_sha256 {
        Some(t) => match Sha256Hex::parse(t.clone()) {
            Ok(h) => Some(h),
            Err(e) => return Err(text_of("invalid stored executable_sha256: ", e.0.as_str())),
        },
        None => None,
    };
    let model_asset_id = match uuid_from_text(row.model_asset_id.as_str()) {
        Ok(v) => v,
        Err(e) => return Err(text_of("invalid stored model_asset_id: ", e.as_str())),
    };
    let prompt_sha256 = match Sha256Hex::parse(row.prompt_sha256.clone()) {
        Ok(h) => h,
        Err(e) => return Err(text_of("invalid stored prompt_sha256: ", e.0.as_str())),
    };
    let exit_status = match ExitStatus::parse(row.exit_status.as_str()) {
        Ok(v) => v,
        Err(e) => return Err(text_of("invalid stored exit_status: ", e.0.as_str())),
    };
    let correctness_result = match CorrectnessResult::parse(row.correctness_result.as_str()) {
        Ok(v) => v,
        Err(e) => return Err(text_of("invalid stored correctness_result: ", e.0.as_str())),
    };
    let input_artifact_id = artifact_id("input_artifact_id", &row.input_artifact_id)?;
    let output_artifact_id = artifact_id("output_artifact_id", &row.output_artifact_id)?;
    let stdout_artifact_id = artifact_id("stdout_artifact_id", &row.stdout_artifact_id)?;
    let stderr_artifact_id = artifact_id("stderr_artifact_id", &row.stderr_artifact_id)?;
    let crash_artifact_id = artifact_id("crash_artifact_id", &row.crash_artifact_id)?;
    Ok(Run {
        id,
        started_at: row.started_at,
        finished_at: row.finished_at,
        repetition: row.repetition,
        command_args_json: row.command_args.clone(),
        command_line: clone_opt(&row.command_line),
        input_parameters_json: row.input_parameters.clone(),
        env_vars_json: row.env_vars.clone(),
        env_allowlist_version: row.env_allowlist_version.clone(),
        collector_version: row.collector_version.clone(),
        device_class,
        device_serial: row.device_serial.clone(),
        device_model: clone_opt(&row.device_model),
        host,
        git_commit_sha: row.git_commit_sha.clone(),
        git_dirty: row.git_dirty != 0,
        git_branch: clone_opt(&row.git_branch),
        git_commit_timestamp: row.git_commit_timestamp,
        git_commit_subject: clone_opt(&row.git_commit_subject),
        executable_sha256,
        model_asset_id,
        prompt_sha256,
        input_token_count: row.input_token_count,
        output_token_count: row.output_token_count,
        prefill_tokens_per_sec: row.prefill_tokens_per_sec,
        decode_tokens_per_sec: row.decode_tokens_per_sec,
        exit_status,
        correctness_result,
        input_artifact_id,
        output_artifact_id,
        output_preview: clone_opt(&row.output_preview),
        stdout_artifact_id,
        stderr_artifact_id,
        crash_artifact_id,
        error_summary: clone_opt(&row.error_summary),
    })
}

/// `run` carries every field of `n`.
pub open spec fn same_run(n: NewRun, run: Run) -> bool {
    &&& run.id == n.id
    &&& run.started_at == n.started_at
    &&& run.finished_at == n.finished_at
    &&& run.repetition == n.repetition
    &&& run.command_args_json == n.command_args_json
    &&& run.command_line == n.command_line
    &&& run.input_parameters_json == n.input_parameters_json
    &&& run.env_vars_json == n.env_vars_json
    &&& run.env_allowlist_version == n.env_allowlist_version
    &&& run.collector_version == n.collector_version
    &&& run.device_class == n.device_class
    &&& run.device_serial == n.device_serial
    &&& run.device_model == n.device_model
    &&& run.host == n.host
    &&& run.git_commit_sha == n.git_commit_sha
    &&& run.git_dirty == n.git_dirty
    &&& run.git_branch == n.git_branch
    &&& run.git_commit_timestamp == n.git_commit_timestamp
    &&& run.git_commit_subject == n.git_commit_subject
    &&& match (run.executable_sha256, n.executable_sha256) {
        (Some(a), Some(b)) => a@ == b@,
        (None, None) => true,
        _ => false,
    }
    &&& run.model_asset_id == n.model_asset_id
    &&& run.prompt_sha256@ == n.prompt_sha256@
    &&& run.input_token_count == n.input_token_count
    &&& run.output_token_count == n.output_token_count
    &&& run.prefill_tokens_per_sec == n.prefill_tokens_per_sec
    &&& run.decode_tokens_per_sec == n.decode_tokens_per_sec
    &&& run.exit_status == n.exit_status
    &&& run.correctness_result == n.correctness_result
    &&& run.input_artifact_id == n.input_artifact_id
    &&& run.output_artifact_id == n.output_artifact_id
    &&& run.output_preview == n.output_preview
    &&& run.stdout_artifact_id == n.stdout_artifact_id
    &&& run.stderr_artifact_id == n.stderr_artifact_id
    &&& run.crash_artifact_id == n.crash_artifact_id
    &&& run.error_summary == n.error_summary
}

/// The snapshot stored in the host columns written for `h` reads back as
/// `h`, for either platform.
pub proof fn lemma_host_columns_read_back(h: HostState, row: RunRow)
    requires
        host_columns_hold(h, row),
    ensures
        host_from_columns(row) == Ok::<HostState, Seq<char>>(h),
{
    reveal_strlit("android");
    reveal_strlit("linux");
    match h {
        HostState::Android(a) => {
            assert(Platform::from_text(row.platform@) == Some(Platform::Android));
            assert(opt_flag_read(opt_flag_column(a.thermal_throttling)) == a.thermal_throttling);
            assert(opt_flag_read(opt_flag_column(a.battery_charging)) == a.battery_charging);
        },
        HostState::Linux(l) => {
            assert("linux"@.len() != "android"@.len());
            assert(Platform::from_text(row.platform@) == Some(Platform::Linux));
            assert(opt_flag_read(opt_flag_column(l.thermal_throttling)) == l.thermal_throttling);
        },
    }
}

proof fn lemma_exit_status_text(e: ExitStatus)
    ensures
        ExitStatus::from_text(e.text()) == Some(e),
{
    reveal_strlit("succeeded");
    reveal_strlit("crashed");
    reveal_strlit("timed_out");
    reveal_strlit("cancelled");
    reveal_strlit("infrastructure_error");
    assert("succeeded"@.len() == 9 && "crashed"@.len() == 7 && "timed_out"@.len() == 9);
    assert("cancelled"@.len() == 9 && "infrastructure_error"@.len() == 20);
    assert("succeeded"@[0] != "timed_out"@[0] && "succeeded"@[0] != "cancelled"@[0]);
    assert("timed_out"@[0] != "cancelled"@[0]);
}

proof fn lemma_correctness_text(c: CorrectnessResult)
    ensures
        CorrectnessResult::from_text(c.text()) == Some(c),
{
    reveal_strlit("passed");
    reveal_strlit("failed");
    reveal_strlit("not_checked");
    reveal_strlit("validator_error");
    assert("passed"@.len() == 6 && "failed"@.len() == 6 && "not_checked"@.len() == 11);
    assert("validator_error"@.len() == 15 && "passed"@[0] != "failed"@[0]);
}

pub(crate) proof fn lemma_device_class_text(c: DeviceClass)
    ensures
        DeviceClass::from_text(c.text()) == Some(c),
{
    reveal_strlit("internal");
    reveal_strlit("external");
    assert("internal"@[0] != "external"@[0]);
}

/// A stored run reads back as the run that was stored: whatever row
/// storing `n` writes is consistent, and reading it gives back every field
/// of `n` (digests by their text).
pub proof fn lemma_stored_run_reads_back(n: NewRun, row: RunRow, run: Run)
    requires
        row_holds(n, row),
        is_sha256_hex(n.prompt_sha256@),
        n.executable_sha256 matches Some(h) ==> is_sha256_hex(h@),
    ensures
        row_violation(row) is None,
        read_from(row, run) ==> same_run(n, run),
{
    lemma_host_columns_read_back(n.host, row);
    lemma_exit_status_text(n.exit_status);
    lemma_correctness_text(n.correctness_result);
    lemma_device_class_text(n.device_class);
    if read_from(row, run) {
        assert(run.git_dirty == n.git_dirty);
    }
}

/// A failure connecting to or migrating the database.
#[derive(Debug)]
pub struct DbError(pub String);

impl DbError {
    /// The failure's message.
    pub fn message(&self) -> (m: &str)
        ensures
            m@ == self.0@,
    {
        self.0.as_str()
    }
}

} // verus!
