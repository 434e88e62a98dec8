//! Run submission: turns a submitted run record into a [`NewRun`],
//! reporting the first violated rule by field. The request mirrors the
//! flat run response; enumerated fields arrive as strings and are parsed
//! here, so an unknown value is reported naming its field.

use vstd::prelude::*;
use crate::json::JsonShape;
use crate::domain::{
    CorrectnessResult, DeviceClass, ExitStatus, Platform, Sha256Hex,
    canonical_outcome, canonicalize, command_args_outcome, env_vars_outcome, is_sha256_hex,
    validate_command_args, validate_env_vars,
};
use crate::float64::{Float64, finite_non_negative};
use crate::host_rules::{HostInput, clone_opt, host_state, host_state_outcome};
use crate::time::Timestamp;
use crate::runs::{HostState, NewRun, opt_view, output_preview, preview_of};
use crate::text::{debug_quoted, is_blank, is_blank_text};

verus! {

/// One complete run attempt as a collector submits it. Field names, units
/// and enumerations match the run response; the JSON fields hold the
/// submitted JSON text.
#[derive(Debug)]
pub struct CreateRunRequest {
    pub id: u128,
    pub started_at: Timestamp,
    pub finished_at: Option<Timestamp>,
    pub repetition: i64,
    /// The command-line argument array, as JSON text.
    pub command_args: String,
    pub command_line: Option<String>,
    /// Caller-defined input parameters, as JSON text (an object).
    pub input_parameters: String,
    /// Captured environment-variable allowlist, as JSON text (an object).
    pub env_vars: String,
    pub env_allowlist_version: String,
    pub collector_version: String,
    pub platform: String,
    pub device_class: String,
    pub device_serial: String,
    pub device_model: Option<String>,
    pub device_uptime_seconds: Option<i64>,
    pub thermal_throttling: Option<bool>,
    pub bsp_version: Option<String>,
    pub sumd_driver_version: Option<String>,
    pub battery_charging: Option<bool>,
    pub initial_temperature_celsius: Option<Float64>,
    pub max_temperature_celsius: Option<Float64>,
    pub gpu_clock_mhz: Option<i64>,
    pub mif_clock_mhz: Option<i64>,
    pub int_clock_mhz: Option<i64>,
    pub host_os: Option<String>,
    pub host_kernel: Option<String>,
    pub host_cpu_model: Option<String>,
    pub host_cpu_count: Option<i64>,
    pub host_memory_bytes: Option<i64>,
    pub host_accelerator: Option<String>,
    pub host_accelerator_driver: Option<String>,
    pub git_commit_sha: String,
    pub git_dirty: bool,
    pub git_branch: Option<String>,
    pub git_commit_timestamp: Option<Timestamp>,
    pub git_commit_subject: Option<String>,
    pub executable_sha256: Option<String>,
    pub model_asset_id: u128,
    pub prompt_sha256: String,
    pub input_token_count: i64,
    pub output_token_count: i64,
    pub prefill_tokens_per_sec: Float64,
    pub decode_tokens_per_sec: Option<Float64>,
    pub exit_status: String,
    pub correctness_result: String,
    pub input_artifact_id: Option<u128>,
    pub output_artifact_id: Option<u128>,
    pub output_preview: Option<String>,
    pub stdout_artifact_id: Option<u128>,
    pub stderr_artifact_id: Option<u128>,
    pub crash_artifact_id: Option<u128>,
    pub error_summary: Option<String>,
}

/// A validation failure naming the request field it concerns.
#[derive(Debug, PartialEq, Eq)]
pub struct FieldError {
    pub field: &'static str,
    pub message: String,
}

impl FieldError {
    /// The field name and message, as text.
    pub open spec fn views(self) -> (Seq<char>, Seq<char>) {
        (self.field@, self.message@)
    }
}

fn field_err(field: &'static str, message: &str) -> (e: FieldError)
    ensures
        e.views() == (field@, message@),
{
    FieldError { field, message: String::from_str(message) }
}

/// The host fields of a request.
pub open spec fn host_input_of(r: CreateRunRequest) -> HostInput {
    HostInput {
        host_os: r.host_os,
        host_kernel: r.host_kernel,
        host_cpu_model: r.host_cpu_model,
        host_cpu_count: r.host_cpu_count,
        host_memory_bytes: r.host_memory_bytes,
        host_accelerator: r.host_accelerator,
        host_accelerator_driver: r.host_accelerator_driver,
        device_uptime_seconds: r.device_uptime_seconds,
        thermal_throttling: r.thermal_throttling,
        bsp_version: r.bsp_version,
        sumd_driver_version: r.sumd_driver_version,
        gpu_clock_mhz: r.gpu_clock_mhz,
        mif_clock_mhz: r.mif_clock_mhz,
        int_clock_mhz: r.int_clock_mhz,
        battery_charging: r.battery_charging,
        initial_temperature_celsius: r.initial_temperature_celsius,
        max_temperature_celsius: r.max_temperature_celsius,
    }
}

fn host_input(r: &CreateRunRequest) -> (h: HostInput)
    ensures
        h == host_input_of(*r),
{
    HostInput {
        host_os: clone_opt(&r.host_os),
        host_kernel: clone_opt(&r.host_kernel),
        host_cpu_model: clone_opt(&r.host_cpu_model),
        host_cpu_count: r.host_cpu_count,
        host_memory_bytes: r.host_memory_bytes,
        host_accelerator: clone_opt(&r.host_accelerator),
        host_accelerator_driver: clone_opt(&r.host_accelerator_driver),
        device_uptime_seconds: r.device_uptime_seconds,
        thermal_throttling: r.thermal_throttling,
        bsp_version: clone_opt(&r.bsp_version),
        sumd_driver_version: clone_opt(&r.sumd_driver_version),
        gpu_clock_mhz: r.gpu_clock_mhz,
        mif_clock_mhz: r.mif_clock_mhz,
        int_clock_mhz: r.int_clock_mhz,
        battery_charging: r.battery_charging,
        initial_temperature_celsius: r.initial_temperature_celsius,
        max_temperature_celsius: r.max_temperature_celsius,
    }
}

/// The message rejecting a value that is not a SHA-256 digest.
pub open spec fn sha_message(raw: Seq<char>) -> Seq<char> {
    "not a 64-character lowercase hexadecimal SHA-256 digest: "@ + debug_quoted(raw)
}

/// The message rejecting a throughput that is negative, NaN or infinite.
pub open spec fn throughput_message() -> Seq<char> {
    "must be a finite, non-negative number"@
}

/// The first rule a request violates, as (field, message), in the order
/// they are checked; `None` when the request is acceptable.
pub open spec fn submission_violation(r: CreateRunRequest) -> Option<(Seq<char>, Seq<char>)> {
    if Platform::from_text(r.platform@) is None {
        Some(("platform"@, "invalid platform: "@ + debug_quoted(r.platform@)))
    } else if DeviceClass::from_text(r.device_class@) is None {
        Some(("device_class"@, "invalid device class: "@ + debug_quoted(r.device_class@)))
    } else if ExitStatus::from_text(r.exit_status@) is None {
        Some(("exit_status"@, "invalid exit status: "@ + debug_quoted(r.exit_status@)))
    } else if CorrectnessResult::from_text(r.correctness_result@) is None {
        Some(("correctness_result"@, "invalid correctness result: "@ + debug_quoted(r.correctness_result@)))
    } else if r.repetition < 0 {
        Some(("repetition"@, "must not be negative"@))
    } else if command_args_outcome(r.command_args@) is Err {
        Some(("command_args"@, command_args_outcome(r.command_args@)->Err_0))
    } else if canonical_outcome(r.input_parameters@) is Err {
        Some(("input_parameters"@, canonical_outcome(r.input_parameters@)->Err_0))
    } else if !(canonical_outcome(r.input_parameters@) matches Ok((JsonShape::Object, _))) {
        Some(("input_parameters"@, "must be a JSON object"@))
    } else if env_vars_outcome(r.env_vars@) is Err {
        Some(("env_vars"@, env_vars_outcome(r.env_vars@)->Err_0))
    } else if is_blank_text(r.device_serial@) {
        Some(("device_serial"@, "must not be empty"@))
    } else if is_blank_text(r.git_commit_sha@) {
        Some(("git_commit_sha"@, "must not be empty"@))
    } else if host_state_outcome(
        host_input_of(r),
        Platform::from_text(r.platform@)->0,
        DeviceClass::from_text(r.device_class@)->0,
    ) is Err {
        Some(
            host_state_outcome(
                host_input_of(r),
                Platform::from_text(r.platform@)->0,
                DeviceClass::from_text(r.device_class@)->0,
            )->Err_0,
        )
    } else if r.executable_sha256 is Some && !is_sha256_hex(r.executable_sha256->0@) {
        Some(("executable_sha256"@, sha_message(r.executable_sha256->0@)))
    } else if !is_sha256_hex(r.prompt_sha256@) {
        Some(("prompt_sha256"@, sha_message(r.prompt_sha256@)))
    } else if r.input_token_count < 0 {
        Some(("input_token_count"@, "must not be negative"@))
    } else if r.output_token_count < 0 {
        Some(("output_token_count"@, "must not be negative"@))
    } else if !finite_non_negative(r.prefill_tokens_per_sec.bits) {
        Some(("prefill_tokens_per_sec"@, throughput_message()))
    } else if r.decode_tokens_per_sec matches Some(d) && !finite_non_negative(d.bits) {
        Some(("decode_tokens_per_sec"@, throughput_message()))
    } else {
        None
    }
}

/// `run` is the record built from an acceptable request `r`: enumerations
/// parsed, JSON canonical, the host snapshot built by the host rules, the
/// output preview truncated to `preview_length` characters, and every
/// other field carried over unchanged.
pub open spec fn built_from(r: CreateRunRequest, preview_length: nat, run: NewRun) -> bool {
    &&& run.id == r.id
    &&& run.started_at == r.started_at
    &&& run.finished_at == r.finished_at
    &&& run.repetition == r.repetition
    &&& command_args_outcome(r.command_args@) == Ok::<Seq<char>, Seq<char>>(run.command_args_json@)
    &&& run.command_line == r.command_line
    &&& canonical_outcome(r.input_parameters@) == Ok::<(JsonShape, Seq<char>), Seq<char>>(
        (JsonShape::Object, run.input_parameters_json@),
    )
    &&& env_vars_outcome(r.env_vars@) == Ok::<Seq<char>, Seq<char>>(run.env_vars_json@)
    &&& run.env_allowlist_version == r.env_allowlist_version
    &&& run.collector_version == r.collector_version
    &&& Some(run.device_class) == DeviceClass::from_text(r.device_class@)
    &&& run.device_serial == r.device_serial
    &&& run.device_model == r.device_model
    &&& host_state_outcome(
        host_input_of(r),
        Platform::from_text(r.platform@)->0,
        run.device_class,
    ) == Ok::<HostState, (Seq<char>, Seq<char>)>(run.host)
    &&& run.git_commit_sha == r.git_commit_sha
    &&& run.git_dirty == r.git_dirty
    &&& run.git_branch == r.git_branch
    &&& run.git_commit_timestamp == r.git_commit_timestamp
    &&& run.git_commit_subject == r.git_commit_subject
    &&& match (run.executable_sha256, r.executable_sha256) {
        (Some(h), Some(x)) => h@ == x@,
        (None, None) => true,
        _ => false,
    }
    &&& run.model_asset_id == r.model_asset_id
    &&& run.prompt_sha256@ == r.prompt_sha256@
    &&& run.input_token_count == r.input_token_count
    &&& run.output_token_count == r.output_token_count
    &&& run.prefill_tokens_per_sec == r.prefill_tokens_per_sec
    &&& run.decode_tokens_per_sec == r.decode_tokens_per_sec
    &&& Some(run.exit_status) == ExitStatus::from_text(r.exit_status@)
    &&& Some(run.correctness_result) == CorrectnessResult::from_text(r.correctness_result@)
    &&& run.input_artifact_id == r.input_artifact_id
    &&& run.output_artifact_id == r.output_artifact_id
    &&& opt_view(run.output_preview) == match r.output_preview {
        Some(p) => Some(preview_of(p@, preview_length)),
        None => None,
    }
    &&& run.stdout_artifact_id == r.stdout_artifact_id
    &&& run.stderr_artifact_id == r.stderr_artifact_id
    &&& run.crash_artifact_id == r.crash_artifact_id
    &&& run.error_summary == r.error_summary
}

fn from_invalid(field: &'static str, e: crate::domain::InvalidValue) -> (f: FieldError)
    ensures
        f.views() == (field@, e.0@),
{
    FieldError { field, message: e.0 }
}

pub fn sha(field: &'static str, raw: &String) -> (r: Result<Sha256Hex, FieldError>)
    ensures
        match r {
            Ok(h) => is_sha256_hex(raw@) && h@ == raw@,
            Err(e) => !is_sha256_hex(raw@) && e.views() == (field@, sha_message(raw@)),
        },
{
    match Sha256Hex::parse(raw.clone()) {
        Ok(h) => Ok(h),
        Err(e) => Err(from_invalid(field, e)),
    }
}

fn non_negative(field: &'static str, value: i64) -> (r: Result<i64, FieldError>)
    ensures
        match r {
            Ok(v) => value >= 0 && v == value,
            Err(e) => value < 0 && e.views() == (field@, "must not be negative"@),
        },
{
    if value < 0 {
        Err(field_err(field, "must not be negative"))
    } else {
        Ok(value)
    }
}

fn non_negative_f64(field: &'static str, value: Float64) -> (r: Result<Float64, FieldError>)
    ensures
        match r {
            Ok(v) => finite_non_negative(value.bits) && v == value,
            Err(e) => !finite_non_negative(value.bits) && e.views() == (field@, throughput_message()),
        },
{
    if !value.is_finite_non_negative() {
        Err(field_err(field, "must be a finite, non-negative number"))
    } else {
        Ok(value)
    }
}

/// Converts a submitted request into the storage type, reporting the first
/// rule violated by field. Reference existence is checked separately (it
/// needs the database).
pub fn to_new_run(req: &CreateRunRequest, preview_length: usize) -> (r: Result<NewRun, FieldError>)
    ensures
        match r {
            Ok(run) => submission_violation(*req) is None && built_from(*req, preview_length as nat, run),
            Err(e) => submission_violation(*req) == Some(e.views()),
        },
{
    let platform = match Platform::parse(req.platform.as_str()) {
        Ok(p) => p,
        Err(e) => return Err(from_invalid("platform", e)),
    };
    let device_class = match DeviceClass::parse(req.device_class.as_str()) {
        Ok(c) => c,
        Err(e) => return Err(from_invalid("device_class", e)),
    };
    let exit_status = match ExitStatus::parse(req.exit_status.as_str()) {
        Ok(s) => s,
        Err(e) => return Err(from_invalid("exit_status", e)),
    };
    let correctness_result = match CorrectnessResult::parse(req.correctness_result.as_str()) {
        Ok(c) => c,
        Err(e) => return Err(from_invalid("correctness_result", e)),
    };
    let repetition = non_negative("repetition", req.repetition)?;
    let command_args_json = match validate_command_args(req.command_args.as_str()) {
        Ok(t) => t,
        Err(e) => return Err(from_invalid("command_args", e)),
    };
    let input_parameters_json = match canonicalize(req.input_parameters.as_str()) {
        Err(e) => return Err(from_invalid("input_parameters", e)),
        Ok((shape, text)) => match shape {
            JsonShape::Object => text,
            _ => return Err(field_err("input_parameters", "must be a JSON object")),
        },
    };
    let env_vars_json = match validate_env_vars(req.env_vars.as_str()) {
        Ok(t) => t,
        Err(e) => return Err(from_invalid("env_vars", e)),
    };
    if is_blank(req.device_serial.as_str()) {
        return Err(field_err("device_serial", "must not be empty"));
    }
    if is_blank(req.git_commit_sha.as_str()) {
        return Err(field_err("git_commit_sha", "must not be empty"));
    }
    let hin = host_input(req);
    let host = match host_state(&hin, platform, device_class) {
        Ok(h) => h,
        Err(e) => return Err(FieldError { field: e.field, message: e.message }),
    };
    let executable_sha256 = match &req.executable_sha256 {
        Some(raw) => Some(sha("executable_sha256", raw)?),
        None => None,
    };
    let prompt_sha256 = sha("prompt_sha256", &req.prompt_sha256)?;
    let input_token_count = non_negative("input_token_count", req.input_token_count)?;
    let output_token_count = non_negative("output_token_count", req.output_token_count)?;
    let prefill_tokens_per_sec = non_negative_f64("prefill_tokens_per_sec", req.prefill_tokens_per_sec)?;
    let decode_tokens_per_sec = match req.decode_tokens_per_sec {
        Some(d) => Some(non_negative_f64("decode_tokens_per_sec", d)?),
        None => None,
    };
    let preview = match &req.output_preview {
        Some(p) => Some(output_preview(p.as_str(), preview_length)),
        None => None,
    };
    Ok(NewRun {
        id: req.id,
        started_at: req.started_at,
        finished_at: req.finished_at,
        repetition,
        command_args_json,
        command_line: clone_opt(&req.command_line),
        input_parameters_json,
        env_vars_json,
        env_allowlist_version: req.env_allowlist_version.clone(),
        collector_version: req.collector_version.clone(),
        device_class,
        device_serial: req.device_serial.clone(),
        device_model: clone_opt(&req.device_model),
        host,
        git_commit_sha: req.git_commit_sha.clone(),
        git_dirty: req.git_dirty,
        git_branch: clone_opt(&req.git_branch),
        git_commit_timestamp: req.git_commit_timestamp,
        git_commit_subject: clone_opt(&req.git_commit_subject),
        executable_sha256,
        model_asset_id: req.model_asset_id,
        prompt_sha256,
        input_token_count,
        output_token_count,
        prefill_tokens_per_sec,
        decode_tokens_per_sec,
        exit_status,
        correctness_result,
        input_artifact_id: req.input_artifact_id,
        output_artifact_id: req.output_artifact_id,
        output_preview: preview,
        stdout_artifact_id: req.stdout_artifact_id,
        stderr_artifact_id: req.stderr_artifact_id,
        crash_artifact_id: req.crash_artifact_id,
        error_summary: clone_opt(&req.error_summary),
    })
}

/// The API answer to a refused field: `invalid_request` naming the field,
/// with the message `<field>: <reason>`.
pub fn field_error_response(err: FieldError) -> (e: crate::api::ApiError)
    ensures
        e@ == (400u16, "invalid_request"@, err.field@ + ": "@ + err.message@, Some(err.field@)),
{
    let mut m = String::from_str(err.field);
    m.append(": ");
    m.append(err.message.as_str());
    crate::api::ApiError::invalid_field(err.field, m)
}

/// The artifacts a run references, with the fields naming them, in the
/// order checked: input, output, stdout, stderr, crash.
pub open spec fn artifact_refs(run: NewRun) -> Seq<(Seq<char>, u128)> {
    let piece = |f: Seq<char>, o: Option<u128>| -> Seq<(Seq<char>, u128)> {
        match o {
            Some(id) => seq![(f, id)],
            None => Seq::empty(),
        }
    };
    piece("input_artifact_id"@, run.input_artifact_id) + piece("output_artifact_id"@, run.output_artifact_id)
        + piece("stdout_artifact_id"@, run.stdout_artifact_id) + piece(
        "stderr_artifact_id"@,
        run.stderr_artifact_id,
    ) + piece("crash_artifact_id"@, run.crash_artifact_id)
}

fn push_ref(v: &mut Vec<(&'static str, u128)>, field: &'static str, id: Option<u128>)
    ensures
        final(v)@.map_values(|r: (&'static str, u128)| (r.0@, r.1)) == old(v)@.map_values(
            |r: (&'static str, u128)| (r.0@, r.1),
        ) + match id {
            Some(i) => seq![(field@, i)],
            None => Seq::<(Seq<char>, u128)>::empty(),
        },
{
    match id {
        Some(i) => {
            let ghost before = v@;
            v.push((field, i));
            assert(v@.map_values(|r: (&'static str, u128)| (r.0@, r.1)) =~= before.map_values(
                |r: (&'static str, u128)| (r.0@, r.1),
            ) + seq![(field@, i)]);
        },
        None => {
            assert(v@.map_values(|r: (&'static str, u128)| (r.0@, r.1)) =~= v@.map_values(
                |r: (&'static str, u128)| (r.0@, r.1),
            ) + Seq::<(Seq<char>, u128)>::empty());
        },
    }
}

/// The artifacts a run references, to be checked for existence.
pub fn referenced_artifacts(run: &NewRun) -> (v: Vec<(&'static str, u128)>)
    ensures
        v@.map_values(|r: (&'static str, u128)| (r.0@, r.1)) == artifact_refs(*run),
{
    let mut v: Vec<(&'static str, u128)> = Vec::new();
    let ghost start = v@;
    push_ref(&mut v, "input_artifact_id", run.input_artifact_id);
    push_ref(&mut v, "output_artifact_id", run.output_artifact_id);
    push_ref(&mut v, "stdout_artifact_id", run.stdout_artifact_id);
    push_ref(&mut v, "stderr_artifact_id", run.stderr_artifact_id);
    push_ref(&mut v, "crash_artifact_id", run.crash_artifact_id);
    assert(start.map_values(|r: (&'static str, u128)| (r.0@, r.1)) =~= Seq::<(Seq<char>, u128)>::empty());
    assert(v@.map_values(|r: (&'static str, u128)| (r.0@, r.1)) =~= artifact_refs(*run));
    v
}

/// The refusal of a run naming an unregistered model.
pub fn missing_model(id: u128) -> (e: crate::api::ApiError)
    ensures
        e@ == (
            400u16,
            "invalid_request"@,
            "model_asset_id: no registered model asset "@ + crate::ids::uuid_text(id),
            Some("model_asset_id"@),
        ),
{
    let mut m = String::from_str("model_asset_id: no registered model asset ");
    let t = crate::ids::uuid_to_text(id);
    m.append(t.as_str());
    crate::api::ApiError::invalid_field("model_asset_id", m)
}

/// The refusal of a run naming an artifact that does not exist.
pub fn missing_artifact(field: &str, id: u128) -> (e: crate::api::ApiError)
    ensures
        e@ == (400u16, "invalid_request"@, field@ + ": no artifact "@ + crate::ids::uuid_text(id), Some(field@)),
{
    let mut m = String::from_str(field);
    m.append(": no artifact ");
    let t = crate::ids::uuid_to_text(id);
    m.append(t.as_str());
    crate::api::ApiError::invalid_field(field, m)
}

/// The refusal of a run whose id is already stored; the stored run is
/// left unchanged.
pub fn run_conflict(id: u128) -> (e: crate::api::ApiError)
    ensures
        e@ == crate::api::api_error(409, "conflict"@, "run "@ + crate::ids::uuid_text(id) + " already exists"@),
{
    let mut m = String::from_str("run ");
    let t = crate::ids::uuid_to_text(id);
    m.append(t.as_str());
    m.append(" already exists");
    crate::api::ApiError::conflict(m)
}

} // verus!
