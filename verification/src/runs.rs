//! Runs: the platform-specific host snapshot, the run record, and the
//! derivations between a run and its flat stored columns.

use vstd::prelude::*;
use crate::domain::{CorrectnessResult, DeviceClass, ExitStatus, Platform, Sha256Hex};
use crate::float64::Float64;
use crate::text::{chars_of, push_char};
use crate::time::Timestamp;

verus! {

/// A failure reading or writing runs.
#[derive(Debug)]
pub struct RunsError(pub String);

/// The lab-only part of an Android snapshot: BSP and SUMD driver versions
/// and the three pinned clocks. A retail phone has none of it.
#[derive(Debug, PartialEq, Eq)]
pub struct AndroidLabConfig {
    pub bsp_version: String,
    pub sumd_driver_version: String,
    pub gpu_clock_mhz: i64,
    pub mif_clock_mhz: i64,
    pub int_clock_mhz: i64,
}

/// The immutable snapshot of an Android phone at the time of a run. An
/// `internal` device fills every field including `lab`; an `external` one
/// records what it can report and leaves the rest `None`.
#[derive(Debug, PartialEq)]
pub struct AndroidDeviceState {
    pub os: Option<String>,
    pub kernel: Option<String>,
    pub soc: Option<String>,
    pub cpu_count: Option<i64>,
    pub memory_bytes: Option<i64>,
    pub gpu: Option<String>,
    pub gpu_driver: Option<String>,
    pub uptime_seconds: Option<i64>,
    pub battery_charging: Option<bool>,
    pub initial_temperature_celsius: Option<Float64>,
    pub max_temperature_celsius: Option<Float64>,
    pub thermal_throttling: Option<bool>,
    pub lab: Option<AndroidLabConfig>,
}

/// Every field an `internal` device must carry is present.
pub open spec fn complete_lab_snapshot(a: AndroidDeviceState) -> bool {
    &&& a.lab is Some
    &&& a.uptime_seconds is Some
    &&& a.battery_charging is Some
    &&& a.initial_temperature_celsius is Some
    &&& a.max_temperature_celsius is Some
    &&& a.thermal_throttling is Some
}

impl AndroidDeviceState {
    /// The full rigorous snapshot an internal device must provide; the
    /// description fields are left unset.
    pub fn internal(
        lab: AndroidLabConfig,
        uptime_seconds: i64,
        battery_charging: bool,
        initial_temperature_celsius: Float64,
        max_temperature_celsius: Float64,
        thermal_throttling: bool,
    ) -> (s: AndroidDeviceState)
        ensures
            s == (AndroidDeviceState {
                os: None,
                kernel: None,
                soc: None,
                cpu_count: None,
                memory_bytes: None,
                gpu: None,
                gpu_driver: None,
                uptime_seconds: Some(uptime_seconds),
                battery_charging: Some(battery_charging),
                initial_temperature_celsius: Some(initial_temperature_celsius),
                max_temperature_celsius: Some(max_temperature_celsius),
                thermal_throttling: Some(thermal_throttling),
                lab: Some(lab),
            }),
            complete_lab_snapshot(s),
    {
        AndroidDeviceState {
            os: None,
            kernel: None,
            soc: None,
            cpu_count: None,
            memory_bytes: None,
            gpu: None,
            gpu_driver: None,
            uptime_seconds: Some(uptime_seconds),
            battery_charging: Some(battery_charging),
            initial_temperature_celsius: Some(initial_temperature_celsius),
            max_temperature_celsius: Some(max_temperature_celsius),
            thermal_throttling: Some(thermal_throttling),
            lab: Some(lab),
        }
    }

    /// Whether every field an `internal` device must carry is present.
    pub fn is_complete_lab_snapshot(&self) -> (r: bool)
        ensures
            r == complete_lab_snapshot(*self),
    {
        self.lab.is_some() && self.uptime_seconds.is_some() && self.battery_charging.is_some()
            && self.initial_temperature_celsius.is_some() && self.max_temperature_celsius.is_some()
            && self.thermal_throttling.is_some()
    }
}

/// The immutable snapshot of a Linux host at the time of a run. OS,
/// kernel, CPU model and the accelerator are required.
#[derive(Debug, PartialEq, Eq)]
pub struct LinuxHostState {
    pub os: String,
    pub kernel: String,
    pub cpu_model: String,
    pub cpu_count: Option<i64>,
    pub memory_bytes: Option<i64>,
    pub accelerator: String,
    pub accelerator_driver: Option<String>,
    pub uptime_seconds: Option<i64>,
    pub thermal_throttling: Option<bool>,
}

/// The platform-specific host snapshot a run carries.
#[derive(Debug, PartialEq)]
pub enum HostState {
    Android(AndroidDeviceState),
    Linux(LinuxHostState),
}

/// The platform-neutral host description: OS, kernel, CPU or SoC, memory,
/// and the accelerator the backend executed on.
#[derive(Debug, Clone, Copy)]
pub struct HostDescription<'a> {
    pub os: Option<&'a str>,
    pub kernel: Option<&'a str>,
    pub cpu_model: Option<&'a str>,
    pub cpu_count: Option<i64>,
    pub memory_bytes: Option<i64>,
    pub accelerator: Option<&'a str>,
    pub accelerator_driver: Option<&'a str>,
}

/// The view of an optional string.
pub open spec fn opt_view(o: Option<String>) -> Option<Seq<char>> {
    match o {
        Some(s) => Some(s@),
        None => None,
    }
}

/// The view of an optional string slice.
pub open spec fn opt_str_view(o: Option<&str>) -> Option<Seq<char>> {
    match o {
        Some(s) => Some(s@),
        None => None,
    }
}

fn opt_as_str(o: &Option<String>) -> (r: Option<&str>)
    ensures
        opt_str_view(r) == opt_view(*o),
{
    match o {
        Some(s) => Some(s.as_str()),
        None => None,
    }
}

/// The description columns of a snapshot, as views.
pub open spec fn description_of(h: HostState) -> (
    Option<Seq<char>>,
    Option<Seq<char>>,
    Option<Seq<char>>,
    Option<i64>,
    Option<i64>,
    Option<Seq<char>>,
    Option<Seq<char>>,
) {
    match h {
        HostState::Android(a) => (
            opt_view(a.os),
            opt_view(a.kernel),
            opt_view(a.soc),
            a.cpu_count,
            a.memory_bytes,
            opt_view(a.gpu),
            opt_view(a.gpu_driver),
        ),
        HostState::Linux(l) => (
            Some(l.os@),
            Some(l.kernel@),
            Some(l.cpu_model@),
            l.cpu_count,
            l.memory_bytes,
            Some(l.accelerator@),
            opt_view(l.accelerator_driver),
        ),
    }
}

impl<'a> HostDescription<'a> {
    /// The description as views.
    pub open spec fn views(self) -> (
        Option<Seq<char>>,
        Option<Seq<char>>,
        Option<Seq<char>>,
        Option<i64>,
        Option<i64>,
        Option<Seq<char>>,
        Option<Seq<char>>,
    ) {
        (
            opt_str_view(self.os),
            opt_str_view(self.kernel),
            opt_str_view(self.cpu_model),
            self.cpu_count,
            self.memory_bytes,
            opt_str_view(self.accelerator),
            opt_str_view(self.accelerator_driver),
        )
    }
}

impl HostState {
    /// The platform a snapshot belongs to.
    pub open spec fn platform_of(self) -> Platform {
        match self {
            HostState::Android(_) => Platform::Android,
            HostState::Linux(_) => Platform::Linux,
        }
    }

    pub fn platform(&self) -> (p: Platform)
        ensures
            p == self.platform_of(),
    {
        match self {
            HostState::Android(_) => Platform::Android,
            HostState::Linux(_) => Platform::Linux,
        }
    }

    pub fn android(&self) -> (r: Option<&AndroidDeviceState>)
        ensures
            match *self {
                HostState::Android(a) => r == Some(&a),
                HostState::Linux(_) => r is None,
            },
    {
        match self {
            HostState::Android(a) => Some(a),
            HostState::Linux(_) => None,
        }
    }

    pub fn linux(&self) -> (r: Option<&LinuxHostState>)
        ensures
            match *self {
                HostState::Linux(l) => r == Some(&l),
                HostState::Android(_) => r is None,
            },
    {
        match self {
            HostState::Linux(l) => Some(l),
            HostState::Android(_) => None,
        }
    }

    /// The recorded thermal-throttling flag of either platform.
    pub open spec fn throttling_of(self) -> Option<bool> {
        match self {
            HostState::Android(a) => a.thermal_throttling,
            HostState::Linux(l) => l.thermal_throttling,
        }
    }

    /// Whether thermal throttling was detected; `None` when the platform's
    /// collector did not capture it.
    pub fn thermal_throttling(&self) -> (r: Option<bool>)
        ensures
            r == self.throttling_of(),
    {
        match self {
            HostState::Android(a) => a.thermal_throttling,
            HostState::Linux(l) => l.thermal_throttling,
        }
    }

    /// The recorded uptime of either platform.
    pub open spec fn uptime_of(self) -> Option<i64> {
        match self {
            HostState::Android(a) => a.uptime_seconds,
            HostState::Linux(l) => l.uptime_seconds,
        }
    }

    pub fn uptime_seconds(&self) -> (r: Option<i64>)
        ensures
            r == self.uptime_of(),
    {
        match self {
            HostState::Android(a) => a.uptime_seconds,
            HostState::Linux(l) => l.uptime_seconds,
        }
    }

    /// The host description columns for either platform.
    pub fn description(&self) -> (d: HostDescription<'_>)
        ensures
            d.views() == description_of(*self),
    {
        match self {
            HostState::Android(a) => HostDescription {
                os: opt_as_str(&a.os),
                kernel: opt_as_str(&a.kernel),
                cpu_model: opt_as_str(&a.soc),
                cpu_count: a.cpu_count,
                memory_bytes: a.memory_bytes,
                accelerator: opt_as_str(&a.gpu),
                accelerator_driver: opt_as_str(&a.gpu_driver),
            },
            HostState::Linux(l) => HostDescription {
                os: Some(l.os.as_str()),
                kernel: Some(l.kernel.as_str()),
                cpu_model: Some(l.cpu_model.as_str()),
                cpu_count: l.cpu_count,
                memory_bytes: l.memory_bytes,
                accelerator: Some(l.accelerator.as_str()),
                accelerator_driver: opt_as_str(&l.accelerator_driver),
            },
        }
    }
}

/// The Android-only fields of a snapshot, as a run reports them.
#[derive(Debug)]
pub struct AndroidFields {
    pub battery_charging: Option<bool>,
    pub initial_temperature_celsius: Option<Float64>,
    pub max_temperature_celsius: Option<Float64>,
    pub bsp_version: Option<String>,
    pub sumd_driver_version: Option<String>,
    pub gpu_clock_mhz: Option<i64>,
    pub mif_clock_mhz: Option<i64>,
    pub int_clock_mhz: Option<i64>,
}

/// `f` holds the Android-only fields of `h`: none on a Linux host; on an
/// Android device its battery and temperatures, and the lab fields exactly
/// when it carries a lab snapshot.
pub open spec fn android_fields_of(h: HostState, f: AndroidFields) -> bool {
    match h {
        HostState::Android(a) => {
            &&& f.battery_charging == a.battery_charging
            &&& f.initial_temperature_celsius == a.initial_temperature_celsius
            &&& f.max_temperature_celsius == a.max_temperature_celsius
            &&& match a.lab {
                Some(l) => {
                    &&& f.bsp_version == Some(l.bsp_version)
                    &&& f.sumd_driver_version == Some(l.sumd_driver_version)
                    &&& f.gpu_clock_mhz == Some(l.gpu_clock_mhz)
                    &&& f.mif_clock_mhz == Some(l.mif_clock_mhz)
                    &&& f.int_clock_mhz == Some(l.int_clock_mhz)
                },
                None => {
                    &&& f.bsp_version is None
                    &&& f.sumd_driver_version is None
                    &&& f.gpu_clock_mhz is None
                    &&& f.mif_clock_mhz is None
                    &&& f.int_clock_mhz is None
                },
            }
        },
        HostState::Linux(_) => {
            &&& f.battery_charging is None
            &&& f.initial_temperature_celsius is None
            &&& f.max_temperature_celsius is None
            &&& f.bsp_version is None
            &&& f.sumd_driver_version is None
            &&& f.gpu_clock_mhz is None
            &&& f.mif_clock_mhz is None
            &&& f.int_clock_mhz is None
        },
    }
}

impl HostState {
    /// The Android-only fields of the snapshot.
    pub fn android_fields(&self) -> (f: AndroidFields)
        ensures
            android_fields_of(*self, f),
    {
        match self {
            HostState::Android(a) => {
                let (bsp_version, sumd_driver_version, gpu, mif, int_clock) = match &a.lab {
                    Some(l) => (
                        Some(l.bsp_version.clone()),
                        Some(l.sumd_driver_version.clone()),
                        Some(l.gpu_clock_mhz),
                        Some(l.mif_clock_mhz),
                        Some(l.int_clock_mhz),
                    ),
                    None => (None, None, None, None, None),
                };
                AndroidFields {
                    battery_charging: a.battery_charging,
                    initial_temperature_celsius: a.initial_temperature_celsius,
                    max_temperature_celsius: a.max_temperature_celsius,
                    bsp_version,
                    sumd_driver_version,
                    gpu_clock_mhz: gpu,
                    mif_clock_mhz: mif,
                    int_clock_mhz: int_clock,
                }
            },
            HostState::Linux(_) => AndroidFields {
                battery_charging: None,
                initial_temperature_celsius: None,
                max_temperature_celsius: None,
                bsp_version: None,
                sumd_driver_version: None,
                gpu_clock_mhz: None,
                mif_clock_mhz: None,
                int_clock_mhz: None,
            },
        }
    }
}

/// A fully specified run attempt, ready to store. JSON text fields are
/// already validated and canonical (see `crate::domain`). Identifiers are
/// UUIDs by their 128-bit value.
#[derive(Debug)]
pub struct NewRun {
    pub id: u128,
    pub started_at: Timestamp,
    pub finished_at: Option<Timestamp>,
    pub repetition: i64,
    pub command_args_json: String,
    pub command_line: Option<String>,
    pub input_parameters_json: String,
    pub env_vars_json: String,
    pub env_allowlist_version: String,
    pub collector_version: String,
    pub device_class: DeviceClass,
    /// Android: the device serial. Linux: the hostname.
    pub device_serial: String,
    pub device_model: Option<String>,
    pub host: HostState,
    pub git_commit_sha: String,
    pub git_dirty: bool,
    pub git_branch: Option<String>,
    pub git_commit_timestamp: Option<Timestamp>,
    pub git_commit_subject: Option<String>,
    /// `None` when the binary's identity was not preserved (never a guess).
    pub executable_sha256: Option<Sha256Hex>,
    pub model_asset_id: u128,
    pub prompt_sha256: Sha256Hex,
    pub input_token_count: i64,
    pub output_token_count: i64,
    pub prefill_tokens_per_sec: Float64,
    pub decode_tokens_per_sec: Option<Float64>,
    pub exit_status: ExitStatus,
    pub correctness_result: CorrectnessResult,
    pub input_artifact_id: Option<u128>,
    pub output_artifact_id: Option<u128>,
    pub output_preview: Option<String>,
    pub stdout_artifact_id: Option<u128>,
    pub stderr_artifact_id: Option<u128>,
    pub crash_artifact_id: Option<u128>,
    pub error_summary: Option<String>,
}

/// The first `max_chars` characters of `full` (all of it when shorter).
pub open spec fn preview_of(full: Seq<char>, max_chars: nat) -> Seq<char> {
    if full.len() <= max_chars {
        full
    } else {
        full.take(max_chars as int)
    }
}

/// Truncates `full_output` to at most `max_chars` characters (not bytes,
/// so a multi-byte character is never split) for the `output_preview`
/// column; the output artifact stays the complete record.
pub fn output_preview(full_output: &str, max_chars: usize) -> (p: String)
    ensures
        p@ == preview_of(full_output@, max_chars as nat),
{
    let cs = chars_of(full_output);
    let mut out = String::new();
    let mut i: usize = 0;
    while i < cs.len() && i < max_chars
        invariant
            cs@ == full_output@,
            i <= cs.len(),
            i <= max_chars,
            out@ == cs@.take(i as int),
        decreases cs.len() - i,
    {
        push_char(&mut out, cs[i]);
        assert(cs@.take(i as int).push(cs@[i as int]) =~= cs@.take(i + 1));
        i = i + 1;
    }
    assert(i == cs.len() ==> cs@.take(i as int) =~= cs@);
    out
}

} // verus!
