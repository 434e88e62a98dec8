//! The one place that turns a flat, all-optional description of a host into
//! a validated [`HostState`], enforcing the platform and device-class rules
//! field by field, so a violation names the field it concerns. Shared by
//! the run-submission path and the log importer.

use vstd::prelude::*;
use crate::domain::{DeviceClass, Platform};
use crate::float64::{Float64, temperature_in_range};
use crate::runs::{AndroidDeviceState, AndroidLabConfig, HostState, LinuxHostState};

verus! {

/// A validation failure naming the request field it concerns.
#[derive(Debug, PartialEq, Eq)]
pub struct FieldError {
    pub field: &'static str,
    pub message: String,
}

impl FieldError {
    /// The field name and message, as text.
    pub open spec fn views(self) -> (Seq<char>, Seq<char>) {
        (self.field@, self.message@)
    }
}

pub fn field_err(field: &'static str, message: &str) -> (e: FieldError)
    ensures
        e.views() == (field@, message@),
{
    FieldError { field, message: String::from_str(message) }
}

/// Every host field a caller may supply, before any platform rule is
/// applied. Field names match the wire and column names.
#[derive(Debug, PartialEq)]
pub struct HostInput {
    pub host_os: Option<String>,
    pub host_kernel: Option<String>,
    pub host_cpu_model: Option<String>,
    pub host_cpu_count: Option<i64>,
    pub host_memory_bytes: Option<i64>,
    pub host_accelerator: Option<String>,
    pub host_accelerator_driver: Option<String>,
    pub device_uptime_seconds: Option<i64>,
    pub thermal_throttling: Option<bool>,
    pub bsp_version: Option<String>,
    pub sumd_driver_version: Option<String>,
    pub gpu_clock_mhz: Option<i64>,
    pub mif_clock_mhz: Option<i64>,
    pub int_clock_mhz: Option<i64>,
    pub battery_charging: Option<bool>,
    pub initial_temperature_celsius: Option<Float64>,
    pub max_temperature_celsius: Option<Float64>,
}

impl Default for HostInput {
    /// Every field unset.
    fn default() -> (h: HostInput)
        ensures
            h == (HostInput {
                host_os: None,
                host_kernel: None,
                host_cpu_model: None,
                host_cpu_count: None,
                host_memory_bytes: None,
                host_accelerator: None,
                host_accelerator_driver: None,
                device_uptime_seconds: None,
                thermal_throttling: None,
                bsp_version: None,
                sumd_driver_version: None,
                gpu_clock_mhz: None,
                mif_clock_mhz: None,
                int_clock_mhz: None,
                battery_charging: None,
                initial_temperature_celsius: None,
                max_temperature_celsius: None,
            }),
    {
        HostInput {
            host_os: None,
            host_kernel: None,
            host_cpu_model: None,
            host_cpu_count: None,
            host_memory_bytes: None,
            host_accelerator: None,
            host_accelerator_driver: None,
            device_uptime_seconds: None,
            thermal_throttling: None,
            bsp_version: None,
            sumd_driver_version: None,
            gpu_clock_mhz: None,
            mif_clock_mhz: None,
            int_clock_mhz: None,
            battery_charging: None,
            initial_temperature_celsius: None,
            max_temperature_celsius: None,
        }
    }
}

/// A copy of an optional string.
pub fn clone_opt(o: &Option<String>) -> (r: Option<String>)
    ensures
        r == *o,
{
    match o {
        Some(s) => Some(s.clone()),
        None => None,
    }
}

pub open spec fn err_of<T>(field: Seq<char>, message: Seq<char>) -> Result<T, (Seq<char>, Seq<char>)> {
    Err((field, message))
}

/// Rejects a negative `value`.
pub fn non_negative(field: &'static str, value: i64) -> (r: Result<i64, FieldError>)
    ensures
        match r {
            Ok(v) => value >= 0 && v == value,
            Err(e) => value < 0 && e.views() == (field@, "must not be negative"@),
        },
{
    if value < 0 {
        Err(field_err(field, "must not be negative"))
    } else {
        Ok(value)
    }
}

/// Rejects a clock frequency that is present but not above zero.
pub fn positive_clock(field: &'static str, value: Option<i64>) -> (r: Result<Option<i64>, FieldError>)
    ensures
        match r {
            Ok(v) => !(value matches Some(c) && c <= 0) && v == value,
            Err(e) => (value matches Some(c) && c <= 0) && e.views() == (
                field@,
                "must be greater than zero MHz"@,
            ),
        },
{
    match value {
        Some(v) => if v <= 0 {
            Err(field_err(field, "must be greater than zero MHz"))
        } else {
            Ok(value)
        },
        None => Ok(value),
    }
}

/// A temperature that is present and outside `-40.0..=150.0`.
pub open spec fn implausible_temperature(value: Option<Float64>) -> bool {
    value matches Some(t) && !temperature_in_range(t.bits)
}

/// Rejects a temperature that is present and outside `-40.0..=150.0`.
pub fn temperature(field: &'static str, value: Option<Float64>) -> (r: Result<Option<Float64>, FieldError>)
    ensures
        match r {
            Ok(v) => !implausible_temperature(value) && v == value,
            Err(e) => implausible_temperature(value) && e.views() == (
                field@,
                "must be between -40 and 150 degrees Celsius"@,
            ),
        },
{
    match value {
        Some(t) => if !t.is_plausible_temperature() {
            Err(field_err(field, "must be between -40 and 150 degrees Celsius"))
        } else {
            Ok(value)
        },
        None => Ok(value),
    }
}

/// The message for a value required under `why`.
fn required_message(why: &str) -> (m: String)
    ensures
        m@ == "required "@ + why@,
{
    let mut m = String::from_str("required ");
    m.append(why);
    m
}

/// The message for a value forbidden under `why`.
fn forbidden_message(why: &str) -> (m: String)
    ensures
        m@ == "must be null "@ + why@,
{
    let mut m = String::from_str("must be null ");
    m.append(why);
    m
}

/// Requires a present string.
pub fn required_string(field: &'static str, value: &Option<String>, why: &str) -> (r: Result<String, FieldError>)
    ensures
        match r {
            Ok(v) => *value == Some(v),
            Err(e) => value is None && e.views() == (field@, "required "@ + why@),
        },
{
    match value {
        Some(v) => Ok(v.clone()),
        None => Err(FieldError { field, message: required_message(why) }),
    }
}

/// Requires a present value.
pub fn required<T: Copy>(field: &'static str, value: Option<T>, why: &str) -> (r: Result<T, FieldError>)
    ensures
        match r {
            Ok(v) => value == Some(v),
            Err(e) => value is None && e.views() == (field@, "required "@ + why@),
        },
{
    match value {
        Some(v) => Ok(v),
        None => Err(FieldError { field, message: required_message(why) }),
    }
}

/// Rejects a present value.
pub fn forbidden(field: &'static str, present: bool, why: &str) -> (r: Result<(), FieldError>)
    ensures
        match r {
            Ok(_) => !present,
            Err(e) => present && e.views() == (field@, "must be null "@ + why@),
        },
{
    if present {
        Err(FieldError { field, message: forbidden_message(why) })
    } else {
        Ok(())
    }
}

/// The message for lab fields that are only partly present.
pub open spec fn partial_lab_message() -> Seq<char> {
    "BSP version, SUMD driver version, and the GPU/MIF/INT clocks are recorded all together or not at all"@
}

/// The first lab field that is absent (`bsp_version` when none is).
pub open spec fn first_missing_lab_field(i: HostInput) -> Seq<char> {
    if i.bsp_version is None {
        "bsp_version"@
    } else if i.sumd_driver_version is None {
        "sumd_driver_version"@
    } else if i.gpu_clock_mhz is None {
        "gpu_clock_mhz"@
    } else if i.mif_clock_mhz is None {
        "mif_clock_mhz"@
    } else if i.int_clock_mhz is None {
        "int_clock_mhz"@
    } else {
        "bsp_version"@
    }
}

/// All five lab fields are present.
pub open spec fn all_lab_fields(i: HostInput) -> bool {
    i.bsp_version is Some && i.sumd_driver_version is Some && i.gpu_clock_mhz is Some
        && i.mif_clock_mhz is Some && i.int_clock_mhz is Some
}

/// None of the five lab fields is present.
pub open spec fn no_lab_fields(i: HostInput) -> bool {
    i.bsp_version is None && i.sumd_driver_version is None && i.gpu_clock_mhz is None
        && i.mif_clock_mhz is None && i.int_clock_mhz is None
}

/// The checks every platform shares, in order: clocks positive,
/// temperatures plausible, uptime and memory not negative, CPU count
/// positive. `None` when all pass.
pub open spec fn common_violation(i: HostInput) -> Option<(Seq<char>, Seq<char>)> {
    if i.gpu_clock_mhz matches Some(c) && c <= 0 {
        Some(("gpu_clock_mhz"@, "must be greater than zero MHz"@))
    } else if i.mif_clock_mhz matches Some(c) && c <= 0 {
        Some(("mif_clock_mhz"@, "must be greater than zero MHz"@))
    } else if i.int_clock_mhz matches Some(c) && c <= 0 {
        Some(("int_clock_mhz"@, "must be greater than zero MHz"@))
    } else if implausible_temperature(i.initial_temperature_celsius) {
        Some(("initial_temperature_celsius"@, "must be between -40 and 150 degrees Celsius"@))
    } else if implausible_temperature(i.max_temperature_celsius) {
        Some(("max_temperature_celsius"@, "must be between -40 and 150 degrees Celsius"@))
    } else if i.device_uptime_seconds matches Some(u) && u < 0 {
        Some(("device_uptime_seconds"@, "must not be negative"@))
    } else if i.host_cpu_count matches Some(n) && n <= 0 {
        Some(("host_cpu_count"@, "must be greater than zero"@))
    } else if i.host_memory_bytes matches Some(n) && n < 0 {
        Some(("host_memory_bytes"@, "must not be negative"@))
    } else {
        None
    }
}

/// The Linux rules: no Android-only field, and OS, kernel, CPU model and
/// accelerator present.
pub open spec fn linux_outcome(i: HostInput) -> Result<HostState, (Seq<char>, Seq<char>)> {
    let why = "on a linux run"@;
    if i.bsp_version is Some {
        err_of("bsp_version"@, "must be null "@ + why)
    } else if i.sumd_driver_version is Some {
        err_of("sumd_driver_version"@, "must be null "@ + why)
    } else if i.gpu_clock_mhz is Some {
        err_of("gpu_clock_mhz"@, "must be null "@ + why)
    } else if i.mif_clock_mhz is Some {
        err_of("mif_clock_mhz"@, "must be null "@ + why)
    } else if i.int_clock_mhz is Some {
        err_of("int_clock_mhz"@, "must be null "@ + why)
    } else if i.battery_charging is Some {
        err_of("battery_charging"@, "must be null "@ + why)
    } else if i.initial_temperature_celsius is Some {
        err_of("initial_temperature_celsius"@, "must be null "@ + why)
    } else if i.max_temperature_celsius is Some {
        err_of("max_temperature_celsius"@, "must be null "@ + why)
    } else if i.host_os is None {
        err_of("host_os"@, "required "@ + why)
    } else if i.host_kernel is None {
        err_of("host_kernel"@, "required "@ + why)
    } else if i.host_cpu_model is None {
        err_of("host_cpu_model"@, "required "@ + why)
    } else if i.host_accelerator is None {
        err_of("host_accelerator"@, "required "@ + why)
    } else {
        Ok(HostState::Linux(LinuxHostState {
            os: i.host_os->0,
            kernel: i.host_kernel->0,
            cpu_model: i.host_cpu_model->0,
            cpu_count: i.host_cpu_count,
            memory_bytes: i.host_memory_bytes,
            accelerator: i.host_accelerator->0,
            accelerator_driver: i.host_accelerator_driver,
            uptime_seconds: i.device_uptime_seconds,
            thermal_throttling: i.thermal_throttling,
        }))
    }
}

/// The Android snapshot built from `i` with lab part `lab`.
pub open spec fn android_state(i: HostInput, lab: Option<AndroidLabConfig>) -> AndroidDeviceState {
    AndroidDeviceState {
        os: i.host_os,
        kernel: i.host_kernel,
        soc: i.host_cpu_model,
        cpu_count: i.host_cpu_count,
        memory_bytes: i.host_memory_bytes,
        gpu: i.host_accelerator,
        gpu_driver: i.host_accelerator_driver,
        uptime_seconds: i.device_uptime_seconds,
        battery_charging: i.battery_charging,
        initial_temperature_celsius: i.initial_temperature_celsius,
        max_temperature_celsius: i.max_temperature_celsius,
        thermal_throttling: i.thermal_throttling,
        lab: lab,
    }
}

/// The lab part when all five lab fields are present.
pub open spec fn lab_of(i: HostInput) -> Option<AndroidLabConfig> {
    if all_lab_fields(i) {
        Some(AndroidLabConfig {
            bsp_version: i.bsp_version->0,
            sumd_driver_version: i.sumd_driver_version->0,
            gpu_clock_mhz: i.gpu_clock_mhz->0,
            mif_clock_mhz: i.mif_clock_mhz->0,
            int_clock_mhz: i.int_clock_mhz->0,
        })
    } else {
        None
    }
}

/// The Android rules: lab fields all together or none; an internal device
/// needs the lab part, uptime, battery, both temperatures and throttling.
pub open spec fn android_outcome(i: HostInput, class: DeviceClass) -> Result<HostState, (Seq<char>, Seq<char>)> {
    let why = "on an internal android device"@;
    if !all_lab_fields(i) && !no_lab_fields(i) {
        err_of(first_missing_lab_field(i), partial_lab_message())
    } else if class == DeviceClass::Internal && no_lab_fields(i) {
        err_of(first_missing_lab_field(i), "required "@ + why)
    } else if class == DeviceClass::Internal && i.device_uptime_seconds is None {
        err_of("device_uptime_seconds"@, "required "@ + why)
    } else if class == DeviceClass::Internal && i.battery_charging is None {
        err_of("battery_charging"@, "required "@ + why)
    } else if class == DeviceClass::Internal && i.initial_temperature_celsius is None {
        err_of("initial_temperature_celsius"@, "required "@ + why)
    } else if class == DeviceClass::Internal && i.max_temperature_celsius is None {
        err_of("max_temperature_celsius"@, "required "@ + why)
    } else if class == DeviceClass::Internal && i.thermal_throttling is None {
        err_of("thermal_throttling"@, "required "@ + why)
    } else {
        Ok(HostState::Android(android_state(i, lab_of(i))))
    }
}

/// The refusal of a Linux host whose device class is `internal`: every
/// Linux box is an external host.
pub open spec fn linux_internal_message() -> Seq<char> {
    "must be external on a linux run"@
}

/// What [`host_state`] yields: the shared checks first, then the rules of
/// the platform (a Linux host must be of the external class).
pub open spec fn host_state_outcome(i: HostInput, platform: Platform, class: DeviceClass) -> Result<
    HostState,
    (Seq<char>, Seq<char>),
> {
    match common_violation(i) {
        Some(v) => Err(v),
        None => match platform {
            Platform::Linux => if class == DeviceClass::Internal {
                err_of("device_class"@, linux_internal_message())
            } else {
                linux_outcome(i)
            },
            Platform::Android => android_outcome(i, class),
        },
    }
}

/// Runs the checks every platform shares, reporting the first violated.
fn check_common(input: &HostInput) -> (r: Result<(), FieldError>)
    ensures
        match r {
            Ok(_) => common_violation(*input) is None,
            Err(e) => common_violation(*input) == Some(e.views()),
        },
{
    positive_clock("gpu_clock_mhz", input.gpu_clock_mhz)?;
    positive_clock("mif_clock_mhz", input.mif_clock_mhz)?;
    positive_clock("int_clock_mhz", input.int_clock_mhz)?;
    temperature("initial_temperature_celsius", input.initial_temperature_celsius)?;
    temperature("max_temperature_celsius", input.max_temperature_celsius)?;
    if let Some(uptime) = input.device_uptime_seconds {
        non_negative("device_uptime_seconds", uptime)?;
    }
    if let Some(n) = input.host_cpu_count {
        if n <= 0 {
            return Err(field_err("host_cpu_count", "must be greater than zero"));
        }
    }
    if let Some(n) = input.host_memory_bytes {
        non_negative("host_memory_bytes", n)?;
    }
    Ok(())
}

fn linux_host(input: &HostInput) -> (r: Result<HostState, FieldError>)
    ensures
        match r {
            Ok(h) => linux_outcome(*input) == Ok::<HostState, (Seq<char>, Seq<char>)>(h),
            Err(e) => linux_outcome(*input) == Err::<HostState, (Seq<char>, Seq<char>)>(e.views()),
        },
{
    let why = "on a linux run";
    forbidden("bsp_version", input.bsp_version.is_some(), why)?;
    forbidden("sumd_driver_version", input.sumd_driver_version.is_some(), why)?;
    forbidden("gpu_clock_mhz", input.gpu_clock_mhz.is_some(), why)?;
    forbidden("mif_clock_mhz", input.mif_clock_mhz.is_some(), why)?;
    forbidden("int_clock_mhz", input.int_clock_mhz.is_some(), why)?;
    forbidden("battery_charging", input.battery_charging.is_some(), why)?;
    forbidden("initial_temperature_celsius", input.initial_temperature_celsius.is_some(), why)?;
    forbidden("max_temperature_celsius", input.max_temperature_celsius.is_some(), why)?;
    let os = required_string("host_os", &input.host_os, why)?;
    let kernel = required_string("host_kernel", &input.host_kernel, why)?;
    let cpu_model = required_string("host_cpu_model", &input.host_cpu_model, why)?;
    let accelerator = required_string("host_accelerator", &input.host_accelerator, why)?;
    Ok(HostState::Linux(LinuxHostState {
        os,
        kernel,
        cpu_model,
        cpu_count: input.host_cpu_count,
        memory_bytes: input.host_memory_bytes,
        accelerator,
        accelerator_driver: clone_opt(&input.host_accelerator_driver),
        uptime_seconds: input.device_uptime_seconds,
        thermal_throttling: input.thermal_throttling,
    }))
}

fn first_missing_lab_field_name(input: &HostInput) -> (f: &'static str)
    ensures
        f@ == first_missing_lab_field(*input),
{
    if input.bsp_version.is_none() {
        "bsp_version"
    } else if input.sumd_driver_version.is_none() {
        "sumd_driver_version"
    } else if input.gpu_clock_mhz.is_none() {
        "gpu_clock_mhz"
    } else if input.mif_clock_mhz.is_none() {
        "mif_clock_mhz"
    } else if input.int_clock_mhz.is_none() {
        "int_clock_mhz"
    } else {
        "bsp_version"
    }
}

fn android_host(input: &HostInput, class: DeviceClass) -> (r: Result<HostState, FieldError>)
    ensures
        match r {
            Ok(h) => android_outcome(*input, class) == Ok::<HostState, (Seq<char>, Seq<char>)>(h),
            Err(e) => android_outcome(*input, class) == Err::<HostState, (Seq<char>, Seq<char>)>(e.views()),
        },
{
    let mut present: usize = 0;
    if input.bsp_version.is_some() {
        present = present + 1;
    }
    if input.sumd_driver_version.is_some() {
        present = present + 1;
    }
    if input.gpu_clock_mhz.is_some() {
        present = present + 1;
    }
    if input.mif_clock_mhz.is_some() {
        present = present + 1;
    }
    if input.int_clock_mhz.is_some() {
        present = present + 1;
    }
    if present != 5 && present != 0 {
        return Err(field_err(first_missing_lab_field_name(input), "BSP version, SUMD driver version, and the GPU/MIF/INT clocks are recorded all together or not at all"));
    }
    let lab = if present == 5 {
        Some(AndroidLabConfig {
            bsp_version: required_string("bsp_version", &input.bsp_version, "")?,
            sumd_driver_version: required_string("sumd_driver_version", &input.sumd_driver_version, "")?,
            gpu_clock_mhz: required("gpu_clock_mhz", input.gpu_clock_mhz, "")?,
            mif_clock_mhz: required("mif_clock_mhz", input.mif_clock_mhz, "")?,
            int_clock_mhz: required("int_clock_mhz", input.int_clock_mhz, "")?,
        })
    } else {
        None
    };
    if class == DeviceClass::Internal {
        let why = "on an internal android device";
        if lab.is_none() {
            return Err(FieldError {
                field: first_missing_lab_field_name(input),
                message: required_message(why),
            });
        }
        required("device_uptime_seconds", input.device_uptime_seconds, why)?;
        required("battery_charging", input.battery_charging, why)?;
        required("initial_temperature_celsius", input.initial_temperature_celsius, why)?;
        required("max_temperature_celsius", input.max_temperature_celsius, why)?;
        required("thermal_throttling", input.thermal_throttling, why)?;
    }
    Ok(HostState::Android(AndroidDeviceState {
        os: clone_opt(&input.host_os),
        kernel: clone_opt(&input.host_kernel),
        soc: clone_opt(&input.host_cpu_model),
        cpu_count: input.host_cpu_count,
        memory_bytes: input.host_memory_bytes,
        gpu: clone_opt(&input.host_accelerator),
        gpu_driver: clone_opt(&input.host_accelerator_driver),
        uptime_seconds: input.device_uptime_seconds,
        battery_charging: input.battery_charging,
        initial_temperature_celsius: input.initial_temperature_celsius,
        max_temperature_celsius: input.max_temperature_celsius,
        thermal_throttling: input.thermal_throttling,
        lab,
    }))
}

/// Builds the platform-specific snapshot from `input`, reporting the first
/// rule violated by field: clocks positive, temperatures within -40..=150
/// degrees, uptime and memory not negative, CPU count positive; then on
/// Linux the external class, no Android-only field and OS, kernel, CPU model and accelerator
/// present; on Android the lab fields all together or none, and on an
/// internal device the complete lab snapshot.
pub fn host_state(input: &HostInput, platform: Platform, device_class: DeviceClass) -> (r: Result<
    HostState,
    FieldError,
>)
    ensures
        match r {
            Ok(h) => host_state_outcome(*input, platform, device_class) == Ok::<HostState, (Seq<char>, Seq<char>)>(h),
            Err(e) => host_state_outcome(*input, platform, device_class) == Err::<HostState, (Seq<char>, Seq<char>)>(e.views()),
        },
{
    check_common(input)?;
    match platform {
        Platform::Linux => {
            if device_class == DeviceClass::Internal {
                proof {
                    reveal_strlit("must be external on a linux run");
                }
                return Err(field_err("device_class", "must be external on a linux run"));
            }
            linux_host(input)
        },
        Platform::Android => android_host(input, device_class),
    }
}

/// An accepted snapshot is of the requested platform.
pub proof fn lemma_accepted_host_platform(i: HostInput, platform: Platform, class: DeviceClass)
    requires
        host_state_outcome(i, platform, class) is Ok,
    ensures
        host_state_outcome(i, platform, class)->Ok_0.platform_of() == platform,
{
}

/// Every Linux host is external: a Linux host of the internal class is
/// refused, naming the device class.
pub proof fn lemma_linux_host_is_external(i: HostInput)
    requires
        common_violation(i) is None,
    ensures
        host_state_outcome(i, Platform::Linux, DeviceClass::Internal) == err_of::<HostState>(
            "device_class"@,
            linux_internal_message(),
        ),
{
}

/// An accepted snapshot carries the request's own values: on Android the
/// OS, kernel, SoC (the CPU model), CPU count, memory, GPU (the
/// accelerator) and its driver, uptime, battery state, both temperatures
/// and throttling as given, and the five lab fields as given when present;
/// on Linux the OS, kernel, CPU model, accelerator and the other host
/// fields as given.
pub proof fn lemma_accepted_host_keeps_fields(i: HostInput, platform: Platform, class: DeviceClass)
    requires
        host_state_outcome(i, platform, class) is Ok,
    ensures
        host_state_outcome(i, platform, class)->Ok_0 matches HostState::Android(a) ==> {
            &&& a.os == i.host_os
            &&& a.kernel == i.host_kernel
            &&& a.soc == i.host_cpu_model
            &&& a.cpu_count == i.host_cpu_count
            &&& a.memory_bytes == i.host_memory_bytes
            &&& a.gpu == i.host_accelerator
            &&& a.gpu_driver == i.host_accelerator_driver
            &&& a.uptime_seconds == i.device_uptime_seconds
            &&& a.battery_charging == i.battery_charging
            &&& a.initial_temperature_celsius == i.initial_temperature_celsius
            &&& a.max_temperature_celsius == i.max_temperature_celsius
            &&& a.thermal_throttling == i.thermal_throttling
            &&& a.lab matches Some(l) ==> {
                &&& i.bsp_version == Some(l.bsp_version)
                &&& i.sumd_driver_version == Some(l.sumd_driver_version)
                &&& i.gpu_clock_mhz == Some(l.gpu_clock_mhz)
                &&& i.mif_clock_mhz == Some(l.mif_clock_mhz)
                &&& i.int_clock_mhz == Some(l.int_clock_mhz)
            }
        },
        host_state_outcome(i, platform, class)->Ok_0 matches HostState::Linux(l) ==> {
            &&& i.host_os == Some(l.os)
            &&& i.host_kernel == Some(l.kernel)
            &&& i.host_cpu_model == Some(l.cpu_model)
            &&& l.cpu_count == i.host_cpu_count
            &&& l.memory_bytes == i.host_memory_bytes
            &&& i.host_accelerator == Some(l.accelerator)
            &&& l.accelerator_driver == i.host_accelerator_driver
            &&& l.uptime_seconds == i.device_uptime_seconds
            &&& l.thermal_throttling == i.thermal_throttling
        },
{
}

/// An internal Android device is accepted only with the full lab snapshot:
/// the lab part, uptime, battery state, both temperatures and throttling.
pub proof fn lemma_internal_android_is_complete(i: HostInput)
    requires
        host_state_outcome(i, Platform::Android, DeviceClass::Internal) is Ok,
    ensures
        host_state_outcome(i, Platform::Android, DeviceClass::Internal)->Ok_0 matches HostState::Android(a)
            && crate::runs::complete_lab_snapshot(a),
{
}

/// Lab fields come all together or not at all: an accepted Android
/// snapshot has the lab part exactly when the request gave all five.
pub proof fn lemma_lab_all_or_none(i: HostInput, class: DeviceClass)
    requires
        host_state_outcome(i, Platform::Android, class) is Ok,
    ensures
        all_lab_fields(i) || no_lab_fields(i),
        host_state_outcome(i, Platform::Android, class)->Ok_0 matches HostState::Android(a) && (a.lab
            is Some <==> all_lab_fields(i)),
{
}

/// A Linux snapshot never carries Android lab data, and an accepted Linux
/// request named none.
pub proof fn lemma_linux_has_no_lab_fields(i: HostInput, class: DeviceClass)
    requires
        host_state_outcome(i, Platform::Linux, class) is Ok,
    ensures
        no_lab_fields(i),
        i.battery_charging is None,
        i.initial_temperature_celsius is None,
        i.max_temperature_celsius is None,
{
}

} // verus!
