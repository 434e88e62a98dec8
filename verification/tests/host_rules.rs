use executorch_bencher::domain::{DeviceClass, Platform};
use executorch_bencher::float64::Float64;
use executorch_bencher::host_rules::{HostInput, host_state};
use executorch_bencher::runs::HostState;

fn celsius(v: f64) -> Float64 {
    Float64 { bits: v.to_bits() }
}

fn linux_input() -> HostInput {
    HostInput {
        host_os: Some("Ubuntu 24.04".into()),
        host_kernel: Some("6.8.0".into()),
        host_cpu_model: Some("Ryzen 7".into()),
        host_accelerator: Some("RTX 4070".into()),
        ..Default::default()
    }
}

#[test]
fn a_linux_host_needs_os_kernel_cpu_and_accelerator() {
    assert!(host_state(&linux_input(), Platform::Linux, DeviceClass::External).is_ok());
    let mut missing = linux_input();
    missing.host_accelerator = None;
    let err = host_state(&missing, Platform::Linux, DeviceClass::External).unwrap_err();
    assert_eq!(err.field, "host_accelerator");
}

#[test]
fn a_linux_host_rejects_android_lab_fields() {
    let mut input = linux_input();
    input.gpu_clock_mhz = Some(980);
    let err = host_state(&input, Platform::Linux, DeviceClass::External).unwrap_err();
    assert_eq!(err.field, "gpu_clock_mhz");
}

#[test]
fn an_external_phone_may_omit_everything() {
    let state = host_state(&HostInput::default(), Platform::Android, DeviceClass::External).unwrap();
    assert!(matches!(state, HostState::Android(ref s) if s.lab.is_none()));
}

#[test]
fn lab_fields_are_all_or_none_on_an_external_phone() {
    let input = HostInput { gpu_clock_mhz: Some(980), ..Default::default() };
    let err = host_state(&input, Platform::Android, DeviceClass::External).unwrap_err();
    assert_eq!(err.field, "bsp_version");
    assert!(err.message.contains("all together"));
}

#[test]
fn an_internal_phone_needs_the_full_snapshot() {
    let err = host_state(&HostInput::default(), Platform::Android, DeviceClass::Internal).unwrap_err();
    assert_eq!(err.field, "bsp_version");
    assert!(err.message.contains("required on an internal android device"));

    let mut input = HostInput {
        bsp_version: Some("bsp".into()),
        sumd_driver_version: Some("sumd".into()),
        gpu_clock_mhz: Some(980),
        mif_clock_mhz: Some(5333),
        int_clock_mhz: Some(934),
        device_uptime_seconds: Some(10),
        battery_charging: Some(false),
        initial_temperature_celsius: Some(celsius(30.0)),
        max_temperature_celsius: Some(celsius(40.0)),
        thermal_throttling: Some(false),
        ..Default::default()
    };
    assert!(host_state(&input, Platform::Android, DeviceClass::Internal).is_ok());
    input.thermal_throttling = None;
    let err = host_state(&input, Platform::Android, DeviceClass::Internal).unwrap_err();
    assert_eq!(err.field, "thermal_throttling");
}

#[test]
fn clocks_and_temperatures_are_range_checked() {
    let input = HostInput { mif_clock_mhz: Some(0), ..Default::default() };
    let err = host_state(&input, Platform::Android, DeviceClass::External).unwrap_err();
    assert_eq!(err.field, "mif_clock_mhz");

    let input = HostInput { max_temperature_celsius: Some(celsius(200.0)), ..Default::default() };
    let err = host_state(&input, Platform::Android, DeviceClass::External).unwrap_err();
    assert_eq!(err.field, "max_temperature_celsius");
}

#[test]
fn an_accepted_internal_phone_carries_the_complete_lab_snapshot() {
    let input = HostInput {
        bsp_version: Some("bsp".into()),
        sumd_driver_version: Some("sumd".into()),
        gpu_clock_mhz: Some(980),
        mif_clock_mhz: Some(5333),
        int_clock_mhz: Some(934),
        device_uptime_seconds: Some(10),
        battery_charging: Some(false),
        initial_temperature_celsius: Some(celsius(-40.0)),
        max_temperature_celsius: Some(celsius(150.0)),
        thermal_throttling: Some(true),
        ..Default::default()
    };
    let state = host_state(&input, Platform::Android, DeviceClass::Internal).unwrap();
    assert_eq!(state.platform(), Platform::Android);
    let android = state.android().unwrap();
    assert!(android.is_complete_lab_snapshot());
    assert_eq!(android.lab.as_ref().unwrap().mif_clock_mhz, 5333);
}

#[test]
fn temperatures_outside_the_plausible_range_or_not_finite_are_refused() {
    for bad in [-40.5, 150.5, f64::NAN, f64::INFINITY] {
        let input = HostInput { initial_temperature_celsius: Some(celsius(bad)), ..Default::default() };
        let err = host_state(&input, Platform::Android, DeviceClass::External).unwrap_err();
        assert_eq!(err.field, "initial_temperature_celsius");
        assert_eq!(err.message, "must be between -40 and 150 degrees Celsius");
    }
}

#[test]
fn a_linux_host_of_the_internal_class_is_refused() {
    let err = host_state(&linux_input(), Platform::Linux, DeviceClass::Internal).unwrap_err();
    assert_eq!(err.field, "device_class");
    assert_eq!(err.message, "must be external on a linux run");
}

#[test]
fn android_fields_come_from_the_snapshot_and_are_absent_on_linux() {
    let input = HostInput {
        bsp_version: Some("bsp".into()),
        sumd_driver_version: Some("sumd".into()),
        gpu_clock_mhz: Some(980),
        mif_clock_mhz: Some(5333),
        int_clock_mhz: Some(934),
        device_uptime_seconds: Some(10),
        battery_charging: Some(true),
        initial_temperature_celsius: Some(celsius(31.5)),
        max_temperature_celsius: Some(celsius(44.0)),
        thermal_throttling: Some(false),
        ..Default::default()
    };
    let phone = host_state(&input, Platform::Android, DeviceClass::Internal).unwrap();
    let f = phone.android_fields();
    assert_eq!(f.bsp_version.as_deref(), Some("bsp"));
    assert_eq!(f.sumd_driver_version.as_deref(), Some("sumd"));
    assert_eq!((f.gpu_clock_mhz, f.mif_clock_mhz, f.int_clock_mhz), (Some(980), Some(5333), Some(934)));
    assert_eq!(f.battery_charging, Some(true));
    assert_eq!(f.initial_temperature_celsius.map(|t| f64::from_bits(t.bits)), Some(31.5));
    assert_eq!(f.max_temperature_celsius.map(|t| f64::from_bits(t.bits)), Some(44.0));

    let retail = host_state(&HostInput::default(), Platform::Android, DeviceClass::External).unwrap();
    let r = retail.android_fields();
    assert!(r.bsp_version.is_none() && r.gpu_clock_mhz.is_none() && r.battery_charging.is_none());

    let linux = host_state(&linux_input(), Platform::Linux, DeviceClass::External).unwrap();
    let l = linux.android_fields();
    assert!(l.bsp_version.is_none() && l.sumd_driver_version.is_none());
    assert!(l.battery_charging.is_none() && l.initial_temperature_celsius.is_none());
    assert!(l.max_temperature_celsius.is_none() && l.int_clock_mhz.is_none());
}
