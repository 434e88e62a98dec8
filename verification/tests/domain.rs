use executorch_bencher::domain::{
    CorrectnessResult, DeviceClass, ExitStatus, Platform, Sha256Hex, validate_command_args,
    validate_env_vars, validate_json,
};

#[test]
fn exit_status_rejects_unknown_value() {
    assert!(ExitStatus::try_from("bogus").is_err());
}

#[test]
fn exit_status_round_trips_known_values() {
    for s in ["succeeded", "crashed", "timed_out", "cancelled", "infrastructure_error"] {
        let status = ExitStatus::try_from(s).expect("known value should parse");
        assert_eq!(status.as_str(), s);
    }
}

#[test]
fn correctness_result_rejects_unknown_value() {
    assert!(CorrectnessResult::try_from("bogus").is_err());
}

#[test]
fn sha256_accepts_valid_digest() {
    let digest = "a".repeat(64);
    assert!(Sha256Hex::try_from(digest).is_ok());
}

#[test]
fn sha256_rejects_too_short() {
    let digest = "a".repeat(63);
    assert!(Sha256Hex::try_from(digest).is_err());
}

#[test]
fn sha256_rejects_uppercase() {
    let digest = "A".repeat(64);
    assert!(Sha256Hex::try_from(digest).is_err());
}

#[test]
fn sha256_rejects_non_hex_characters() {
    let digest = "g".repeat(64);
    assert!(Sha256Hex::try_from(digest).is_err());
}

#[test]
fn validate_command_args_accepts_string_array() {
    assert!(validate_command_args(r#"["--flag","value"]"#).is_ok());
}

#[test]
fn validate_command_args_rejects_non_string_array() {
    assert!(validate_command_args(r#"[1,2,3]"#).is_err());
}

#[test]
fn validate_command_args_rejects_malformed_json() {
    assert!(validate_command_args("not json").is_err());
}

#[test]
fn validate_json_accepts_any_well_formed_value() {
    assert!(validate_json(r#"{"a":1}"#).is_ok());
    assert!(validate_json(r#"[1,2,3]"#).is_ok());
}

#[test]
fn validate_json_rejects_malformed_json() {
    assert!(validate_json("{not json}").is_err());
}

#[test]
fn validate_env_vars_preserves_unset_vs_empty() {
    let text = validate_env_vars(r#"{"FOO":null,"BAR":""}"#).expect("should validate");
    let value: serde_json::Value = serde_json::from_str(&text).unwrap();
    assert!(value["FOO"].is_null());
    assert_eq!(value["BAR"], serde_json::Value::String(String::new()));
}

#[test]
fn validate_env_vars_rejects_non_object() {
    assert!(validate_env_vars(r#"["FOO"]"#).is_err());
}

#[test]
fn unknown_enumeration_values_are_named_in_the_error() {
    assert_eq!(ExitStatus::try_from("bogus").unwrap_err().message(), "invalid exit status: \"bogus\"");
    assert_eq!(Platform::try_from("ios").unwrap_err().message(), "invalid platform: \"ios\"");
    assert_eq!(DeviceClass::try_from("lab").unwrap_err().message(), "invalid device class: \"lab\"");
    assert_eq!(
        CorrectnessResult::try_from("maybe").unwrap_err().message(),
        "invalid correctness result: \"maybe\""
    );
}

#[test]
fn a_digest_keeps_its_text() {
    let digest = "0123456789abcdef".repeat(4);
    let h = Sha256Hex::try_from(digest.clone()).unwrap();
    assert_eq!(h.as_str(), digest);
    let err = Sha256Hex::try_from("xyz".to_string()).unwrap_err();
    assert_eq!(
        err.message(),
        "not a 64-character lowercase hexadecimal SHA-256 digest: \"xyz\""
    );
}

#[test]
fn command_args_are_canonicalized() {
    assert_eq!(validate_command_args(r#"[ "a" , "b" ]"#).unwrap(), r#"["a","b"]"#);
    assert_eq!(validate_json(r#"{ "a" : [1, 2] }"#).unwrap(), r#"{"a":[1,2]}"#);
}
