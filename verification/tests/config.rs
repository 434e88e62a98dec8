use executorch_bencher::config::{Config, ConfigError, EnvValue, EnvValues, StorageLimits, config_from_env, join_path};

fn env() -> EnvValues {
    EnvValues {
        database_url: EnvValue::Unset,
        data_root: EnvValue::Unset,
        artifact_root: EnvValue::Unset,
        model_root: EnvValue::Unset,
        temporary_dir: EnvValue::Unset,
        trash_dir: EnvValue::Unset,
        model_register_roots: EnvValue::Unset,
        dashboard_dist: EnvValue::Unset,
        max_artifact_upload_bytes: EnvValue::Unset,
        output_preview_length: EnvValue::Unset,
        temp_file_retention_seconds: EnvValue::Unset,
        events_keep_alive_seconds: EnvValue::Unset,
    }
}

fn set(s: &str) -> EnvValue {
    EnvValue::Value(s.to_string())
}

fn with_db() -> EnvValues {
    EnvValues { database_url: set("sqlite://data/benchmarks.sqlite3"), ..env() }
}

fn load(e: EnvValues) -> Result<Config, ConfigError> {
    config_from_env(e)
}

#[test]
fn loads_database_url_and_artifact_root_when_present() {
    let config = load(EnvValues { artifact_root: set("data/artifacts"), ..with_db() }).expect("should load config");
    assert_eq!(config.database_url, "sqlite://data/benchmarks.sqlite3");
    assert_eq!(config.artifact_root, "data/artifacts");
}

#[test]
fn errors_when_database_url_missing() {
    let err = load(EnvValues { artifact_root: set("data/artifacts"), ..env() }).expect_err("should fail");
    assert!(err.0.contains("DATABASE_URL"));
}

#[test]
fn errors_when_database_url_empty() {
    let err = load(EnvValues { database_url: set(""), artifact_root: set("data/artifacts"), ..env() })
        .expect_err("should fail");
    assert!(err.0.contains("DATABASE_URL"));
}

#[test]
fn model_register_roots_default_to_the_model_root() {
    let config = load(EnvValues { model_root: set("/srv/models"), ..with_db() }).unwrap();
    assert_eq!(config.model_register_roots, vec!["/srv/models".to_string()]);
}

#[test]
fn model_register_roots_parse_a_colon_separated_list() {
    let config = load(EnvValues { model_register_roots: set("/mnt/share/models: /srv/models "), ..with_db() }).unwrap();
    assert_eq!(config.model_register_roots, vec!["/mnt/share/models".to_string(), "/srv/models".to_string()]);
}

#[test]
fn empty_model_register_roots_are_rejected() {
    let err = load(EnvValues { model_register_roots: set("/srv/models::/other"), ..with_db() }).unwrap_err();
    assert!(err.0.contains("MODEL_REGISTER_ROOTS"));
    assert_eq!(err.0, "MODEL_REGISTER_ROOTS contains an empty entry");
}

#[test]
fn storage_roots_default_beneath_data_root_when_unset() {
    let config = load(EnvValues { data_root: set("benchmark-data"), ..with_db() }).unwrap();
    assert_eq!(config.artifact_root, "benchmark-data/artifacts");
    assert_eq!(config.model_root, "benchmark-data/models");
    assert_eq!(config.temporary_dir, "benchmark-data/temporary");
    assert_eq!(config.trash_dir, "benchmark-data/trash");
}

#[test]
fn each_storage_root_can_be_overridden_independently() {
    let config = load(EnvValues { data_root: set("benchmark-data"), model_root: set("/mnt/models"), ..with_db() }).unwrap();
    assert_eq!(config.artifact_root, "benchmark-data/artifacts");
    assert_eq!(config.model_root, "/mnt/models");
}

#[test]
fn errors_when_an_overridden_storage_root_is_empty() {
    let err = load(EnvValues { model_root: set(""), ..with_db() }).unwrap_err();
    assert!(err.0.contains("MODEL_ROOT"));
}

#[test]
fn storage_limits_default_when_unset() {
    let config = load(with_db()).unwrap();
    assert_eq!(config.limits.max_artifact_upload_bytes, StorageLimits::default().max_artifact_upload_bytes);
    assert_eq!(config.limits.output_preview_length, StorageLimits::default().output_preview_length);
    assert_eq!(config.limits.temp_file_retention_seconds, StorageLimits::default().temp_file_retention_seconds);
    assert_eq!(config.limits.max_artifact_upload_bytes, 512 * 1024 * 1024);
    assert_eq!(config.events_keep_alive_seconds, 15);
    assert_eq!(config.data_root, "data");
}

#[test]
fn storage_limits_can_be_overridden() {
    let config = load(EnvValues {
        max_artifact_upload_bytes: set("1024"),
        output_preview_length: set(" 64 "),
        temp_file_retention_seconds: set("+60"),
        ..with_db()
    })
    .unwrap();
    assert_eq!(config.limits.max_artifact_upload_bytes, 1024);
    assert_eq!(config.limits.output_preview_length, 64);
    assert_eq!(config.limits.temp_file_retention_seconds, 60);
}

#[test]
fn errors_when_a_storage_limit_is_not_a_valid_integer() {
    let err = load(EnvValues { max_artifact_upload_bytes: set("not-a-number"), ..with_db() }).unwrap_err();
    assert!(err.0.contains("MAX_ARTIFACT_UPLOAD_BYTES"));
    assert!(err.0.starts_with("MAX_ARTIFACT_UPLOAD_BYTES is not a valid non-negative integer: "));
}

#[test]
fn dashboard_dist_is_none_when_unset_and_validates_trivially() {
    assert_eq!(load(with_db()).unwrap().dashboard_dist, None);
}

#[test]
fn dashboard_dist_rejects_an_empty_value() {
    let err = load(EnvValues { dashboard_dist: set(""), ..with_db() }).unwrap_err();
    assert!(err.0.contains("DASHBOARD_DIST"));
}

#[test]
fn variables_that_are_not_unicode_are_refused() {
    let err = load(EnvValues { trash_dir: EnvValue::NotUnicode, ..with_db() }).unwrap_err();
    assert_eq!(err.0, "TRASH_DIR environment variable is not valid UTF-8");
    let err = load(EnvValues { database_url: EnvValue::NotUnicode, ..env() }).unwrap_err();
    assert_eq!(err.0, "DATABASE_URL environment variable is not set");
}

#[test]
fn paths_join_like_path_join() {
    assert_eq!(join_path("data", "artifacts"), "data/artifacts");
    assert_eq!(join_path("data/", "artifacts"), "data/artifacts");
    assert_eq!(join_path("data", "/abs"), "/abs");
    assert_eq!(join_path("", "x"), "x");
}
