use limetrace_backend::config::{
    Config, ConfigError, DEFAULT_IDLE_SECS, DEFAULT_POLL_MS, DEFAULT_ROTATE_SECS,
};

#[test]
fn from_values_accepts_positive_intervals() {
    let c = Config::from_values(String::from("data/tracker.db"), 1000, 300, 10).unwrap();
    assert_eq!(c.db_path, "data/tracker.db");
    assert_eq!(c.poll_interval_ms, 1000);
    assert_eq!(c.idle_threshold_secs, 300);
    assert_eq!(c.rotate_segment_every_secs, 10);
}

#[test]
fn from_values_accepts_defaults() {
    let c = Config::from_values(
        String::from("tracker.db"),
        DEFAULT_POLL_MS,
        DEFAULT_IDLE_SECS,
        DEFAULT_ROTATE_SECS,
    )
    .unwrap();
    assert_eq!(c.poll_interval_ms, 1000);
    assert_eq!(c.idle_threshold_secs, 300);
    assert_eq!(c.rotate_segment_every_secs, 10);
}

#[test]
fn from_values_rejects_zero_poll_interval() {
    let r = Config::from_values(String::from("x.db"), 0, 300, 10);
    assert_eq!(r.unwrap_err(), ConfigError::ZeroPollInterval);
}

#[test]
fn from_values_rejects_zero_idle_threshold() {
    let r = Config::from_values(String::from("x.db"), 1000, 0, 10);
    assert_eq!(r.unwrap_err(), ConfigError::ZeroIdleThreshold);
}

#[test]
fn from_values_rejects_zero_rotate_interval() {
    let r = Config::from_values(String::from("x.db"), 1000, 300, 0);
    assert_eq!(r.unwrap_err(), ConfigError::ZeroRotateInterval);
}

#[test]
fn from_values_reports_first_offending_value() {
    let r = Config::from_values(String::from("x.db"), 0, 0, 0);
    assert_eq!(r.unwrap_err(), ConfigError::ZeroPollInterval);
}

#[test]
fn config_error_describes_each_variant() {
    assert_eq!(
        ConfigError::ZeroPollInterval.describe(),
        "--poll-ms must be greater than zero"
    );
    assert_eq!(
        ConfigError::ZeroIdleThreshold.describe(),
        "--idle-secs must be greater than zero"
    );
    assert_eq!(
        ConfigError::ZeroRotateInterval.describe(),
        "--rotate-secs must be greater than zero"
    );
}
