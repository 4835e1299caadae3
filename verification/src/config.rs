//! Run-time configuration of the tracker core, with its validity rules:
//! the sampling, idle and rotation intervals must all be positive. Argument
//! and environment handling stays outside the library; it hands in plain
//! values.

use vstd::prelude::*;

verus! {

/// Default sampling interval in milliseconds.
pub const DEFAULT_POLL_MS: u64 = 1000;

/// Default idle threshold in seconds.
pub const DEFAULT_IDLE_SECS: u64 = 300;

/// Default segment rotation interval in seconds.
pub const DEFAULT_ROTATE_SECS: u64 = 10;

/// A rejected configuration value.
#[derive(Debug, Clone, Copy, PartialEq, Eq, Structural)]
pub enum ConfigError {
    ZeroPollInterval,
    ZeroIdleThreshold,
    ZeroRotateInterval,
}

impl ConfigError {
    /// A short description of the rejected value, for diagnostics.
    pub fn describe(&self) -> &'static str {
        match self {
            ConfigError::ZeroPollInterval => "--poll-ms must be greater than zero",
            ConfigError::ZeroIdleThreshold => "--idle-secs must be greater than zero",
            ConfigError::ZeroRotateInterval => "--rotate-secs must be greater than zero",
        }
    }
}

/// The tracker's configuration: where the store lives, how often to sample,
/// when to call the user idle, and how often to rotate an open segment.
#[derive(Debug)]
pub struct Config {
    pub db_path: String,
    pub poll_interval_ms: u64,
    pub idle_threshold_secs: u64,
    pub rotate_segment_every_secs: u64,
}

impl Config {
    /// Builds a configuration from plain values, rejecting zero intervals in
    /// the order the values are listed.
    pub fn from_values(db_path: String, poll_ms: u64, idle_secs: u64, rotate_secs: u64) -> (r:
        Result<Config, ConfigError>)
        ensures
            r is Ok <==> poll_ms > 0 && idle_secs > 0 && rotate_secs > 0,
            poll_ms == 0 ==> r == Err::<Config, ConfigError>(ConfigError::ZeroPollInterval),
            poll_ms > 0 && idle_secs == 0 ==> r == Err::<Config, ConfigError>(
                ConfigError::ZeroIdleThreshold,
            ),
            poll_ms > 0 && idle_secs > 0 && rotate_secs == 0 ==> r == Err::<Config, ConfigError>(
                ConfigError::ZeroRotateInterval,
            ),
            r is Ok ==> ({
                let c = r->Ok_0;
                &&& c.db_path@ == db_path@
                &&& c.poll_interval_ms == poll_ms
                &&& c.idle_threshold_secs == idle_secs
                &&& c.rotate_segment_every_secs == rotate_secs
            }),
    {
        if poll_ms == 0 {
            return Err(ConfigError::ZeroPollInterval);
        }
        if idle_secs == 0 {
            return Err(ConfigError::ZeroIdleThreshold);
        }
        if rotate_secs == 0 {
            return Err(ConfigError::ZeroRotateInterval);
        }
        Ok(
            Config {
                db_path,
                poll_interval_ms: poll_ms,
                idle_threshold_secs: idle_secs,
                rotate_segment_every_secs: rotate_secs,
            },
        )
    }
}

} // verus!
