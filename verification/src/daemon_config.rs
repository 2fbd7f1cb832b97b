//! The daemon's own settings, the checks its configuration must pass, and
//! the audio service's errors.

use vstd::prelude::*;
use vstd::string::StringExecFns;
use crate::text::{decimal, prefixed, push_decimal};

verus! {

/// The daemon's own settings.
#[derive(Debug, Clone)]
pub struct DaemonConfig {
    pub log_level: String,
    pub socket_path: String,
}

/// The runtime directory used when none is set: `/run/user/<uid>`.
pub open spec fn fallback_runtime_dir(uid: u32) -> Seq<char> {
    "/run/user/"@ + decimal(uid as nat)
}

impl DaemonConfig {
    /// The default settings for a user: log level `info`, and the socket
    /// `crawl.sock` in the runtime directory, which is `runtime_dir` when it
    /// is set and `/run/user/<uid>` otherwise.
    pub fn with_runtime(runtime_dir: Option<&str>, uid: u32) -> (c: Self)
        ensures
            c.log_level@ == "info"@,
            c.socket_path@ == (match runtime_dir {
                Some(d) => d@,
                None => fallback_runtime_dir(uid),
            }) + "/crawl.sock"@,
    {
        let mut dir = match runtime_dir {
            Some(d) => String::from_str(d),
            None => {
                let mut d = String::from_str("/run/user/");
                push_decimal(&mut d, uid as u64);
                d
            },
        };
        dir.append("/crawl.sock");
        DaemonConfig { log_level: String::from_str("info"), socket_path: dir }
    }
}

/// What the configuration checks look at. The thresholds are percentages
/// held as floating-point numbers; whether each lies in `0.0..=100.0` is
/// given.
#[derive(Debug, Clone)]
pub struct ConfigChecks {
    pub socket_path: String,
    pub cpu_spike_threshold_in_range: bool,
    pub mem_pressure_threshold_in_range: bool,
    pub poll_interval_ms: u64,
    pub processes_top: usize,
    pub processes_top_interval_ms: u64,
}

/// The first check the configuration fails, in the order the daemon makes
/// them, with its message; `None` when it passes them all.
pub open spec fn first_config_failure(c: ConfigChecks) -> Option<Seq<char>> {
    if c.socket_path@.len() == 0 {
        Some("daemon.socket_path cannot be empty"@)
    } else if !c.cpu_spike_threshold_in_range {
        Some("sysmon.cpu_spike_threshold must be 0.0-100.0"@)
    } else if !c.mem_pressure_threshold_in_range {
        Some("sysmon.mem_pressure_threshold must be 0.0-100.0"@)
    } else if c.poll_interval_ms == 0 {
        Some("sysmon.poll_interval_ms must be > 0"@)
    } else if c.processes_top == 0 {
        Some("processes.top must be > 0"@)
    } else if c.processes_top_interval_ms == 0 {
        Some("processes.top_interval_ms must be > 0"@)
    } else {
        None
    }
}

/// Checks a loaded configuration; the error is the message of the first
/// check that fails.
pub fn validate(c: &ConfigChecks) -> (r: Result<(), String>)
    ensures
        match r {
            Ok(()) => first_config_failure(*c) is None,
            Err(m) => first_config_failure(*c) == Some(m@),
        },
{
    if c.socket_path.as_str().is_empty() {
        Err(String::from_str("daemon.socket_path cannot be empty"))
    } else if !c.cpu_spike_threshold_in_range {
        Err(String::from_str("sysmon.cpu_spike_threshold must be 0.0-100.0"))
    } else if !c.mem_pressure_threshold_in_range {
        Err(String::from_str("sysmon.mem_pressure_threshold must be 0.0-100.0"))
    } else if c.poll_interval_ms == 0 {
        Err(String::from_str("sysmon.poll_interval_ms must be > 0"))
    } else if c.processes_top == 0 {
        Err(String::from_str("processes.top must be > 0"))
    } else if c.processes_top_interval_ms == 0 {
        Err(String::from_str("processes.top_interval_ms must be > 0"))
    } else {
        Ok(())
    }
}

// ── Audio errors ─────────────────────────────────────────────────────────────

/// Errors of the audio service.
#[derive(Debug, Clone)]
pub enum AudioError {
    Connection(String),
    SinkNotFound(String),
    OperationFailed(String),
}

/// What an audio error says.
pub open spec fn audio_error_text(e: AudioError) -> Seq<char> {
    match e {
        AudioError::Connection(m) => "PulseAudio connection failed: "@ + m@,
        AudioError::SinkNotFound(m) => "sink not found: "@ + m@,
        AudioError::OperationFailed(m) => "operation failed: "@ + m@,
    }
}

impl AudioError {
    /// The error's text.
    pub fn message(&self) -> (m: String)
        ensures
            m@ == audio_error_text(*self),
    {
        match self {
            AudioError::Connection(m) => prefixed("PulseAudio connection failed: ", m.as_str()),
            AudioError::SinkNotFound(m) => prefixed("sink not found: ", m.as_str()),
            AudioError::OperationFailed(m) => prefixed("operation failed: ", m.as_str()),
        }
    }
}

} // verus!
