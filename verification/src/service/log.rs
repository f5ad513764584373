//! The log service: which plugin diagnostics reach the host's log, and at what level.

use vstd::prelude::*;

use crate::ffi::log::RVLogLevel;
use crate::plugin_string::StringLimitExceeded;

verus! {

/// Where a plugin's diagnostics go.
///
/// `file` and `line` are filled only when the plugin used the `rvfl_*` macros.
pub trait Log: Send + Sync {
    fn log(&self, level: LogLevel, file: Option<&str>, line: u32, message: &str);
}

/// Longest source-file name accepted with a log record, in bytes.
pub const LOG_FILE_LIMIT: usize = 1024;
/// Longest formatted log message accepted from the C shim, in bytes.
pub const LOG_MESSAGE_LIMIT: usize = 2047;

/// Severity a plugin logged at.
#[derive(Debug, Clone, Copy, PartialEq, Eq, PartialOrd, Ord, Structural)]
pub enum LogLevel {
    Trace,
    Debug,
    Info,
    Warn,
    Error,
    Fatal,
}

impl LogLevel {
    /// The level a raw ABI level is written at; one this ABI version does not define
    /// arrives as [`LogLevel::Info`].
    pub open spec fn spec_from_raw(raw: u32) -> LogLevel {
        if raw == 0 {
            LogLevel::Trace
        } else if raw == 1 {
            LogLevel::Debug
        } else if raw == 3 {
            LogLevel::Warn
        } else if raw == 4 {
            LogLevel::Error
        } else if raw == 5 {
            LogLevel::Fatal
        } else {
            LogLevel::Info
        }
    }

    /// A level this ABI version does not define arrives as [`LogLevel::Info`].
    pub fn from_raw(raw: u32) -> (level: LogLevel)
        ensures
            level == LogLevel::spec_from_raw(raw),
    {
        match RVLogLevel::from_raw(raw) {
            Some(RVLogLevel::Trace) => LogLevel::Trace,
            Some(RVLogLevel::Debug) => LogLevel::Debug,
            Some(RVLogLevel::Warn) => LogLevel::Warn,
            Some(RVLogLevel::Error) => LogLevel::Error,
            Some(RVLogLevel::Fatal) => LogLevel::Fatal,
            Some(RVLogLevel::Info) | None => LogLevel::Info,
        }
    }
}

/// One log line as it reaches the host.
#[derive(Debug, Clone, PartialEq, Eq)]
pub struct LogRecord {
    pub level: LogLevel,
    /// Filled only when the plugin used the `rvfl_*` macros.
    pub file: Option<String>,
    pub line: u32,
    pub message: String,
}

/// Turns what the C shim formatted into a record: dropped when the file name or the
/// message broke its limit, or the message is missing; a negative line reads as 0.
pub fn log_record(
    level: u32,
    file: Result<Option<String>, StringLimitExceeded>,
    line: i32,
    message: Result<Option<String>, StringLimitExceeded>,
) -> (record: Option<LogRecord>)
    ensures
        match (file, message) {
            (Ok(f), Ok(Some(m))) => record == Some(
                LogRecord {
                    level: LogLevel::spec_from_raw(level),
                    file: f,
                    line: if line < 0 {
                        0u32
                    } else {
                        line as u32
                    },
                    message: m,
                },
            ),
            _ => record is None,
        },
{
    match (file, message) {
        (Ok(file), Ok(Some(message))) => {
            let line = if line < 0 {
                0u32
            } else {
                line as u32
            };
            Some(LogRecord { level: LogLevel::from_raw(level), file, line, message })
        },
        _ => None,
    }
}

} // verus!
