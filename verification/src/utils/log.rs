//! What goes to the system log.
//!
//! The library writes to no log. It decides what a log call amounts to: the
//! severity, the format that the message is written under, and whether the
//! two can be handed to the system log at all.

use vstd::prelude::*;
use vstd::string::StringExecFns;

use crate::utils::text::{contains_nul, has_nul, UtilError};

verus! {

/// The version of the interface.
pub const API_VERSION: &'static str = "0.1.0";

/// The name that the log entries carry.
pub const DAEMON_NAME: &'static str = "antd-tunnel";

/// The levels of logging.
#[derive(Clone, Copy, Debug, PartialEq, Eq, Structural)]
pub enum LogLevel {
    /// Error conditions.
    ERROR,
    /// Normal, but significant, condition.
    INFO,
    /// Warning conditions.
    WARN,
}

/// The severities of the system log that the levels are written under.
#[derive(Clone, Copy, Debug, PartialEq, Eq, Structural)]
pub enum Severity {
    Error,
    Warning,
    Notice,
}

impl LogLevel {
    /// The severity of a level: errors as errors, warnings as warnings and
    /// everything else as a notice.
    pub open spec fn severity_of(self) -> Severity {
        match self {
            LogLevel::ERROR => Severity::Error,
            LogLevel::WARN => Severity::Warning,
            LogLevel::INFO => Severity::Notice,
        }
    }

    /// The severity that a level is logged under.
    pub fn severity(&self) -> (severity: Severity)
        ensures
            severity == self.severity_of(),
    {
        match self {
            LogLevel::ERROR => Severity::Error,
            LogLevel::WARN => Severity::Warning,
            _ => Severity::Notice,
        }
    }
}

/// One entry for the system log.
#[derive(Clone, Debug, PartialEq, Eq)]
pub struct LogRecord {
    pub severity: Severity,
    /// The format: the name of the daemon, the version, the prefix, and the
    /// place of the message.
    pub format: String,
    pub message: String,
}

/// The format of an entry with the given prefix.
pub open spec fn log_format(prefix: Seq<char>) -> Seq<char> {
    DAEMON_NAME@ + "(v"@ + API_VERSION@ + ")"@ + prefix + "%s\n"@
}

/// The system log.
pub struct LOG {}

impl LOG {
    /// Prepares an entry for the system log.
    ///
    /// The system log takes C strings, so a prefix or a message that holds
    /// a NUL character cannot be logged.
    pub fn log(prefix: &str, level: &LogLevel, message: &str) -> (r: Result<LogRecord, UtilError>)
        ensures
            has_nul(prefix@) || has_nul(message@) ==> r == Err::<LogRecord, UtilError>(
                UtilError::InteriorNul,
            ),
            !has_nul(prefix@) && !has_nul(message@) ==> (r matches Ok(record) && record.severity
                == level.severity_of() && record.format@ == log_format(prefix@) && record.message@
                == message@),
    {
        if contains_nul(prefix) || contains_nul(message) {
            return Err(UtilError::InteriorNul);
        }
        let mut format = String::from_str(DAEMON_NAME);
        format.append("(v");
        format.append(API_VERSION);
        format.append(")");
        format.append(prefix);
        format.append("%s\n");
        Ok(LogRecord { severity: level.severity(), format, message: String::from_str(message) })
    }
}

} // verus!
