//! Helpers around the tunnel: text conversions, the lines of a
//! configuration file, the last component of a path, and what is decided
//! before the system is asked to log or to drop privileges.

pub mod config;
pub mod log;
pub mod path;
pub mod privilege;
pub mod text;

pub use config::{config_value, read_config, read_config_line, ConfigLine};
pub use log::{LogLevel, LogRecord, Severity, API_VERSION, LOG};
pub use path::get_basename_str;
pub use privilege::{privdrop, DropPlan, IdentityChange};
pub use text::{error_string, string_from_u8, urldecodable, urldecode, UtilError};
