//! A level-filtered logger that writes to size- and time-rotated files.
//!
//! The crate holds the decisions of such a logger: which messages pass the
//! configured level, which rotation thresholds are permitted, how a
//! configuration is read from a JSON document, how a log file is named, and
//! when the active file is swapped for a new one. Every function states what
//! it returns in its contract. Opening and writing files is left to the
//! caller, who is told what to do by the value that each log call returns.

pub mod calendar;
pub mod caller;
pub mod clock;
pub mod config;
pub mod document;
pub mod error;
pub mod level;
pub mod logger;
pub mod naming;
pub mod text;
pub mod threshold;
pub mod writer;

pub use caller::CallerId;
pub use clock::Timestamp;
pub use config::{LogConfig, RollingConfig};
pub use document::Node;
pub use error::ConfigError;
pub use level::{should_emit, LogLevel};
pub use logger::{format_line, LogAction, Logger};
pub use naming::{log_file_name, sanitize_timestamp};
pub use threshold::{RollingSizeOptions, RollingTimeOptions};
pub use writer::ActiveFile;
