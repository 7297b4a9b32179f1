//! The severity levels and the rule that filters messages by them.

use vstd::prelude::*;
use vstd::string::StringExecFns;
use crate::error::ConfigError;

verus! {

/// The severity of a message, from the least to the most severe.
#[derive(Debug, Clone, Copy, PartialEq, Eq, PartialOrd, Ord, Hash, Structural)]
pub enum LogLevel {
    Debug,
    Info,
    Warn,
    Error,
    Critical,
}

impl LogLevel {
    /// The position of the level in the order of severity, from 0 to 4.
    pub open spec fn spec_severity(self) -> u64 {
        match self {
            LogLevel::Debug => 0,
            LogLevel::Info => 1,
            LogLevel::Warn => 2,
            LogLevel::Error => 3,
            LogLevel::Critical => 4,
        }
    }

    /// The level whose severity is `num`, if there is one.
    pub open spec fn of_severity(num: u64) -> Option<LogLevel> {
        if num == 0 {
            Some(LogLevel::Debug)
        } else if num == 1 {
            Some(LogLevel::Info)
        } else if num == 2 {
            Some(LogLevel::Warn)
        } else if num == 3 {
            Some(LogLevel::Error)
        } else if num == 4 {
            Some(LogLevel::Critical)
        } else {
            None
        }
    }

    /// The upper-case name under which the level appears in a log line.
    pub open spec fn label(self) -> Seq<char> {
        match self {
            LogLevel::Debug => "DEBUG"@,
            LogLevel::Info => "INFO"@,
            LogLevel::Warn => "WARN"@,
            LogLevel::Error => "ERROR"@,
            LogLevel::Critical => "CRITICAL"@,
        }
    }

    /// The position of the level in the order of severity.
    #[verifier::when_used_as_spec(spec_severity)]
    pub fn severity(self) -> (s: u64)
        ensures
            s == self.spec_severity(),
            s <= 4,
    {
        match self {
            LogLevel::Debug => 0,
            LogLevel::Info => 1,
            LogLevel::Warn => 2,
            LogLevel::Error => 3,
            LogLevel::Critical => 4,
        }
    }

    /// Finds the level with the given severity. Numbers above 4 name no level
    /// and are rejected.
    pub fn from_u64(num: u64) -> (r: Result<LogLevel, ConfigError>)
        ensures
            match r {
                Ok(level) => LogLevel::of_severity(num) == Some(level),
                Err(e) => LogLevel::of_severity(num).is_none() && e == ConfigError::InvalidLevel,
            },
    {
        match num {
            0 => Ok(LogLevel::Debug),
            1 => Ok(LogLevel::Info),
            2 => Ok(LogLevel::Warn),
            3 => Ok(LogLevel::Error),
            4 => Ok(LogLevel::Critical),
            _ => Err(ConfigError::InvalidLevel),
        }
    }

    /// The name of the level as it is written in a log line.
    pub fn as_str(&self) -> (name: &'static str)
        ensures
            name@ == self.label(),
    {
        match self {
            LogLevel::Debug => "DEBUG",
            LogLevel::Info => "INFO",
            LogLevel::Warn => "WARN",
            LogLevel::Error => "ERROR",
            LogLevel::Critical => "CRITICAL",
        }
    }

    /// The name of the level as an owned string.
    pub fn to_string(&self) -> (name: String)
        ensures
            name@ == self.label(),
    {
        String::from_str(self.as_str())
    }

    /// Severities and levels correspond one to one: `of_severity` undoes
    /// `severity`, a number names a level exactly when it is at most 4, and
    /// two levels with the same severity are the same level.
    pub proof fn lemma_severity_names_level(level: LogLevel, other: LogLevel, num: u64)
        ensures
            LogLevel::of_severity(level.severity()) == Some(level),
            LogLevel::of_severity(num).is_some() <==> num <= 4,
            LogLevel::of_severity(num) == Some(level) <==> level.severity() == num,
            level.severity() == other.severity() <==> level == other,
    {
    }
}

/// Decides whether a message is written: it is when its level is at least as
/// severe as the configured one.
pub fn should_emit(message_level: LogLevel, configured_level: LogLevel) -> (emit: bool)
    ensures
        emit == (message_level.severity() >= configured_level.severity()),
{
    message_level.severity() >= configured_level.severity()
}

} // verus!
