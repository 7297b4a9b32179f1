//! Errors reported while a configuration is built.

use vstd::prelude::*;
use vstd::string::StringExecFns;

verus! {

/// Why a configuration could not be built.
#[derive(Debug, Clone, Copy, PartialEq, Eq, Structural)]
pub enum ConfigError {
    /// The document could not be read as a configuration at all: its text is
    /// not JSON, it is not a key/value document, or an entry that must be a
    /// string or a nested document is something else.
    LoadFailed,
    /// The `level` entry is not an integer between 0 and 4.
    InvalidLevel,
    /// A rotation threshold is not a member of its catalog.
    InvalidThreshold,
}

impl ConfigError {
    /// The sentence that `message` returns for this error.
    pub open spec fn message_text(self) -> Seq<char> {
        match self {
            ConfigError::LoadFailed => "the configuration document could not be read"@,
            ConfigError::InvalidLevel => "the log level must be an integer from 0 to 4"@,
            ConfigError::InvalidThreshold =>
                "the rotation threshold is not one of the permitted values"@,
        }
    }

    /// A sentence that says which validation failed.
    pub fn message(&self) -> (text: String)
        ensures
            text@ == self.message_text(),
    {
        match self {
            ConfigError::LoadFailed => String::from_str(
                "the configuration document could not be read",
            ),
            ConfigError::InvalidLevel => String::from_str(
                "the log level must be an integer from 0 to 4",
            ),
            ConfigError::InvalidThreshold => String::from_str(
                "the rotation threshold is not one of the permitted values",
            ),
        }
    }
}

} // verus!
