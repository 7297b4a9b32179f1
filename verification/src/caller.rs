//! The call site to which a log line is attributed.

use vstd::prelude::*;
use vstd::string::StringExecFns;

verus! {

/// The name of the place from which a message was logged. It is written
/// into the log line as it is.
#[derive(Debug, Clone, PartialEq, Eq)]
pub struct CallerId {
    name: String,
}

impl View for CallerId {
    type V = Seq<char>;

    closed spec fn view(&self) -> Seq<char> {
        self.name@
    }
}

impl CallerId {
    /// The caller with the given name.
    pub fn new(name: String) -> (caller: CallerId)
        ensures
            caller@ == name@,
    {
        CallerId { name }
    }

    /// The caller of whom nothing is known. A message can always be logged
    /// under this name.
    pub fn unknown() -> (caller: CallerId)
        ensures
            caller@ == "unknown"@,
    {
        CallerId { name: String::from_str("unknown") }
    }

    /// The name as it appears in a log line.
    pub fn as_str(&self) -> (name: &str)
        ensures
            name@ == self@,
    {
        self.name.as_str()
    }
}

} // verus!
