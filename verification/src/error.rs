use vstd::prelude::*;

verus! {

/// Why a trial failed, by stage: filesystem, spawn or pseudo-terminal
/// trouble; a malformed registered script (embedded path only); or
/// completion invoked before any script was registered (embedded path
/// only). Every public operation reports one of these — no partial text is
/// ever returned disguised as success.
#[derive(Debug, PartialEq, Eq)]
pub enum TrialError {
    Io(String),
    Parse(String),
    Configuration(String),
}

impl TrialError {
    /// The human-readable description the error carries.
    pub open spec fn spec_message(self) -> Seq<char> {
        match self {
            TrialError::Io(m) => m@,
            TrialError::Parse(m) => m@,
            TrialError::Configuration(m) => m@,
        }
    }

    /// The human-readable description the error carries.
    pub fn message(&self) -> (r: &str)
        ensures
            r@ == self.spec_message(),
    {
        match self {
            TrialError::Io(m) => m.as_str(),
            TrialError::Parse(m) => m.as_str(),
            TrialError::Configuration(m) => m.as_str(),
        }
    }
}

} // verus!
