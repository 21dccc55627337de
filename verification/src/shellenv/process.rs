//! Why a process could not be started.
use vstd::prelude::*;

verus! {

/// An error in starting a process.
#[derive(Copy, Clone, PartialEq, Eq, Debug, Structural)]
pub enum ProcessError {
    NoArgs,
    CouldNotStartProcess,
}

impl ProcessError {
    /// The message of the error.
    pub fn to_string(&self) -> (s: String)
        ensures
            s@ == match *self {
                ProcessError::NoArgs => "Process was not provided of enough process"@,
                ProcessError::CouldNotStartProcess => "Could not start process"@,
            },
    {
        match self {
            ProcessError::NoArgs => String::from_str("Process was not provided of enough process"),
            ProcessError::CouldNotStartProcess => String::from_str("Could not start process"),
        }
    }
}

} // verus!
