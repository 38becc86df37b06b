//! What can go wrong before a child is spawned.

use vstd::prelude::*;
use vstd::string::StringExecFns;

verus! {

/// An error of this crate.
#[derive(Debug, Clone, Copy, PartialEq, Eq, Structural)]
#[non_exhaustive]
pub enum Error {
    /// The running executable lies in no directory, so nothing can be
    /// looked up beside it.
    CurrentExeHasNoParent,
}

impl Error {
    /// The error in words.
    pub fn message(&self) -> (text: String)
        ensures
            text@ == match *self {
                Error::CurrentExeHasNoParent => "current executable has no parent directory"@,
            },
    {
        match self {
            Error::CurrentExeHasNoParent => String::from_str(
                "current executable has no parent directory",
            ),
        }
    }
}

} // verus!
