//! The error of the lookups at run time.

use vstd::prelude::*;
use vstd::string::StringExecFns;

verus! {

/// A name or a prefix that stands for no address format.
#[derive(Copy, Clone, PartialEq, Eq, Debug, Structural)]
pub struct ParseError;

impl ParseError {
    /// What the error says to a user.
    pub open spec fn message() -> Seq<char> {
        "failed to parse network value as u16"@
    }

    /// The text of the error.
    pub fn to_string(&self) -> (s: String)
        ensures
            s@ == Self::message(),
    {
        String::from_str("failed to parse network value as u16")
    }
}

} // verus!
