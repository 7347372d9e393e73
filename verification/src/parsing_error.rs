//! The error of a failed parse.

use vstd::prelude::*;
use vstd::string::StringExecFns;

verus! {

/// Says why a fragment or a link could not be parsed.
#[derive(Debug, Clone)]
pub struct ParsingError {
    msg: String,
}

impl ParsingError {
    /// The text of the error.
    pub closed spec fn spec_message(&self) -> Seq<char> {
        self.msg@
    }

    /// An error that carries `msg`.
    pub fn new(msg: &str) -> (error: ParsingError)
        ensures
            error.spec_message() == msg@,
    {
        ParsingError { msg: String::from_str(msg) }
    }

    /// The text of the error.
    pub fn to_string(&self) -> (msg: String)
        ensures
            msg@ == self.spec_message(),
    {
        self.msg.clone()
    }
}

} // verus!
