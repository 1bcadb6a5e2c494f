//! The errors the tools report.
use vstd::prelude::*;

verus! {

/// An error of a tool run: a rejected argument or a failure while running.
#[derive(Debug)]
pub enum ToolError {
    /// The arguments were refused.
    InvalidArg(String),
    /// The run failed.
    Runtime(String),
}

impl ToolError {
    /// The error as `(is_invalid_arg, message text)`.
    pub open spec fn parts(&self) -> (bool, Seq<char>) {
        match self {
            ToolError::InvalidArg(m) => (true, m@),
            ToolError::Runtime(m) => (false, m@),
        }
    }
}

/// An argument error with the message `m`.
pub open spec fn invalid_arg(m: Seq<char>) -> (bool, Seq<char>) {
    (true, m)
}

/// A run-time error with the message `m`.
pub open spec fn runtime(m: Seq<char>) -> (bool, Seq<char>) {
    (false, m)
}

} // verus!
