//! The error type shared by the configuration and script modules.
use vstd::prelude::*;

verus! {

/// How an error is to be treated by whoever receives it.
#[derive(Debug, Clone, Copy, PartialEq, Eq, Structural)]
pub enum TuliproxErrorKind {
    /// To be reported to the operator.
    Notify,
    /// To be shown where it arose.
    Info,
}

/// An error with its message.
#[derive(Debug)]
pub struct TuliproxError {
    pub kind: TuliproxErrorKind,
    pub message: String,
}

impl TuliproxError {
    pub fn new(kind: TuliproxErrorKind, message: String) -> (r: TuliproxError)
        ensures
            r.kind == kind,
            r.message == message,
    {
        TuliproxError { kind, message }
    }

    /// The message of the error.
    pub fn to_string(&self) -> (r: String)
        ensures
            r@ == self.message@,
    {
        self.message.clone()
    }
}

/// An error of kind `Info` with the given message.
pub fn info_err(message: String) -> (r: TuliproxError)
    ensures
        r.kind == TuliproxErrorKind::Info,
        r.message == message,
{
    TuliproxError { kind: TuliproxErrorKind::Info, message }
}

/// Whether a result is the `Info` error with the given message.
pub open spec fn is_info_error(r: Result<(), TuliproxError>, message: Seq<char>) -> bool {
    r matches Err(e) && e.kind == TuliproxErrorKind::Info && e.message@ == message
}

} // verus!
