use vstd::prelude::*;

verus! {

/// The classes of failure that the library reports.
#[derive(Clone, Copy, Debug, PartialEq, Eq, Structural)]
pub enum ErrorKind {
    /// Bad parameters: zero window sizes, mismatched counts, invalid month numbers.
    Config,
    /// The date ranges of several series do not overlap by more than one month.
    Alignment,
    /// No price series was given.
    EmptyInput,
    /// The series are too short to simulate a single step.
    TooShort,
    /// A payment expression could not be evaluated.
    Evaluation,
    /// A search found no candidate.
    NotFound,
}

/// An error value with its class and a human-readable message.
#[derive(Clone, Debug)]
pub struct BlcError {
    pub kind: ErrorKind,
    pub msg: String,
}

pub type BlcResult<T> = Result<T, BlcError>;

impl BlcError {
    /// A configuration error carrying `msg`.
    pub fn new(msg: &str) -> (r: Self)
        ensures
            r.kind == ErrorKind::Config,
            r.msg@ == msg@,
    {
        BlcError { kind: ErrorKind::Config, msg: String::from_str(msg) }
    }

    /// An error of the given class carrying `msg`.
    pub fn with_kind(kind: ErrorKind, msg: &str) -> (r: Self)
        ensures
            r.kind == kind,
            r.msg@ == msg@,
    {
        BlcError { kind, msg: String::from_str(msg) }
    }
}

} // verus!
