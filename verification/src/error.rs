use vstd::prelude::*;

verus! {

/// The error taxonomy of the fuzzing core.
///
/// Per-execution failures of the target (crash, timeout, out-of-memory) are
/// never errors: they are `ExitKind` values consumed by feedbacks.
#[derive(Clone, Debug)]
pub enum Error {
    /// Serialization or deserialization failed.
    Serialize(String),
    /// A file operation failed; carries the path and the cause.
    File(String, String),
    /// An optional value was empty where a value was owed.
    EmptyOptional(String),
    /// A typed metadata key was not present.
    KeyNotFound(String),
    /// The caller handed arguments the callee cannot work with.
    InvalidArguments(String),
    /// An operation was attempted in a state that does not allow it.
    IllegalState(String),
    /// A component was used before its setup completed.
    Uninitialized(String),
    /// Sentinel raised to tell the fuzzer child to exit gracefully.
    ShuttingDown,
}

impl Error {
    /// A short stable label for the error kind, for logs and tests.
    pub fn kind_label(&self) -> (r: &'static str)
        ensures
            r@ == self.spec_kind_label(),
    {
        match self {
            Error::Serialize(_) => "serialize",
            Error::File(_, _) => "file",
            Error::EmptyOptional(_) => "empty_optional",
            Error::KeyNotFound(_) => "key_not_found",
            Error::InvalidArguments(_) => "invalid_arguments",
            Error::IllegalState(_) => "illegal_state",
            Error::Uninitialized(_) => "uninitialized",
            Error::ShuttingDown => "shutting_down",
        }
    }

    pub open spec fn spec_kind_label(&self) -> Seq<char> {
        match self {
            Error::Serialize(_) => "serialize"@,
            Error::File(_, _) => "file"@,
            Error::EmptyOptional(_) => "empty_optional"@,
            Error::KeyNotFound(_) => "key_not_found"@,
            Error::InvalidArguments(_) => "invalid_arguments"@,
            Error::IllegalState(_) => "illegal_state"@,
            Error::Uninitialized(_) => "uninitialized"@,
            Error::ShuttingDown => "shutting_down"@,
        }
    }

    /// Whether this error is the graceful-shutdown sentinel.
    pub fn is_shutting_down(&self) -> (r: bool)
        ensures
            r == (self is ShuttingDown),
    {
        match self {
            Error::ShuttingDown => true,
            _ => false,
        }
    }
}

} // verus!
