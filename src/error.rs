use vstd::prelude::*;

verus! {

/// The ways in which a statistical computation can fail.
#[derive(Debug, Clone, Copy, PartialEq, Eq, Structural)]
pub enum Error {
    /// A sample value is not finite.
    BadSample,
    /// A numeric evaluation did not converge.
    Diverged,
    /// The sample holds no values.
    EmptySample,
    /// A function was asked for a value outside its domain.
    Undefined,
}

/// The message shown for each error kind.
pub open spec fn error_message(e: Error) -> Seq<char> {
    match e {
        Error::BadSample => "All sample data must be finite"@,
        Error::Diverged => "Numeric evaluation diverged"@,
        Error::EmptySample => "Sample data set cannot be empty"@,
        Error::Undefined => "Function undefined for argument"@,
    }
}

impl Error {
    /// A human-readable description of the error.
    pub fn message(&self) -> (r: &'static str)
        ensures
            r@ == error_message(*self),
    {
        match self {
            Error::BadSample => "All sample data must be finite",
            Error::Diverged => "Numeric evaluation diverged",
            Error::EmptySample => "Sample data set cannot be empty",
            Error::Undefined => "Function undefined for argument",
        }
    }
}

} // verus!
