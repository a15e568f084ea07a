use vstd::prelude::*;

verus! {

/// An argument handed to the library at start-up could not be used.
#[derive(Debug)]
pub enum InitError {
    /// The named argument is malformed; the second field says how.
    InvalidArgument(String, String),
}

/// Whether `e` reports the argument `field` as malformed with `detail`.
pub open spec fn is_invalid_argument(e: InitError, field: Seq<char>, detail: Seq<char>) -> bool {
    match e {
        InitError::InvalidArgument(f, d) => f@ == field && d@ == detail,
    }
}

} // verus!
