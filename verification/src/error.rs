use vstd::prelude::*;

verus! {

/// The ways a transform or row mutation can fail.
#[derive(Clone, Copy, PartialEq, Eq, Structural, Debug)]
pub enum Error {
    /// The input's runtime type does not match what the operation requires.
    TypeMismatch,
    /// A row index lies outside the valid range.
    IndexOutOfRange,
}

} // verus!
