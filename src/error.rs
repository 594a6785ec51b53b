use vstd::prelude::*;

verus! {

/// The ways a run can fail: the input could not be read, its contents are not
/// a JSON array of non-negative integers, or a command-line argument is invalid.
#[derive(Debug, Clone, Copy, PartialEq, Eq, Structural)]
pub enum CountError {
    FileError,
    ParseError,
    ArgumentError,
}

} // verus!
