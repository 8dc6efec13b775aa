use vstd::prelude::*;

verus! {

/// Failure taxonomy of the whole adapter.
///
/// The codec reports `MalformedHex`, `IntegerOverflow` and
/// `MissingRequiredField`; request validation reports `InvalidRange` and
/// `InvalidCursor`; the single-block lookup reports `NotFound`; and
/// `InvariantViolation` is the defensive case of a hot phase entered without
/// an established head marker.
#[derive(Clone, Copy, Debug, PartialEq, Eq, Structural)]
pub enum FirehoseError {
    MalformedHex,
    IntegerOverflow,
    MissingRequiredField,
    InvalidRange,
    InvalidCursor,
    NotFound,
    InvariantViolation,
}

} // verus!
