//! The failure kinds that operations of this crate can report.

use vstd::prelude::*;

use crate::jvalueowned::ValueKind;

verus! {

/// Every fallible operation of this crate reports one of these kinds.
///
/// - `NotFound`: a class, method or field descriptor did not resolve.
/// - `NullPtr`: a call legitimately returned the foreign null; the map
///   adapter turns this into "no prior mapping" rather than a failure.
/// - `WrongJValueType`: a value union was narrowed to the wrong kind; the
///   payload names the expected and the actual kind, in that order.
/// - `JavaException`: a call into the foreign runtime raised an exception,
///   treated as an ordinary failure result at this layer.
#[derive(Clone, Copy, Debug, PartialEq, Eq, Structural)]
pub enum Error {
    NotFound,
    NullPtr,
    WrongJValueType(ValueKind, ValueKind),
    JavaException,
}

} // verus!
