//! The primitive kinds of the foreign calling convention.

use vstd::prelude::*;

verus! {

/// The primitive kinds a value union can carry besides an object handle.
#[derive(Clone, Copy, Debug, PartialEq, Eq, Structural)]
pub enum Primitive {
    Boolean,
    Byte,
    Char,
    Short,
    Int,
    Long,
    Float,
    Double,
    Void,
}

/// The return kind a caller declares for a foreign method call. The caller
/// of a call primitive must declare the kind that the resolved method
/// actually returns.
#[derive(Clone, Copy, Debug, PartialEq, Eq, Structural)]
pub enum ReturnType {
    Object,
    Primitive(Primitive),
}

} // verus!
