//! Identifiers for resolved methods and fields.
//!
//! Identifiers are not references: they are not garbage collected, they
//! are not tied to a call context, and holding one creates no release
//! obligation. They stay meaningful for as long as the runtime keeps the
//! class they were resolved on, which in this model is forever.

use vstd::prelude::*;

verus! {

/// The raw representation of a method or field identifier: an index into
/// the runtime's table of resolved members. The value 0 is never issued.
pub type RawId = usize;

/// An identifier for a resolved instance method.
#[derive(Clone, Copy, Debug, PartialEq, Eq, Structural)]
pub struct JMethodID {
    pub internal: RawId,
}

impl JMethodID {
    /// The raw identifier value.
    pub open spec fn raw_spec(self) -> RawId {
        self.internal
    }

    /// Wraps a raw identifier value obtained from the runtime.
    pub fn from_raw(raw: RawId) -> (r: JMethodID)
        ensures
            r.raw_spec() == raw,
    {
        JMethodID { internal: raw }
    }

    /// Unwraps to the raw identifier value.
    pub fn into_inner(self) -> (r: RawId)
        ensures
            r == self.raw_spec(),
    {
        self.internal
    }
}

/// An identifier for a resolved static method.
#[derive(Clone, Copy, Debug, PartialEq, Eq, Structural)]
pub struct JStaticMethodID {
    pub internal: RawId,
}

impl JStaticMethodID {
    /// The raw identifier value.
    pub open spec fn raw_spec(self) -> RawId {
        self.internal
    }

    /// Wraps a raw identifier value obtained from the runtime.
    pub fn from_raw(raw: RawId) -> (r: JStaticMethodID)
        ensures
            r.raw_spec() == raw,
    {
        JStaticMethodID { internal: raw }
    }

    /// Unwraps to the raw identifier value.
    pub fn into_inner(self) -> (r: RawId)
        ensures
            r == self.raw_spec(),
    {
        self.internal
    }
}

/// An identifier for a resolved instance field.
#[derive(Clone, Copy, Debug, PartialEq, Eq, Structural)]
pub struct JFieldID {
    pub internal: RawId,
}

impl JFieldID {
    /// The raw identifier value.
    pub open spec fn raw_spec(self) -> RawId {
        self.internal
    }

    /// Wraps a raw identifier value obtained from the runtime.
    pub fn from_raw(raw: RawId) -> (r: JFieldID)
        ensures
            r.raw_spec() == raw,
    {
        JFieldID { internal: raw }
    }

    /// Unwraps to the raw identifier value.
    pub fn into_inner(self) -> (r: RawId)
        ensures
            r == self.raw_spec(),
    {
        self.internal
    }
}

/// An identifier for a resolved static field.
#[derive(Clone, Copy, Debug, PartialEq, Eq, Structural)]
pub struct JStaticFieldID {
    pub internal: RawId,
}

impl JStaticFieldID {
    /// The raw identifier value.
    pub open spec fn raw_spec(self) -> RawId {
        self.internal
    }

    /// Wraps a raw identifier value obtained from the runtime.
    pub fn from_raw(raw: RawId) -> (r: JStaticFieldID)
        ensures
            r.raw_spec() == raw,
    {
        JStaticFieldID { internal: raw }
    }

    /// Unwraps to the raw identifier value.
    pub fn into_inner(self) -> (r: RawId)
        ensures
            r == self.raw_spec(),
    {
        self.internal
    }
}

} // verus!
