//! The object handle: the atomic unit every other component builds on.

use vstd::prelude::*;

verus! {

/// The raw representation of a foreign object reference. The value 0 is
/// the foreign `null`; every other value names a slot of the runtime's
/// heap. A raw value carries no validity of its own: whether it may be
/// used is decided by the runtime model it is presented to.
pub type RawObject = usize;

/// A non-owning handle to a foreign object: a raw reference value, nothing
/// more. A null-valued handle is a real value, distinct from the absence
/// of a handle (`Option::None`).
///
/// A handle performs no validation itself; operations of the runtime model
/// state as preconditions which handles they accept. The handle does not
/// own a release obligation: that is the business of the guards in
/// `auto_local` and `global_ref`.
#[derive(Clone, Copy, Debug, PartialEq, Eq, Structural)]
pub struct JObject {
    pub raw: RawObject,
}

impl JObject {
    /// The raw reference value this handle wraps.
    pub open spec fn raw_spec(self) -> RawObject {
        self.raw
    }

    /// Whether this handle is the foreign `null`.
    pub open spec fn is_null_spec(self) -> bool {
        self.raw == 0
    }

    /// Wraps the given raw reference value. The caller vouches that the
    /// value is either null or one obtained from the runtime; nothing is
    /// checked here, and an invented value is rejected later by the
    /// precondition of whatever operation it is passed to.
    pub fn from_raw(raw: RawObject) -> (r: JObject)
        ensures
            r.raw_spec() == raw,
    {
        JObject { raw }
    }

    /// Unwraps to the raw reference value, consuming the handle.
    pub fn into_raw(self) -> (r: RawObject)
        ensures
            r == self.raw_spec(),
    {
        self.raw
    }

    /// The raw reference value, without consuming the handle.
    pub fn as_raw(&self) -> (r: RawObject)
        ensures
            r == self.raw_spec(),
    {
        self.raw
    }

    /// Creates a new null handle.
    pub fn null() -> (r: JObject)
        ensures
            r.raw_spec() == 0,
            r.is_null_spec(),
    {
        JObject { raw: 0 }
    }

    /// Whether this handle is the foreign `null`.
    pub fn is_null(&self) -> (r: bool)
        ensures
            r == self.is_null_spec(),
    {
        self.raw == 0
    }
}

impl Default for JObject {
    /// The default handle is the null handle.
    fn default() -> (r: Self)
        ensures
            r.raw_spec() == 0,
    {
        JObject::null()
    }
}

} // verus!
