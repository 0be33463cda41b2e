//! The local-reference guard: release-on-scope-exit, exactly once.
//!
//! Local references are the scarce, capacity-bounded resource of the
//! foreign interface: every lookup and call records one, and a call
//! context only reclaims them when it ends. This guard ties a handle to
//! a single release obligation. Consuming the guard with
//! [`AutoLocal::release`] performs the release call exactly once;
//! consuming it with [`AutoLocal::forget`] cancels the obligation and
//! hands the bare handle back to the caller, who must then manage it.
//! Since both consume the guard, the obligation cannot be discharged
//! twice.

use vstd::prelude::*;

use crate::jobject::JObject;
use crate::runtime::Runtime;

verus! {

/// Guard for a local reference owning exactly one release obligation.
///
/// The guard holds the handle; read it with [`AutoLocal::as_obj`]. End
/// its life with exactly one of [`AutoLocal::release`] (perform the
/// release call) or [`AutoLocal::forget`] (transfer the obligation to
/// the caller). Dropping the guard without either leaks the local
/// reference until its frame is popped.
pub struct AutoLocal {
    obj: JObject,
}

impl AutoLocal {
    /// The wrapped handle.
    pub closed spec fn obj_spec(self) -> JObject {
        self.obj
    }

    /// Creates a new guard for a local reference, taking over its
    /// release obligation. Wrap a handle only once: two guards for one
    /// reference would release it twice.
    pub fn new(obj: JObject) -> (r: AutoLocal)
        ensures
            r.obj_spec() == obj,
    {
        AutoLocal { obj }
    }

    /// Read-only access to the wrapped handle, without transferring the
    /// release obligation.
    pub fn as_obj(&self) -> (r: &JObject)
        ensures
            *r == self.obj_spec(),
    {
        &self.obj
    }

    /// Forgets the guard, returning the bare handle and cancelling the
    /// release obligation: the runtime is not touched, and the caller
    /// must now either release the reference manually or accept that it
    /// lives until its frame is popped.
    pub fn forget(self) -> (r: JObject)
        ensures
            r == self.obj_spec(),
    {
        self.obj
    }

    /// Releases the wrapped local reference, consuming the guard: the
    /// release call happens here, exactly once across the guard's life.
    /// A failed release (a null or no longer recorded reference) is
    /// swallowed: guard teardown never raises.
    pub fn release(self, env: &mut Runtime)
        requires
            old(env).wf(),
        ensures
            final(env).wf(),
            final(env).heap == old(env).heap,
            final(env).tables_unchanged(*old(env)),
            self.obj_spec().raw_spec() != 0 && old(env).local_live(self.obj_spec().raw_spec())
                ==> final(env).deleted_one(*old(env), self.obj_spec().raw_spec()),
            self.obj_spec().raw_spec() == 0 || !old(env).local_live(self.obj_spec().raw_spec())
                ==> *final(env) == *old(env),
    {
        match env.delete_local_ref(self.obj) {
            Ok(()) => {},
            Err(_) => {
                // a guard must never fail its owner's control flow
                // during teardown; the failed release is dropped
            },
        }
    }
}

} // verus!
