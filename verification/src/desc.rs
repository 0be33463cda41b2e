//! Descriptor resolution: the uniform lookup abstraction.
//!
//! A descriptor is a symbolic reference — a name, or a tuple of a class
//! descriptor with a name and signature — that resolves on demand to a
//! handle or identifier. Resolution is lazy, performs at most one
//! runtime lookup per level of the tuple, caches nothing, and surfaces
//! lookup failures unchanged. Resolving something that is already
//! resolved is the identity and performs no runtime call at all.

use vstd::prelude::*;

use crate::auto_local::AutoLocal;
use crate::errors::Error;
use crate::jobject::{JObject, RawObject};
use crate::runtime::Runtime;

verus! {

/// What resolving an object descriptor hands back: either a non-owning
/// reference to a handle the caller already controls, or a fresh handle
/// wrapped in a local-reference guard the caller now owns.
pub enum FromEnvValue {
    Reference(JObject),
    Owned(AutoLocal),
}

impl FromEnvValue {
    /// The handle this value gives access to.
    pub open spec fn obj_view(self) -> JObject {
        match self {
            FromEnvValue::Reference(o) => o,
            FromEnvValue::Owned(g) => g.obj_spec(),
        }
    }

    /// The raw reference value of the handle.
    pub fn as_raw(&self) -> (r: RawObject)
        ensures
            r == self.obj_view().raw_spec(),
    {
        match self {
            FromEnvValue::Reference(o) => o.as_raw(),
            FromEnvValue::Owned(g) => g.as_obj().as_raw(),
        }
    }

    /// The handle, as a plain value.
    pub fn as_obj(&self) -> (r: JObject)
        ensures
            r == self.obj_view(),
    {
        match self {
            FromEnvValue::Reference(o) => JObject::from_raw(o.as_raw()),
            FromEnvValue::Owned(g) => JObject::from_raw(g.as_obj().as_raw()),
        }
    }

    /// Disposes of the value: an owned guard releases its reference, a
    /// non-owning reference is simply dropped. Never raises.
    pub fn dispose(self, env: &mut Runtime)
        requires
            old(env).wf(),
        ensures
            final(env).wf(),
            final(env).heap == old(env).heap,
            final(env).tables_unchanged(*old(env)),
            (self matches FromEnvValue::Reference(_)) ==> *final(env) == *old(env),
            (self matches FromEnvValue::Owned(g) && g.obj_spec().raw_spec() != 0 && old(
                env,
            ).local_live(g.obj_spec().raw_spec())) ==> final(env).deleted_one(
                *old(env),
                self.obj_view().raw_spec(),
            ),
    {
        match self {
            FromEnvValue::Reference(_) => {},
            FromEnvValue::Owned(g) => g.release(env),
        }
    }
}

/// Things that resolve, through the runtime, to an object handle. Each
/// implementation defines what it requires of the runtime
/// (`lookup_pre`) and exactly what its resolution does (`lookup_post`).
pub trait FromEnvObject: Sized {
    /// What this descriptor asks of the runtime before resolving.
    spec fn lookup_pre(self, env: Runtime) -> bool;

    /// What resolving this descriptor does: how the runtime evolved and
    /// what came back.
    spec fn lookup_post(self, pre: Runtime, post: Runtime, r: Result<FromEnvValue, Error>) -> bool;

    /// Look up the concrete handle from the runtime.
    fn lookup(self, env: &mut Runtime) -> (r: Result<FromEnvValue, Error>)
        requires
            old(env).wf(),
            self.lookup_pre(*old(env)),
        ensures
            final(env).wf(),
            self.lookup_post(*old(env), *final(env), r),
    ;
}

/// Things that resolve, through the runtime, to an identifier of type
/// `T`. Identifiers are not references, so no guard is involved; an
/// already-resolved identifier resolves to itself without touching the
/// runtime.
pub trait FromEnvId<T>: Sized {
    /// What this descriptor asks of the runtime before resolving.
    spec fn lookup_pre(self, env: Runtime) -> bool;

    /// What resolving this descriptor does.
    spec fn lookup_post(self, pre: Runtime, post: Runtime, r: Result<T, Error>) -> bool;

    /// Look up the concrete identifier from the runtime.
    fn lookup(self, env: &mut Runtime) -> (r: Result<T, Error>)
        requires
            old(env).wf(),
            self.lookup_pre(*old(env)),
        ensures
            final(env).wf(),
            self.lookup_post(*old(env), *final(env), r),
    ;
}

/// The net runtime effect of resolving a member descriptor: the class
/// may have been looked up (growing the heap) but its temporary
/// reference was released again, so the frames and every reference
/// count are exactly as before, and the tables did not move.
pub open spec fn member_state_post(pre: Runtime, post: Runtime) -> bool {
    &&& post.locals_view() == pre.locals_view()
    &&& post.heap_extended(pre)
    &&& post.tables_unchanged(pre)
    &&& post.counts_unchanged(pre)
}

} // verus!
