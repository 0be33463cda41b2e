//! The global-reference guard: shared, thread-independent, released
//! exactly once when the last share goes.
//!
//! A global reference pins an object for the runtime independently of
//! any call context, so it may outlive the context it came from and move
//! across threads. This guard shares one pinned reference among any
//! number of clones through the runtime's share count; the pin is
//! released exactly once, by whichever clone is dropped last. If the
//! thread dropping the last clone is not attached to the runtime, the
//! release path attaches it, releases, and detaches again — an expensive
//! round trip the runtime records, so that hot code can be kept off it.

use vstd::prelude::*;

use crate::jmethodid::RawId;
use crate::jobject::JObject;
use crate::runtime::Runtime;

verus! {

/// A share of one pinned global reference.
///
/// Obtain the first share with [`GlobalRef::from_raw`] after registering
/// the pin, more with [`GlobalRef::clone_ref`], and give each one back
/// with [`GlobalRef::drop_ref`]; the pin is released at the last
/// drop, exactly once, whatever the drop order.
pub struct GlobalRef {
    gid: RawId,
    obj: JObject,
}

impl GlobalRef {
    /// The pinned reference this guard shares.
    pub closed spec fn gid_spec(self) -> RawId {
        self.gid
    }

    /// The wrapped handle.
    pub closed spec fn obj_spec(self) -> JObject {
        self.obj
    }

    /// The guard names a live pin: the pin exists, targets the guard's
    /// handle, has at least one share, and has not been released.
    pub open spec fn wf(self, env: Runtime) -> bool {
        &&& env.valid_gid(self.gid_spec())
        &&& env.global_at(self.gid_spec()).target == self.obj_spec().raw_spec()
        &&& env.global_at(self.gid_spec()).shares >= 1
        &&& !env.global_at(self.gid_spec()).released
    }

    /// Creates the first guard for a freshly registered pin. This is the
    /// trusted construction of the interface: the caller vouches that
    /// the pin was just registered and that no other guard shares it
    /// yet — which the precondition renders as a share count of zero.
    pub fn from_raw(env: &mut Runtime, gid: RawId) -> (r: GlobalRef)
        requires
            old(env).wf(),
            old(env).valid_gid(gid),
            old(env).global_at(gid).shares == 0,
            !old(env).global_at(gid).released,
        ensures
            final(env).wf(),
            r.gid_spec() == gid,
            r.obj_spec().raw_spec() == old(env).global_at(gid).target,
            r.wf(*final(env)),
            final(env).global_at(gid).shares == 1,
            final(env).globals@.len() == old(env).globals@.len(),
            forall|k: int|
                0 <= k < old(env).globals@.len() && k != gid - 1 ==> final(env).globals@[k]
                    == #[trigger] old(env).globals@[k],
            final(env).heap == old(env).heap,
            final(env).frames == old(env).frames,
            final(env).classes == old(env).classes,
            final(env).methods == old(env).methods,
            final(env).fields == old(env).fields,
            final(env).attached == old(env).attached,
            final(env).detached_releases == old(env).detached_releases,
    {
        let obj = JObject::from_raw(Self::read_target(env, gid));
        env.add_global_share(gid);
        GlobalRef { gid, obj }
    }

    /// The target of a pin, read from the runtime's table.
    fn read_target(env: &Runtime, gid: RawId) -> (t: crate::jobject::RawObject)
        requires
            env.wf(),
            env.valid_gid(gid),
        ensures
            t == env.global_at(gid).target,
    {
        env.globals[gid - 1].target
    }

    /// Adds one share: O(1), no new pin is created, and the new guard
    /// refers to the same pinned reference.
    pub fn clone_ref(&self, env: &mut Runtime) -> (r: GlobalRef)
        requires
            old(env).wf(),
            self.wf(*old(env)),
            old(env).global_at(self.gid_spec()).shares < u64::MAX,
        ensures
            final(env).wf(),
            r.gid_spec() == self.gid_spec(),
            r.obj_spec() == self.obj_spec(),
            self.wf(*final(env)),
            r.wf(*final(env)),
            final(env).global_at(self.gid_spec()).shares == old(env).global_at(
                self.gid_spec(),
            ).shares + 1,
            final(env).globals@.len() == old(env).globals@.len(),
            forall|k: int|
                0 <= k < old(env).globals@.len() && k != self.gid_spec() - 1 ==> final(env).globals@[k] == #[trigger] old(env).globals@[k],
            final(env).heap == old(env).heap,
            final(env).frames == old(env).frames,
            final(env).classes == old(env).classes,
            final(env).methods == old(env).methods,
            final(env).fields == old(env).fields,
            final(env).attached == old(env).attached,
            final(env).detached_releases == old(env).detached_releases,
    {
        env.add_global_share(self.gid);
        GlobalRef { gid: self.gid, obj: JObject::from_raw(self.obj.as_raw()) }
    }

    /// Read-only access to the wrapped handle; valid for as long as any
    /// share of the pin exists.
    pub fn as_obj(&self) -> (r: JObject)
        ensures
            r == self.obj_spec(),
    {
        JObject::from_raw(self.obj.as_raw())
    }

    /// Drops this share, consuming the guard. When it was the last
    /// share, the underlying release call is issued here, exactly once
    /// for the pin's whole life; a thread not attached to the runtime is
    /// attached for the call and detached again, which the runtime
    /// records as an expensive detached release. Release failures are
    /// never propagated: teardown cannot fail.
    pub fn drop_ref(self, env: &mut Runtime)
        requires
            old(env).wf(),
            self.wf(*old(env)),
        ensures
            final(env).wf(),
            final(env).global_at(self.gid_spec()).target == old(env).global_at(
                self.gid_spec(),
            ).target,
            final(env).global_at(self.gid_spec()).shares == old(env).global_at(
                self.gid_spec(),
            ).shares - 1,
            final(env).global_at(self.gid_spec()).released == (old(env).global_at(
                self.gid_spec(),
            ).shares == 1),
            final(env).globals@.len() == old(env).globals@.len(),
            forall|k: int|
                0 <= k < old(env).globals@.len() && k != self.gid_spec() - 1 ==> final(env).globals@[k] == #[trigger] old(env).globals@[k],
            final(env).heap == old(env).heap,
            final(env).frames == old(env).frames,
            final(env).classes == old(env).classes,
            final(env).methods == old(env).methods,
            final(env).fields == old(env).fields,
            final(env).attached == old(env).attached,
            final(env).detached_releases == if old(env).global_at(self.gid_spec()).shares == 1
                && !old(env).attached {
                if old(env).detached_releases < u64::MAX {
                    (old(env).detached_releases + 1) as u64
                } else {
                    old(env).detached_releases
                }
            } else {
                old(env).detached_releases
            },
    {
        env.release_global_share(self.gid);
    }
}

/// While any guard of a pinned global reference is live, the underlying
/// release call has not happened: the release can only occur at the
/// moment the last share is dropped, and then exactly once.
pub proof fn lemma_live_guard_not_released(env: Runtime, g: GlobalRef)
    requires
        env.wf(),
        g.wf(env),
    ensures
        !env.global_at(g.gid_spec()).released,
        env.global_at(g.gid_spec()).shares >= 1,
{
}

} // verus!
