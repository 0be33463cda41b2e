//! Field descriptors: resolve a field identifier from a class
//! descriptor, a field name and a signature.

use vstd::prelude::*;

use crate::class_desc::ClassDesc;
use crate::desc::{member_state_post, FromEnvId, FromEnvObject, FromEnvValue};
use crate::errors::Error;
use crate::jmethodid::{JFieldID, JStaticFieldID, RawId};
use crate::runtime::Runtime;

verus! {

/// A symbolic reference to a field: a class descriptor, a field name
/// and a signature. Resolving first resolves the class descriptor, then
/// performs one field lookup; a temporary class reference is released
/// again before returning. Resolved as `FromEnvId<JFieldID>` it names an
/// instance field, as `FromEnvId<JStaticFieldID>` a static one.
pub struct FieldDesc {
    pub class: ClassDesc,
    pub name: String,
    pub sig: String,
}

/// Resolves the class descriptor, performs one field lookup on the
/// resulting class, and releases any temporary class reference.
fn lookup_field_inner(cd: ClassDesc, n: &str, s: &str, is_static: bool, env: &mut Runtime) -> (r:
    Result<RawId, Error>)
    requires
        old(env).wf(),
        cd.lookup_pre(*old(env)),
    ensures
        final(env).wf(),
        member_state_post(*old(env), *final(env)),
        match r {
            Ok(raw) => {
                &&& cd.resolvable(*old(env))
                &&& old(env).valid_fid(raw)
                &&& old(env).field_matches(
                    raw as int - 1,
                    cd.name_view(*old(env)),
                    n@,
                    s@,
                    is_static,
                )
            },
            Err(e) => {
                &&& e == Error::NotFound
                &&& (!cd.resolvable(*old(env)) || !old(env).field_defined(
                    cd.name_view(*old(env)),
                    n@,
                    s@,
                    is_static,
                ))
            },
        },
{
    let v = match cd.lookup(env) {
        Ok(v) => v,
        Err(e) => {
            return Err(e);
        },
    };
    let cls = v.as_obj();
    let r = if is_static {
        match env.get_static_field_id(&cls, n, s) {
            Ok(f) => Ok(f.into_inner()),
            Err(e) => {
                proof {
                    assert(!env.field_defined(env.class_name_at(cls.raw_spec()), n@, s@, true));
                    crate::runtime::lemma_field_defined_same(
                        *old(env),
                        *env,
                        env.class_name_at(cls.raw_spec()),
                        n@,
                        s@,
                        true,
                    );
                }
                Err(e)
            },
        }
    } else {
        match env.get_field_id(&cls, n, s) {
            Ok(f) => Ok(f.into_inner()),
            Err(e) => {
                proof {
                    assert(!env.field_defined(env.class_name_at(cls.raw_spec()), n@, s@, false));
                    crate::runtime::lemma_field_defined_same(
                        *old(env),
                        *env,
                        env.class_name_at(cls.raw_spec()),
                        n@,
                        s@,
                        false,
                    );
                }
                Err(e)
            },
        }
    };
    let ghost mid1 = *env;
    let ghost gv = v;
    v.dispose(env);
    proof {
        match gv {
            FromEnvValue::Owned(g) => {
                crate::runtime::lemma_release_fresh(
                    *old(env),
                    mid1,
                    *env,
                    g.obj_spec().raw_spec(),
                );
            },
            FromEnvValue::Reference(_) => {},
        }
    }
    r
}

impl FromEnvId<JFieldID> for FieldDesc {
    /// The class part must be resolvable per its own precondition.
    open spec fn lookup_pre(self, env: Runtime) -> bool {
        self.class.lookup_pre(env)
    }

    /// Succeeds exactly when the class resolves and the instance field
    /// is defined on it; the runtime's frames and counts end exactly as
    /// they began.
    open spec fn lookup_post(self, pre: Runtime, post: Runtime, r: Result<JFieldID, Error>) -> bool {
        &&& member_state_post(pre, post)
        &&& match r {
            Ok(fid) => {
                &&& self.class.resolvable(pre)
                &&& pre.valid_fid(fid.raw_spec())
                &&& pre.field_matches(
                    fid.raw_spec() as int - 1,
                    self.class.name_view(pre),
                    self.name@,
                    self.sig@,
                    false,
                )
            },
            Err(e) => {
                &&& e == Error::NotFound
                &&& (!self.class.resolvable(pre) || !pre.field_defined(
                    self.class.name_view(pre),
                    self.name@,
                    self.sig@,
                    false,
                ))
            },
        }
    }

    fn lookup(self, env: &mut Runtime) -> (r: Result<JFieldID, Error>) {
        match lookup_field_inner(self.class, self.name.as_str(), self.sig.as_str(), false, env) {
            Ok(raw) => Ok(JFieldID::from_raw(raw)),
            Err(e) => Err(e),
        }
    }
}

impl FromEnvId<JStaticFieldID> for FieldDesc {
    /// The class part must be resolvable per its own precondition.
    open spec fn lookup_pre(self, env: Runtime) -> bool {
        self.class.lookup_pre(env)
    }

    /// Succeeds exactly when the class resolves and the static field is
    /// defined on it; the runtime's frames and counts end exactly as
    /// they began.
    open spec fn lookup_post(
        self,
        pre: Runtime,
        post: Runtime,
        r: Result<JStaticFieldID, Error>,
    ) -> bool {
        &&& member_state_post(pre, post)
        &&& match r {
            Ok(fid) => {
                &&& self.class.resolvable(pre)
                &&& pre.valid_fid(fid.raw_spec())
                &&& pre.field_matches(
                    fid.raw_spec() as int - 1,
                    self.class.name_view(pre),
                    self.name@,
                    self.sig@,
                    true,
                )
            },
            Err(e) => {
                &&& e == Error::NotFound
                &&& (!self.class.resolvable(pre) || !pre.field_defined(
                    self.class.name_view(pre),
                    self.name@,
                    self.sig@,
                    true,
                ))
            },
        }
    }

    fn lookup(self, env: &mut Runtime) -> (r: Result<JStaticFieldID, Error>) {
        match lookup_field_inner(self.class, self.name.as_str(), self.sig.as_str(), true, env) {
            Ok(raw) => Ok(JStaticFieldID::from_raw(raw)),
            Err(e) => Err(e),
        }
    }
}

impl FromEnvId<JFieldID> for JFieldID {
    /// Nothing is asked of the runtime.
    open spec fn lookup_pre(self, env: Runtime) -> bool {
        true
    }

    /// An already-resolved identifier resolves to itself; the runtime
    /// is untouched — no lookup call occurs.
    open spec fn lookup_post(self, pre: Runtime, post: Runtime, r: Result<JFieldID, Error>) -> bool {
        post == pre && r == Ok::<JFieldID, Error>(self)
    }

    fn lookup(self, env: &mut Runtime) -> (r: Result<JFieldID, Error>) {
        Ok(self)
    }
}

impl FromEnvId<JStaticFieldID> for JStaticFieldID {
    /// Nothing is asked of the runtime.
    open spec fn lookup_pre(self, env: Runtime) -> bool {
        true
    }

    /// An already-resolved identifier resolves to itself; the runtime
    /// is untouched — no lookup call occurs.
    open spec fn lookup_post(
        self,
        pre: Runtime,
        post: Runtime,
        r: Result<JStaticFieldID, Error>,
    ) -> bool {
        post == pre && r == Ok::<JStaticFieldID, Error>(self)
    }

    fn lookup(self, env: &mut Runtime) -> (r: Result<JStaticFieldID, Error>) {
        Ok(self)
    }
}

} // verus!
