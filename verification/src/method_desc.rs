//! Method descriptors: resolve a method identifier from a class
//! descriptor, a name and a signature — or, for a constructor, from a
//! class descriptor and a signature alone.

use vstd::prelude::*;

use crate::class_desc::ClassDesc;
use crate::desc::{member_state_post, FromEnvId, FromEnvValue, FromEnvObject};
use crate::errors::Error;
use crate::jmethodid::{JMethodID, JStaticMethodID, RawId};
use crate::runtime::Runtime;

verus! {

/// A symbolic reference to a method.
///
/// - `Triple`: a class descriptor, a method name and a signature.
/// - `Ctor`: a class descriptor and a constructor signature; sugar that
///   inserts the fixed constructor name before resolving as a triple.
///
/// Resolving first resolves the class descriptor, then performs one
/// method lookup with the resulting class, name and signature; a
/// temporary class reference is released again before returning.
pub enum MethodDesc {
    Triple(ClassDesc, String, String),
    Ctor(ClassDesc, String),
}

impl MethodDesc {
    /// The class descriptor part.
    pub open spec fn class_desc(self) -> ClassDesc {
        match self {
            MethodDesc::Triple(c, _, _) => c,
            MethodDesc::Ctor(c, _) => c,
        }
    }

    /// The method name this descriptor resolves.
    pub open spec fn name_v(self) -> Seq<char> {
        match self {
            MethodDesc::Triple(_, n, _) => n@,
            MethodDesc::Ctor(_, _) => "<init>"@,
        }
    }

    /// The signature this descriptor resolves.
    pub open spec fn sig_v(self) -> Seq<char> {
        match self {
            MethodDesc::Triple(_, _, s) => s@,
            MethodDesc::Ctor(_, s) => s@,
        }
    }
}

/// Resolves the class descriptor, performs one method lookup on the
/// resulting class, and releases any temporary class reference.
fn lookup_method_inner(cd: ClassDesc, n: &str, s: &str, is_static: bool, env: &mut Runtime) -> (r:
    Result<RawId, Error>)
    requires
        old(env).wf(),
        cd.lookup_pre(*old(env)),
    ensures
        final(env).wf(),
        member_state_post(*old(env), *final(env)),
        match r {
            Ok(raw) => {
                &&& cd.resolvable(*old(env))
                &&& old(env).valid_mid(raw)
                &&& old(env).method_matches(
                    raw as int - 1,
                    cd.name_view(*old(env)),
                    n@,
                    s@,
                    is_static,
                )
            },
            Err(e) => {
                &&& e == Error::NotFound
                &&& (!cd.resolvable(*old(env)) || !old(env).method_defined(
                    cd.name_view(*old(env)),
                    n@,
                    s@,
                    is_static,
                ))
            },
        },
{
    let v = match cd.lookup(env) {
        Ok(v) => v,
        Err(e) => {
            return Err(e);
        },
    };
    let cls = v.as_obj();
    let r = if is_static {
        match env.get_static_method_id(&cls, n, s) {
            Ok(m) => Ok(m.into_inner()),
            Err(e) => {
                proof {
                    assert(!env.method_defined(
                        env.class_name_at(cls.raw_spec()),
                        n@,
                        s@,
                        true,
                    ));
                    crate::runtime::lemma_method_defined_same(
                        *old(env),
                        *env,
                        env.class_name_at(cls.raw_spec()),
                        n@,
                        s@,
                        true,
                    );
                }
                Err(e)
            },
        }
    } else {
        match env.get_method_id(&cls, n, s) {
            Ok(m) => Ok(m.into_inner()),
            Err(e) => {
                proof {
                    assert(!env.method_defined(
                        env.class_name_at(cls.raw_spec()),
                        n@,
                        s@,
                        false,
                    ));
                    crate::runtime::lemma_method_defined_same(
                        *old(env),
                        *env,
                        env.class_name_at(cls.raw_spec()),
                        n@,
                        s@,
                        false,
                    );
                }
                Err(e)
            },
        }
    };
    let ghost mid1 = *env;
    let ghost gv = v;
    v.dispose(env);
    proof {
        match gv {
            FromEnvValue::Owned(g) => {
                crate::runtime::lemma_release_fresh(*old(env), mid1, *env, g.obj_spec().raw_spec());
            },
            FromEnvValue::Reference(_) => {},
        }
    }
    r
}

impl FromEnvId<JMethodID> for MethodDesc {
    /// The class part must be resolvable per its own precondition.
    open spec fn lookup_pre(self, env: Runtime) -> bool {
        self.class_desc().lookup_pre(env)
    }

    /// Succeeds exactly when the class resolves and the instance method
    /// is defined on it; the runtime's frames and counts end exactly as
    /// they began.
    open spec fn lookup_post(
        self,
        pre: Runtime,
        post: Runtime,
        r: Result<JMethodID, Error>,
    ) -> bool {
        &&& member_state_post(pre, post)
        &&& match r {
            Ok(mid) => {
                &&& self.class_desc().resolvable(pre)
                &&& pre.valid_mid(mid.raw_spec())
                &&& pre.method_matches(
                    mid.raw_spec() as int - 1,
                    self.class_desc().name_view(pre),
                    self.name_v(),
                    self.sig_v(),
                    false,
                )
            },
            Err(e) => {
                &&& e == Error::NotFound
                &&& (!self.class_desc().resolvable(pre) || !pre.method_defined(
                    self.class_desc().name_view(pre),
                    self.name_v(),
                    self.sig_v(),
                    false,
                ))
            },
        }
    }

    fn lookup(self, env: &mut Runtime) -> (r: Result<JMethodID, Error>) {
        match self {
            MethodDesc::Triple(cd, n, s) => match lookup_method_inner(
                cd,
                n.as_str(),
                s.as_str(),
                false,
                env,
            ) {
                Ok(raw) => Ok(JMethodID::from_raw(raw)),
                Err(e) => Err(e),
            },
            MethodDesc::Ctor(cd, s) => match lookup_method_inner(
                cd,
                "<init>",
                s.as_str(),
                false,
                env,
            ) {
                Ok(raw) => Ok(JMethodID::from_raw(raw)),
                Err(e) => Err(e),
            },
        }
    }
}

impl FromEnvId<JStaticMethodID> for MethodDesc {
    /// The class part must be resolvable per its own precondition.
    open spec fn lookup_pre(self, env: Runtime) -> bool {
        self.class_desc().lookup_pre(env)
    }

    /// Succeeds exactly when the class resolves and the static method
    /// is defined on it; the runtime's frames and counts end exactly as
    /// they began.
    open spec fn lookup_post(
        self,
        pre: Runtime,
        post: Runtime,
        r: Result<JStaticMethodID, Error>,
    ) -> bool {
        &&& member_state_post(pre, post)
        &&& match r {
            Ok(mid) => {
                &&& self.class_desc().resolvable(pre)
                &&& pre.valid_mid(mid.raw_spec())
                &&& pre.method_matches(
                    mid.raw_spec() as int - 1,
                    self.class_desc().name_view(pre),
                    self.name_v(),
                    self.sig_v(),
                    true,
                )
            },
            Err(e) => {
                &&& e == Error::NotFound
                &&& (!self.class_desc().resolvable(pre) || !pre.method_defined(
                    self.class_desc().name_view(pre),
                    self.name_v(),
                    self.sig_v(),
                    true,
                ))
            },
        }
    }

    fn lookup(self, env: &mut Runtime) -> (r: Result<JStaticMethodID, Error>) {
        match self {
            MethodDesc::Triple(cd, n, s) => match lookup_method_inner(
                cd,
                n.as_str(),
                s.as_str(),
                true,
                env,
            ) {
                Ok(raw) => Ok(JStaticMethodID::from_raw(raw)),
                Err(e) => Err(e),
            },
            MethodDesc::Ctor(cd, s) => match lookup_method_inner(
                cd,
                "<init>",
                s.as_str(),
                true,
                env,
            ) {
                Ok(raw) => Ok(JStaticMethodID::from_raw(raw)),
                Err(e) => Err(e),
            },
        }
    }
}

impl FromEnvId<JMethodID> for JMethodID {
    /// Nothing is asked of the runtime.
    open spec fn lookup_pre(self, env: Runtime) -> bool {
        true
    }

    /// An already-resolved identifier resolves to itself; the runtime
    /// is untouched — no lookup call occurs.
    open spec fn lookup_post(
        self,
        pre: Runtime,
        post: Runtime,
        r: Result<JMethodID, Error>,
    ) -> bool {
        post == pre && r == Ok::<JMethodID, Error>(self)
    }

    fn lookup(self, env: &mut Runtime) -> (r: Result<JMethodID, Error>) {
        Ok(self)
    }
}

impl FromEnvId<JStaticMethodID> for JStaticMethodID {
    /// Nothing is asked of the runtime.
    open spec fn lookup_pre(self, env: Runtime) -> bool {
        true
    }

    /// An already-resolved identifier resolves to itself; the runtime
    /// is untouched — no lookup call occurs.
    open spec fn lookup_post(
        self,
        pre: Runtime,
        post: Runtime,
        r: Result<JStaticMethodID, Error>,
    ) -> bool {
        post == pre && r == Ok::<JStaticMethodID, Error>(self)
    }

    fn lookup(self, env: &mut Runtime) -> (r: Result<JStaticMethodID, Error>) {
        Ok(self)
    }
}

} // verus!
