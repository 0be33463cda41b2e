//! Exception descriptors: construct a throwable from a class descriptor
//! and a message, or from a message alone with a fixed default class.

use vstd::prelude::*;

use crate::auto_local::AutoLocal;
use crate::class_desc::ClassDesc;
use crate::desc::{FromEnvObject, FromEnvValue};
use crate::errors::Error;
use crate::jobject::JObject;
use crate::jvalueowned::{JValueOwned, JValueRaw};
use crate::runtime::{HeapObject, Runtime, SIG_STRING_TO_VOID};

verus! {

/// The class used when an exception descriptor names no class.
pub const DEFAULT_EXCEPTION_CLASS: &'static str = "java/lang/RuntimeException";

/// A symbolic reference to a new throwable: a class descriptor and a
/// message, or a message alone (resolved against the default exception
/// class).
///
/// Resolution constructs a new foreign string for the message, resolves
/// the class, and invokes the class's single-string constructor,
/// yielding an owned, guard-wrapped throwable handle. The message
/// string's local reference stays recorded in the current frame — the
/// throwable keeps pointing at it.
pub enum ExceptionDesc {
    ClassAndMsg(ClassDesc, String),
    Msg(String),
}

impl ExceptionDesc {
    /// Whether the class part will resolve.
    pub open spec fn exc_resolvable(self, env: Runtime) -> bool {
        match self {
            ExceptionDesc::ClassAndMsg(cd, _) => cd.resolvable(env),
            ExceptionDesc::Msg(_) => env.class_defined(DEFAULT_EXCEPTION_CLASS@),
        }
    }

    /// The name of the class the throwable will carry.
    pub open spec fn exc_class_name(self, env: Runtime) -> Seq<char> {
        match self {
            ExceptionDesc::ClassAndMsg(cd, _) => cd.name_view(env),
            ExceptionDesc::Msg(_) => DEFAULT_EXCEPTION_CLASS@,
        }
    }

    /// The message text.
    pub open spec fn msg_view(self) -> Seq<char> {
        match self {
            ExceptionDesc::ClassAndMsg(_, m) => m@,
            ExceptionDesc::Msg(m) => m@,
        }
    }
}

/// Constructs the message string, resolves the class, invokes the
/// single-string constructor, and releases the temporary class
/// reference.
fn lookup_exception_inner(cd: ClassDesc, m: &str, env: &mut Runtime) -> (r: Result<
    FromEnvValue,
    Error,
>)
    requires
        old(env).wf(),
        cd.lookup_pre(*old(env)),
    ensures
        final(env).wf(),
        final(env).heap_extended(*old(env)),
        final(env).tables_unchanged(*old(env)),
        final(env).locals_view().len() == old(env).locals_view().len(),
        match r {
            Ok(v) => {
                &&& cd.resolvable(*old(env))
                &&& old(env).method_defined(
                    cd.name_view(*old(env)),
                    "<init>"@,
                    SIG_STRING_TO_VOID@,
                    false,
                )
                &&& (v matches FromEnvValue::Owned(g) && {
                    let t = g.obj_spec().raw_spec();
                    &&& final(env).valid_ptr(t)
                    &&& final(env).local_live(t)
                    &&& (final(env).obj_at(t) matches HeapObject::ThrowableObj {
                        class_name,
                        message,
                    } && class_name@ == cd.name_view(*old(env)) && message != 0
                        && final(env).valid_ptr(message) && final(env).local_live(message)
                        && final(env).string_of(message) == m@
                        && final(env).obj_at(message) is StringObj)
                })
            },
            Err(e) => {
                &&& e == Error::NotFound
                &&& (!cd.resolvable(*old(env)) || !old(env).method_defined(
                    cd.name_view(*old(env)),
                    "<init>"@,
                    SIG_STRING_TO_VOID@,
                    false,
                ))
            },
        },
{
    let sp = env.new_string(m);
    let ghost mid1 = *env;
    proof {
        match cd {
            ClassDesc::Object(o) => {
                crate::runtime::lemma_live_preserved(*old(env), mid1, o.raw_spec());
            },
            ClassDesc::Resolved(o) => {
                crate::runtime::lemma_live_preserved(*old(env), mid1, o.raw_spec());
            },
            ClassDesc::Name(_) => {},
        }
    }
    let v = match cd.lookup(env) {
        Ok(v) => v,
        Err(e) => {
            proof {
                crate::runtime::lemma_class_defined_same(*old(env), mid1, cd.name_view(*old(env)));
            }
            return Err(e);
        },
    };
    let ghost mid2 = *env;
    let cls = v.as_obj();
    let mut args: Vec<JValueRaw> = Vec::new();
    args.push(JValueOwned::Object(JObject::from_raw(sp.as_raw())).to_jni());
    proof {
        assert(Runtime::bits_ptr(args@[0]) == sp.raw_spec());
        match v {
            FromEnvValue::Reference(o) => {
                crate::runtime::lemma_live_preserved(*old(env), mid2, o.raw_spec());
            },
            FromEnvValue::Owned(_) => {},
        }
    }
    let built = env.new_object(&cls, SIG_STRING_TO_VOID, args.as_slice());
    let ghost mid3 = *env;
    let ghost gv = v;
    v.dispose(env);
    proof {
        match gv {
            FromEnvValue::Owned(g) => {
                if mid3 == mid2 {
                    crate::runtime::lemma_release_fresh(mid1, mid2, *env, g.obj_spec().raw_spec());
                }
            },
            FromEnvValue::Reference(_) => {},
        }
        crate::runtime::lemma_method_defined_same(
            *old(env),
            mid2,
            cd.name_view(*old(env)),
            "<init>"@,
            SIG_STRING_TO_VOID@,
            false,
        );
    }
    match built {
        Ok(t) => Ok(FromEnvValue::Owned(AutoLocal::new(t))),
        Err(e) => Err(e),
    }
}

impl FromEnvObject for ExceptionDesc {
    /// The class part must be resolvable per its own precondition.
    open spec fn lookup_pre(self, env: Runtime) -> bool {
        match self {
            ExceptionDesc::ClassAndMsg(cd, _) => cd.lookup_pre(env),
            ExceptionDesc::Msg(_) => true,
        }
    }

    /// A new message string and a new throwable of the descriptor's
    /// class are allocated (the message reference stays recorded in the
    /// current frame); the throwable comes back owned by a guard.
    /// Fails with the not-found condition exactly when the class or its
    /// single-string constructor is not defined.
    open spec fn lookup_post(
        self,
        pre: Runtime,
        post: Runtime,
        r: Result<FromEnvValue, Error>,
    ) -> bool {
        &&& post.heap_extended(pre)
        &&& post.tables_unchanged(pre)
        &&& post.locals_view().len() == pre.locals_view().len()
        &&& match r {
            Ok(v) => {
                &&& self.exc_resolvable(pre)
                &&& pre.method_defined(
                    self.exc_class_name(pre),
                    "<init>"@,
                    SIG_STRING_TO_VOID@,
                    false,
                )
                &&& (v matches FromEnvValue::Owned(g) && {
                    let t = g.obj_spec().raw_spec();
                    &&& post.valid_ptr(t)
                    &&& post.local_live(t)
                    &&& (post.obj_at(t) matches HeapObject::ThrowableObj { class_name, message }
                        && class_name@ == self.exc_class_name(pre) && message != 0
                        && post.valid_ptr(message) && post.local_live(message) && post.string_of(
                        message,
                    ) == self.msg_view() && post.obj_at(message) is StringObj)
                })
            },
            Err(e) => {
                &&& e == Error::NotFound
                &&& (!self.exc_resolvable(pre) || !pre.method_defined(
                    self.exc_class_name(pre),
                    "<init>"@,
                    SIG_STRING_TO_VOID@,
                    false,
                ))
            },
        }
    }

    fn lookup(self, env: &mut Runtime) -> (r: Result<FromEnvValue, Error>) {
        match self {
            ExceptionDesc::ClassAndMsg(cd, m) => lookup_exception_inner(cd, m.as_str(), env),
            ExceptionDesc::Msg(m) => {
                let cd = ClassDesc::Name(DEFAULT_EXCEPTION_CLASS.to_owned());
                lookup_exception_inner(cd, m.as_str(), env)
            },
        }
    }
}

} // verus!
