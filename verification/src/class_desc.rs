//! Class descriptors: resolve a class from a name, from an instance, or
//! from an already-resolved class handle.

use vstd::prelude::*;

use crate::auto_local::AutoLocal;
use crate::desc::{FromEnvObject, FromEnvValue};
use crate::errors::Error;
use crate::jobject::JObject;
use crate::runtime::Runtime;

verus! {

/// A symbolic reference to a class.
///
/// - `Name`: a fully qualified, slash-separated class name; resolving it
///   performs one class lookup and yields an owned, guard-wrapped
///   handle.
/// - `Object`: an instance; resolving it asks the runtime for the
///   instance's class, yielding an owned, guard-wrapped handle.
/// - `Resolved`: a handle that is already a class object — for example
///   one held by a guard or pinned by a global reference; resolving it
///   is the identity and performs no runtime call.
pub enum ClassDesc {
    Name(String),
    Object(JObject),
    Resolved(JObject),
}

impl ClassDesc {
    /// Whether resolution will find a class: a name must be defined;
    /// the other forms always resolve.
    pub open spec fn resolvable(self, env: Runtime) -> bool {
        match self {
            ClassDesc::Name(n) => env.class_defined(n@),
            ClassDesc::Object(_) => true,
            ClassDesc::Resolved(_) => true,
        }
    }

    /// The name of the class this descriptor resolves to.
    pub open spec fn name_view(self, env: Runtime) -> Seq<char> {
        match self {
            ClassDesc::Name(n) => n@,
            ClassDesc::Object(o) => Runtime::runtime_class_name(env.obj_at(o.raw_spec())),
            ClassDesc::Resolved(o) => env.class_name_at(o.raw_spec()),
        }
    }
}

impl FromEnvObject for ClassDesc {
    /// A handle-based descriptor must name a live object; a `Resolved`
    /// handle must really be a class object.
    open spec fn lookup_pre(self, env: Runtime) -> bool {
        match self {
            ClassDesc::Name(_) => true,
            ClassDesc::Object(o) => env.valid_ptr(o.raw_spec()) && env.live(o.raw_spec()),
            ClassDesc::Resolved(o) => env.valid_ptr(o.raw_spec()) && env.obj_at(
                o.raw_spec(),
            ) is ClassObj && env.live(o.raw_spec()),
        }
    }

    /// A name performs one class lookup and yields a fresh owned class
    /// handle, failing exactly when the class is not defined; an
    /// instance performs one class-of call and yields a fresh owned
    /// handle; a resolved handle comes back as a non-owning reference
    /// with the runtime untouched.
    open spec fn lookup_post(
        self,
        pre: Runtime,
        post: Runtime,
        r: Result<FromEnvValue, Error>,
    ) -> bool {
        match self {
            ClassDesc::Resolved(o) => post == pre && r == Ok::<FromEnvValue, Error>(
                FromEnvValue::Reference(o),
            ),
            _ => match r {
                Ok(v) => {
                    &&& self.resolvable(pre)
                    &&& (v matches FromEnvValue::Owned(g) && {
                        let p = g.obj_spec().raw_spec();
                        &&& post.allocated_local_obj(pre, p)
                        &&& post.obj_at(p) is ClassObj
                        &&& post.class_name_at(p) == self.name_view(pre)
                    })
                },
                Err(e) => {
                    &&& e == Error::NotFound
                    &&& !self.resolvable(pre)
                    &&& post == pre
                },
            },
        }
    }

    fn lookup(self, env: &mut Runtime) -> (r: Result<FromEnvValue, Error>) {
        match self {
            ClassDesc::Name(n) => match env.find_class(n.as_str()) {
                Ok(c) => Ok(FromEnvValue::Owned(AutoLocal::new(c))),
                Err(e) => Err(e),
            },
            ClassDesc::Object(o) => match env.get_object_class(&o) {
                Ok(c) => Ok(FromEnvValue::Owned(AutoLocal::new(c))),
                Err(e) => Err(e),
            },
            ClassDesc::Resolved(o) => Ok(FromEnvValue::Reference(o)),
        }
    }
}

} // verus!
