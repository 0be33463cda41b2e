//! The map adapter: the full reference-lifetime discipline applied to a
//! foreign map object, with get/put/remove and an entry iterator.
//!
//! The adapter resolves the map class and its method identifiers once,
//! at construction, and reuses them for every operation. The iterator
//! resolves the iterator-protocol identifiers per call to
//! [`JMap::iter`], performs the two chained lookup calls inside a
//! bounded local frame so their intermediate references are reclaimed
//! promptly, and hands out key/value pairs one entry at a time, each
//! entry reference released as soon as its key and value are extracted.

use vstd::prelude::*;

use crate::auto_local::AutoLocal;
use crate::errors::Error;
use crate::jmethodid::JMethodID;
use crate::jobject::{JObject, RawObject};
use crate::jvalueowned::{JValueOwned, JValueRaw};
use crate::runtime::{
    map_lookup, seq_count, HeapObject, MethodKind, Runtime, SIG_OBJ_OBJ_TO_OBJ, SIG_OBJ_TO_OBJ,
    SIG_TO_BOOLEAN, SIG_TO_ITERATOR, SIG_TO_OBJ, SIG_TO_SET,
};
use crate::signature::{Primitive, ReturnType};

verus! {

/// The map interface and the three entry methods are defined.
pub open spec fn map_iface_defined(env: Runtime) -> bool {
    &&& env.class_defined("java/util/Map"@)
    &&& env.method_defined("java/util/Map"@, "get"@, SIG_OBJ_TO_OBJ@, false)
    &&& env.method_defined("java/util/Map"@, "put"@, SIG_OBJ_OBJ_TO_OBJ@, false)
    &&& env.method_defined("java/util/Map"@, "remove"@, SIG_OBJ_TO_OBJ@, false)
}

/// Everything `JMap::iter` resolves is defined: the iterator and entry
/// protocols, the map's entry-set method, and the set interface.
pub open spec fn iter_iface_defined(env: Runtime) -> bool {
    &&& env.class_defined("java/util/Iterator"@)
    &&& env.method_defined("java/util/Iterator"@, "hasNext"@, SIG_TO_BOOLEAN@, false)
    &&& env.method_defined("java/util/Iterator"@, "next"@, SIG_TO_OBJ@, false)
    &&& env.class_defined("java/util/Map$Entry"@)
    &&& env.method_defined("java/util/Map$Entry"@, "getKey"@, SIG_TO_OBJ@, false)
    &&& env.method_defined("java/util/Map$Entry"@, "getValue"@, SIG_TO_OBJ@, false)
    &&& env.method_defined("java/util/Map"@, "entrySet"@, SIG_TO_SET@, false)
    &&& env.class_defined("java/util/Set"@)
    &&& env.method_defined("java/util/Set"@, "iterator"@, SIG_TO_ITERATOR@, false)
}

/// A view of a foreign map object. Holds the wrapped handle, a guard on
/// the map class, and the get/put/remove method identifiers, resolved
/// once at construction.
pub struct JMap {
    internal: JObject,
    class: AutoLocal,
    get: JMethodID,
    put: JMethodID,
    remove: JMethodID,
}

impl JMap {
    /// The wrapped map handle.
    pub closed spec fn obj_spec(self) -> JObject {
        self.internal
    }

    /// The handle of the class reference the adapter holds.
    pub closed spec fn class_ref_spec(self) -> JObject {
        self.class.obj_spec()
    }

    /// The resolved `get` identifier.
    pub closed spec fn get_spec(self) -> JMethodID {
        self.get
    }

    /// The resolved `put` identifier.
    pub closed spec fn put_spec(self) -> JMethodID {
        self.put
    }

    /// The resolved `remove` identifier.
    pub closed spec fn remove_spec(self) -> JMethodID {
        self.remove
    }

    /// The adapter names a live map object, a live class reference to
    /// the map interface, and identifiers that dispatch as the three
    /// map methods.
    pub open spec fn wf(self, env: Runtime) -> bool {
        let o = self.obj_spec().raw_spec();
        let cl = self.class_ref_spec().raw_spec();
        &&& env.valid_ptr(o)
        &&& env.obj_at(o) is MapObj
        &&& env.live(o)
        &&& env.valid_ptr(cl)
        &&& env.obj_at(cl) is ClassObj
        &&& env.class_name_at(cl) == "java/util/Map"@
        &&& env.live(cl)
        &&& env.valid_mid(self.get_spec().raw_spec())
        &&& env.mid_kind(self.get_spec().raw_spec()) == MethodKind::MapGet
        &&& env.valid_mid(self.put_spec().raw_spec())
        &&& env.mid_kind(self.put_spec().raw_spec()) == MethodKind::MapPut
        &&& env.valid_mid(self.remove_spec().raw_spec())
        &&& env.mid_kind(self.remove_spec().raw_spec()) == MethodKind::MapRemove
    }

    /// The map's entries, as key strings paired with value references.
    pub open spec fn entries(self, env: Runtime) -> Seq<(String, RawObject)> {
        env.map_entries_of(self.obj_spec().raw_spec())
    }

    /// Create a map view over the given map object. Resolves the map
    /// class and the get/put/remove identifiers once, so no lookup work
    /// is needed per operation; succeeds exactly when all of them are
    /// defined. The class reference stays recorded (and guarded) for
    /// the adapter's life.
    pub fn from_env(env: &mut Runtime, obj: &JObject) -> (r: Result<JMap, Error>)
        requires
            old(env).wf(),
            old(env).valid_ptr(obj.raw_spec()),
            old(env).obj_at(obj.raw_spec()) is MapObj,
            old(env).live(obj.raw_spec()),
        ensures
            final(env).wf(),
            final(env).heap_extended(*old(env)),
            final(env).tables_unchanged(*old(env)),
            match r {
                Ok(m) => {
                    &&& map_iface_defined(*old(env))
                    &&& m.wf(*final(env))
                    &&& m.obj_spec() == *obj
                    &&& final(env).allocated_local_obj(*old(env), m.class_ref_spec().raw_spec())
                },
                Err(e) => {
                    &&& e == Error::NotFound
                    &&& !map_iface_defined(*old(env))
                    &&& final(env).locals_view() == old(env).locals_view()
                    &&& final(env).counts_unchanged(*old(env))
                },
            },
    {
        let cls = match env.find_class("java/util/Map") {
            Ok(c) => c,
            Err(e) => {
                return Err(e);
            },
        };
        let ghost mid1 = *env;
        let get = match env.get_method_id(&cls, "get", SIG_OBJ_TO_OBJ) {
            Ok(m) => m,
            Err(e) => {
                proof {
                    assert(!env.method_defined(
                        env.class_name_at(cls.raw_spec()),
                        "get"@,
                        SIG_OBJ_TO_OBJ@,
                        false,
                    ));
                    crate::runtime::lemma_method_defined_same(
                        *old(env),
                        mid1,
                        "java/util/Map"@,
                        "get"@,
                        SIG_OBJ_TO_OBJ@,
                        false,
                    );
                }
                AutoLocal::new(cls).release(env);
                proof {
                    crate::runtime::lemma_release_fresh(*old(env), mid1, *env, cls.raw_spec());
                }
                return Err(e);
            },
        };
        let put = match env.get_method_id(&cls, "put", SIG_OBJ_OBJ_TO_OBJ) {
            Ok(m) => m,
            Err(e) => {
                proof {
                    assert(!env.method_defined(
                        env.class_name_at(cls.raw_spec()),
                        "put"@,
                        SIG_OBJ_OBJ_TO_OBJ@,
                        false,
                    ));
                    crate::runtime::lemma_method_defined_same(
                        *old(env),
                        mid1,
                        "java/util/Map"@,
                        "put"@,
                        SIG_OBJ_OBJ_TO_OBJ@,
                        false,
                    );
                }
                AutoLocal::new(cls).release(env);
                proof {
                    crate::runtime::lemma_release_fresh(*old(env), mid1, *env, cls.raw_spec());
                }
                return Err(e);
            },
        };
        let rem = match env.get_method_id(&cls, "remove", SIG_OBJ_TO_OBJ) {
            Ok(m) => m,
            Err(e) => {
                proof {
                    assert(!env.method_defined(
                        env.class_name_at(cls.raw_spec()),
                        "remove"@,
                        SIG_OBJ_TO_OBJ@,
                        false,
                    ));
                    crate::runtime::lemma_method_defined_same(
                        *old(env),
                        mid1,
                        "java/util/Map"@,
                        "remove"@,
                        SIG_OBJ_TO_OBJ@,
                        false,
                    );
                }
                AutoLocal::new(cls).release(env);
                proof {
                    crate::runtime::lemma_release_fresh(*old(env), mid1, *env, cls.raw_spec());
                }
                return Err(e);
            },
        };
        proof {
            crate::runtime::lemma_protocol_kinds();
            crate::runtime::lemma_method_defined_same(
                *old(env),
                mid1,
                "java/util/Map"@,
                "get"@,
                SIG_OBJ_TO_OBJ@,
                false,
            );
            crate::runtime::lemma_method_defined_same(
                *old(env),
                mid1,
                "java/util/Map"@,
                "put"@,
                SIG_OBJ_OBJ_TO_OBJ@,
                false,
            );
            crate::runtime::lemma_method_defined_same(
                *old(env),
                mid1,
                "java/util/Map"@,
                "remove"@,
                SIG_OBJ_TO_OBJ@,
                false,
            );
            crate::runtime::lemma_live_preserved(*old(env), *env, obj.raw_spec());
        }
        Ok(JMap { internal: JObject::from_raw(obj.as_raw()), class: AutoLocal::new(cls), get, put, remove: rem })
    }

    /// Look up the value for a key. Returns `Some` with a fresh local
    /// reference to the value when the key has a non-null binding, and
    /// `None` when a null would come back — absent key, null value, or
    /// a key object the map does not treat as a string key. Never
    /// fails.
    pub fn get(&self, env: &mut Runtime, key: &JObject) -> (r: Result<Option<JObject>, Error>)
        requires
            old(env).wf(),
            self.wf(*old(env)),
            old(env).valid_or_null(key.raw_spec()),
            key.raw_spec() == 0 || old(env).live(key.raw_spec()),
        ensures
            final(env).wf(),
            self.wf(*final(env)),
            final(env).heap == old(env).heap,
            final(env).tables_unchanged(*old(env)),
            ({
                let kp = key.raw_spec();
                if kp != 0 && old(env).obj_at(kp) is StringObj {
                    match map_lookup(self.entries(*old(env)), old(env).string_of(kp)) {
                        Some(v) => if v != 0 {
                            &&& (r matches Ok(o2) && o2 matches Some(vo) && vo.raw_spec() == v)
                            &&& final(env).pushed_local(*old(env), v)
                            &&& final(env).counts_plus_one(*old(env), v)
                        } else {
                            r == Ok::<Option<JObject>, Error>(None) && *final(env) == *old(env)
                        },
                        None => r == Ok::<Option<JObject>, Error>(None) && *final(env) == *old(
                            env,
                        ),
                    }
                } else {
                    r == Ok::<Option<JObject>, Error>(None) && *final(env) == *old(env)
                }
            }),
    {
        let mut args: Vec<JValueRaw> = Vec::new();
        args.push(JValueOwned::Object(JObject::from_raw(key.as_raw())).to_jni());
        proof {
            assert(Runtime::bits_ptr(args@[0]) == key.raw_spec());
        }
        let res = env.call_method(&self.internal, &self.get, ReturnType::Object, args.as_slice());
        proof {
            crate::runtime::lemma_live_preserved(*old(env), *env, self.obj_spec().raw_spec());
            crate::runtime::lemma_live_preserved(
                *old(env),
                *env,
                self.class_ref_spec().raw_spec(),
            );
        }
        match res {
            Ok(val) => match val.l() {
                Ok(o) => Ok(Some(o)),
                Err(e) => {
                    proof {
                        assert(false);
                    }
                    Err(e)
                },
            },
            Err(e) => match e {
                Error::NullPtr => Ok(None),
                _ => {
                    proof {
                        assert(false);
                    }
                    Err(e)
                },
            },
        }
    }

    /// Bind a key to a value. Returns `Some` with a fresh local
    /// reference to the old value when the key already had a non-null
    /// binding, `None` when it is a new key (or the old value was
    /// null), and the foreign-exception failure exactly when the key
    /// object is not a string key.
    pub fn put(&self, env: &mut Runtime, key: &JObject, value: &JObject) -> (r: Result<
        Option<JObject>,
        Error,
    >)
        requires
            old(env).wf(),
            self.wf(*old(env)),
            old(env).valid_or_null(key.raw_spec()),
            key.raw_spec() == 0 || old(env).live(key.raw_spec()),
            old(env).valid_or_null(value.raw_spec()),
            value.raw_spec() == 0 || old(env).live(value.raw_spec()),
        ensures
            final(env).wf(),
            self.wf(*final(env)),
            final(env).tables_unchanged(*old(env)),
            ({
                let o = self.obj_spec().raw_spec();
                let kp = key.raw_spec();
                let vp = value.raw_spec();
                let entries = self.entries(*old(env));
                let k = old(env).string_of(kp);
                if kp != 0 && old(env).obj_at(kp) is StringObj {
                    &&& final(env).heap_same_except(*old(env), o)
                    &&& final(env).obj_at(o) is MapObj
                    &&& match map_lookup(entries, k) {
                        Some(oldv) => {
                            &&& exists|i: int|
                                0 <= i < entries.len() && (#[trigger] entries[i]).0@ == k
                                    && self.entries(*final(env)) == entries.update(
                                    i,
                                    (entries[i].0, vp),
                                )
                            &&& if oldv != 0 {
                                &&& (r matches Ok(o2) && o2 matches Some(vo) && vo.raw_spec()
                                    == oldv)
                                &&& final(env).pushed_local(*old(env), oldv)
                                &&& final(env).counts_plus_one(*old(env), oldv)
                            } else {
                                r == Ok::<Option<JObject>, Error>(None) && final(env).frames
                                    == old(env).frames
                            }
                        },
                        None => {
                            &&& self.entries(*final(env)) == entries.push(
                                (old(env).string_val_of(kp), vp),
                            )
                            &&& r == Ok::<Option<JObject>, Error>(None)
                            &&& final(env).frames == old(env).frames
                        },
                    }
                } else {
                    r == Err::<Option<JObject>, Error>(Error::JavaException) && *final(env)
                        == *old(env)
                }
            }),
    {
        let mut args: Vec<JValueRaw> = Vec::new();
        args.push(JValueOwned::Object(JObject::from_raw(key.as_raw())).to_jni());
        args.push(JValueOwned::Object(JObject::from_raw(value.as_raw())).to_jni());
        proof {
            assert(Runtime::bits_ptr(args@[0]) == key.raw_spec());
            assert(Runtime::bits_ptr(args@[1]) == value.raw_spec());
        }
        let res = env.call_method(&self.internal, &self.put, ReturnType::Object, args.as_slice());
        proof {
            crate::runtime::lemma_live_preserved(*old(env), *env, self.obj_spec().raw_spec());
            crate::runtime::lemma_live_preserved(
                *old(env),
                *env,
                self.class_ref_spec().raw_spec(),
            );
        }
        match res {
            Ok(val) => match val.l() {
                Ok(o) => Ok(Some(o)),
                Err(e) => {
                    proof {
                        assert(false);
                    }
                    Err(e)
                },
            },
            Err(e) => match e {
                Error::NullPtr => Ok(None),
                Error::JavaException => Err(Error::JavaException),
                _ => {
                    proof {
                        assert(false);
                    }
                    Err(e)
                },
            },
        }
    }

    /// Remove a key's binding. Returns `Some` with a fresh local
    /// reference to the removed value when the key had a non-null
    /// binding, and `None` otherwise — removing a nonexistent key is
    /// not an error. Never fails.
    pub fn remove(&self, env: &mut Runtime, key: &JObject) -> (r: Result<Option<JObject>, Error>)
        requires
            old(env).wf(),
            self.wf(*old(env)),
            old(env).valid_or_null(key.raw_spec()),
            key.raw_spec() == 0 || old(env).live(key.raw_spec()),
        ensures
            final(env).wf(),
            self.wf(*final(env)),
            final(env).tables_unchanged(*old(env)),
            ({
                let o = self.obj_spec().raw_spec();
                let kp = key.raw_spec();
                let entries = self.entries(*old(env));
                let k = old(env).string_of(kp);
                if kp != 0 && old(env).obj_at(kp) is StringObj {
                    match map_lookup(entries, k) {
                        Some(oldv) => {
                            &&& final(env).heap_same_except(*old(env), o)
                            &&& final(env).obj_at(o) is MapObj
                            &&& exists|i: int|
                                0 <= i < entries.len() && (#[trigger] entries[i]).0@ == k
                                    && self.entries(*final(env)) == entries.remove(i)
                            &&& if oldv != 0 {
                                &&& (r matches Ok(o2) && o2 matches Some(vo) && vo.raw_spec()
                                    == oldv)
                                &&& final(env).pushed_local(*old(env), oldv)
                                &&& final(env).counts_plus_one(*old(env), oldv)
                            } else {
                                r == Ok::<Option<JObject>, Error>(None) && final(env).frames
                                    == old(env).frames
                            }
                        },
                        None => r == Ok::<Option<JObject>, Error>(None) && *final(env) == *old(
                            env,
                        ),
                    }
                } else {
                    r == Ok::<Option<JObject>, Error>(None) && *final(env) == *old(env)
                }
            }),
    {
        let mut args: Vec<JValueRaw> = Vec::new();
        args.push(JValueOwned::Object(JObject::from_raw(key.as_raw())).to_jni());
        proof {
            assert(Runtime::bits_ptr(args@[0]) == key.raw_spec());
        }
        let res = env.call_method(
            &self.internal,
            &self.remove,
            ReturnType::Object,
            args.as_slice(),
        );
        proof {
            crate::runtime::lemma_live_preserved(*old(env), *env, self.obj_spec().raw_spec());
            crate::runtime::lemma_live_preserved(
                *old(env),
                *env,
                self.class_ref_spec().raw_spec(),
            );
        }
        match res {
            Ok(val) => match val.l() {
                Ok(o) => Ok(Some(o)),
                Err(e) => {
                    proof {
                        assert(false);
                    }
                    Err(e)
                },
            },
            Err(e) => match e {
                Error::NullPtr => Ok(None),
                _ => {
                    proof {
                        assert(false);
                    }
                    Err(e)
                },
            },
        }
    }

    /// The wrapped map handle, as a plain value.
    pub fn as_obj(&self) -> (r: JObject)
        ensures
            r == self.obj_spec(),
    {
        JObject::from_raw(self.internal.as_raw())
    }

    /// Dissolves the adapter, releasing its class reference. The map
    /// handle itself is not touched: the adapter never owned it.
    pub fn release(self, env: &mut Runtime)
        requires
            old(env).wf(),
        ensures
            final(env).wf(),
            final(env).heap == old(env).heap,
            final(env).tables_unchanged(*old(env)),
    {
        self.class.release(env);
    }
}

/// An iterator over the key/value pairs of a map, produced by
/// [`JMap::iter`]. Holds the iterator-protocol identifiers and a guard
/// on the foreign iterator object; the iteration state itself lives in
/// that foreign object.
pub struct JMapIter {
    has_next: JMethodID,
    next: JMethodID,
    get_key: JMethodID,
    get_value: JMethodID,
    iter: AutoLocal,
}

impl JMapIter {
    /// The handle of the foreign iterator object.
    pub closed spec fn iter_ref_spec(self) -> JObject {
        self.iter.obj_spec()
    }

    /// The resolved `hasNext` identifier.
    pub closed spec fn has_next_spec(self) -> JMethodID {
        self.has_next
    }

    /// The resolved `next` identifier.
    pub closed spec fn next_spec(self) -> JMethodID {
        self.next
    }

    /// The resolved `getKey` identifier.
    pub closed spec fn get_key_spec(self) -> JMethodID {
        self.get_key
    }

    /// The resolved `getValue` identifier.
    pub closed spec fn get_value_spec(self) -> JMethodID {
        self.get_value
    }

    /// The iterator names a live foreign iterator object, and its four
    /// identifiers dispatch as the iterator and entry protocol methods.
    pub open spec fn wf(self, env: Runtime) -> bool {
        let it = self.iter_ref_spec().raw_spec();
        &&& env.valid_ptr(it)
        &&& env.obj_at(it) is IterObj
        &&& env.live(it)
        &&& env.valid_mid(self.has_next_spec().raw_spec())
        &&& env.mid_kind(self.has_next_spec().raw_spec()) == MethodKind::IterHasNext
        &&& env.valid_mid(self.next_spec().raw_spec())
        &&& env.mid_kind(self.next_spec().raw_spec()) == MethodKind::IterNext
        &&& env.valid_mid(self.get_key_spec().raw_spec())
        &&& env.mid_kind(self.get_key_spec().raw_spec()) == MethodKind::EntryGetKey
        &&& env.valid_mid(self.get_value_spec().raw_spec())
        &&& env.mid_kind(self.get_value_spec().raw_spec()) == MethodKind::EntryGetValue
    }

    /// The key/value pairs this iterator has yet to yield: the key
    /// texts and value references of the entries from the cursor on.
    pub open spec fn remaining(self, env: Runtime) -> Seq<(Seq<char>, RawObject)> {
        let it = self.iter_ref_spec().raw_spec();
        env.iter_items_of(it).subrange(
            env.iter_pos_of(it),
            env.iter_items_of(it).len() as int,
        ).map_values(|p: RawObject| (env.entry_key_of(p)@, env.entry_value_of(p)))
    }

    /// One step's effect on the heap: one fresh string object (the
    /// yielded key) and the advanced cursor; everything else untouched.
    pub open spec fn step_heap(self, pre: Runtime, post: Runtime) -> bool {
        let it = self.iter_ref_spec().raw_spec();
        &&& post.heap@.len() == pre.heap@.len() + 1
        &&& forall|i: int|
            0 <= i < pre.heap@.len() && i != it as int - 1 ==> post.heap@[i] == #[trigger] pre.heap@[i]
        &&& post.obj_at(it) is IterObj
        &&& post.iter_items_of(it) == pre.iter_items_of(it)
        &&& post.iter_pos_of(it) == pre.iter_pos_of(it) + 1
        &&& post.obj_at((pre.heap@.len() + 1) as RawObject) is StringObj
        &&& post.string_of((pre.heap@.len() + 1) as RawObject) == self.remaining(pre)[0].0
        &&& post.tables_unchanged(pre)
        &&& post.locals_view().len() == pre.locals_view().len()
        &&& self.remaining(post) == self.remaining(pre).drop_first()
    }

    /// Advances the iterator one entry.
    ///
    /// Behind the end it yields `Ok(None)` and leaves the runtime
    /// untouched. Otherwise it advances, extracts the entry's key into
    /// a fresh string object and hands back that key reference with one
    /// more local reference to the value; the entry reference used on
    /// the way is released again before returning. A null value
    /// surfaces as the null-result failure (with the key string still
    /// allocated), which the plain `next` treats as the end.
    pub fn get_next(&self, env: &mut Runtime) -> (r: Result<Option<(JObject, JObject)>, Error>)
        requires
            old(env).wf(),
            self.wf(*old(env)),
        ensures
            final(env).wf(),
            self.wf(*final(env)),
            ({
                let rem = self.remaining(*old(env));
                let kp2 = (old(env).heap@.len() + 1) as RawObject;
                if rem.len() == 0 {
                    r == Ok::<Option<(JObject, JObject)>, Error>(None) && *final(env) == *old(env)
                } else {
                    &&& self.step_heap(*old(env), *final(env))
                    &&& if rem[0].1 != 0 {
                        &&& (r matches Ok(o2) && o2 matches Some(pair) && pair.0.raw_spec() == kp2
                            && pair.1.raw_spec() == rem[0].1)
                        &&& forall|q: RawObject|
                            #[trigger] final(env).local_count(q) == old(env).local_count(q) + (
                            if q == kp2 {
                                1nat
                            } else {
                                0nat
                            }) + (if q == rem[0].1 {
                                1nat
                            } else {
                                0nat
                            })
                    } else {
                        &&& r == Err::<Option<(JObject, JObject)>, Error>(Error::NullPtr)
                        &&& forall|q: RawObject|
                            #[trigger] final(env).local_count(q) == old(env).local_count(q) + (
                            if q == kp2 {
                                1nat
                            } else {
                                0nat
                            })
                    }
                }
            }),
    {
        let iobj = JObject::from_raw(self.iter.as_obj().as_raw());
        let noargs: Vec<JValueRaw> = Vec::new();
        let hn = env.call_method(
            &iobj,
            &self.has_next,
            ReturnType::Primitive(Primitive::Boolean),
            noargs.as_slice(),
        );
        let more = match hn {
            Ok(val) => match val.z() {
                Ok(b) => b,
                Err(e) => {
                    proof {
                        assert(false);
                    }
                    return Err(e);
                },
            },
            Err(e) => {
                proof {
                    assert(false);
                }
                return Err(e);
            },
        };
        if !more {
            return Ok(None);
        }
        let ghost s0 = *old(env);
        let nx = env.call_method(&iobj, &self.next, ReturnType::Object, noargs.as_slice());
        let ghost s1 = *env;
        let entry = match nx {
            Ok(val) => match val.l() {
                Ok(o) => o,
                Err(e) => {
                    proof {
                        assert(false);
                    }
                    return Err(e);
                },
            },
            Err(e) => {
                proof {
                    assert(false);
                }
                return Err(e);
            },
        };
        let entry_guard = AutoLocal::new(entry);
        let ghost e = entry.raw_spec();
        proof {
            assert(s0.obj_at(e) is EntryObj);
            assert(e != self.iter_ref_spec().raw_spec());
            assert(s1.obj_at(e) is EntryObj);
        }
        let kr = env.call_method(&entry, &self.get_key, ReturnType::Object, noargs.as_slice());
        let ghost s2 = *env;
        let key_obj = match kr {
            Ok(val) => match val.l() {
                Ok(o) => o,
                Err(e2) => {
                    proof {
                        assert(false);
                    }
                    return Err(e2);
                },
            },
            Err(e2) => {
                proof {
                    assert(false);
                }
                return Err(e2);
            },
        };
        proof {
            crate::runtime::lemma_live_preserved(s1, s2, e);
        }
        let vr = env.call_method(&entry, &self.get_value, ReturnType::Object, noargs.as_slice());
        let ghost s3 = *env;
        match vr {
            Ok(val) => {
                let value_obj = match val.l() {
                    Ok(o) => o,
                    Err(e2) => {
                        proof {
                            assert(false);
                        }
                        return Err(e2);
                    },
                };
                entry_guard.release(env);
                proof {
                    assert(s3.local_live(e)) by {
                        assert(s3.local_count(e) >= 1);
                    }
                    self.lemma_step_end(s0, s1, s2, s3, *env, e, value_obj.raw_spec());
                }
                Ok(Some((key_obj, value_obj)))
            },
            Err(e2) => {
                entry_guard.release(env);
                proof {
                    assert(e2 == Error::NullPtr);
                    assert(s3.local_live(e)) by {
                        assert(s3.local_count(e) >= 1);
                    }
                    self.lemma_step_end(s0, s1, s2, s3, *env, e, 0);
                }
                Err(Error::NullPtr)
            },
        }
    }

    /// The bookkeeping behind one iterator step: composing the cursor
    /// advance, the key allocation, the optional value hand-back and
    /// the entry release gives the step's net heap, count and
    /// remaining-sequence effect.
    proof fn lemma_step_end(
        self,
        s0: Runtime,
        s1: Runtime,
        s2: Runtime,
        s3: Runtime,
        s4: Runtime,
        e: RawObject,
        v: RawObject,
    )
        requires
            s0.wf(),
            self.wf(s0),
            self.remaining(s0).len() > 0,
            s0.iter_pos_of(self.iter_ref_spec().raw_spec()) < s0.iter_items_of(
                self.iter_ref_spec().raw_spec(),
            ).len(),
            e == s0.iter_items_of(self.iter_ref_spec().raw_spec())[s0.iter_pos_of(
                self.iter_ref_spec().raw_spec(),
            )],
            Runtime::iter_next_post(
                s0,
                s1,
                self.iter_ref_spec().raw_spec(),
                Ok(JValueOwned::Object(JObject { raw: e })),
            ),
            Runtime::entry_get_key_post(
                s1,
                s2,
                e,
                Ok(JValueOwned::Object(JObject { raw: (s1.heap@.len() + 1) as RawObject })),
            ),
            if v != 0 {
                Runtime::ref_result_post(s2, s3, v, Ok(JValueOwned::Object(JObject { raw: v })))
                    && v == s2.entry_value_of(e)
            } else {
                s3 == s2 && s2.entry_value_of(e) == 0
            },
            s4.deleted_one(s3, e),
            s4.heap == s3.heap,
            s4.tables_unchanged(s3),
            s2.wf(),
            s3.wf(),
            s4.wf(),
        ensures
            self.wf(s4),
            self.step_heap(s0, s4),
            forall|q: RawObject|
                #[trigger] s4.local_count(q) == s0.local_count(q) + (if q == (s0.heap@.len()
                    + 1) as RawObject {
                    1nat
                } else {
                    0nat
                }) + (if v != 0 && q == v {
                    1nat
                } else {
                    0nat
                }),
            self.remaining(s0)[0].1 == (if v == 0 {
                0
            } else {
                v
            }),
            s4.string_of((s0.heap@.len() + 1) as RawObject) == self.remaining(s0)[0].0,
    {
        let it = self.iter_ref_spec().raw_spec();
        let items = s0.iter_items_of(it);
        let pos = s0.iter_pos_of(it);
        let kp2 = (s0.heap@.len() + 1) as RawObject;
        assert(s1.heap@.len() == s0.heap@.len());
        assert(s2.heap@.len() == s0.heap@.len() + 1);
        assert(s4.heap@.len() == s0.heap@.len() + 1);
        // the key string: allocated by the key accessor from the entry
        assert(s1.entry_key_of(e) == s0.entry_key_of(e));
        assert(s2.string_val_of(kp2) == s1.entry_key_of(e));
        assert(s4.heap@[kp2 as int - 1] == s2.heap@[kp2 as int - 1]);
        assert(s4.obj_at(kp2) is StringObj);
        assert(s4.string_of(kp2) == s2.string_of(kp2));
        // the untouched slots
        assert forall|i: int|
            0 <= i < s0.heap@.len() && i != it as int - 1 implies s4.heap@[i] == #[trigger] s0.heap@[i] by {
            assert(s1.heap@[i] == s0.heap@[i]);
            assert(s2.heap@[i] == s1.heap@[i]);
        }
        // the cursor
        assert(s1.iter_items_of(it) == items && s1.iter_pos_of(it) == pos + 1);
        assert(s2.heap@[it as int - 1] == s1.heap@[it as int - 1]);
        assert(s4.heap@[it as int - 1] == s2.heap@[it as int - 1]);
        assert(s4.iter_items_of(it) == items && s4.iter_pos_of(it) == pos + 1);
        // the remaining pairs
        assert(self.remaining(s0)[0] == (s0.entry_key_of(items[pos])@, s0.entry_value_of(
            items[pos],
        )));
        assert(s2.entry_value_of(e) == s0.entry_value_of(e)) by {
            assert(e != it);
            assert(s1.heap@[e as int - 1] == s0.heap@[e as int - 1]);
            assert(s2.heap@[e as int - 1] == s1.heap@[e as int - 1]);
        }
        assert(self.remaining(s4) =~= self.remaining(s0).drop_first()) by {
            assert forall|i: int| 0 <= i < items.len() - pos - 1 implies self.remaining(s4)[i]
                == self.remaining(s0).drop_first()[i] by {
                let p = items[pos + 1 + i];
                assert(s0.valid_ptr(p) && s0.obj_at(p) is EntryObj);
                assert(p != it);
                assert(s1.heap@[p as int - 1] == s0.heap@[p as int - 1]);
                assert(s2.heap@[p as int - 1] == s1.heap@[p as int - 1]);
                assert(s4.heap@[p as int - 1] == s2.heap@[p as int - 1]);
            }
        }
        // the string view of the fresh key
        assert(s4.string_of(kp2) == self.remaining(s0)[0].0) by {
            assert(s1.entry_key_of(e) == s0.entry_key_of(e)) by {
                assert(s1.heap@[e as int - 1] == s0.heap@[e as int - 1]);
            }
        }
        // the counts
        assert forall|q: RawObject|
            #[trigger] s4.local_count(q) == s0.local_count(q) + (if q == kp2 {
                1nat
            } else {
                0nat
            }) + (if v != 0 && q == v {
                1nat
            } else {
                0nat
            }) by {
            assert(s1.local_count(q) == s0.local_count(q) + if q == e {
                1nat
            } else {
                0nat
            });
            assert(s2.local_count(q) == s1.local_count(q) + if q == kp2 {
                1nat
            } else {
                0nat
            });
            if v != 0 {
                assert(s3.local_count(q) == s2.local_count(q) + if q == v {
                    1nat
                } else {
                    0nat
                });
            }
            assert(s4.local_count(q) + (if q == e {
                1nat
            } else {
                0nat
            }) == s3.local_count(q));
        }
        // liveness of the iterator object survives the step
        assert(self.wf(s4)) by {
            crate::runtime::lemma_live_preserved(s0, s4, it);
        }
    }

    /// Advances the iterator, mapping both exhaustion and any failure
    /// during the step to `None`: the sequence simply ends. A fresh
    /// call to [`JMap::iter`] is needed to restart it.
    pub fn next(&self, env: &mut Runtime) -> (r: Option<(JObject, JObject)>)
        requires
            old(env).wf(),
            self.wf(*old(env)),
        ensures
            final(env).wf(),
            self.wf(*final(env)),
            ({
                let rem = self.remaining(*old(env));
                let kp2 = (old(env).heap@.len() + 1) as RawObject;
                if rem.len() == 0 {
                    r is None && *final(env) == *old(env)
                } else {
                    &&& self.step_heap(*old(env), *final(env))
                    &&& if rem[0].1 != 0 {
                        (r matches Some(pair) && pair.0.raw_spec() == kp2 && pair.1.raw_spec()
                            == rem[0].1)
                    } else {
                        r is None
                    }
                }
            }),
    {
        match self.get_next(env) {
            Ok(Some(p)) => Some(p),
            Ok(None) => None,
            Err(_) => None,
        }
    }

    /// Dissolves the iterator, releasing its reference to the foreign
    /// iterator object.
    pub fn release(self, env: &mut Runtime)
        requires
            old(env).wf(),
        ensures
            final(env).wf(),
            final(env).heap == old(env).heap,
            final(env).tables_unchanged(*old(env)),
    {
        self.iter.release(env);
    }
}

impl JMap {
    /// Get a key/value iterator for the map, by resolving the iterator
    /// protocol and asking the map for its entry set and an iterator
    /// over it. The two chained calls run inside a bounded local frame
    /// (sixteen reserved slots), so the entry-set reference they create
    /// is reclaimed promptly; only the iterator reference survives,
    /// owned by the returned value. Succeeds exactly when the iterator,
    /// entry and set interfaces and the map's entry-set method are all
    /// defined.
    /// Resolves everything an entry iterator needs: the iterator and
    /// entry protocols, the map's entry-set method and the set
    /// interface's iterator method. Temporary class references are
    /// released again: the frames end exactly as they began.
    #[verifier::rlimit(100)]
    #[verifier::spinoff_prover]
    fn resolve_iter_protocol(&self, env: &mut Runtime) -> (r: Result<
        (JMethodID, JMethodID, JMethodID, JMethodID, JMethodID, JMethodID),
        Error,
    >)
        requires
            old(env).wf(),
            self.wf(*old(env)),
        ensures
            final(env).wf(),
            self.wf(*final(env)),
            final(env).heap_extended(*old(env)),
            final(env).tables_unchanged(*old(env)),
            final(env).locals_view() == old(env).locals_view(),
            final(env).counts_unchanged(*old(env)),
            match r {
                Ok(ms) => {
                    &&& iter_iface_defined(*old(env))
                    &&& final(env).valid_mid(ms.0.raw_spec())
                    &&& final(env).mid_kind(ms.0.raw_spec()) == MethodKind::IterHasNext
                    &&& final(env).valid_mid(ms.1.raw_spec())
                    &&& final(env).mid_kind(ms.1.raw_spec()) == MethodKind::IterNext
                    &&& final(env).valid_mid(ms.2.raw_spec())
                    &&& final(env).mid_kind(ms.2.raw_spec()) == MethodKind::EntryGetKey
                    &&& final(env).valid_mid(ms.3.raw_spec())
                    &&& final(env).mid_kind(ms.3.raw_spec()) == MethodKind::EntryGetValue
                    &&& final(env).valid_mid(ms.4.raw_spec())
                    &&& final(env).mid_kind(ms.4.raw_spec()) == MethodKind::MapEntrySet
                    &&& final(env).valid_mid(ms.5.raw_spec())
                    &&& final(env).mid_kind(ms.5.raw_spec()) == MethodKind::SetIterator
                },
                Err(e) => {
                    &&& e == Error::NotFound
                    &&& !iter_iface_defined(*old(env))
                },
            },
    {
        let iter_cls = match env.find_class("java/util/Iterator") {
            Ok(c) => c,
            Err(e) => {
                return Err(e);
            },
        };
        let ghost s1 = *env;
        let ig = AutoLocal::new(iter_cls);
        let has_next = match env.get_method_id(&iter_cls, "hasNext", SIG_TO_BOOLEAN) {
            Ok(m) => m,
            Err(e) => {
                proof {
                    assert(!env.method_defined(
                        env.class_name_at(iter_cls.raw_spec()),
                        "hasNext"@,
                        SIG_TO_BOOLEAN@,
                        false,
                    ));
                    crate::runtime::lemma_method_defined_same(
                        *old(env),
                        s1,
                        "java/util/Iterator"@,
                        "hasNext"@,
                        SIG_TO_BOOLEAN@,
                        false,
                    );
                }
                ig.release(env);
                proof {
                    crate::runtime::lemma_release_fresh(*old(env), s1, *env, iter_cls.raw_spec());
                }
                return Err(e);
            },
        };
        let next_mid = match env.get_method_id(&iter_cls, "next", SIG_TO_OBJ) {
            Ok(m) => m,
            Err(e) => {
                proof {
                    assert(!env.method_defined(
                        env.class_name_at(iter_cls.raw_spec()),
                        "next"@,
                        SIG_TO_OBJ@,
                        false,
                    ));
                    crate::runtime::lemma_method_defined_same(
                        *old(env),
                        s1,
                        "java/util/Iterator"@,
                        "next"@,
                        SIG_TO_OBJ@,
                        false,
                    );
                }
                ig.release(env);
                proof {
                    crate::runtime::lemma_release_fresh(*old(env), s1, *env, iter_cls.raw_spec());
                }
                return Err(e);
            },
        };
        let entry_cls = match env.find_class("java/util/Map$Entry") {
            Ok(c) => c,
            Err(e) => {
                proof {
                    crate::runtime::lemma_class_defined_same(
                        *old(env),
                        s1,
                        "java/util/Map$Entry"@,
                    );
                }
                ig.release(env);
                proof {
                    crate::runtime::lemma_release_fresh(*old(env), s1, *env, iter_cls.raw_spec());
                }
                return Err(e);
            },
        };
        let ghost s2 = *env;
        let eg = AutoLocal::new(entry_cls);
        let get_key = match env.get_method_id(&entry_cls, "getKey", SIG_TO_OBJ) {
            Err(e) => {
                proof {
                    assert(!env.method_defined(
                        env.class_name_at(entry_cls.raw_spec()),
                        "getKey"@,
                        SIG_TO_OBJ@,
                        false,
                    ));
                    crate::runtime::lemma_method_defined_same(
                        *old(env),
                        s2,
                        "java/util/Map$Entry"@,
                        "getKey"@,
                        SIG_TO_OBJ@,
                        false,
                    );
                }
                let ghost rpre = *env;
                eg.release(env);
                proof {
                    assert(rpre.pushed_local(s1, entry_cls.raw_spec()));
                    assert(rpre.local_count(entry_cls.raw_spec()) == s2.local_count(
                        entry_cls.raw_spec(),
                    ));
                    crate::runtime::lemma_release_fresh(s1, rpre, *env, entry_cls.raw_spec());
                }
                let ghost rmid = *env;
                ig.release(env);
                proof {
                    assert(rmid.pushed_local(*old(env), iter_cls.raw_spec()));
                    assert(rmid.local_count(iter_cls.raw_spec()) == s1.local_count(
                        iter_cls.raw_spec(),
                    ));
                    crate::runtime::lemma_release_fresh(*old(env), rmid, *env, iter_cls.raw_spec());
                }
                return Err(e);
            },
            Ok(m) => m,
        };
        let get_value = match env.get_method_id(&entry_cls, "getValue", SIG_TO_OBJ) {
            Err(e) => {
                proof {
                    assert(!env.method_defined(
                        env.class_name_at(entry_cls.raw_spec()),
                        "getValue"@,
                        SIG_TO_OBJ@,
                        false,
                    ));
                    crate::runtime::lemma_method_defined_same(
                        *old(env),
                        s2,
                        "java/util/Map$Entry"@,
                        "getValue"@,
                        SIG_TO_OBJ@,
                        false,
                    );
                }
                let ghost rpre = *env;
                eg.release(env);
                proof {
                    assert(rpre.pushed_local(s1, entry_cls.raw_spec()));
                    assert(rpre.local_count(entry_cls.raw_spec()) == s2.local_count(
                        entry_cls.raw_spec(),
                    ));
                    crate::runtime::lemma_release_fresh(s1, rpre, *env, entry_cls.raw_spec());
                }
                let ghost rmid = *env;
                ig.release(env);
                proof {
                    assert(rmid.pushed_local(*old(env), iter_cls.raw_spec()));
                    assert(rmid.local_count(iter_cls.raw_spec()) == s1.local_count(
                        iter_cls.raw_spec(),
                    ));
                    crate::runtime::lemma_release_fresh(*old(env), rmid, *env, iter_cls.raw_spec());
                }
                return Err(e);
            },
            Ok(m) => m,
        };
        let map_cls = JObject::from_raw(self.class.as_obj().as_raw());
        proof {
            crate::runtime::lemma_live_preserved(*old(env), s2, map_cls.raw_spec());
        }
        let entry_set_mid = match env.get_method_id(&map_cls, "entrySet", SIG_TO_SET) {
            Err(e) => {
                proof {
                    assert(!env.method_defined(
                        env.class_name_at(map_cls.raw_spec()),
                        "entrySet"@,
                        SIG_TO_SET@,
                        false,
                    ));
                    crate::runtime::lemma_method_defined_same(
                        *old(env),
                        s2,
                        "java/util/Map"@,
                        "entrySet"@,
                        SIG_TO_SET@,
                        false,
                    );
                }
                let ghost rpre = *env;
                eg.release(env);
                proof {
                    assert(rpre.pushed_local(s1, entry_cls.raw_spec()));
                    assert(rpre.local_count(entry_cls.raw_spec()) == s2.local_count(
                        entry_cls.raw_spec(),
                    ));
                    crate::runtime::lemma_release_fresh(s1, rpre, *env, entry_cls.raw_spec());
                }
                let ghost rmid = *env;
                ig.release(env);
                proof {
                    assert(rmid.pushed_local(*old(env), iter_cls.raw_spec()));
                    assert(rmid.local_count(iter_cls.raw_spec()) == s1.local_count(
                        iter_cls.raw_spec(),
                    ));
                    crate::runtime::lemma_release_fresh(*old(env), rmid, *env, iter_cls.raw_spec());
                }
                return Err(e);
            },
            Ok(m) => m,
        };
        let set_cls = match env.find_class("java/util/Set") {
            Ok(c) => c,
            Err(e) => {
                proof {
                    crate::runtime::lemma_class_defined_same(*old(env), s2, "java/util/Set"@);
                }
                let ghost rpre = *env;
                eg.release(env);
                proof {
                    assert(rpre.pushed_local(s1, entry_cls.raw_spec()));
                    assert(rpre.local_count(entry_cls.raw_spec()) == s2.local_count(
                        entry_cls.raw_spec(),
                    ));
                    crate::runtime::lemma_release_fresh(s1, rpre, *env, entry_cls.raw_spec());
                }
                let ghost rmid = *env;
                ig.release(env);
                proof {
                    assert(rmid.pushed_local(*old(env), iter_cls.raw_spec()));
                    assert(rmid.local_count(iter_cls.raw_spec()) == s1.local_count(
                        iter_cls.raw_spec(),
                    ));
                    crate::runtime::lemma_release_fresh(*old(env), rmid, *env, iter_cls.raw_spec());
                }
                return Err(e);
            },
        };
        let ghost s3 = *env;
        let sg = AutoLocal::new(set_cls);
        let iterator_mid = match env.get_method_id(&set_cls, "iterator", SIG_TO_ITERATOR) {
            Ok(m) => m,
            Err(e) => {
                proof {
                    assert(!env.method_defined(
                        env.class_name_at(set_cls.raw_spec()),
                        "iterator"@,
                        SIG_TO_ITERATOR@,
                        false,
                    ));
                    crate::runtime::lemma_method_defined_same(
                        *old(env),
                        s3,
                        "java/util/Set"@,
                        "iterator"@,
                        SIG_TO_ITERATOR@,
                        false,
                    );
                }
                sg.release(env);
                proof {
                    crate::runtime::lemma_release_fresh(s2, s3, *env, set_cls.raw_spec());
                }
                let ghost rpre = *env;
                eg.release(env);
                proof {
                    assert(rpre.pushed_local(s1, entry_cls.raw_spec()));
                    assert(rpre.local_count(entry_cls.raw_spec()) == s2.local_count(
                        entry_cls.raw_spec(),
                    ));
                    crate::runtime::lemma_release_fresh(s1, rpre, *env, entry_cls.raw_spec());
                }
                let ghost rmid = *env;
                ig.release(env);
                proof {
                    assert(rmid.pushed_local(*old(env), iter_cls.raw_spec()));
                    assert(rmid.local_count(iter_cls.raw_spec()) == s1.local_count(
                        iter_cls.raw_spec(),
                    ));
                    crate::runtime::lemma_release_fresh(*old(env), rmid, *env, iter_cls.raw_spec());
                }
                return Err(e);
            },
        };
        sg.release(env);
        proof {
            crate::runtime::lemma_release_fresh(s2, s3, *env, set_cls.raw_spec());
        }
        let ghost r1 = *env;
        eg.release(env);
        proof {
            assert(r1.pushed_local(s1, entry_cls.raw_spec()));
            assert(r1.local_count(entry_cls.raw_spec()) == s2.local_count(entry_cls.raw_spec()));
            crate::runtime::lemma_release_fresh(s1, r1, *env, entry_cls.raw_spec());
        }
        let ghost r2 = *env;
        ig.release(env);
        proof {
            assert(r2.pushed_local(*old(env), iter_cls.raw_spec()));
            assert(r2.local_count(iter_cls.raw_spec()) == s1.local_count(iter_cls.raw_spec()));
            crate::runtime::lemma_release_fresh(*old(env), r2, *env, iter_cls.raw_spec());
        }
        let ghost s4 = *env;
        proof {
            crate::runtime::lemma_live_preserved(*old(env), s4, self.obj_spec().raw_spec());
            crate::runtime::lemma_protocol_kinds();
            assert(s1.method_defined("java/util/Iterator"@, "hasNext"@, SIG_TO_BOOLEAN@, false))
                by {
                assert(s1.method_matches(
                    has_next.raw_spec() as int - 1,
                    s1.class_name_at(iter_cls.raw_spec()),
                    "hasNext"@,
                    SIG_TO_BOOLEAN@,
                    false,
                ));
            }
            crate::runtime::lemma_method_defined_same(
                *old(env),
                s1,
                "java/util/Iterator"@,
                "hasNext"@,
                SIG_TO_BOOLEAN@,
                false,
            );
            assert(s1.method_defined("java/util/Iterator"@, "next"@, SIG_TO_OBJ@, false)) by {
                assert(s1.method_matches(
                    next_mid.raw_spec() as int - 1,
                    s1.class_name_at(iter_cls.raw_spec()),
                    "next"@,
                    SIG_TO_OBJ@,
                    false,
                ));
            }
            crate::runtime::lemma_method_defined_same(
                *old(env),
                s1,
                "java/util/Iterator"@,
                "next"@,
                SIG_TO_OBJ@,
                false,
            );
            assert(s2.method_defined("java/util/Map$Entry"@, "getKey"@, SIG_TO_OBJ@, false)) by {
                assert(s2.method_matches(
                    get_key.raw_spec() as int - 1,
                    s2.class_name_at(entry_cls.raw_spec()),
                    "getKey"@,
                    SIG_TO_OBJ@,
                    false,
                ));
            }
            crate::runtime::lemma_method_defined_same(
                *old(env),
                s2,
                "java/util/Map$Entry"@,
                "getKey"@,
                SIG_TO_OBJ@,
                false,
            );
            assert(s2.method_defined("java/util/Map$Entry"@, "getValue"@, SIG_TO_OBJ@, false))
                by {
                assert(s2.method_matches(
                    get_value.raw_spec() as int - 1,
                    s2.class_name_at(entry_cls.raw_spec()),
                    "getValue"@,
                    SIG_TO_OBJ@,
                    false,
                ));
            }
            crate::runtime::lemma_method_defined_same(
                *old(env),
                s2,
                "java/util/Map$Entry"@,
                "getValue"@,
                SIG_TO_OBJ@,
                false,
            );
            assert(s2.method_defined("java/util/Map"@, "entrySet"@, SIG_TO_SET@, false)) by {
                assert(s2.method_matches(
                    entry_set_mid.raw_spec() as int - 1,
                    s2.class_name_at(map_cls.raw_spec()),
                    "entrySet"@,
                    SIG_TO_SET@,
                    false,
                ));
            }
            crate::runtime::lemma_method_defined_same(
                *old(env),
                s2,
                "java/util/Map"@,
                "entrySet"@,
                SIG_TO_SET@,
                false,
            );
            assert(s3.method_defined("java/util/Set"@, "iterator"@, SIG_TO_ITERATOR@, false))
                by {
                assert(s3.method_matches(
                    iterator_mid.raw_spec() as int - 1,
                    s3.class_name_at(set_cls.raw_spec()),
                    "iterator"@,
                    SIG_TO_ITERATOR@,
                    false,
                ));
            }
            crate::runtime::lemma_method_defined_same(
                *old(env),
                s3,
                "java/util/Set"@,
                "iterator"@,
                SIG_TO_ITERATOR@,
                false,
            );
        }
        Ok((has_next, next_mid, get_key, get_value, entry_set_mid, iterator_mid))
    }

    /// Get a key/value iterator for the map, by resolving the iterator
    /// protocol and asking the map for its entry set and an iterator
    /// over it. The two chained calls run inside a bounded local frame
    /// (sixteen reserved slots), so the entry-set reference they create
    /// is reclaimed promptly; only the iterator reference survives,
    /// owned by the returned value. Succeeds exactly when the iterator,
    /// entry and set interfaces and the map's entry-set method are all
    /// defined.
    pub fn iter(&self, env: &mut Runtime) -> (r: Result<JMapIter, Error>)
        requires
            old(env).wf(),
            self.wf(*old(env)),
        ensures
            final(env).wf(),
            self.wf(*final(env)),
            final(env).heap_extended(*old(env)),
            final(env).tables_unchanged(*old(env)),
            final(env).locals_view().len() == old(env).locals_view().len(),
            match r {
                Ok(it) => {
                    &&& iter_iface_defined(*old(env))
                    &&& it.wf(*final(env))
                    &&& it.remaining(*final(env)) == self.entries(*old(env)).map_values(
                        |en: (String, RawObject)| (en.0@, en.1),
                    )
                    &&& final(env).counts_plus_one(*old(env), it.iter_ref_spec().raw_spec())
                },
                Err(e) => {
                    &&& e == Error::NotFound
                    &&& !iter_iface_defined(*old(env))
                    &&& final(env).locals_view() == old(env).locals_view()
                    &&& final(env).counts_unchanged(*old(env))
                },
            },
    {
        let ms = match self.resolve_iter_protocol(env) {
            Ok(ms) => ms,
            Err(e) => {
                return Err(e);
            },
        };
        let ghost s4 = *env;
        let kept = self.fetch_iter(env, &ms.4, &ms.5);
        let ghost s8 = *env;
        proof {
            let ip = kept.raw_spec();
            assert(s8.heap_extended(*old(env))) by {
                assert forall|i: int|
                    0 <= i < old(env).heap@.len() implies s8.heap@[i] == #[trigger] old(
                    env,
                ).heap@[i] by {
                    assert(s4.heap@[i] == old(env).heap@[i]);
                }
            }
            assert forall|q: RawObject|
                #[trigger] s8.local_count(q) == old(env).local_count(q) + (if q == ip {
                    1nat
                } else {
                    0nat
                }) by {
                assert(s4.local_count(q) == old(env).local_count(q));
                assert(s8.local_count(q) == s4.local_count(q) + if q == ip {
                    1nat
                } else {
                    0nat
                });
            }
            assert(s8.methods == s4.methods);
            assert(self.entries(s4) == self.entries(*old(env))) by {
                let o = self.obj_spec().raw_spec();
                assert(s4.heap@[o as int - 1] == old(env).heap@[o as int - 1]);
            }
        }
        let out = JMapIter {
            has_next: ms.0,
            next: ms.1,
            get_key: ms.2,
            get_value: ms.3,
            iter: AutoLocal::new(kept),
        };
        proof {
            assert(out.iter_ref_spec().raw_spec() == kept.raw_spec());
        }
        Ok(out)
    }
}


impl JMap {

    /// Performs the two chained calls — entry set, then iterator —
    /// inside a bounded local frame, keeping only the iterator
    /// reference.
    fn fetch_iter(&self, env: &mut Runtime, entry_set_mid: &JMethodID, iterator_mid: &JMethodID)
        -> (r: JObject)
        requires
            old(env).wf(),
            self.wf(*old(env)),
            old(env).valid_mid(entry_set_mid.raw_spec()),
            old(env).mid_kind(entry_set_mid.raw_spec()) == MethodKind::MapEntrySet,
            old(env).valid_mid(iterator_mid.raw_spec()),
            old(env).mid_kind(iterator_mid.raw_spec()) == MethodKind::SetIterator,
        ensures
            final(env).wf(),
            self.wf(*final(env)),
            final(env).heap_extended(*old(env)),
            final(env).tables_unchanged(*old(env)),
            final(env).locals_view().len() == old(env).locals_view().len(),
            final(env).valid_ptr(r.raw_spec()),
            final(env).obj_at(r.raw_spec()) is IterObj,
            final(env).iter_pos_of(r.raw_spec()) == 0,
            final(env).local_live(r.raw_spec()),
            final(env).counts_plus_one(*old(env), r.raw_spec()),
            final(env).iter_items_of(r.raw_spec()).subrange(
                0,
                final(env).iter_items_of(r.raw_spec()).len() as int,
            ).map_values(|p: RawObject| (final(env).entry_key_of(p)@, final(env).entry_value_of(p)))
                == self.entries(*old(env)).map_values(|en: (String, RawObject)| (en.0@, en.1)),
    {
        env.push_local_frame(16);
        let noargs: Vec<JValueRaw> = Vec::new();
        let ghost s5 = *env;
        let es_res = env.call_method(
            &self.internal,
            entry_set_mid,
            ReturnType::Object,
            noargs.as_slice(),
        );
        let ghost s6 = *env;
        let es = match es_res {
            Ok(val) => match val.l() {
                Ok(o) => o,
                Err(_) => {
                    proof {
                        assert(false);
                    }
                    JObject::null()
                },
            },
            Err(_) => {
                proof {
                    assert(false);
                }
                JObject::null()
            },
        };
        proof {
            assert(s6.local_count(es.raw_spec()) >= 1);
        }
        let it_res = env.call_method(&es, iterator_mid, ReturnType::Object, noargs.as_slice());
        let ghost s7 = *env;
        let it_obj = match it_res {
            Ok(val) => match val.l() {
                Ok(o) => o,
                Err(_) => {
                    proof {
                        assert(false);
                    }
                    JObject::null()
                },
            },
            Err(_) => {
                proof {
                    assert(false);
                }
                JObject::null()
            },
        };
        let kept = env.pop_local_frame(it_obj);
        let ghost s8 = *env;
        proof {
            self.lemma_iter_end(
                *old(env),
                *old(env),
                s5,
                s6,
                s7,
                s8,
                es.raw_spec(),
                it_obj.raw_spec(),
            );
        }
        kept
    }

    /// The bookkeeping behind fetching the entry-set iterator: pushing
    /// the bounded frame, the two chained calls, and popping the frame
    /// with the iterator kept compose into: one net local reference to
    /// a fresh iterator positioned at the start of the map's entries.
    proof fn lemma_iter_end(
        self,
        s0: Runtime,
        s4: Runtime,
        s5: Runtime,
        s6: Runtime,
        s7: Runtime,
        s8: Runtime,
        sp: RawObject,
        ip: RawObject,
    )
        requires
            s0.wf(),
            self.wf(s0),
            s4.wf(),
            s4.heap_extended(s0),
            s4.tables_unchanged(s0),
            s4.locals_view() == s0.locals_view(),
            s5.locals_view() == s4.locals_view().push(Seq::<RawObject>::empty()),
            s5.heap == s4.heap,
            s5.tables_unchanged(s4),
            s5.counts_unchanged(s4),
            Runtime::entry_set_post(
                s5,
                s6,
                self.obj_spec().raw_spec(),
                Ok(JValueOwned::Object(JObject { raw: sp })),
            ),
            Runtime::set_iterator_post(
                s6,
                s7,
                sp,
                Ok(JValueOwned::Object(JObject { raw: ip })),
            ),
            s7.locals_view().len() >= 2,
            s8.locals_view() == if ip == 0 {
                s7.locals_view().drop_last()
            } else {
                s7.locals_view().drop_last().update(
                    s7.locals_view().len() - 2,
                    s7.locals_view()[s7.locals_view().len() - 2].push(ip),
                )
            },
            s8.heap == s7.heap,
            s8.tables_unchanged(s7),
            forall|q: RawObject|
                #[trigger] s8.local_count(q) + seq_count(s7.locals_view().last(), q)
                    == s7.local_count(q) + if ip != 0 && q == ip {
                    1nat
                } else {
                    0nat
                },
            s8.wf(),
        ensures
            self.wf(s8),
            s8.heap_extended(s0),
            s8.tables_unchanged(s0),
            s8.locals_view().len() == s0.locals_view().len(),
            s8.valid_ptr(ip),
            s8.obj_at(ip) is IterObj,
            s8.iter_pos_of(ip) == 0,
            s8.local_live(ip),
            forall|q: RawObject|
                #[trigger] s8.local_count(q) == s0.local_count(q) + if q == ip {
                    1nat
                } else {
                    0nat
                },
            s8.iter_items_of(ip).subrange(0, s8.iter_items_of(ip).len() as int).map_values(
                |p: RawObject| (s8.entry_key_of(p)@, s8.entry_value_of(p)),
            ) == self.entries(s0).map_values(|en: (String, RawObject)| (en.0@, en.1)),
    {
        let o = self.obj_spec().raw_spec();
        let entries = self.entries(s0);
        let base = s5.heap@.len() as int;
        let n = entries.len() as int;
        assert(s4.map_entries_of(o) == entries) by {
            assert(s4.heap@[o as int - 1] == s0.heap@[o as int - 1]);
        }
        assert(s5.map_entries_of(o) == entries);
        assert(ip != 0 && sp != 0);
        assert(ip != o && sp != o);
        // the iterator's items are the freshly allocated entry objects
        assert(s7.iter_items_of(ip) == s6.set_items_of(sp));
        assert(s8.iter_items_of(ip) == s7.iter_items_of(ip) && s8.iter_pos_of(ip)
            == s7.iter_pos_of(ip));
        assert(s8.iter_items_of(ip).len() == n);
        // pair sequence equality, element by element
        let lhs = s8.iter_items_of(ip).subrange(0, s8.iter_items_of(ip).len() as int).map_values(
            |p: RawObject| (s8.entry_key_of(p)@, s8.entry_value_of(p)),
        );
        let rhs = entries.map_values(|en: (String, RawObject)| (en.0@, en.1));
        assert(lhs =~= rhs) by {
            assert forall|t: int| 0 <= t < n implies lhs[t] == rhs[t] by {
                let p = s8.iter_items_of(ip)[t];
                assert(p == base + t + 1);
                assert(s6.heap@[base + t] matches HeapObject::EntryObj { key_text, value }
                    && key_text == entries[t].0 && value == entries[t].1);
                assert(s7.heap@[base + t] == s6.heap@[base + t]);
                assert(s8.heap@[base + t] == s7.heap@[base + t]);
            }
        }
        // the frame stack is restored with the iterator kept
        assert(s6.locals_view().last() == s5.locals_view().last().push(sp));
        assert(s7.locals_view().last() == s6.locals_view().last().push(ip));
        assert(s7.locals_view().drop_last() =~= s4.locals_view()) by {
            assert forall|i: int| 0 <= i < s4.locals_view().len() implies s7.locals_view()[i]
                == s4.locals_view()[i] by {
                assert(s6.locals_view()[i] == s5.locals_view()[i]);
            }
        }
        assert(s8.locals_view().len() == s0.locals_view().len());
        // the net reference counts
        assert forall|q: RawObject|
            #[trigger] s8.local_count(q) == s0.local_count(q) + if q == ip {
                1nat
            } else {
                0nat
            } by {
            assert(s4.local_count(q) == s0.local_count(q));
            assert(s5.local_count(q) == s4.local_count(q));
            assert(s6.local_count(q) == s5.local_count(q) + if q == sp {
                1nat
            } else {
                0nat
            });
            assert(s7.local_count(q) == s6.local_count(q) + if q == ip {
                1nat
            } else {
                0nat
            });
            assert(s7.locals_view().last() =~= Seq::<RawObject>::empty().push(sp).push(ip));
            crate::runtime::lemma_seq_count_push(Seq::<RawObject>::empty().push(sp), ip, q);
            crate::runtime::lemma_seq_count_push(Seq::<RawObject>::empty(), sp, q);
        }
        assert(s8.local_live(ip)) by {
            assert(s8.local_count(ip) >= 1);
        }
        // the adapter itself survives: same map object, same class
        // reference, same identifiers
        assert(s8.heap@[o as int - 1] == s0.heap@[o as int - 1]) by {
            assert(s4.heap@[o as int - 1] == s0.heap@[o as int - 1]);
            assert(s6.heap@[o as int - 1] == s5.heap@[o as int - 1]);
            assert(s7.heap@[o as int - 1] == s6.heap@[o as int - 1]);
        }
        let cl = self.class_ref_spec().raw_spec();
        assert(s8.heap@[cl as int - 1] == s0.heap@[cl as int - 1]) by {
            assert(s4.heap@[cl as int - 1] == s0.heap@[cl as int - 1]);
            assert(s6.heap@[cl as int - 1] == s5.heap@[cl as int - 1]);
            assert(s7.heap@[cl as int - 1] == s6.heap@[cl as int - 1]);
        }
        assert(self.wf(s8)) by {
            crate::runtime::lemma_live_preserved(s0, s8, o);
            crate::runtime::lemma_live_preserved(s0, s8, cl);
        }
        assert(s8.heap_extended(s0)) by {
            assert forall|i: int| 0 <= i < s0.heap@.len() implies s8.heap@[i] == #[trigger] s0.heap@[i] by {
                assert(s4.heap@[i] == s0.heap@[i]);
                assert(s6.heap@[i] == s5.heap@[i]);
                assert(s7.heap@[i] == s6.heap@[i]);
            }
        }
    }
}

} // verus!
