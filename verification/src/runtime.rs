//! An explicit model of the foreign runtime.
//!
//! The real collaborator behind this interface is a garbage-collected
//! runtime reached through a native calling convention. This module
//! models exactly the slice of it that the rest of the crate relies on,
//! as plain verified state:
//!
//! - a heap of objects that only grows (collection itself is the foreign
//!   runtime's business; what this crate must get right is the reference
//!   bookkeeping around it);
//! - a stack of local-reference frames: every handle handed out by a
//!   lookup or call is recorded in the innermost frame until it is
//!   explicitly released or its frame is popped;
//! - a table of pinned global references, each with a share count and a
//!   released-exactly-once flag;
//! - tables of defined classes, methods and fields that lookups resolve
//!   against;
//! - the attachment state of the current thread, which the global
//!   reference release path must respect.
//!
//! Map objects in this model are keyed by string content, which is what
//! the map adapter exercises; values are arbitrary object references.

use vstd::prelude::*;

use crate::errors::Error;
use crate::jmethodid::{JFieldID, JMethodID, JStaticFieldID, JStaticMethodID, RawId};
use crate::jvalueowned::JValueRaw;
use crate::jobject::{JObject, RawObject};

verus! {

/// Method signature of `Object -> Object`, used by the map protocol.
pub const SIG_OBJ_TO_OBJ: &'static str = "(Ljava/lang/Object;)Ljava/lang/Object;";

/// Method signature of `Object x Object -> Object`, used by map `put`.
pub const SIG_OBJ_OBJ_TO_OBJ: &'static str =
    "(Ljava/lang/Object;Ljava/lang/Object;)Ljava/lang/Object;";

/// Method signature of `() -> Set`, used by `entrySet`.
pub const SIG_TO_SET: &'static str = "()Ljava/util/Set;";

/// Method signature of `() -> Iterator`, used by `iterator`.
pub const SIG_TO_ITERATOR: &'static str = "()Ljava/util/Iterator;";

/// Method signature of `() -> boolean`, used by `hasNext`.
pub const SIG_TO_BOOLEAN: &'static str = "()Z";

/// Method signature of `() -> Object`, used by `next`, `getKey`, `getValue`.
pub const SIG_TO_OBJ: &'static str = "()Ljava/lang/Object;";

/// Method signature of `() -> String`, used by `getMessage`.
pub const SIG_TO_STRING: &'static str = "()Ljava/lang/String;";

/// Method signature of `String -> void`, the single-string constructor.
pub const SIG_STRING_TO_VOID: &'static str = "(Ljava/lang/String;)V";

/// What a defined method means to the model's call dispatcher. The kind
/// is computed once, when the method is defined, from its class, name and
/// signature; `Other` is a method the model knows how to resolve but not
/// how to call.
#[derive(Clone, Copy, Debug, PartialEq, Eq, Structural)]
pub enum MethodKind {
    MapGet,
    MapPut,
    MapRemove,
    MapEntrySet,
    SetIterator,
    IterHasNext,
    IterNext,
    EntryGetKey,
    EntryGetValue,
    GetMessage,
    CtorString,
    Other,
}

/// The kind a method with the given class, name and signature dispatches
/// as. `getMessage` and the single-string constructor are recognised on
/// every class; the collection protocol methods only on their interfaces.
pub open spec fn kind_of(class: Seq<char>, name: Seq<char>, sig: Seq<char>) -> MethodKind {
    if class == "java/util/Map"@ && name == "get"@ && sig == SIG_OBJ_TO_OBJ@ {
        MethodKind::MapGet
    } else if class == "java/util/Map"@ && name == "put"@ && sig == SIG_OBJ_OBJ_TO_OBJ@ {
        MethodKind::MapPut
    } else if class == "java/util/Map"@ && name == "remove"@ && sig == SIG_OBJ_TO_OBJ@ {
        MethodKind::MapRemove
    } else if class == "java/util/Map"@ && name == "entrySet"@ && sig == SIG_TO_SET@ {
        MethodKind::MapEntrySet
    } else if class == "java/util/Set"@ && name == "iterator"@ && sig == SIG_TO_ITERATOR@ {
        MethodKind::SetIterator
    } else if class == "java/util/Iterator"@ && name == "hasNext"@ && sig == SIG_TO_BOOLEAN@ {
        MethodKind::IterHasNext
    } else if class == "java/util/Iterator"@ && name == "next"@ && sig == SIG_TO_OBJ@ {
        MethodKind::IterNext
    } else if class == "java/util/Map$Entry"@ && name == "getKey"@ && sig == SIG_TO_OBJ@ {
        MethodKind::EntryGetKey
    } else if class == "java/util/Map$Entry"@ && name == "getValue"@ && sig == SIG_TO_OBJ@ {
        MethodKind::EntryGetValue
    } else if name == "getMessage"@ && sig == SIG_TO_STRING@ {
        MethodKind::GetMessage
    } else if name == "<init>"@ && sig == SIG_STRING_TO_VOID@ {
        MethodKind::CtorString
    } else {
        MethodKind::Other
    }
}

/// One object living on the model heap.
///
/// Map objects hold their entries as key text paired with a value
/// reference: the model's maps compare keys by string content, the way
/// the foreign map implementations the adapter targets do. The value 0 in
/// a reference-valued field is the foreign null.
pub enum HeapObject {
    /// A class object, as returned by a class lookup.
    ClassObj { name: String },
    /// A string object.
    StringObj { text: String },
    /// A string-keyed map object.
    MapObj { entries: Vec<(String, RawObject)> },
    /// One key/value entry of a map, as handed out by its entry set.
    EntryObj { key_text: String, value: RawObject },
    /// The entry set of a map: references to its entry objects.
    SetObj { items: Vec<RawObject> },
    /// An iterator over entry references, with its cursor.
    IterObj { items: Vec<RawObject>, pos: usize },
    /// A throwable, carrying its class name and a message reference.
    ThrowableObj { class_name: String, message: RawObject },
}

/// A method the runtime can resolve: its class and name, its signature,
/// whether it is static, and the dispatch kind computed from all three.
pub struct MethodEntry {
    pub class_name: String,
    pub name: String,
    pub sig: String,
    pub is_static: bool,
    pub kind: MethodKind,
}

/// A field the runtime can resolve.
pub struct FieldEntry {
    pub class_name: String,
    pub name: String,
    pub sig: String,
    pub is_static: bool,
}

/// One pinned global reference: its target object, how many host-side
/// shares currently exist, and whether the pin has been released. The
/// model's well-formedness ties the two: a released pin has no shares.
pub struct GlobalEntry {
    pub target: RawObject,
    pub shares: u64,
    pub released: bool,
}

/// The number of occurrences of `p` in one local frame.
pub open spec fn seq_count(s: Seq<RawObject>, p: RawObject) -> nat
    decreases s.len(),
{
    if s.len() == 0 {
        0
    } else {
        seq_count(s.drop_last(), p) + if s.last() == p {
            1nat
        } else {
            0nat
        }
    }
}

/// The number of occurrences of `p` across a stack of local frames.
pub open spec fn frames_count(ls: Seq<Seq<RawObject>>, p: RawObject) -> nat
    decreases ls.len(),
{
    if ls.len() == 0 {
        0
    } else {
        frames_count(ls.drop_last(), p) + seq_count(ls.last(), p)
    }
}

/// Map entries carry pairwise distinct key texts.
pub open spec fn map_distinct(entries: Seq<(String, RawObject)>) -> bool {
    forall|i: int, j: int|
        #![trigger entries[i], entries[j]]
        0 <= i < j < entries.len() ==> entries[i].0@ != entries[j].0@
}

/// The value bound to key text `k`, by first match.
pub open spec fn map_lookup(entries: Seq<(String, RawObject)>, k: Seq<char>) -> Option<RawObject>
    decreases entries.len(),
{
    if entries.len() == 0 {
        None
    } else if entries[0].0@ == k {
        Some(entries[0].1)
    } else {
        map_lookup(entries.drop_first(), k)
    }
}

/// With distinct keys, any matching index decides the lookup; a missed
/// lookup means no index matches, and a hit names its index.
pub proof fn lemma_map_lookup_at(entries: Seq<(String, RawObject)>, k: Seq<char>)
    requires
        map_distinct(entries),
    ensures
        forall|i: int|
            0 <= i < entries.len() && (#[trigger] entries[i]).0@ == k ==> map_lookup(entries, k)
                == Some(entries[i].1),
        map_lookup(entries, k) is None ==> forall|i: int|
            0 <= i < entries.len() ==> (#[trigger] entries[i]).0@ != k,
        map_lookup(entries, k) matches Some(v) ==> exists|i: int|
            0 <= i < entries.len() && (#[trigger] entries[i]).0@ == k && entries[i].1 == v,
    decreases entries.len(),
{
    if entries.len() > 0 {
        let rest = entries.drop_first();
        assert(map_distinct(rest)) by {
            assert forall|i: int, j: int|
                #![trigger rest[i], rest[j]]
                0 <= i < j < rest.len() implies rest[i].0@ != rest[j].0@ by {
                assert(rest[i] == entries[i + 1]);
                assert(rest[j] == entries[j + 1]);
            }
        }
        lemma_map_lookup_at(rest, k);
        if entries[0].0@ == k {
            assert forall|i: int|
                0 <= i < entries.len() && (#[trigger] entries[i]).0@ == k implies map_lookup(
                entries,
                k,
            ) == Some(entries[i].1) by {
                if i > 0 {
                    assert(entries[0].0@ != entries[i].0@);
                }
            }
        } else {
            assert forall|i: int|
                0 <= i < entries.len() && (#[trigger] entries[i]).0@ == k implies map_lookup(
                entries,
                k,
            ) == Some(entries[i].1) by {
                assert(i > 0);
                assert(rest[i - 1] == entries[i]);
            }
            if map_lookup(entries, k) is None {
                assert forall|i: int| 0 <= i < entries.len() implies (
                #[trigger] entries[i]).0@ != k by {
                    if i > 0 {
                        assert(rest[i - 1] == entries[i]);
                    }
                }
            }
            match map_lookup(entries, k) {
                Some(v) => {
                    let i = choose|i: int|
                        0 <= i < rest.len() && (#[trigger] rest[i]).0@ == k && rest[i].1 == v;
                    assert(entries[i + 1].0@ == k && entries[i + 1].1 == v);
                },
                None => {},
            }
        }
    }
}

/// The model runtime and the call context driving it, in one value.
pub struct Runtime {
    pub heap: Vec<HeapObject>,
    pub classes: Vec<String>,
    pub methods: Vec<MethodEntry>,
    pub fields: Vec<FieldEntry>,
    pub frames: Vec<Vec<RawObject>>,
    pub globals: Vec<GlobalEntry>,
    pub attached: bool,
    pub detached_releases: u64,
}

impl Runtime {
    /// A reference value names a heap slot: slot `p` holds `heap[p - 1]`,
    /// and 0 is the foreign null.
    pub open spec fn valid_ptr(self, p: RawObject) -> bool {
        1 <= p <= self.heap@.len()
    }

    /// A reference value that is either null or names a heap slot.
    pub open spec fn valid_or_null(self, p: RawObject) -> bool {
        p == 0 || self.valid_ptr(p)
    }

    /// The object a reference value names.
    pub open spec fn obj_at(self, p: RawObject) -> HeapObject
        recommends
            self.valid_ptr(p),
    {
        self.heap@[p as int - 1]
    }

    /// An identifier names a method table row: id `m` names `methods[m - 1]`.
    pub open spec fn valid_mid(self, m: RawId) -> bool {
        1 <= m <= self.methods@.len()
    }

    /// The method table row an identifier names.
    pub open spec fn method_at(self, m: RawId) -> MethodEntry
        recommends
            self.valid_mid(m),
    {
        self.methods@[m as int - 1]
    }

    /// An identifier names a field table row.
    pub open spec fn valid_fid(self, f: RawId) -> bool {
        1 <= f <= self.fields@.len()
    }

    /// An identifier names a global reference table row.
    pub open spec fn valid_gid(self, g: RawId) -> bool {
        1 <= g <= self.globals@.len()
    }

    /// The global reference table row an identifier names.
    pub open spec fn global_at(self, g: RawId) -> GlobalEntry
        recommends
            self.valid_gid(g),
    {
        self.globals@[g as int - 1]
    }

    /// The stack of local frames, innermost last, as plain sequences.
    pub open spec fn locals_view(self) -> Seq<Seq<RawObject>> {
        self.frames@.map_values(|f: Vec<RawObject>| f@)
    }

    /// How many local references to `p` are currently recorded.
    pub open spec fn local_count(self, p: RawObject) -> nat {
        frames_count(self.locals_view(), p)
    }

    /// Whether at least one local reference to `p` is recorded.
    pub open spec fn local_live(self, p: RawObject) -> bool {
        self.local_count(p) > 0
    }

    /// Whether some global reference pins `p` with at least one share.
    pub open spec fn global_pinned(self, p: RawObject) -> bool {
        exists|g: int|
            0 <= g < self.globals@.len() && (#[trigger] self.globals@[g]).target == p
                && self.globals@[g].shares >= 1
    }

    /// Whether `p` may be handed to a runtime call: some local or global
    /// reference still pins it. Using a reference that is no longer live
    /// is the caller contract violation this whole crate exists to rule
    /// out, so every operation that takes a handle demands this.
    pub open spec fn live(self, p: RawObject) -> bool {
        self.local_live(p) || self.global_pinned(p)
    }

    /// Whether a class of this name has been defined.
    pub open spec fn class_defined(self, name: Seq<char>) -> bool {
        exists|i: int| 0 <= i < self.classes@.len() && (#[trigger] self.classes@[i])@ == name
    }

    /// Internal consistency of one heap object: stored references are
    /// null or in bounds, stored collections point at entry objects, map
    /// keys are pairwise distinct, an iterator cursor is in range, and a
    /// throwable's message is null or a string object.
    pub open spec fn heap_obj_wf(self, o: HeapObject) -> bool {
        match o {
            HeapObject::ClassObj { .. } => true,
            HeapObject::StringObj { .. } => true,
            HeapObject::MapObj { entries } => {
                &&& map_distinct(entries@)
                &&& forall|i: int|
                    0 <= i < entries@.len() ==> self.valid_or_null((#[trigger] entries@[i]).1)
            },
            HeapObject::EntryObj { value, .. } => self.valid_or_null(value),
            HeapObject::SetObj { items } => {
                forall|i: int|
                    0 <= i < items@.len() ==> self.valid_ptr(#[trigger] items@[i]) && self.obj_at(
                        items@[i],
                    ) is EntryObj
            },
            HeapObject::IterObj { items, pos } => {
                &&& pos <= items@.len()
                &&& forall|i: int|
                    0 <= i < items@.len() ==> self.valid_ptr(#[trigger] items@[i]) && self.obj_at(
                        items@[i],
                    ) is EntryObj
            },
            HeapObject::ThrowableObj { message, .. } => {
                message == 0 || (self.valid_ptr(message) && self.obj_at(message) is StringObj)
            },
        }
    }

    /// Every heap object is internally consistent.
    pub open spec fn heap_wf(self) -> bool {
        forall|i: int| 0 <= i < self.heap@.len() ==> self.heap_obj_wf(#[trigger] self.heap@[i])
    }

    /// There is always an ambient frame, and frames hold only references
    /// into the heap.
    pub open spec fn frames_wf(self) -> bool {
        &&& self.locals_view().len() >= 1
        &&& forall|i: int, j: int|
            0 <= i < self.locals_view().len() && 0 <= j < self.locals_view()[i].len()
                ==> self.valid_ptr(#[trigger] self.locals_view()[i][j])
    }

    /// Every method table row's dispatch kind agrees with its strings.
    pub open spec fn methods_wf(self) -> bool {
        forall|i: int|
            0 <= i < self.methods@.len() ==> (#[trigger] self.methods@[i]).kind == kind_of(
                self.methods@[i].class_name@,
                self.methods@[i].name@,
                self.methods@[i].sig@,
            )
    }

    /// Global references target real objects, and a released pin has no
    /// shares left: release happens only after the last share is gone.
    pub open spec fn globals_wf(self) -> bool {
        forall|g: int|
            0 <= g < self.globals@.len() ==> {
                &&& self.valid_ptr((#[trigger] self.globals@[g]).target)
                &&& (self.globals@[g].released ==> self.globals@[g].shares == 0)
            }
    }

    /// The model invariant. Every public operation preserves it.
    pub open spec fn wf(self) -> bool {
        &&& self.frames_wf()
        &&& self.heap_wf()
        &&& self.methods_wf()
        &&& self.globals_wf()
    }

    /// The lookup tables, the globals and the thread state are unchanged.
    pub open spec fn tables_unchanged(self, pre: Runtime) -> bool {
        &&& self.classes == pre.classes
        &&& self.methods == pre.methods
        &&& self.fields == pre.fields
        &&& self.globals == pre.globals
        &&& self.attached == pre.attached
        &&& self.detached_releases == pre.detached_releases
    }

    /// The heap has only grown: every slot of `pre` is untouched.
    pub open spec fn heap_extended(self, pre: Runtime) -> bool {
        &&& pre.heap@.len() <= self.heap@.len()
        &&& forall|i: int| 0 <= i < pre.heap@.len() ==> self.heap@[i] == #[trigger] pre.heap@[i]
    }

    /// One reference was recorded in the innermost frame; the outer
    /// frames are untouched.
    pub open spec fn pushed_local(self, pre: Runtime, p: RawObject) -> bool {
        &&& self.locals_view().len() == pre.locals_view().len()
        &&& forall|i: int|
            0 <= i < pre.locals_view().len() - 1 ==> self.locals_view()[i]
                == #[trigger] pre.locals_view()[i]
        &&& self.locals_view().last() == pre.locals_view().last().push(p)
    }

    /// A fresh object was allocated at `p` and recorded as a local
    /// reference in the innermost frame.
    pub open spec fn allocated_local(self, pre: Runtime, o: HeapObject, p: RawObject) -> bool {
        &&& p == pre.heap@.len() + 1
        &&& self.heap@ == pre.heap@.push(o)
        &&& self.pushed_local(pre, p)
        &&& self.tables_unchanged(pre)
    }
}

/// Two heap slots are compatible when the slot is untouched, or mutated
/// in place without changing what kind of object lives there — the only
/// in-place mutations the model performs (map updates, iterator cursor
/// advances) keep the slot's kind.
pub open spec fn slot_compatible(a: HeapObject, b: HeapObject) -> bool {
    ||| a == b
    ||| (a is MapObj && b is MapObj)
    ||| (a is IterObj && b is IterObj)
}

/// Internal consistency of a heap object only mentions slot kinds and
/// bounds, so it survives growing the heap and kind-preserving in-place
/// mutation.
pub proof fn lemma_obj_wf_preserved(pre: Runtime, post: Runtime, o: HeapObject)
    requires
        pre.heap_obj_wf(o),
        pre.heap@.len() <= post.heap@.len(),
        forall|i: int|
            0 <= i < pre.heap@.len() ==> slot_compatible(#[trigger] pre.heap@[i], post.heap@[i]),
    ensures
        post.heap_obj_wf(o),
{
    match o {
        HeapObject::SetObj { items } => {
            assert forall|i: int| 0 <= i < items@.len() implies post.valid_ptr(
                #[trigger] items@[i],
            ) && post.obj_at(items@[i]) is EntryObj by {
                assert(slot_compatible(pre.heap@[items@[i] as int - 1], post.heap@[items@[i] as int - 1]));
            }
        },
        HeapObject::IterObj { items, pos } => {
            assert forall|i: int| 0 <= i < items@.len() implies post.valid_ptr(
                #[trigger] items@[i],
            ) && post.obj_at(items@[i]) is EntryObj by {
                assert(slot_compatible(pre.heap@[items@[i] as int - 1], post.heap@[items@[i] as int - 1]));
            }
        },
        HeapObject::ThrowableObj { message, .. } => {
            if message != 0 {
                assert(slot_compatible(pre.heap@[message as int - 1], post.heap@[message as int - 1]));
            }
        },
        _ => {},
    }
}

/// Heap-wide consistency survives growing the heap and kind-preserving
/// in-place mutation, provided every new or mutated slot is consistent.
pub proof fn lemma_heap_wf_preserved(pre: Runtime, post: Runtime)
    requires
        pre.heap_wf(),
        pre.heap@.len() <= post.heap@.len(),
        forall|i: int|
            0 <= i < pre.heap@.len() ==> slot_compatible(#[trigger] pre.heap@[i], post.heap@[i]),
        forall|i: int|
            0 <= i < post.heap@.len() && !(0 <= i < pre.heap@.len() && post.heap@[i]
                == pre.heap@[i]) ==> post.heap_obj_wf(#[trigger] post.heap@[i]),
    ensures
        post.heap_wf(),
{
    assert forall|i: int| 0 <= i < post.heap@.len() implies post.heap_obj_wf(
        #[trigger] post.heap@[i],
    ) by {
        if 0 <= i < pre.heap@.len() && post.heap@[i] == pre.heap@[i] {
            lemma_obj_wf_preserved(pre, post, pre.heap@[i]);
        }
    }
}

/// Counting occurrences commutes with appending one element.
pub proof fn lemma_seq_count_push(s: Seq<RawObject>, q: RawObject, p: RawObject)
    ensures
        seq_count(s.push(q), p) == seq_count(s, p) + if q == p {
            1nat
        } else {
            0nat
        },
{
    assert(s.push(q).drop_last() =~= s);
    assert(s.push(q).last() == q);
}

/// Counting occurrences commutes with removing one element.
pub proof fn lemma_seq_count_remove(s: Seq<RawObject>, j: int, p: RawObject)
    requires
        0 <= j < s.len(),
    ensures
        seq_count(s.remove(j), p) + if s[j] == p {
            1nat
        } else {
            0nat
        } == seq_count(s, p),
    decreases s.len(),
{
    if j == s.len() - 1 {
        assert(s.remove(j) =~= s.drop_last());
    } else {
        assert(s.remove(j).drop_last() =~= s.drop_last().remove(j));
        assert(s.remove(j).last() == s.last());
        lemma_seq_count_remove(s.drop_last(), j, p);
    }
}

/// A positive occurrence count names an index, and conversely.
pub proof fn lemma_seq_count_pos(s: Seq<RawObject>, p: RawObject)
    ensures
        seq_count(s, p) > 0 <==> exists|j: int| 0 <= j < s.len() && s[j] == p,
    decreases s.len(),
{
    if s.len() > 0 {
        lemma_seq_count_pos(s.drop_last(), p);
        if s.last() == p {
            assert(s[s.len() - 1] == p);
        } else if exists|j: int| 0 <= j < s.len() && s[j] == p {
            let j = choose|j: int| 0 <= j < s.len() && s[j] == p;
            assert(s.drop_last()[j] == p);
        }
    }
}

/// Counting across frames commutes with appending a frame.
pub proof fn lemma_frames_count_push(ls: Seq<Seq<RawObject>>, f: Seq<RawObject>, p: RawObject)
    ensures
        frames_count(ls.push(f), p) == frames_count(ls, p) + seq_count(f, p),
{
    assert(ls.push(f).drop_last() =~= ls);
    assert(ls.push(f).last() == f);
}

/// Counting across frames commutes with replacing one frame.
pub proof fn lemma_frames_count_update(
    ls: Seq<Seq<RawObject>>,
    i: int,
    f: Seq<RawObject>,
    p: RawObject,
)
    requires
        0 <= i < ls.len(),
    ensures
        frames_count(ls.update(i, f), p) + seq_count(ls[i], p) == frames_count(ls, p) + seq_count(
            f,
            p,
        ),
    decreases ls.len(),
{
    if i == ls.len() - 1 {
        assert(ls.update(i, f).drop_last() =~= ls.drop_last());
        assert(ls.update(i, f).last() == f);
    } else {
        assert(ls.update(i, f).drop_last() =~= ls.drop_last().update(i, f));
        assert(ls.update(i, f).last() == ls.last());
        lemma_frames_count_update(ls.drop_last(), i, f, p);
    }
}

/// A positive cross-frame count names a frame and an index, and
/// conversely.
pub proof fn lemma_frames_count_pos(ls: Seq<Seq<RawObject>>, p: RawObject)
    ensures
        frames_count(ls, p) > 0 <==> exists|i: int, j: int|
            0 <= i < ls.len() && 0 <= j < ls[i].len() && ls[i][j] == p,
    decreases ls.len(),
{
    if ls.len() > 0 {
        lemma_frames_count_pos(ls.drop_last(), p);
        lemma_seq_count_pos(ls.last(), p);
        if seq_count(ls.last(), p) > 0 {
            let j = choose|j: int| 0 <= j < ls.last().len() && ls.last()[j] == p;
            assert(ls[ls.len() - 1][j] == p);
        } else if frames_count(ls.drop_last(), p) > 0 {
            let (i, j) = choose|i: int, j: int|
                0 <= i < ls.drop_last().len() && 0 <= j < ls.drop_last()[i].len()
                    && ls.drop_last()[i][j] == p;
            assert(ls[i][j] == p);
        } else if exists|i: int, j: int|
            0 <= i < ls.len() && 0 <= j < ls[i].len() && ls[i][j] == p {
            let (i, j) = choose|i: int, j: int|
                0 <= i < ls.len() && 0 <= j < ls[i].len() && ls[i][j] == p;
            if i == ls.len() - 1 {
                assert(ls.last()[j] == p);
            } else {
                assert(ls.drop_last()[i][j] == p);
            }
        }
    }
}

/// Content equality of two string slices, decided by the runtime's own
/// comparison. True exactly when the two views agree.
fn str_eq(a: &str, b: &str) -> (r: bool)
    ensures
        r == (a@ == b@),
{
    let sa: String = a.to_owned();
    let sb: String = b.to_owned();
    sa == sb
}

/// The dispatch kind for a method about to be defined with these
/// strings. Agrees with [`kind_of`] on the views.
fn compute_kind(class: &str, name: &str, sig: &str) -> (k: MethodKind)
    ensures
        k == kind_of(class@, name@, sig@),
{
    if str_eq(class, "java/util/Map") && str_eq(name, "get") && str_eq(sig, SIG_OBJ_TO_OBJ) {
        MethodKind::MapGet
    } else if str_eq(class, "java/util/Map") && str_eq(name, "put") && str_eq(
        sig,
        SIG_OBJ_OBJ_TO_OBJ,
    ) {
        MethodKind::MapPut
    } else if str_eq(class, "java/util/Map") && str_eq(name, "remove") && str_eq(
        sig,
        SIG_OBJ_TO_OBJ,
    ) {
        MethodKind::MapRemove
    } else if str_eq(class, "java/util/Map") && str_eq(name, "entrySet") && str_eq(
        sig,
        SIG_TO_SET,
    ) {
        MethodKind::MapEntrySet
    } else if str_eq(class, "java/util/Set") && str_eq(name, "iterator") && str_eq(
        sig,
        SIG_TO_ITERATOR,
    ) {
        MethodKind::SetIterator
    } else if str_eq(class, "java/util/Iterator") && str_eq(name, "hasNext") && str_eq(
        sig,
        SIG_TO_BOOLEAN,
    ) {
        MethodKind::IterHasNext
    } else if str_eq(class, "java/util/Iterator") && str_eq(name, "next") && str_eq(
        sig,
        SIG_TO_OBJ,
    ) {
        MethodKind::IterNext
    } else if str_eq(class, "java/util/Map$Entry") && str_eq(name, "getKey") && str_eq(
        sig,
        SIG_TO_OBJ,
    ) {
        MethodKind::EntryGetKey
    } else if str_eq(class, "java/util/Map$Entry") && str_eq(name, "getValue") && str_eq(
        sig,
        SIG_TO_OBJ,
    ) {
        MethodKind::EntryGetValue
    } else if str_eq(name, "getMessage") && str_eq(sig, SIG_TO_STRING) {
        MethodKind::GetMessage
    } else if str_eq(name, "<init>") && str_eq(sig, SIG_STRING_TO_VOID) {
        MethodKind::CtorString
    } else {
        MethodKind::Other
    }
}

impl Runtime {
    /// A fresh runtime: empty heap and tables, one ambient local frame,
    /// current thread attached.
    pub fn new() -> (r: Runtime)
        ensures
            r.wf(),
            r.heap@.len() == 0,
            r.classes@.len() == 0,
            r.methods@.len() == 0,
            r.fields@.len() == 0,
            r.locals_view() =~= seq![Seq::<RawObject>::empty()],
            r.globals@.len() == 0,
            r.attached,
            r.detached_releases == 0,
    {
        let mut frames: Vec<Vec<RawObject>> = Vec::new();
        frames.push(Vec::new());
        Runtime {
            heap: Vec::new(),
            classes: Vec::new(),
            methods: Vec::new(),
            fields: Vec::new(),
            frames,
            globals: Vec::new(),
            attached: true,
            detached_releases: 0,
        }
    }

    /// Defines a class, making it resolvable by name.
    pub fn define_class(&mut self, name: &str)
        requires
            old(self).wf(),
        ensures
            final(self).wf(),
            final(self).classes@.len() == old(self).classes@.len() + 1,
            forall|i: int|
                0 <= i < old(self).classes@.len() ==> final(self).classes@[i] == #[trigger] old(
                    self,
                ).classes@[i],
            final(self).classes@.last()@ == name@,
            final(self).class_defined(name@),
            final(self).heap == old(self).heap,
            final(self).frames == old(self).frames,
            final(self).methods == old(self).methods,
            final(self).fields == old(self).fields,
            final(self).globals == old(self).globals,
            final(self).attached == old(self).attached,
            final(self).detached_releases == old(self).detached_releases,
    {
        self.classes.push(name.to_owned());
        assert(self.classes@[self.classes@.len() - 1]@ == name@);
    }

    /// Defines a method on a class, making it resolvable; its dispatch
    /// kind is fixed here from the class, name and signature.
    pub fn define_method(&mut self, class: &str, name: &str, sig: &str, is_static: bool)
        requires
            old(self).wf(),
        ensures
            final(self).wf(),
            final(self).methods@.len() == old(self).methods@.len() + 1,
            forall|i: int|
                0 <= i < old(self).methods@.len() ==> final(self).methods@[i] == #[trigger] old(
                    self,
                ).methods@[i],
            final(self).methods@.last().class_name@ == class@,
            final(self).methods@.last().name@ == name@,
            final(self).methods@.last().sig@ == sig@,
            final(self).methods@.last().is_static == is_static,
            final(self).heap == old(self).heap,
            final(self).frames == old(self).frames,
            final(self).classes == old(self).classes,
            final(self).fields == old(self).fields,
            final(self).globals == old(self).globals,
            final(self).attached == old(self).attached,
            final(self).detached_releases == old(self).detached_releases,
    {
        let kind = compute_kind(class, name, sig);
        self.methods.push(
            MethodEntry {
                class_name: class.to_owned(),
                name: name.to_owned(),
                sig: sig.to_owned(),
                is_static,
                kind,
            },
        );
        assert forall|i: int| 0 <= i < self.methods@.len() implies (
        #[trigger] self.methods@[i]).kind == kind_of(
            self.methods@[i].class_name@,
            self.methods@[i].name@,
            self.methods@[i].sig@,
        ) by {
            if i < self.methods@.len() - 1 {
                assert(self.methods@[i] == old(self).methods@[i]);
            }
        }
    }

    /// Defines a field on a class, making it resolvable.
    pub fn define_field(&mut self, class: &str, name: &str, sig: &str, is_static: bool)
        requires
            old(self).wf(),
        ensures
            final(self).wf(),
            final(self).fields@.len() == old(self).fields@.len() + 1,
            forall|i: int|
                0 <= i < old(self).fields@.len() ==> final(self).fields@[i] == #[trigger] old(
                    self,
                ).fields@[i],
            final(self).fields@.last().class_name@ == class@,
            final(self).fields@.last().name@ == name@,
            final(self).fields@.last().sig@ == sig@,
            final(self).fields@.last().is_static == is_static,
            final(self).heap == old(self).heap,
            final(self).frames == old(self).frames,
            final(self).classes == old(self).classes,
            final(self).methods == old(self).methods,
            final(self).globals == old(self).globals,
            final(self).attached == old(self).attached,
            final(self).detached_releases == old(self).detached_releases,
    {
        self.fields.push(
            FieldEntry {
                class_name: class.to_owned(),
                name: name.to_owned(),
                sig: sig.to_owned(),
                is_static,
            },
        );
    }
}

impl Runtime {
    /// Every local reference count is unchanged.
    pub open spec fn counts_unchanged(self, pre: Runtime) -> bool {
        forall|q: RawObject| #[trigger] self.local_count(q) == pre.local_count(q)
    }

    /// Exactly one local reference to `p` was added; every other count is
    /// unchanged.
    pub open spec fn counts_plus_one(self, pre: Runtime, p: RawObject) -> bool {
        forall|q: RawObject| #[trigger] self.local_count(q) == pre.local_count(q) + if q == p {
            1nat
        } else {
            0nat
        }
    }

    /// A fresh object was allocated in the slot `p` names and recorded as
    /// a local reference in the innermost frame; nothing else moved.
    pub open spec fn allocated_local_obj(self, pre: Runtime, p: RawObject) -> bool {
        &&& p == pre.heap@.len() + 1
        &&& self.heap@.len() == pre.heap@.len() + 1
        &&& self.heap_extended(pre)
        &&& self.pushed_local(pre, p)
        &&& self.tables_unchanged(pre)
        &&& self.counts_plus_one(pre, p)
    }

    /// Records one more local reference to `p` in the innermost frame.
    pub(crate) fn push_local_ref(&mut self, p: RawObject)
        requires
            old(self).wf(),
            old(self).valid_ptr(p),
        ensures
            final(self).wf(),
            final(self).pushed_local(*old(self), p),
            final(self).counts_plus_one(*old(self), p),
            final(self).heap == old(self).heap,
            final(self).tables_unchanged(*old(self)),
    {
        let ghost pre = *self;
        let mut f: Vec<RawObject> = match self.frames.pop() {
            Some(f) => f,
            None => {
                proof {
                    assert(false);
                }
                Vec::new()
            },
        };
        f.push(p);
        self.frames.push(f);
        proof {
            let n = pre.locals_view().len() as int;
            assert(self.locals_view() =~= pre.locals_view().update(
                n - 1,
                pre.locals_view().last().push(p),
            ));
            assert forall|q: RawObject| #[trigger] self.local_count(q) == pre.local_count(q)
                + if q == p {
                1nat
            } else {
                0nat
            } by {
                lemma_frames_count_update(
                    pre.locals_view(),
                    n - 1,
                    pre.locals_view().last().push(p),
                    q,
                );
                lemma_seq_count_push(pre.locals_view().last(), p, q);
            }
        }
    }

    /// Allocates a fresh heap object and records a local reference to it.
    fn alloc_local(&mut self, o: HeapObject) -> (p: RawObject)
        requires
            old(self).wf(),
            old(self).heap_obj_wf(o),
        ensures
            final(self).wf(),
            final(self).allocated_local_obj(*old(self), p),
            final(self).obj_at(p) == o,
            final(self).valid_ptr(p),
            !old(self).valid_ptr(p),
    {
        let ghost pre = *self;
        self.heap.push(o);
        proof {
            lemma_obj_wf_preserved(pre, *self, o);
            lemma_heap_wf_preserved(pre, *self);
        }
        let p = self.heap.len();
        self.push_local_ref(p);
        p
    }

    /// Resolves a class by its fully qualified, slash-separated name:
    /// succeeds exactly when the class is defined, allocating a fresh
    /// local reference to a class object.
    pub fn find_class(&mut self, name: &str) -> (r: Result<JObject, Error>)
        requires
            old(self).wf(),
        ensures
            final(self).wf(),
            match r {
                Ok(obj) => {
                    &&& old(self).class_defined(name@)
                    &&& final(self).allocated_local_obj(*old(self), obj.raw)
                    &&& final(self).obj_at(obj.raw) matches HeapObject::ClassObj { name: n }
                        && n@ == name@
                },
                Err(e) => {
                    &&& e == Error::NotFound
                    &&& !old(self).class_defined(name@)
                    &&& *final(self) == *old(self)
                },
            },
    {
        let mut i: usize = 0;
        while i < self.classes.len()
            invariant
                *self == *old(self),
                self.wf(),
                i <= self.classes@.len(),
                forall|k: int| 0 <= k < i ==> (#[trigger] self.classes@[k])@ != name@,
            decreases self.classes@.len() - i,
        {
            if str_eq(self.classes[i].as_str(), name) {
                let p = self.alloc_local(HeapObject::ClassObj { name: name.to_owned() });
                return Ok(JObject::from_raw(p));
            }
            i += 1;
        }
        Err(Error::NotFound)
    }

    /// The class name the model gives an object: the fixed interface
    /// names for its collection and string objects, a throwable's own
    /// class, and the class object's class.
    pub open spec fn runtime_class_name(o: HeapObject) -> Seq<char> {
        match o {
            HeapObject::ClassObj { .. } => "java/lang/Class"@,
            HeapObject::StringObj { .. } => "java/lang/String"@,
            HeapObject::MapObj { .. } => "java/util/Map"@,
            HeapObject::EntryObj { .. } => "java/util/Map$Entry"@,
            HeapObject::SetObj { .. } => "java/util/Set"@,
            HeapObject::IterObj { .. } => "java/util/Iterator"@,
            HeapObject::ThrowableObj { class_name, .. } => class_name@,
        }
    }

    /// Returns the runtime class of an instance, as a fresh local
    /// reference to a class object.
    pub fn get_object_class(&mut self, obj: &JObject) -> (r: Result<JObject, Error>)
        requires
            old(self).wf(),
            old(self).valid_ptr(obj.raw),
            old(self).live(obj.raw),
        ensures
            final(self).wf(),
            match r {
                Ok(cls) => {
                    &&& final(self).allocated_local_obj(*old(self), cls.raw)
                    &&& final(self).obj_at(cls.raw) matches HeapObject::ClassObj { name: n }
                        && n@ == Runtime::runtime_class_name(old(self).obj_at(obj.raw))
                },
                Err(_) => false,
            },
    {
        let idx = obj.as_raw() - 1;
        let cname: String = match &self.heap[idx] {
            HeapObject::ClassObj { .. } => "java/lang/Class".to_owned(),
            HeapObject::StringObj { .. } => "java/lang/String".to_owned(),
            HeapObject::MapObj { .. } => "java/util/Map".to_owned(),
            HeapObject::EntryObj { .. } => "java/util/Map$Entry".to_owned(),
            HeapObject::SetObj { .. } => "java/util/Set".to_owned(),
            HeapObject::IterObj { .. } => "java/util/Iterator".to_owned(),
            HeapObject::ThrowableObj { class_name, .. } => class_name.clone(),
        };
        let p = self.alloc_local(HeapObject::ClassObj { name: cname });
        Ok(JObject::from_raw(p))
    }

    /// The name of the class object in slot `p`.
    pub open spec fn class_name_at(self, p: RawObject) -> Seq<char>
        recommends
            self.valid_ptr(p),
            self.obj_at(p) is ClassObj,
    {
        match self.obj_at(p) {
            HeapObject::ClassObj { name } => name@,
            _ => Seq::empty(),
        }
    }

    /// Whether method table row `i` matches a lookup.
    pub open spec fn method_matches(
        self,
        i: int,
        c: Seq<char>,
        n: Seq<char>,
        s: Seq<char>,
        is_static: bool,
    ) -> bool {
        &&& self.methods@[i].class_name@ == c
        &&& self.methods@[i].name@ == n
        &&& self.methods@[i].sig@ == s
        &&& self.methods@[i].is_static == is_static
    }

    /// Resolves an instance method on a class object by name and
    /// signature. Pure lookup: no reference is created, nothing changes.
    pub fn get_method_id(&self, class: &JObject, name: &str, sig: &str) -> (r: Result<
        JMethodID,
        Error,
    >)
        requires
            self.wf(),
            self.valid_ptr(class.raw),
            self.obj_at(class.raw) is ClassObj,
            self.live(class.raw),
        ensures
            match r {
                Ok(mid) => {
                    &&& self.valid_mid(mid.internal)
                    &&& self.method_matches(
                        mid.internal as int - 1,
                        self.class_name_at(class.raw),
                        name@,
                        sig@,
                        false,
                    )
                },
                Err(e) => {
                    &&& e == Error::NotFound
                    &&& forall|i: int|
                        0 <= i < self.methods@.len() ==> !self.method_matches(
                            i,
                            self.class_name_at(class.raw),
                            name@,
                            sig@,
                            false,
                        )
                },
            },
    {
        let cn: &String = match &self.heap[class.as_raw() - 1] {
            HeapObject::ClassObj { name } => name,
            _ => {
                proof {
                    assert(false);
                }
                return Err(Error::NotFound);
            },
        };
        let mut i: usize = 0;
        while i < self.methods.len()
            invariant
                self.wf(),
                self.valid_ptr(class.raw),
                self.obj_at(class.raw) is ClassObj,
                cn@ == self.class_name_at(class.raw),
                i <= self.methods@.len(),
                forall|k: int|
                    0 <= k < i ==> !self.method_matches(
                        k,
                        self.class_name_at(class.raw),
                        name@,
                        sig@,
                        false,
                    ),
            decreases self.methods@.len() - i,
        {
            let e = &self.methods[i];
            if !e.is_static && str_eq(e.class_name.as_str(), cn.as_str()) && str_eq(
                e.name.as_str(),
                name,
            ) && str_eq(e.sig.as_str(), sig) {
                return Ok(JMethodID::from_raw(i + 1));
            }
            i += 1;
        }
        Err(Error::NotFound)
    }

    /// Resolves a static method on a class object by name and signature.
    /// Pure lookup: no reference is created, nothing changes.
    pub fn get_static_method_id(&self, class: &JObject, name: &str, sig: &str) -> (r: Result<
        JStaticMethodID,
        Error,
    >)
        requires
            self.wf(),
            self.valid_ptr(class.raw),
            self.obj_at(class.raw) is ClassObj,
            self.live(class.raw),
        ensures
            match r {
                Ok(mid) => {
                    &&& self.valid_mid(mid.internal)
                    &&& self.method_matches(
                        mid.internal as int - 1,
                        self.class_name_at(class.raw),
                        name@,
                        sig@,
                        true,
                    )
                },
                Err(e) => {
                    &&& e == Error::NotFound
                    &&& forall|i: int|
                        0 <= i < self.methods@.len() ==> !self.method_matches(
                            i,
                            self.class_name_at(class.raw),
                            name@,
                            sig@,
                            true,
                        )
                },
            },
    {
        let cn: &String = match &self.heap[class.as_raw() - 1] {
            HeapObject::ClassObj { name } => name,
            _ => {
                proof {
                    assert(false);
                }
                return Err(Error::NotFound);
            },
        };
        let mut i: usize = 0;
        while i < self.methods.len()
            invariant
                self.wf(),
                self.valid_ptr(class.raw),
                self.obj_at(class.raw) is ClassObj,
                cn@ == self.class_name_at(class.raw),
                i <= self.methods@.len(),
                forall|k: int|
                    0 <= k < i ==> !self.method_matches(
                        k,
                        self.class_name_at(class.raw),
                        name@,
                        sig@,
                        true,
                    ),
            decreases self.methods@.len() - i,
        {
            let e = &self.methods[i];
            if e.is_static && str_eq(e.class_name.as_str(), cn.as_str()) && str_eq(
                e.name.as_str(),
                name,
            ) && str_eq(e.sig.as_str(), sig) {
                return Ok(JStaticMethodID::from_raw(i + 1));
            }
            i += 1;
        }
        Err(Error::NotFound)
    }

    /// Whether field table row `i` matches a lookup.
    pub open spec fn field_matches(
        self,
        i: int,
        c: Seq<char>,
        n: Seq<char>,
        s: Seq<char>,
        is_static: bool,
    ) -> bool {
        &&& self.fields@[i].class_name@ == c
        &&& self.fields@[i].name@ == n
        &&& self.fields@[i].sig@ == s
        &&& self.fields@[i].is_static == is_static
    }

    /// Resolves an instance field on a class object by name and
    /// signature. Pure lookup: no reference is created, nothing changes.
    pub fn get_field_id(&self, class: &JObject, name: &str, sig: &str) -> (r: Result<
        JFieldID,
        Error,
    >)
        requires
            self.wf(),
            self.valid_ptr(class.raw),
            self.obj_at(class.raw) is ClassObj,
            self.live(class.raw),
        ensures
            match r {
                Ok(fid) => {
                    &&& self.valid_fid(fid.internal)
                    &&& self.field_matches(
                        fid.internal as int - 1,
                        self.class_name_at(class.raw),
                        name@,
                        sig@,
                        false,
                    )
                },
                Err(e) => {
                    &&& e == Error::NotFound
                    &&& forall|i: int|
                        0 <= i < self.fields@.len() ==> !self.field_matches(
                            i,
                            self.class_name_at(class.raw),
                            name@,
                            sig@,
                            false,
                        )
                },
            },
    {
        let cn: &String = match &self.heap[class.as_raw() - 1] {
            HeapObject::ClassObj { name } => name,
            _ => {
                proof {
                    assert(false);
                }
                return Err(Error::NotFound);
            },
        };
        let mut i: usize = 0;
        while i < self.fields.len()
            invariant
                self.wf(),
                self.valid_ptr(class.raw),
                self.obj_at(class.raw) is ClassObj,
                cn@ == self.class_name_at(class.raw),
                i <= self.fields@.len(),
                forall|k: int|
                    0 <= k < i ==> !self.field_matches(
                        k,
                        self.class_name_at(class.raw),
                        name@,
                        sig@,
                        false,
                    ),
            decreases self.fields@.len() - i,
        {
            let e = &self.fields[i];
            if !e.is_static && str_eq(e.class_name.as_str(), cn.as_str()) && str_eq(
                e.name.as_str(),
                name,
            ) && str_eq(e.sig.as_str(), sig) {
                return Ok(JFieldID::from_raw(i + 1));
            }
            i += 1;
        }
        Err(Error::NotFound)
    }

    /// Resolves a static field on a class object by name and signature.
    /// Pure lookup: no reference is created, nothing changes.
    pub fn get_static_field_id(&self, class: &JObject, name: &str, sig: &str) -> (r: Result<
        JStaticFieldID,
        Error,
    >)
        requires
            self.wf(),
            self.valid_ptr(class.raw),
            self.obj_at(class.raw) is ClassObj,
            self.live(class.raw),
        ensures
            match r {
                Ok(fid) => {
                    &&& self.valid_fid(fid.internal)
                    &&& self.field_matches(
                        fid.internal as int - 1,
                        self.class_name_at(class.raw),
                        name@,
                        sig@,
                        true,
                    )
                },
                Err(e) => {
                    &&& e == Error::NotFound
                    &&& forall|i: int|
                        0 <= i < self.fields@.len() ==> !self.field_matches(
                            i,
                            self.class_name_at(class.raw),
                            name@,
                            sig@,
                            true,
                        )
                },
            },
    {
        let cn: &String = match &self.heap[class.as_raw() - 1] {
            HeapObject::ClassObj { name } => name,
            _ => {
                proof {
                    assert(false);
                }
                return Err(Error::NotFound);
            },
        };
        let mut i: usize = 0;
        while i < self.fields.len()
            invariant
                self.wf(),
                self.valid_ptr(class.raw),
                self.obj_at(class.raw) is ClassObj,
                cn@ == self.class_name_at(class.raw),
                i <= self.fields@.len(),
                forall|k: int|
                    0 <= k < i ==> !self.field_matches(
                        k,
                        self.class_name_at(class.raw),
                        name@,
                        sig@,
                        true,
                    ),
            decreases self.fields@.len() - i,
        {
            let e = &self.fields[i];
            if e.is_static && str_eq(e.class_name.as_str(), cn.as_str()) && str_eq(
                e.name.as_str(),
                name,
            ) && str_eq(e.sig.as_str(), sig) {
                return Ok(JStaticFieldID::from_raw(i + 1));
            }
            i += 1;
        }
        Err(Error::NotFound)
    }

    /// Constructs a new string object holding the given text, as a fresh
    /// local reference.
    pub fn new_string(&mut self, text: &str) -> (r: JObject)
        requires
            old(self).wf(),
        ensures
            final(self).wf(),
            final(self).allocated_local_obj(*old(self), r.raw),
            final(self).obj_at(r.raw) matches HeapObject::StringObj { text: t } && t@ == text@,
    {
        let p = self.alloc_local(HeapObject::StringObj { text: text.to_owned() });
        JObject::from_raw(p)
    }

    /// Constructs a new, empty map object, as a fresh local reference.
    pub fn new_map(&mut self) -> (r: JObject)
        requires
            old(self).wf(),
        ensures
            final(self).wf(),
            final(self).allocated_local_obj(*old(self), r.raw),
            final(self).obj_at(r.raw) matches HeapObject::MapObj { entries } && entries@.len()
                == 0,
    {
        let p = self.alloc_local(HeapObject::MapObj { entries: Vec::new() });
        JObject::from_raw(p)
    }

    /// Opens a fresh, empty local frame. The capacity is a reservation
    /// hint, as in the foreign interface; the model's frames grow freely.
    pub fn push_local_frame(&mut self, capacity: usize)
        requires
            old(self).wf(),
        ensures
            final(self).wf(),
            final(self).locals_view() == old(self).locals_view().push(Seq::<RawObject>::empty()),
            final(self).heap == old(self).heap,
            final(self).tables_unchanged(*old(self)),
            final(self).counts_unchanged(*old(self)),
    {
        let ghost pre = *self;
        let _ = capacity;
        self.frames.push(Vec::new());
        proof {
            assert(self.locals_view() =~= pre.locals_view().push(Seq::<RawObject>::empty()));
            assert forall|q: RawObject| #[trigger] self.local_count(q) == pre.local_count(q) by {
                lemma_frames_count_push(pre.locals_view(), Seq::<RawObject>::empty(), q);
            }
        }
    }

    /// Closes the innermost local frame, discarding every reference it
    /// recorded, and re-records `keep` (if non-null) in the enclosing
    /// frame, returning it.
    pub fn pop_local_frame(&mut self, keep: JObject) -> (r: JObject)
        requires
            old(self).wf(),
            old(self).locals_view().len() >= 2,
            old(self).valid_or_null(keep.raw),
        ensures
            final(self).wf(),
            r.raw == keep.raw,
            final(self).heap == old(self).heap,
            final(self).tables_unchanged(*old(self)),
            final(self).locals_view() == if keep.raw == 0 {
                old(self).locals_view().drop_last()
            } else {
                old(self).locals_view().drop_last().update(
                    old(self).locals_view().len() - 2,
                    old(self).locals_view()[old(self).locals_view().len() - 2].push(keep.raw),
                )
            },
            forall|q: RawObject|
                #[trigger] final(self).local_count(q) + seq_count(
                    old(self).locals_view().last(),
                    q,
                ) == old(self).local_count(q) + if keep.raw != 0 && q == keep.raw {
                    1nat
                } else {
                    0nat
                },
    {
        let ghost pre = *self;
        let _ = self.frames.pop();
        proof {
            assert(self.locals_view() =~= pre.locals_view().drop_last());
        }
        let ghost mid = *self;
        if keep.as_raw() != 0 {
            self.push_local_ref(keep.as_raw());
            proof {
                let n = pre.locals_view().len() as int;
                assert(self.locals_view() =~= pre.locals_view().drop_last().update(
                    n - 2,
                    pre.locals_view()[n - 2].push(keep.raw),
                ));
            }
        }
        proof {
            assert forall|q: RawObject|
                #[trigger] self.local_count(q) + seq_count(pre.locals_view().last(), q)
                    == pre.local_count(q) + if keep.raw != 0 && q == keep.raw {
                    1nat
                } else {
                    0nat
                } by {
                assert(pre.locals_view() =~= pre.locals_view().drop_last().push(
                    pre.locals_view().last(),
                ));
                lemma_frames_count_push(
                    pre.locals_view().drop_last(),
                    pre.locals_view().last(),
                    q,
                );
            }
        }
        JObject::from_raw(keep.into_raw())
    }

    /// Exactly one local reference to `p` was dropped from the frames;
    /// every other reference stays where it was.
    pub open spec fn deleted_one(self, pre: Runtime, p: RawObject) -> bool {
        &&& exists|i: int, j: int|
            {
                &&& 0 <= i < pre.locals_view().len()
                &&& 0 <= j < pre.locals_view()[i].len()
                &&& pre.locals_view()[i][j] == p
                &&& self.locals_view() == pre.locals_view().update(
                    i,
                    pre.locals_view()[i].remove(j),
                )
            }
        &&& forall|q: RawObject|
            #[trigger] self.local_count(q) + if q == p {
                1nat
            } else {
                0nat
            } == pre.local_count(q)
    }

    /// Releases one local reference. Deleting null is accepted and does
    /// nothing; deleting a reference that is not recorded in any frame is
    /// an error and does nothing; otherwise exactly one recorded
    /// reference to the object is dropped.
    pub fn delete_local_ref(&mut self, obj: JObject) -> (r: Result<(), Error>)
        requires
            old(self).wf(),
        ensures
            final(self).wf(),
            final(self).heap == old(self).heap,
            final(self).tables_unchanged(*old(self)),
            obj.raw == 0 ==> r == Ok::<(), Error>(()) && *final(self) == *old(self),
            obj.raw != 0 && old(self).local_live(obj.raw) ==> r == Ok::<(), Error>(())
                && final(self).deleted_one(*old(self), obj.raw),
            obj.raw != 0 && !old(self).local_live(obj.raw) ==> r == Err::<(), Error>(
                Error::JavaException,
            ) && *final(self) == *old(self),
    {
        let p = obj.into_raw();
        if p == 0 {
            return Ok(());
        }
        let ghost pre = *self;
        let nf = self.frames.len();
        let mut fi = nf;
        while fi > 0
            invariant
                *self == *old(self),
                self.wf(),
                p == obj.raw && p != 0,
                nf == self.locals_view().len(),
                fi <= nf,
                forall|k: int, j2: int|
                    fi <= k < nf && 0 <= j2 < self.locals_view()[k].len()
                        ==> #[trigger] self.locals_view()[k][j2] != p,
            decreases fi,
        {
            fi -= 1;
            let flen = self.frames[fi].len();
            let mut j = flen;
            while j > 0
                invariant
                    *self == *old(self),
                    self.wf(),
                    p == obj.raw && p != 0,
                    fi < nf == self.locals_view().len(),
                    j <= flen == self.locals_view()[fi as int].len(),
                    forall|j2: int|
                        j <= j2 < flen ==> #[trigger] self.locals_view()[fi as int][j2] != p,
                decreases j,
            {
                j -= 1;
                if self.frames[fi][j] == p {
                    let fr = &mut self.frames[fi];
                    fr.remove(j);
                    proof {
                        let lv = old(self).locals_view();
                        assert(0 <= fi < lv.len() && 0 <= j < lv[fi as int].len());
                        assert(self.locals_view() =~= lv.update(
                            fi as int,
                            lv[fi as int].remove(j as int),
                        ));
                        lemma_frames_count_pos(lv, p);
                        assert forall|q: RawObject|
                            #[trigger] self.local_count(q) + if q == p {
                                1nat
                            } else {
                                0nat
                            } == old(self).local_count(q) by {
                            lemma_frames_count_update(
                                lv,
                                fi as int,
                                lv[fi as int].remove(j as int),
                                q,
                            );
                            lemma_seq_count_remove(lv[fi as int], j as int, q);
                        }
                        assert(0 <= (fi as int) && (fi as int) < lv.len());
                        assert(0 <= (j as int) && (j as int) < lv[fi as int].len());
                        assert(lv[fi as int][j as int] == p && self.locals_view() == lv.update(
                            fi as int,
                            lv[fi as int].remove(j as int),
                        ));
                    }
                    return Ok(());
                }
            }
        }
        proof {
            lemma_frames_count_pos(self.locals_view(), p);
        }
        Err(Error::JavaException)
    }

    /// Registers a new pinned global reference to an object: the model's
    /// counterpart of promoting a reference to a global one. The pin
    /// starts with no host-side shares; a guard takes the first share.
    pub fn register_global(&mut self, obj: &JObject) -> (g: RawId)
        requires
            old(self).wf(),
            old(self).valid_ptr(obj.raw),
            old(self).live(obj.raw),
        ensures
            final(self).wf(),
            g == old(self).globals@.len() + 1,
            final(self).valid_gid(g),
            final(self).globals@ == old(self).globals@.push(
                GlobalEntry { target: obj.raw, shares: 0, released: false },
            ),
            final(self).heap == old(self).heap,
            final(self).frames == old(self).frames,
            final(self).classes == old(self).classes,
            final(self).methods == old(self).methods,
            final(self).fields == old(self).fields,
            final(self).attached == old(self).attached,
            final(self).detached_releases == old(self).detached_releases,
    {
        self.globals.push(GlobalEntry { target: obj.as_raw(), shares: 0, released: false });
        self.globals.len()
    }

    /// Adds one share to a pinned global reference.
    pub(crate) fn add_global_share(&mut self, g: RawId)
        requires
            old(self).wf(),
            old(self).valid_gid(g),
            !old(self).global_at(g).released,
            old(self).global_at(g).shares < u64::MAX,
        ensures
            final(self).wf(),
            final(self).globals@ == old(self).globals@.update(
                g as int - 1,
                GlobalEntry {
                    target: old(self).global_at(g).target,
                    shares: (old(self).global_at(g).shares + 1) as u64,
                    released: false,
                },
            ),
            final(self).heap == old(self).heap,
            final(self).frames == old(self).frames,
            final(self).classes == old(self).classes,
            final(self).methods == old(self).methods,
            final(self).fields == old(self).fields,
            final(self).attached == old(self).attached,
            final(self).detached_releases == old(self).detached_releases,
    {
        let gi = g - 1;
        let e = &mut self.globals[gi];
        e.shares = e.shares + 1;
        proof {
            assert(self.globals@ =~= old(self).globals@.update(
                g as int - 1,
                GlobalEntry {
                    target: old(self).global_at(g).target,
                    shares: (old(self).global_at(g).shares + 1) as u64,
                    released: false,
                },
            ));
        }
    }

    /// Drops one share of a pinned global reference; when the last share
    /// goes, performs the release, exactly once. If the current thread is
    /// detached at that moment, the release path attaches it, releases,
    /// and detaches again, recording the expensive round trip in
    /// `detached_releases`.
    pub(crate) fn release_global_share(&mut self, g: RawId)
        requires
            old(self).wf(),
            old(self).valid_gid(g),
            old(self).global_at(g).shares >= 1,
        ensures
            final(self).wf(),
            final(self).globals@.len() == old(self).globals@.len(),
            forall|k: int|
                0 <= k < old(self).globals@.len() && k != g - 1 ==> final(self).globals@[k]
                    == #[trigger] old(self).globals@[k],
            final(self).global_at(g).target == old(self).global_at(g).target,
            final(self).global_at(g).shares == old(self).global_at(g).shares - 1,
            final(self).global_at(g).released == (old(self).global_at(g).shares == 1),
            final(self).heap == old(self).heap,
            final(self).frames == old(self).frames,
            final(self).classes == old(self).classes,
            final(self).methods == old(self).methods,
            final(self).fields == old(self).fields,
            final(self).attached == old(self).attached,
            final(self).detached_releases == if old(self).global_at(g).shares == 1 && !old(
                self,
            ).attached {
                if old(self).detached_releases < u64::MAX {
                    (old(self).detached_releases + 1) as u64
                } else {
                    old(self).detached_releases
                }
            } else {
                old(self).detached_releases
            },
    {
        let gi = g - 1;
        let last = self.globals[gi].shares == 1;
        let e = &mut self.globals[gi];
        e.shares = e.shares - 1;
        if last {
            e.released = true;
        }
        if last && !self.attached {
            // the releasing thread is detached: attach, release, detach;
            // the round trip is expensive and recorded
            if self.detached_releases < u64::MAX {
                self.detached_releases = self.detached_releases + 1;
            }
        }
    }

    /// Sets whether the current thread is attached to the runtime.
    pub fn set_attached(&mut self, attached: bool)
        requires
            old(self).wf(),
        ensures
            final(self).wf(),
            final(self).attached == attached,
            final(self).heap == old(self).heap,
            final(self).frames == old(self).frames,
            final(self).classes == old(self).classes,
            final(self).methods == old(self).methods,
            final(self).fields == old(self).fields,
            final(self).globals == old(self).globals,
            final(self).detached_releases == old(self).detached_releases,
    {
        self.attached = attached;
    }

    /// Whether the current thread is attached.
    pub fn is_attached(&self) -> (r: bool)
        ensures
            r == self.attached,
    {
        self.attached
    }

    /// How many global releases had to attach a detached thread first.
    pub fn detached_release_count(&self) -> (r: u64)
        ensures
            r == self.detached_releases,
    {
        self.detached_releases
    }

    /// The current share count of a pinned global reference.
    pub fn global_shares(&self, g: RawId) -> (r: Option<u64>)
        ensures
            r == if self.valid_gid(g) {
                Some(self.global_at(g).shares)
            } else {
                Option::<u64>::None
            },
    {
        if g >= 1 && g <= self.globals.len() {
            Some(self.globals[g - 1].shares)
        } else {
            None
        }
    }

    /// Whether a pinned global reference has been released.
    pub fn global_released(&self, g: RawId) -> (r: Option<bool>)
        ensures
            r == if self.valid_gid(g) {
                Some(self.global_at(g).released)
            } else {
                Option::<bool>::None
            },
    {
        if g >= 1 && g <= self.globals.len() {
            Some(self.globals[g - 1].released)
        } else {
            None
        }
    }

    /// Whether any local frame still records a reference to `p`.
    pub fn is_local_live(&self, p: RawObject) -> (r: bool)
        requires
            self.wf(),
        ensures
            r == self.local_live(p),
    {
        let nf = self.frames.len();
        let mut fi = nf;
        while fi > 0
            invariant
                nf == self.locals_view().len(),
                fi <= nf,
                forall|k: int, j2: int|
                    fi <= k < nf && 0 <= j2 < self.locals_view()[k].len()
                        ==> #[trigger] self.locals_view()[k][j2] != p,
            decreases fi,
        {
            fi -= 1;
            let flen = self.frames[fi].len();
            let mut j = flen;
            while j > 0
                invariant
                    fi < nf == self.locals_view().len(),
                    j <= flen == self.locals_view()[fi as int].len(),
                    forall|j2: int|
                        j <= j2 < flen ==> #[trigger] self.locals_view()[fi as int][j2] != p,
                decreases j,
            {
                j -= 1;
                if self.frames[fi][j] == p {
                    proof {
                        lemma_frames_count_pos(self.locals_view(), p);
                    }
                    return true;
                }
            }
        }
        proof {
            lemma_frames_count_pos(self.locals_view(), p);
        }
        false
    }

    /// The number of local frames currently open.
    pub fn frame_depth(&self) -> (r: usize)
        ensures
            r == self.locals_view().len(),
    {
        self.frames.len()
    }

    /// The text of a string object, or `None` if the reference does not
    /// name one.
    pub fn string_text(&self, obj: &JObject) -> (r: Option<String>)
        requires
            self.wf(),
        ensures
            match r {
                Some(t) => self.valid_ptr(obj.raw) && (self.obj_at(obj.raw) matches
                    HeapObject::StringObj { text } && t@ == text@),
                None => !(self.valid_ptr(obj.raw) && self.obj_at(obj.raw) is StringObj),
            },
    {
        let p = obj.as_raw();
        if p >= 1 && p <= self.heap.len() {
            match &self.heap[p - 1] {
                HeapObject::StringObj { text } => Some(text.clone()),
                _ => None,
            }
        } else {
            None
        }
    }

    /// The class name of a throwable object, or `None` if the reference
    /// does not name one.
    pub fn throwable_class_name(&self, obj: &JObject) -> (r: Option<String>)
        requires
            self.wf(),
        ensures
            match r {
                Some(t) => self.valid_ptr(obj.raw) && (self.obj_at(obj.raw) matches
                    HeapObject::ThrowableObj { class_name, .. } && t@ == class_name@),
                None => !(self.valid_ptr(obj.raw) && self.obj_at(obj.raw) is ThrowableObj),
            },
    {
        let p = obj.as_raw();
        if p >= 1 && p <= self.heap.len() {
            match &self.heap[p - 1] {
                HeapObject::ThrowableObj { class_name, .. } => Some(class_name.clone()),
                _ => None,
            }
        } else {
            None
        }
    }

    /// The message reference of a throwable object (possibly the null
    /// handle), or `None` if the reference does not name a throwable.
    pub fn throwable_message(&self, obj: &JObject) -> (r: Option<JObject>)
        requires
            self.wf(),
        ensures
            match r {
                Some(m) => self.valid_ptr(obj.raw) && (self.obj_at(obj.raw) matches
                    HeapObject::ThrowableObj { message, .. } && m.raw == message),
                None => !(self.valid_ptr(obj.raw) && self.obj_at(obj.raw) is ThrowableObj),
            },
    {
        let p = obj.as_raw();
        if p >= 1 && p <= self.heap.len() {
            match &self.heap[p - 1] {
                HeapObject::ThrowableObj { message, .. } => Some(JObject::from_raw(*message)),
                _ => None,
            }
        } else {
            None
        }
    }
}


/// Copies a vector of reference values.
fn copy_ptrs(v: &Vec<RawObject>) -> (r: Vec<RawObject>)
    ensures
        r@ == v@,
{
    let mut r: Vec<RawObject> = Vec::new();
    let mut i: usize = 0;
    while i < v.len()
        invariant
            i <= v@.len(),
            r@ == v@.subrange(0, i as int),
        decreases v@.len() - i,
    {
        r.push(v[i]);
        proof {
            assert(r@ =~= v@.subrange(0, i + 1));
        }
        i += 1;
    }
    proof {
        assert(r@ =~= v@);
    }
    r
}

/// Finds the index of the entry whose key text equals `key`.
fn find_key(entries: &Vec<(String, RawObject)>, key: &str) -> (r: Option<usize>)
    ensures
        match r {
            Some(i) => i < entries@.len() && entries@[i as int].0@ == key@,
            None => forall|i: int| 0 <= i < entries@.len() ==> (#[trigger] entries@[i]).0@ != key@,
        },
{
    let mut i: usize = 0;
    while i < entries.len()
        invariant
            i <= entries@.len(),
            forall|k: int| 0 <= k < i ==> (#[trigger] entries@[k]).0@ != key@,
        decreases entries@.len() - i,
    {
        if str_eq(entries[i].0.as_str(), key) {
            return Some(i);
        }
        i += 1;
    }
    None
}

impl Runtime {
    /// The entries of the map object in slot `p`.
    pub open spec fn map_entries_of(self, p: RawObject) -> Seq<(String, RawObject)> {
        match self.obj_at(p) {
            HeapObject::MapObj { entries } => entries@,
            _ => Seq::empty(),
        }
    }

    /// The text of the string object in slot `p`.
    pub open spec fn string_of(self, p: RawObject) -> Seq<char> {
        match self.obj_at(p) {
            HeapObject::StringObj { text } => text@,
            _ => Seq::empty(),
        }
    }

    /// The string value held by the string object in slot `p`.
    pub open spec fn string_val_of(self, p: RawObject) -> String {
        match self.obj_at(p) {
            HeapObject::StringObj { text } => text,
            _ => arbitrary(),
        }
    }

    /// The items of the set object in slot `p`.
    pub open spec fn set_items_of(self, p: RawObject) -> Seq<RawObject> {
        match self.obj_at(p) {
            HeapObject::SetObj { items } => items@,
            _ => Seq::empty(),
        }
    }

    /// The items of the iterator object in slot `p`.
    pub open spec fn iter_items_of(self, p: RawObject) -> Seq<RawObject> {
        match self.obj_at(p) {
            HeapObject::IterObj { items, .. } => items@,
            _ => Seq::empty(),
        }
    }

    /// The cursor of the iterator object in slot `p`.
    pub open spec fn iter_pos_of(self, p: RawObject) -> int {
        match self.obj_at(p) {
            HeapObject::IterObj { pos, .. } => pos as int,
            _ => 0,
        }
    }

    /// The key text of the entry object in slot `p`.
    pub open spec fn entry_key_of(self, p: RawObject) -> String {
        match self.obj_at(p) {
            HeapObject::EntryObj { key_text, .. } => key_text,
            _ => arbitrary(),
        }
    }

    /// The value reference of the entry object in slot `p`.
    pub open spec fn entry_value_of(self, p: RawObject) -> RawObject {
        match self.obj_at(p) {
            HeapObject::EntryObj { value, .. } => value,
            _ => 0,
        }
    }

    /// The message reference of the throwable object in slot `p`.
    pub open spec fn throwable_message_of(self, p: RawObject) -> RawObject {
        match self.obj_at(p) {
            HeapObject::ThrowableObj { message, .. } => message,
            _ => 0,
        }
    }

    /// The dispatch kind of the method an identifier names.
    pub open spec fn mid_kind(self, m: RawId) -> MethodKind
        recommends
            self.valid_mid(m),
    {
        self.method_at(m).kind
    }

    /// The reference value a raw calling-convention word carries.
    pub open spec fn bits_ptr(a: JValueRaw) -> RawObject {
        a.bits as usize
    }

    /// The raw word carries a null or in-bounds reference value.
    pub open spec fn bits_ok(self, a: JValueRaw) -> bool {
        a.bits <= self.heap@.len()
    }

    /// The caller-side contract of a method call: the receiver's kind,
    /// the argument count and kinds, and the declared return kind all
    /// match the method being invoked. This is the model's rendering of
    /// the foreign interface's "unchecked call" caller obligations.
    pub open spec fn call_compatible(
        self,
        o: RawObject,
        m: RawId,
        ret: crate::signature::ReturnType,
        args: Seq<JValueRaw>,
    ) -> bool {
        match self.mid_kind(m) {
            MethodKind::MapGet => self.obj_at(o) is MapObj && args.len() == 1 && self.bits_ok(
                args[0],
            ) && ret == crate::signature::ReturnType::Object,
            MethodKind::MapPut => self.obj_at(o) is MapObj && args.len() == 2 && self.bits_ok(
                args[0],
            ) && self.bits_ok(args[1]) && ret == crate::signature::ReturnType::Object,
            MethodKind::MapRemove => self.obj_at(o) is MapObj && args.len() == 1 && self.bits_ok(
                args[0],
            ) && ret == crate::signature::ReturnType::Object,
            MethodKind::MapEntrySet => self.obj_at(o) is MapObj && args.len() == 0 && ret
                == crate::signature::ReturnType::Object,
            MethodKind::SetIterator => self.obj_at(o) is SetObj && args.len() == 0 && ret
                == crate::signature::ReturnType::Object,
            MethodKind::IterHasNext => self.obj_at(o) is IterObj && args.len() == 0 && ret
                == crate::signature::ReturnType::Primitive(crate::signature::Primitive::Boolean),
            MethodKind::IterNext => self.obj_at(o) is IterObj && args.len() == 0 && ret
                == crate::signature::ReturnType::Object,
            MethodKind::EntryGetKey => self.obj_at(o) is EntryObj && args.len() == 0 && ret
                == crate::signature::ReturnType::Object,
            MethodKind::EntryGetValue => self.obj_at(o) is EntryObj && args.len() == 0 && ret
                == crate::signature::ReturnType::Object,
            MethodKind::GetMessage => self.obj_at(o) is ThrowableObj && args.len() == 0 && ret
                == crate::signature::ReturnType::Object,
            MethodKind::CtorString => false,
            MethodKind::Other => false,
        }
    }

    /// The heap is the same length with every slot but `p`'s untouched.
    pub open spec fn heap_same_except(self, pre: Runtime, p: RawObject) -> bool {
        &&& self.heap@.len() == pre.heap@.len()
        &&& forall|i: int|
            0 <= i < pre.heap@.len() && i != p as int - 1 ==> self.heap@[i] == #[trigger] pre.heap@[i]
    }

    /// Nothing observable changed: the call only read state.
    pub open spec fn call_read_only(self, pre: Runtime) -> bool {
        self == pre
    }

    /// What a method call does, case by case. `pre`/`post` are the
    /// runtime before and after, `o` the receiver, `m` the method, and
    /// `r` the call's result.
    pub open spec fn call_post(
        pre: Runtime,
        post: Runtime,
        o: RawObject,
        m: RawId,
        args: Seq<JValueRaw>,
        r: Result<crate::jvalueowned::JValueOwned, Error>,
    ) -> bool {
        match pre.mid_kind(m) {
            MethodKind::MapGet => Runtime::map_get_post(pre, post, o, Runtime::bits_ptr(args[0]), r),
            MethodKind::MapPut => Runtime::map_put_post(
                pre,
                post,
                o,
                Runtime::bits_ptr(args[0]),
                Runtime::bits_ptr(args[1]),
                r,
            ),
            MethodKind::MapRemove => Runtime::map_remove_post(
                pre,
                post,
                o,
                Runtime::bits_ptr(args[0]),
                r,
            ),
            MethodKind::MapEntrySet => Runtime::entry_set_post(pre, post, o, r),
            MethodKind::SetIterator => Runtime::set_iterator_post(pre, post, o, r),
            MethodKind::IterHasNext => post.call_read_only(pre) && r == Ok::<_, Error>(
                crate::jvalueowned::JValueOwned::Bool(
                    if pre.iter_pos_of(o) < pre.iter_items_of(o).len() {
                        1u8
                    } else {
                        0u8
                    },
                ),
            ),
            MethodKind::IterNext => Runtime::iter_next_post(pre, post, o, r),
            MethodKind::EntryGetKey => Runtime::entry_get_key_post(pre, post, o, r),
            MethodKind::EntryGetValue => Runtime::ref_result_post(
                pre,
                post,
                pre.entry_value_of(o),
                r,
            ),
            MethodKind::GetMessage => Runtime::ref_result_post(
                pre,
                post,
                pre.throwable_message_of(o),
                r,
            ),
            MethodKind::CtorString => false,
            MethodKind::Other => false,
        }
    }

    /// A call that returns an existing reference `v`: null gives the
    /// null-result failure and no state change; otherwise one more local
    /// reference to `v` is recorded and the call returns it.
    pub open spec fn ref_result_post(
        pre: Runtime,
        post: Runtime,
        v: RawObject,
        r: Result<crate::jvalueowned::JValueOwned, Error>,
    ) -> bool {
        if v == 0 {
            &&& post.call_read_only(pre)
            &&& r == Err::<crate::jvalueowned::JValueOwned, Error>(Error::NullPtr)
        } else {
            &&& post.heap == pre.heap
            &&& post.tables_unchanged(pre)
            &&& post.pushed_local(pre, v)
            &&& post.counts_plus_one(pre, v)
            &&& (r matches Ok(crate::jvalueowned::JValueOwned::Object(ob)) && ob.raw_spec() == v)
        }
    }

    /// `Map.get`: a bound, non-null value comes back as a fresh local
    /// reference; an absent key, a null value, or a key that is not a
    /// string object gives the null-result failure and no state change.
    pub open spec fn map_get_post(
        pre: Runtime,
        post: Runtime,
        o: RawObject,
        kp: RawObject,
        r: Result<crate::jvalueowned::JValueOwned, Error>,
    ) -> bool {
        if kp != 0 && pre.obj_at(kp) is StringObj {
            match map_lookup(pre.map_entries_of(o), pre.string_of(kp)) {
                Some(v) => Runtime::ref_result_post(pre, post, v, r),
                None => post.call_read_only(pre) && r == Err::<
                    crate::jvalueowned::JValueOwned,
                    Error,
                >(Error::NullPtr),
            }
        } else {
            post.call_read_only(pre) && r == Err::<crate::jvalueowned::JValueOwned, Error>(
                Error::NullPtr,
            )
        }
    }

    /// `Map.put`: binds the key to `vp`. A previously bound key keeps its
    /// entry slot and the old value comes back (null-result failure if it
    /// was null); a new key appends an entry and there is no previous
    /// value. A key that is not a string object is rejected by the map.
    pub open spec fn map_put_post(
        pre: Runtime,
        post: Runtime,
        o: RawObject,
        kp: RawObject,
        vp: RawObject,
        r: Result<crate::jvalueowned::JValueOwned, Error>,
    ) -> bool {
        if kp != 0 && pre.obj_at(kp) is StringObj {
            let entries = pre.map_entries_of(o);
            let k = pre.string_of(kp);
            &&& post.heap_same_except(pre, o)
            &&& post.obj_at(o) is MapObj
            &&& post.tables_unchanged(pre)
            &&& match map_lookup(entries, k) {
                Some(oldv) => {
                    &&& exists|i: int|
                        0 <= i < entries.len() && (#[trigger] entries[i]).0@ == k
                            && post.map_entries_of(o) == entries.update(
                            i,
                            (entries[i].0, vp),
                        )
                    &&& Runtime::ref_result_post_frames(pre, post, oldv, r)
                },
                None => {
                    &&& post.map_entries_of(o) == entries.push((pre.string_val_of(kp), vp))
                    &&& post.frames == pre.frames
                    &&& r == Err::<crate::jvalueowned::JValueOwned, Error>(Error::NullPtr)
                },
            }
        } else {
            post.call_read_only(pre) && r == Err::<crate::jvalueowned::JValueOwned, Error>(
                Error::JavaException,
            )
        }
    }

    /// The frame effect and result of handing back an existing reference
    /// `v`, for calls that also mutate the heap.
    pub open spec fn ref_result_post_frames(
        pre: Runtime,
        post: Runtime,
        v: RawObject,
        r: Result<crate::jvalueowned::JValueOwned, Error>,
    ) -> bool {
        if v == 0 {
            &&& post.frames == pre.frames
            &&& r == Err::<crate::jvalueowned::JValueOwned, Error>(Error::NullPtr)
        } else {
            &&& post.pushed_local(pre, v)
            &&& post.counts_plus_one(pre, v)
            &&& (r matches Ok(crate::jvalueowned::JValueOwned::Object(ob)) && ob.raw_spec() == v)
        }
    }

    /// `Map.remove`: unbinds the key; the old value comes back (the
    /// null-result failure if it was null or the key was absent or not a
    /// string object).
    pub open spec fn map_remove_post(
        pre: Runtime,
        post: Runtime,
        o: RawObject,
        kp: RawObject,
        r: Result<crate::jvalueowned::JValueOwned, Error>,
    ) -> bool {
        if kp != 0 && pre.obj_at(kp) is StringObj {
            let entries = pre.map_entries_of(o);
            let k = pre.string_of(kp);
            match map_lookup(entries, k) {
                Some(oldv) => {
                    &&& post.heap_same_except(pre, o)
                    &&& post.obj_at(o) is MapObj
                    &&& post.tables_unchanged(pre)
                    &&& exists|i: int|
                        0 <= i < entries.len() && (#[trigger] entries[i]).0@ == k
                            && post.map_entries_of(o) == entries.remove(i)
                    &&& Runtime::ref_result_post_frames(pre, post, oldv, r)
                },
                None => post.call_read_only(pre) && r == Err::<
                    crate::jvalueowned::JValueOwned,
                    Error,
                >(Error::NullPtr),
            }
        } else {
            post.call_read_only(pre) && r == Err::<crate::jvalueowned::JValueOwned, Error>(
                Error::NullPtr,
            )
        }
    }

    /// `Map.entrySet`: allocates one entry object per map entry, in
    /// order, then a set object holding them, returned as a fresh local
    /// reference. Only the set is recorded as a local reference.
    pub open spec fn entry_set_post(
        pre: Runtime,
        post: Runtime,
        o: RawObject,
        r: Result<crate::jvalueowned::JValueOwned, Error>,
    ) -> bool {
        let entries = pre.map_entries_of(o);
        let n = entries.len() as int;
        let base = pre.heap@.len() as int;
        let sp = (base + n + 1) as RawObject;
        &&& post.heap@.len() == base + n + 1
        &&& post.heap_extended(pre)
        &&& forall|t: int|
            0 <= t < n ==> ((#[trigger] post.heap@[base + t]) matches HeapObject::EntryObj {
                key_text,
                value,
            } && key_text == entries[t].0 && value == entries[t].1)
        &&& post.set_items_of(sp).len() == n
        &&& forall|t: int| 0 <= t < n ==> #[trigger] post.set_items_of(sp)[t] == base + t + 1
        &&& post.obj_at(sp) is SetObj
        &&& post.pushed_local(pre, sp)
        &&& post.counts_plus_one(pre, sp)
        &&& post.tables_unchanged(pre)
        &&& (r matches Ok(crate::jvalueowned::JValueOwned::Object(ob)) && ob.raw_spec() == sp)
    }

    /// `Set.iterator`: allocates an iterator over the set's items with
    /// its cursor at the start, as a fresh local reference.
    pub open spec fn set_iterator_post(
        pre: Runtime,
        post: Runtime,
        o: RawObject,
        r: Result<crate::jvalueowned::JValueOwned, Error>,
    ) -> bool {
        let ip = (pre.heap@.len() + 1) as RawObject;
        &&& post.allocated_local_obj(pre, ip)
        &&& post.obj_at(ip) is IterObj
        &&& post.iter_items_of(ip) == pre.set_items_of(o)
        &&& post.iter_pos_of(ip) == 0
        &&& (r matches Ok(crate::jvalueowned::JValueOwned::Object(ob)) && ob.raw_spec() == ip)
    }

    /// `Iterator.next`: behind the cursor's end the foreign call raises;
    /// otherwise the cursor advances and the element comes back as one
    /// more local reference.
    pub open spec fn iter_next_post(
        pre: Runtime,
        post: Runtime,
        o: RawObject,
        r: Result<crate::jvalueowned::JValueOwned, Error>,
    ) -> bool {
        let items = pre.iter_items_of(o);
        let pos = pre.iter_pos_of(o);
        if pos < items.len() {
            &&& post.heap_same_except(pre, o)
            &&& post.obj_at(o) is IterObj
            &&& post.iter_items_of(o) == items
            &&& post.iter_pos_of(o) == pos + 1
            &&& post.tables_unchanged(pre)
            &&& post.pushed_local(pre, items[pos])
            &&& post.counts_plus_one(pre, items[pos])
            &&& (r matches Ok(crate::jvalueowned::JValueOwned::Object(ob)) && ob.raw_spec()
                == items[pos])
        } else {
            post.call_read_only(pre) && r == Err::<crate::jvalueowned::JValueOwned, Error>(
                Error::JavaException,
            )
        }
    }

    /// `Map$Entry.getKey`: a fresh string object holding the entry's key
    /// text, as a fresh local reference.
    pub open spec fn entry_get_key_post(
        pre: Runtime,
        post: Runtime,
        o: RawObject,
        r: Result<crate::jvalueowned::JValueOwned, Error>,
    ) -> bool {
        let kp = (pre.heap@.len() + 1) as RawObject;
        &&& post.allocated_local_obj(pre, kp)
        &&& post.obj_at(kp) is StringObj
        &&& post.string_val_of(kp) == pre.entry_key_of(o)
        &&& (r matches Ok(crate::jvalueowned::JValueOwned::Object(ob)) && ob.raw_spec() == kp)
    }
}

/// Releasing a reference that was fresh (not on the heap before `pre`,
/// hence in no frame of `pre`) and was pushed exactly once restores the
/// frames of `pre` exactly.
pub proof fn lemma_release_fresh(pre: Runtime, mid: Runtime, post: Runtime, p: RawObject)
    requires
        pre.wf(),
        !pre.valid_ptr(p),
        mid.pushed_local(pre, p),
        post.deleted_one(mid, p),
    ensures
        post.locals_view() == pre.locals_view(),
{
    let lv = pre.locals_view();
    let mv = mid.locals_view();
    let n = lv.len() as int;
    let (i, j) = choose|i: int, j: int|
        0 <= i < mv.len() && 0 <= j < mv[i].len() && mv[i][j] == p && post.locals_view()
            == mv.update(i, mv[i].remove(j));
    if i < n - 1 {
        assert(mv[i] == lv[i]);
        assert(pre.valid_ptr(lv[i][j]));
        assert(false);
    }
    assert(i == n - 1);
    assert(mv[i] == lv[n - 1].push(p));
    if j < lv[n - 1].len() {
        assert(mv[i][j] == lv[n - 1][j]);
        assert(pre.valid_ptr(lv[n - 1][j]));
        assert(false);
    }
    assert(j == lv[n - 1].len());
    assert(mv[i].remove(j) =~= lv[n - 1]);
    assert(post.locals_view() =~= lv);
}

impl Runtime {
    /// Hands an existing reference back from a call: null becomes the
    /// null-result failure; otherwise one more local reference to it is
    /// recorded.
    fn hand_back_ref(&mut self, v: RawObject) -> (r: Result<crate::jvalueowned::JValueOwned, Error>)
        requires
            old(self).wf(),
            old(self).valid_or_null(v),
        ensures
            final(self).wf(),
            Runtime::ref_result_post(*old(self), *final(self), v, r),
    {
        if v == 0 {
            Err(Error::NullPtr)
        } else {
            self.push_local_ref(v);
            Ok(crate::jvalueowned::JValueOwned::Object(JObject::from_raw(v)))
        }
    }

    /// `Map.get` against the model map.
    fn do_map_get(&mut self, o: RawObject, kp: RawObject) -> (r: Result<
        crate::jvalueowned::JValueOwned,
        Error,
    >)
        requires
            old(self).wf(),
            old(self).valid_ptr(o),
            old(self).obj_at(o) is MapObj,
            old(self).valid_or_null(kp),
        ensures
            final(self).wf(),
            Runtime::map_get_post(*old(self), *final(self), o, kp, r),
    {
        if kp == 0 {
            return Err(Error::NullPtr);
        }
        let text: String = match &self.heap[kp - 1] {
            HeapObject::StringObj { text } => text.clone(),
            _ => {
                return Err(Error::NullPtr);
            },
        };
        proof {
            lemma_map_lookup_at(self.map_entries_of(o), self.string_of(kp));
        }
        let idx: Option<usize> = match &self.heap[o - 1] {
            HeapObject::MapObj { entries } => find_key(entries, text.as_str()),
            _ => {
                proof {
                    assert(false);
                }
                None
            },
        };
        match idx {
            Some(i) => {
                let v = match &self.heap[o - 1] {
                    HeapObject::MapObj { entries } => entries[i].1,
                    _ => 0,
                };
                self.hand_back_ref(v)
            },
            None => Err(Error::NullPtr),
        }
    }

    /// `Iterator.next` against the model iterator.
    fn do_iter_next(&mut self, o: RawObject) -> (r: Result<
        crate::jvalueowned::JValueOwned,
        Error,
    >)
        requires
            old(self).wf(),
            old(self).valid_ptr(o),
            old(self).obj_at(o) is IterObj,
        ensures
            final(self).wf(),
            Runtime::iter_next_post(*old(self), *final(self), o, r),
    {
        let (pos, len) = match &self.heap[o - 1] {
            HeapObject::IterObj { items, pos } => (*pos, items.len()),
            _ => (0, 0),
        };
        if pos >= len {
            return Err(Error::JavaException);
        }
        let item = match &self.heap[o - 1] {
            HeapObject::IterObj { items, .. } => items[pos],
            _ => 0,
        };
        let mut slot = HeapObject::StringObj { text: String::new() };
        core::mem::swap(&mut slot, &mut self.heap[o - 1]);
        match &mut slot {
            HeapObject::IterObj { pos: pp, .. } => {
                *pp = pos + 1;
            },
            _ => {
                proof {
                    assert(false);
                }
            },
        }
        core::mem::swap(&mut slot, &mut self.heap[o - 1]);
        proof {
            assert forall|i: int|
                0 <= i < old(self).heap@.len() implies slot_compatible(
                #[trigger] old(self).heap@[i],
                self.heap@[i],
            ) by {}
            assert(self.heap_obj_wf(self.obj_at(o))) by {
                assert forall|i: int|
                    0 <= i < self.iter_items_of(o).len() implies self.valid_ptr(
                    #[trigger] self.iter_items_of(o)[i],
                ) && self.obj_at(self.iter_items_of(o)[i]) is EntryObj by {
                    let q = self.iter_items_of(o)[i];
                    assert(old(self).valid_ptr(q) && old(self).obj_at(q) is EntryObj);
                    assert(q != o);
                }
            }
            lemma_heap_wf_preserved(*old(self), *self);
        }
        self.push_local_ref(item);
        Ok(crate::jvalueowned::JValueOwned::Object(JObject::from_raw(item)))
    }

    /// `Set.iterator` against the model set.
    fn do_set_iterator(&mut self, o: RawObject) -> (r: Result<
        crate::jvalueowned::JValueOwned,
        Error,
    >)
        requires
            old(self).wf(),
            old(self).valid_ptr(o),
            old(self).obj_at(o) is SetObj,
        ensures
            final(self).wf(),
            Runtime::set_iterator_post(*old(self), *final(self), o, r),
    {
        let items2: Vec<RawObject> = match &self.heap[o - 1] {
            HeapObject::SetObj { items } => copy_ptrs(items),
            _ => {
                proof {
                    assert(false);
                }
                Vec::new()
            },
        };
        let p = self.alloc_local(HeapObject::IterObj { items: items2, pos: 0 });
        Ok(crate::jvalueowned::JValueOwned::Object(JObject::from_raw(p)))
    }

    /// `Map$Entry.getKey` against the model entry.
    fn do_entry_get_key(&mut self, o: RawObject) -> (r: Result<
        crate::jvalueowned::JValueOwned,
        Error,
    >)
        requires
            old(self).wf(),
            old(self).valid_ptr(o),
            old(self).obj_at(o) is EntryObj,
        ensures
            final(self).wf(),
            Runtime::entry_get_key_post(*old(self), *final(self), o, r),
    {
        let k: String = match &self.heap[o - 1] {
            HeapObject::EntryObj { key_text, .. } => key_text.clone(),
            _ => {
                proof {
                    assert(false);
                }
                String::new()
            },
        };
        let p = self.alloc_local(HeapObject::StringObj { text: k });
        Ok(crate::jvalueowned::JValueOwned::Object(JObject::from_raw(p)))
    }
}

impl Runtime {
    /// `Map.put` against the model map.
    fn do_map_put(&mut self, o: RawObject, kp: RawObject, vp: RawObject) -> (r: Result<
        crate::jvalueowned::JValueOwned,
        Error,
    >)
        requires
            old(self).wf(),
            old(self).valid_ptr(o),
            old(self).obj_at(o) is MapObj,
            old(self).valid_or_null(kp),
            old(self).valid_or_null(vp),
        ensures
            final(self).wf(),
            Runtime::map_put_post(*old(self), *final(self), o, kp, vp, r),
    {
        if kp == 0 {
            return Err(Error::JavaException);
        }
        let text: String = match &self.heap[kp - 1] {
            HeapObject::StringObj { text } => text.clone(),
            _ => {
                return Err(Error::JavaException);
            },
        };
        let ghost entries = self.map_entries_of(o);
        let ghost k = self.string_of(kp);
        proof {
            lemma_map_lookup_at(entries, k);
        }
        let idx: Option<usize> = match &self.heap[o - 1] {
            HeapObject::MapObj { entries } => find_key(entries, text.as_str()),
            _ => {
                proof {
                    assert(false);
                }
                None
            },
        };
        let mut slot = HeapObject::StringObj { text: String::new() };
        core::mem::swap(&mut slot, &mut self.heap[o - 1]);
        let mut oldv: RawObject = 0;
        match idx {
            Some(i) => {
                match &mut slot {
                    HeapObject::MapObj { entries: ev } => {
                        let pair = ev.remove(i);
                        oldv = pair.1;
                        ev.insert(i, (pair.0, vp));
                        proof {
                            assert(ev@ =~= entries.update(i as int, (entries[i as int].0, vp)));
                        }
                    },
                    _ => {
                        proof {
                            assert(false);
                        }
                    },
                }
            },
            None => {
                match &mut slot {
                    HeapObject::MapObj { entries: ev } => {
                        ev.push((text, vp));
                    },
                    _ => {
                        proof {
                            assert(false);
                        }
                    },
                }
            },
        }
        core::mem::swap(&mut slot, &mut self.heap[o - 1]);
        proof {
            assert forall|i: int|
                0 <= i < old(self).heap@.len() implies slot_compatible(
                #[trigger] old(self).heap@[i],
                self.heap@[i],
            ) by {}
            let newe = self.map_entries_of(o);
            assert(self.heap_obj_wf(self.obj_at(o))) by {
                assert(map_distinct(newe)) by {
                    assert forall|i: int, j: int|
                        #![trigger newe[i], newe[j]]
                        0 <= i < j < newe.len() implies newe[i].0@ != newe[j].0@ by {
                        if idx is Some {
                            let ii = idx.unwrap() as int;
                            assert(newe[i].0 == entries[i].0);
                            assert(newe[j].0 == entries[j].0);
                        } else {
                            if j < entries.len() {
                            } else {
                                assert(newe[j].0@ == k);
                                assert(newe[i].0@ != k);
                            }
                        }
                    }
                }
                assert forall|i: int|
                    0 <= i < newe.len() implies self.valid_or_null((#[trigger] newe[i]).1) by {}
            }
            lemma_heap_wf_preserved(*old(self), *self);
        }
        match idx {
            Some(_) => self.hand_back_ref_framed(oldv),
            None => Err(Error::NullPtr),
        }
    }

    /// Hands back an existing reference after a heap mutation: same as
    /// [`Runtime::hand_back_ref`] but stated over the frames alone.
    fn hand_back_ref_framed(&mut self, v: RawObject) -> (r: Result<
        crate::jvalueowned::JValueOwned,
        Error,
    >)
        requires
            old(self).wf(),
            old(self).valid_or_null(v),
        ensures
            final(self).wf(),
            Runtime::ref_result_post_frames(*old(self), *final(self), v, r),
            final(self).heap == old(self).heap,
            final(self).tables_unchanged(*old(self)),
    {
        if v == 0 {
            Err(Error::NullPtr)
        } else {
            self.push_local_ref(v);
            Ok(crate::jvalueowned::JValueOwned::Object(JObject::from_raw(v)))
        }
    }

    /// `Map.remove` against the model map.
    fn do_map_remove(&mut self, o: RawObject, kp: RawObject) -> (r: Result<
        crate::jvalueowned::JValueOwned,
        Error,
    >)
        requires
            old(self).wf(),
            old(self).valid_ptr(o),
            old(self).obj_at(o) is MapObj,
            old(self).valid_or_null(kp),
        ensures
            final(self).wf(),
            Runtime::map_remove_post(*old(self), *final(self), o, kp, r),
    {
        if kp == 0 {
            return Err(Error::NullPtr);
        }
        let text: String = match &self.heap[kp - 1] {
            HeapObject::StringObj { text } => text.clone(),
            _ => {
                return Err(Error::NullPtr);
            },
        };
        let ghost entries = self.map_entries_of(o);
        let ghost k = self.string_of(kp);
        proof {
            lemma_map_lookup_at(entries, k);
        }
        let idx: Option<usize> = match &self.heap[o - 1] {
            HeapObject::MapObj { entries } => find_key(entries, text.as_str()),
            _ => {
                proof {
                    assert(false);
                }
                None
            },
        };
        match idx {
            Some(i) => {
                let mut slot = HeapObject::StringObj { text: String::new() };
                core::mem::swap(&mut slot, &mut self.heap[o - 1]);
                let mut oldv: RawObject = 0;
                match &mut slot {
                    HeapObject::MapObj { entries: ev } => {
                        let pair = ev.remove(i);
                        oldv = pair.1;
                    },
                    _ => {
                        proof {
                            assert(false);
                        }
                    },
                }
                core::mem::swap(&mut slot, &mut self.heap[o - 1]);
                proof {
                    assert forall|i2: int|
                        0 <= i2 < old(self).heap@.len() implies slot_compatible(
                        #[trigger] old(self).heap@[i2],
                        self.heap@[i2],
                    ) by {}
                    let newe = self.map_entries_of(o);
                    assert(self.heap_obj_wf(self.obj_at(o))) by {
                        assert(map_distinct(newe)) by {
                            assert forall|a: int, b: int|
                                #![trigger newe[a], newe[b]]
                                0 <= a < b < newe.len() implies newe[a].0@ != newe[b].0@ by {
                                assert(newe == entries.remove(i as int));
                            }
                        }
                        assert forall|a: int|
                            0 <= a < newe.len() implies self.valid_or_null(
                            (#[trigger] newe[a]).1,
                        ) by {}
                    }
                    lemma_heap_wf_preserved(*old(self), *self);
                }
                self.hand_back_ref_framed(oldv)
            },
            None => Err(Error::NullPtr),
        }
    }

    /// `Map.entrySet` against the model map: allocates the entry objects
    /// and the set over them.
    fn do_entry_set(&mut self, o: RawObject) -> (r: Result<
        crate::jvalueowned::JValueOwned,
        Error,
    >)
        requires
            old(self).wf(),
            old(self).valid_ptr(o),
            old(self).obj_at(o) is MapObj,
        ensures
            final(self).wf(),
            Runtime::entry_set_post(*old(self), *final(self), o, r),
    {
        let oi = o - 1;
        let mut slot = HeapObject::StringObj { text: String::new() };
        core::mem::swap(&mut slot, &mut self.heap[oi]);
        let n: usize = match &slot {
            HeapObject::MapObj { entries } => entries.len(),
            _ => {
                proof {
                    assert(false);
                }
                0
            },
        };
        let mut items: Vec<RawObject> = Vec::new();
        let mut t: usize = 0;
        while t < n
            invariant
                old(self).wf(),
                old(self).valid_ptr(o),
                old(self).obj_at(o) is MapObj,
                oi == o - 1,
                o >= 1,
                slot == old(self).obj_at(o),
                n == old(self).map_entries_of(o).len(),
                t <= n,
                self.heap@.len() == old(self).heap@.len() + t,
                forall|i: int|
                    0 <= i < old(self).heap@.len() && i != oi ==> self.heap@[i] == #[trigger] old(
                        self,
                    ).heap@[i],
                forall|u: int|
                    0 <= u < t ==> ((#[trigger] self.heap@[old(self).heap@.len() + u]) matches
                        HeapObject::EntryObj { key_text, value } && key_text == old(
                        self,
                    ).map_entries_of(o)[u].0 && value == old(self).map_entries_of(o)[u].1),
                items@.len() == t,
                forall|u: int|
                    0 <= u < t ==> #[trigger] items@[u] == old(self).heap@.len() + u + 1,
                self.frames == old(self).frames,
                self.classes == old(self).classes,
                self.methods == old(self).methods,
                self.fields == old(self).fields,
                self.globals == old(self).globals,
                self.attached == old(self).attached,
                self.detached_releases == old(self).detached_releases,
            decreases n - t,
        {
            let kv: (String, RawObject) = match &slot {
                HeapObject::MapObj { entries: ev } => (ev[t].0.clone(), ev[t].1),
                _ => {
                    proof {
                        assert(false);
                    }
                    (String::new(), 0)
                },
            };
            self.heap.push(HeapObject::EntryObj { key_text: kv.0, value: kv.1 });
            items.push(self.heap.len());
            t += 1;
        }
        let ghost hsnap = self.heap@;
        core::mem::swap(&mut slot, &mut self.heap[oi]);
        let ghost itemsv = items@;
        proof {
            assert(self.heap@[oi as int] == old(self).heap@[oi as int]);
            assert forall|i: int|
                0 <= i < old(self).heap@.len() implies slot_compatible(
                #[trigger] old(self).heap@[i],
                self.heap@[i],
            ) by {}
            let base = old(self).heap@.len() as int;
            let entries = old(self).map_entries_of(o);
            assert forall|i: int|
                0 <= i < self.heap@.len() && !(0 <= i < old(self).heap@.len() && self.heap@[i]
                    == old(self).heap@[i]) implies self.heap_obj_wf(#[trigger] self.heap@[i]) by {
                if base <= i < base + n {
                    let u = i - base;
                    assert(oi < base);
                    assert(hsnap[base + u] matches HeapObject::EntryObj { key_text, value }
                        && value == entries[u].1);
                    assert(self.heap@[i] == hsnap[base + u]);
                    assert(old(self).valid_or_null(entries[u].1));
                }
            }
            lemma_heap_wf_preserved(*old(self), *self);
        }
        let ghost mid = *self;
        let sp = self.alloc_local(HeapObject::SetObj { items });
        proof {
            assert(self.set_items_of(sp) == itemsv);
            assert(self.pushed_local(*old(self), sp));
            assert(self.counts_plus_one(*old(self), sp)) by {
                assert(mid.locals_view() == old(self).locals_view());
            }
            let base = old(self).heap@.len() as int;
            let entries = old(self).map_entries_of(o);
            assert forall|t: int|
                0 <= t < n implies ((#[trigger] self.heap@[base + t]) matches
                HeapObject::EntryObj { key_text, value } && key_text == entries[t].0 && value
                == entries[t].1) by {
                assert(base + t != oi as int);
                assert(self.heap@[base + t] == mid.heap@[base + t]);
                assert(mid.heap@[base + t] == hsnap[base + t]);
                assert(hsnap[base + t] matches HeapObject::EntryObj { key_text, value }
                    && key_text == entries[t].0 && value == entries[t].1);
            }
        }
        Ok(crate::jvalueowned::JValueOwned::Object(JObject::from_raw(sp)))
    }
}

/// The dispatch kinds of the collection protocol's method triples, and
/// of the message accessor and single-string constructor on any class.
/// Callers resolving those methods use this to know what a call to them
/// will do.
pub proof fn lemma_protocol_kinds()
    ensures
        kind_of("java/util/Map"@, "get"@, SIG_OBJ_TO_OBJ@) == MethodKind::MapGet,
        kind_of("java/util/Map"@, "put"@, SIG_OBJ_OBJ_TO_OBJ@) == MethodKind::MapPut,
        kind_of("java/util/Map"@, "remove"@, SIG_OBJ_TO_OBJ@) == MethodKind::MapRemove,
        kind_of("java/util/Map"@, "entrySet"@, SIG_TO_SET@) == MethodKind::MapEntrySet,
        kind_of("java/util/Set"@, "iterator"@, SIG_TO_ITERATOR@) == MethodKind::SetIterator,
        kind_of("java/util/Iterator"@, "hasNext"@, SIG_TO_BOOLEAN@) == MethodKind::IterHasNext,
        kind_of("java/util/Iterator"@, "next"@, SIG_TO_OBJ@) == MethodKind::IterNext,
        kind_of("java/util/Map$Entry"@, "getKey"@, SIG_TO_OBJ@) == MethodKind::EntryGetKey,
        kind_of("java/util/Map$Entry"@, "getValue"@, SIG_TO_OBJ@) == MethodKind::EntryGetValue,
        forall|c: Seq<char>| kind_of(c, "getMessage"@, SIG_TO_STRING@) == MethodKind::GetMessage,
        forall|c: Seq<char>| kind_of(c, "<init>"@, SIG_STRING_TO_VOID@) == MethodKind::CtorString,
{
    reveal_strlit("get");
    reveal_strlit("put");
    reveal_strlit("remove");
    reveal_strlit("entrySet");
    reveal_strlit("iterator");
    reveal_strlit("hasNext");
    reveal_strlit("next");
    reveal_strlit("getKey");
    reveal_strlit("getValue");
    reveal_strlit("getMessage");
    reveal_strlit("<init>");
    reveal_strlit("java/util/Map");
    reveal_strlit("java/util/Set");
    reveal_strlit("java/util/Iterator");
    reveal_strlit("java/util/Map$Entry");
    assert("get"@.len() == 3 && "put"@.len() == 3 && "remove"@.len() == 6 && "entrySet"@.len()
        == 8 && "iterator"@.len() == 8 && "hasNext"@.len() == 7 && "next"@.len() == 4
        && "getKey"@.len() == 6 && "getValue"@.len() == 8 && "getMessage"@.len() == 10
        && "<init>"@.len() == 6);
    assert("java/util/Map"@.len() == 13 && "java/util/Set"@.len() == 13
        && "java/util/Iterator"@.len() == 18 && "java/util/Map$Entry"@.len() == 19);
    assert("put"@[0] == 'p' && "get"@[0] == 'g' && "remove"@[0] == 'r');
    assert("put"@ != "get"@);
    assert("remove"@ != "get"@ && "remove"@ != "put"@);
    assert("iterator"@[0] == 'i' && "entrySet"@[0] == 'e' && "getValue"@[0] == 'g'
        && "getKey"@[0] == 'g' && "getKey"@[3] == 'K' && "getValue"@[3] == 'V'
        && "<init>"@[0] == '<');
    assert("iterator"@ != "entrySet"@ && "getValue"@ != "iterator"@ && "getValue"@
        != "entrySet"@ && "getKey"@ != "remove"@ && "getKey"@ != "<init>"@ && "getValue"@
        != "getKey"@ && "<init>"@ != "remove"@ && "<init>"@ != "getKey"@);
    assert("java/util/Map"@[10] == 'M' && "java/util/Set"@[10] == 'S');
    assert("java/util/Map"@ != "java/util/Set"@);
}

impl Runtime {
    /// A method with these strings is resolvable.
    pub open spec fn method_defined(
        self,
        c: Seq<char>,
        n: Seq<char>,
        s: Seq<char>,
        is_static: bool,
    ) -> bool {
        exists|i: int| 0 <= i < self.methods@.len() && self.method_matches(i, c, n, s, is_static)
    }

    /// The classes and methods the map adapter resolves are all defined.
    pub open spec fn map_protocol_defined(self) -> bool {
        &&& self.class_defined("java/util/Map"@)
        &&& self.class_defined("java/util/Set"@)
        &&& self.class_defined("java/util/Iterator"@)
        &&& self.class_defined("java/util/Map$Entry"@)
        &&& self.method_defined("java/util/Map"@, "get"@, SIG_OBJ_TO_OBJ@, false)
        &&& self.method_defined("java/util/Map"@, "put"@, SIG_OBJ_OBJ_TO_OBJ@, false)
        &&& self.method_defined("java/util/Map"@, "remove"@, SIG_OBJ_TO_OBJ@, false)
        &&& self.method_defined("java/util/Map"@, "entrySet"@, SIG_TO_SET@, false)
        &&& self.method_defined("java/util/Set"@, "iterator"@, SIG_TO_ITERATOR@, false)
        &&& self.method_defined("java/util/Iterator"@, "hasNext"@, SIG_TO_BOOLEAN@, false)
        &&& self.method_defined("java/util/Iterator"@, "next"@, SIG_TO_OBJ@, false)
        &&& self.method_defined("java/util/Map$Entry"@, "getKey"@, SIG_TO_OBJ@, false)
        &&& self.method_defined("java/util/Map$Entry"@, "getValue"@, SIG_TO_OBJ@, false)
    }

    /// Defines the map interface, its entry set, and the iterator
    /// protocol, so that a map adapter can resolve everything it needs.
    pub fn install_map_protocol(&mut self)
        requires
            old(self).wf(),
        ensures
            final(self).wf(),
            final(self).map_protocol_defined(),
            final(self).heap == old(self).heap,
            final(self).frames == old(self).frames,
            final(self).fields == old(self).fields,
            final(self).globals == old(self).globals,
            final(self).attached == old(self).attached,
            final(self).detached_releases == old(self).detached_releases,
            forall|i: int|
                0 <= i < old(self).classes@.len() ==> final(self).classes@[i] == #[trigger] old(
                    self,
                ).classes@[i],
            forall|i: int|
                0 <= i < old(self).methods@.len() ==> final(self).methods@[i] == #[trigger] old(
                    self,
                ).methods@[i],
            old(self).classes@.len() <= final(self).classes@.len(),
            old(self).methods@.len() <= final(self).methods@.len(),
    {
        self.define_class("java/util/Map");
        self.define_class("java/util/Set");
        self.define_class("java/util/Iterator");
        self.define_class("java/util/Map$Entry");
        self.define_method("java/util/Map", "get", SIG_OBJ_TO_OBJ, false);
        self.define_method("java/util/Map", "put", SIG_OBJ_OBJ_TO_OBJ, false);
        self.define_method("java/util/Map", "remove", SIG_OBJ_TO_OBJ, false);
        self.define_method("java/util/Map", "entrySet", SIG_TO_SET, false);
        self.define_method("java/util/Set", "iterator", SIG_TO_ITERATOR, false);
        self.define_method("java/util/Iterator", "hasNext", SIG_TO_BOOLEAN, false);
        self.define_method("java/util/Iterator", "next", SIG_TO_OBJ, false);
        self.define_method("java/util/Map$Entry", "getKey", SIG_TO_OBJ, false);
        self.define_method("java/util/Map$Entry", "getValue", SIG_TO_OBJ, false);
        proof {
            let bc = old(self).classes@.len() as int;
            let bm = old(self).methods@.len() as int;
            assert(self.classes@[bc]@ == "java/util/Map"@);
            assert(self.classes@[bc + 1]@ == "java/util/Set"@);
            assert(self.classes@[bc + 2]@ == "java/util/Iterator"@);
            assert(self.classes@[bc + 3]@ == "java/util/Map$Entry"@);
            assert(self.method_matches(bm, "java/util/Map"@, "get"@, SIG_OBJ_TO_OBJ@, false));
            assert(self.method_matches(
                bm + 1,
                "java/util/Map"@,
                "put"@,
                SIG_OBJ_OBJ_TO_OBJ@,
                false,
            ));
            assert(self.method_matches(
                bm + 2,
                "java/util/Map"@,
                "remove"@,
                SIG_OBJ_TO_OBJ@,
                false,
            ));
            assert(self.method_matches(
                bm + 3,
                "java/util/Map"@,
                "entrySet"@,
                SIG_TO_SET@,
                false,
            ));
            assert(self.method_matches(
                bm + 4,
                "java/util/Set"@,
                "iterator"@,
                SIG_TO_ITERATOR@,
                false,
            ));
            assert(self.method_matches(
                bm + 5,
                "java/util/Iterator"@,
                "hasNext"@,
                SIG_TO_BOOLEAN@,
                false,
            ));
            assert(self.method_matches(
                bm + 6,
                "java/util/Iterator"@,
                "next"@,
                SIG_TO_OBJ@,
                false,
            ));
            assert(self.method_matches(
                bm + 7,
                "java/util/Map$Entry"@,
                "getKey"@,
                SIG_TO_OBJ@,
                false,
            ));
            assert(self.method_matches(
                bm + 8,
                "java/util/Map$Entry"@,
                "getValue"@,
                SIG_TO_OBJ@,
                false,
            ));
        }
    }

    /// Calls a resolved method on an object. The caller vouches (as the
    /// foreign interface demands of its unchecked call) that the
    /// receiver, the argument count and kinds, and the declared return
    /// kind match the method; what the call then does is
    /// [`Runtime::call_post`], case by case.
    pub fn call_method(
        &mut self,
        obj: &JObject,
        mid: &JMethodID,
        ret: crate::signature::ReturnType,
        args: &[JValueRaw],
    ) -> (r: Result<crate::jvalueowned::JValueOwned, Error>)
        requires
            old(self).wf(),
            old(self).valid_mid(mid.raw_spec()),
            old(self).valid_ptr(obj.raw_spec()),
            old(self).live(obj.raw_spec()),
            old(self).call_compatible(obj.raw_spec(), mid.raw_spec(), ret, args@),
        ensures
            final(self).wf(),
            Runtime::call_post(*old(self), *final(self), obj.raw_spec(), mid.raw_spec(), args@, r),
    {
        let k = self.methods[mid.into_inner() - 1].kind;
        let o = obj.as_raw();
        proof {
            assert(self.heap_obj_wf(self.obj_at(o)));
        }
        match k {
            MethodKind::MapGet => {
                let kp = args[0].bits as usize;
                self.do_map_get(o, kp)
            },
            MethodKind::MapPut => {
                let kp = args[0].bits as usize;
                let vp = args[1].bits as usize;
                self.do_map_put(o, kp, vp)
            },
            MethodKind::MapRemove => {
                let kp = args[0].bits as usize;
                self.do_map_remove(o, kp)
            },
            MethodKind::MapEntrySet => self.do_entry_set(o),
            MethodKind::SetIterator => self.do_set_iterator(o),
            MethodKind::IterHasNext => {
                let b: u8 = match &self.heap[o - 1] {
                    HeapObject::IterObj { items, pos } => if *pos < items.len() {
                        1u8
                    } else {
                        0u8
                    },
                    _ => 0u8,
                };
                Ok(crate::jvalueowned::JValueOwned::Bool(b))
            },
            MethodKind::IterNext => self.do_iter_next(o),
            MethodKind::EntryGetKey => self.do_entry_get_key(o),
            MethodKind::EntryGetValue => {
                let v: RawObject = match &self.heap[o - 1] {
                    HeapObject::EntryObj { value, .. } => *value,
                    _ => 0,
                };
                self.hand_back_ref(v)
            },
            MethodKind::GetMessage => {
                let v: RawObject = match &self.heap[o - 1] {
                    HeapObject::ThrowableObj { message, .. } => *message,
                    _ => 0,
                };
                self.hand_back_ref(v)
            },
            MethodKind::CtorString => {
                proof {
                    assert(false);
                }
                Err(Error::JavaException)
            },
            MethodKind::Other => {
                proof {
                    assert(false);
                }
                Err(Error::JavaException)
            },
        }
    }

    /// Constructs a new object by invoking the single-string constructor
    /// of the given class with one string (or null) argument — the one
    /// construction the model's classes offer. Succeeds exactly when the
    /// constructor is defined on the class, producing a throwable object
    /// as a fresh local reference.
    pub fn new_object(&mut self, class: &JObject, ctor_sig: &str, args: &[JValueRaw]) -> (r:
        Result<JObject, Error>)
        requires
            old(self).wf(),
            old(self).valid_ptr(class.raw_spec()),
            old(self).obj_at(class.raw_spec()) is ClassObj,
            old(self).live(class.raw_spec()),
            ctor_sig@ == SIG_STRING_TO_VOID@,
            args@.len() == 1,
            old(self).bits_ok(args@[0]),
            Runtime::bits_ptr(args@[0]) == 0 || old(self).obj_at(
                Runtime::bits_ptr(args@[0]),
            ) is StringObj,
        ensures
            final(self).wf(),
            match r {
                Ok(obj) => {
                    &&& old(self).method_defined(
                        old(self).class_name_at(class.raw_spec()),
                        "<init>"@,
                        ctor_sig@,
                        false,
                    )
                    &&& final(self).allocated_local_obj(*old(self), obj.raw_spec())
                    &&& (final(self).obj_at(obj.raw_spec()) matches HeapObject::ThrowableObj {
                        class_name,
                        message,
                    } && class_name@ == old(self).class_name_at(class.raw_spec()) && message
                        == Runtime::bits_ptr(args@[0]))
                },
                Err(e) => {
                    &&& e == Error::NotFound
                    &&& *final(self) == *old(self)
                    &&& !old(self).method_defined(
                        old(self).class_name_at(class.raw_spec()),
                        "<init>"@,
                        ctor_sig@,
                        false,
                    )
                },
            },
    {
        match self.get_method_id(class, "<init>", ctor_sig) {
            Ok(_) => {
                let cname: String = match &self.heap[class.as_raw() - 1] {
                    HeapObject::ClassObj { name } => name.clone(),
                    _ => {
                        proof {
                            assert(false);
                        }
                        String::new()
                    },
                };
                let msg = args[0].bits as usize;
                let p = self.alloc_local(
                    HeapObject::ThrowableObj { class_name: cname, message: msg },
                );
                Ok(JObject::from_raw(p))
            },
            Err(_) => Err(Error::NotFound),
        }
    }
}

/// Two runtimes with the same method table resolve the same methods.
pub proof fn lemma_method_defined_same(
    a: Runtime,
    b: Runtime,
    c: Seq<char>,
    n: Seq<char>,
    s: Seq<char>,
    st: bool,
)
    requires
        a.methods == b.methods,
    ensures
        a.method_defined(c, n, s, st) == b.method_defined(c, n, s, st),
{
    if a.method_defined(c, n, s, st) {
        let i = choose|i: int| 0 <= i < a.methods@.len() && a.method_matches(i, c, n, s, st);
        assert(b.method_matches(i, c, n, s, st));
    }
    if b.method_defined(c, n, s, st) {
        let i = choose|i: int| 0 <= i < b.methods@.len() && b.method_matches(i, c, n, s, st);
        assert(a.method_matches(i, c, n, s, st));
    }
}

impl Runtime {
    /// A field with these strings is resolvable.
    pub open spec fn field_defined(
        self,
        c: Seq<char>,
        n: Seq<char>,
        s: Seq<char>,
        is_static: bool,
    ) -> bool {
        exists|i: int| 0 <= i < self.fields@.len() && self.field_matches(i, c, n, s, is_static)
    }
}

/// Two runtimes with the same field table resolve the same fields.
pub proof fn lemma_field_defined_same(
    a: Runtime,
    b: Runtime,
    c: Seq<char>,
    n: Seq<char>,
    s: Seq<char>,
    st: bool,
)
    requires
        a.fields == b.fields,
    ensures
        a.field_defined(c, n, s, st) == b.field_defined(c, n, s, st),
{
    if a.field_defined(c, n, s, st) {
        let i = choose|i: int| 0 <= i < a.fields@.len() && a.field_matches(i, c, n, s, st);
        assert(b.field_matches(i, c, n, s, st));
    }
    if b.field_defined(c, n, s, st) {
        let i = choose|i: int| 0 <= i < b.fields@.len() && b.field_matches(i, c, n, s, st);
        assert(a.field_matches(i, c, n, s, st));
    }
}

/// Two runtimes with the same class table define the same classes.
pub proof fn lemma_class_defined_same(a: Runtime, b: Runtime, name: Seq<char>)
    requires
        a.classes == b.classes,
    ensures
        a.class_defined(name) == b.class_defined(name),
{
    if a.class_defined(name) {
        let i = choose|i: int| 0 <= i < a.classes@.len() && (#[trigger] a.classes@[i])@ == name;
        assert((b.classes@[i])@ == name);
    }
    if b.class_defined(name) {
        let i = choose|i: int| 0 <= i < b.classes@.len() && (#[trigger] b.classes@[i])@ == name;
        assert((a.classes@[i])@ == name);
    }
}

/// A reference stays live when no local reference to it was dropped and
/// the global table did not move.
pub proof fn lemma_live_preserved(a: Runtime, b: Runtime, q: RawObject)
    requires
        a.live(q),
        a.globals == b.globals,
        b.local_count(q) >= a.local_count(q),
    ensures
        b.live(q),
{
    if a.global_pinned(q) {
        let g = choose|g: int|
            0 <= g < a.globals@.len() && (#[trigger] a.globals@[g]).target == q
                && a.globals@[g].shares >= 1;
        assert((b.globals@[g]).target == q && b.globals@[g].shares >= 1);
    }
}

} // verus!
