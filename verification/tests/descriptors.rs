//! Descriptor resolution: names, instances and already-resolved handles
//! for classes; tuples for methods and fields; exception construction.

use jni::class_desc::ClassDesc;
use jni::desc::{FromEnvId, FromEnvObject, FromEnvValue};
use jni::errors::Error;
use jni::exception_desc::ExceptionDesc;
use jni::field_desc::FieldDesc;
use jni::jmethodid::{JFieldID, JMethodID, JStaticMethodID};
use jni::method_desc::MethodDesc;
use jni::runtime::{Runtime, SIG_OBJ_TO_OBJ, SIG_STRING_TO_VOID};

#[test]
fn class_by_name_resolves_to_an_owned_reference() {
    let mut env = Runtime::new();
    env.define_class("java/util/Map");
    let v = ClassDesc::Name("java/util/Map".to_string()).lookup(&mut env).unwrap();
    assert!(matches!(v, FromEnvValue::Owned(_)));
    let raw = v.as_raw();
    assert!(env.is_local_live(raw));
    v.dispose(&mut env);
    assert!(!env.is_local_live(raw));
}

#[test]
fn class_by_name_not_found() {
    let mut env = Runtime::new();
    let r = ClassDesc::Name("java/lang/Missing".to_string()).lookup(&mut env);
    assert!(matches!(r, Err(Error::NotFound)));
}

#[test]
fn resolving_a_resolved_class_is_identity_without_a_call() {
    let mut env = Runtime::new();
    env.define_class("java/util/Map");
    let cls = env.find_class("java/util/Map").unwrap();
    let heap_before = env.heap.len();
    let depth_before = env.frame_depth();
    let v = ClassDesc::Resolved(cls).lookup(&mut env).unwrap();
    // no allocation, no new reference: nothing happened
    assert_eq!(env.heap.len(), heap_before);
    assert_eq!(env.frame_depth(), depth_before);
    assert!(matches!(v, FromEnvValue::Reference(_)));
    assert_eq!(v.as_raw(), cls.as_raw());
}

#[test]
fn resolving_a_resolved_method_id_is_identity() {
    let mut env = Runtime::new();
    env.define_class("java/util/Map");
    env.define_method("java/util/Map", "get", SIG_OBJ_TO_OBJ, false);
    let cls = env.find_class("java/util/Map").unwrap();
    let mid = env.get_method_id(&cls, "get", SIG_OBJ_TO_OBJ).unwrap();
    let heap_before = env.heap.len();
    let resolved: JMethodID = mid.lookup(&mut env).unwrap();
    assert_eq!(resolved, mid);
    assert_eq!(env.heap.len(), heap_before);
}

#[test]
fn class_from_instance_resolves_to_its_runtime_class() {
    let mut env = Runtime::new();
    let s = env.new_string("text");
    let v = ClassDesc::Object(s).lookup(&mut env).unwrap();
    let cls = v.as_obj();
    // the class object of a string instance
    let as_string = env.string_text(&cls);
    assert!(as_string.is_none());
    v.dispose(&mut env);
}

#[test]
fn method_from_triple_resolves_and_restores_the_frames() {
    let mut env = Runtime::new();
    env.define_class("java/util/Map");
    env.define_method("java/util/Map", "get", SIG_OBJ_TO_OBJ, false);
    let depth = env.frame_depth();
    let desc = MethodDesc::Triple(
        ClassDesc::Name("java/util/Map".to_string()),
        "get".to_string(),
        SIG_OBJ_TO_OBJ.to_string(),
    );
    let mid: JMethodID = desc.lookup(&mut env).unwrap();
    assert!(mid.into_inner() >= 1);
    // the temporary class reference was released again
    assert_eq!(env.frame_depth(), depth);
}

#[test]
fn constructor_descriptor_inserts_the_fixed_name() {
    let mut env = Runtime::new();
    env.define_class("java/lang/RuntimeException");
    env.define_method("java/lang/RuntimeException", "<init>", SIG_STRING_TO_VOID, false);
    let desc = MethodDesc::Ctor(
        ClassDesc::Name("java/lang/RuntimeException".to_string()),
        SIG_STRING_TO_VOID.to_string(),
    );
    let mid: JMethodID = desc.lookup(&mut env).unwrap();
    assert!(mid.into_inner() >= 1);
}

#[test]
fn static_method_resolution_is_distinct_from_instance() {
    let mut env = Runtime::new();
    env.define_class("java/lang/System");
    env.define_method("java/lang/System", "lineSeparator", "()Ljava/lang/String;", true);
    let desc = MethodDesc::Triple(
        ClassDesc::Name("java/lang/System".to_string()),
        "lineSeparator".to_string(),
        "()Ljava/lang/String;".to_string(),
    );
    let s: Result<JStaticMethodID, Error> = desc.lookup(&mut env);
    assert!(s.is_ok());
    let desc2 = MethodDesc::Triple(
        ClassDesc::Name("java/lang/System".to_string()),
        "lineSeparator".to_string(),
        "()Ljava/lang/String;".to_string(),
    );
    let i: Result<JMethodID, Error> = desc2.lookup(&mut env);
    assert!(matches!(i, Err(Error::NotFound)));
}

#[test]
fn field_resolution_from_a_triple() {
    let mut env = Runtime::new();
    env.define_class("java/awt/Point");
    env.define_field("java/awt/Point", "x", "I", false);
    let desc = FieldDesc {
        class: ClassDesc::Name("java/awt/Point".to_string()),
        name: "x".to_string(),
        sig: "I".to_string(),
    };
    let fid: Result<JFieldID, Error> = desc.lookup(&mut env);
    assert!(fid.is_ok());
    let missing = FieldDesc {
        class: ClassDesc::Name("java/awt/Point".to_string()),
        name: "y".to_string(),
        sig: "I".to_string(),
    };
    let none: Result<JFieldID, Error> = missing.lookup(&mut env);
    assert!(matches!(none, Err(Error::NotFound)));
}

#[test]
fn exception_from_class_and_message() {
    let mut env = Runtime::new();
    env.define_class("java/lang/IllegalStateException");
    env.define_method(
        "java/lang/IllegalStateException",
        "<init>",
        SIG_STRING_TO_VOID,
        false,
    );
    let desc = ExceptionDesc::ClassAndMsg(
        ClassDesc::Name("java/lang/IllegalStateException".to_string()),
        "bad state".to_string(),
    );
    let v = desc.lookup(&mut env).unwrap();
    let t = v.as_obj();
    assert_eq!(
        env.throwable_class_name(&t).unwrap(),
        "java/lang/IllegalStateException"
    );
    let msg = env.throwable_message(&t).unwrap();
    assert_eq!(env.string_text(&msg).unwrap(), "bad state");
    v.dispose(&mut env);
}

#[test]
fn exception_from_message_alone_uses_the_default_class() {
    let mut env = Runtime::new();
    env.define_class("java/lang/RuntimeException");
    env.define_method("java/lang/RuntimeException", "<init>", SIG_STRING_TO_VOID, false);
    let v = ExceptionDesc::Msg("plain trouble".to_string()).lookup(&mut env).unwrap();
    let t = v.as_obj();
    assert_eq!(env.throwable_class_name(&t).unwrap(), "java/lang/RuntimeException");
    let msg = env.throwable_message(&t).unwrap();
    assert_eq!(env.string_text(&msg).unwrap(), "plain trouble");
}

#[test]
fn exception_without_a_constructor_is_not_found() {
    let mut env = Runtime::new();
    env.define_class("java/lang/RuntimeException");
    let r = ExceptionDesc::Msg("no ctor".to_string()).lookup(&mut env);
    assert!(matches!(r, Err(Error::NotFound)));
}
