//! The map adapter scenarios: gets, puts, removes and iteration over a
//! model map, with the reference bookkeeping visible throughout.

use jni::errors::Error;
use jni::jmap::JMap;
use jni::jobject::JObject;
use jni::runtime::Runtime;

fn map_env() -> (Runtime, JObject) {
    let mut env = Runtime::new();
    env.install_map_protocol();
    let m = env.new_map();
    (env, m)
}

#[test]
fn empty_map_get_absent_put_then_get() {
    let (mut env, m) = map_env();
    let map = JMap::from_env(&mut env, &m).unwrap();
    let kx = env.new_string("x");
    // absent key: optional-absent, not an error
    assert_eq!(map.get(&mut env, &kx), Ok(None));
    // first put: no prior mapping
    let v1 = env.new_string("1");
    assert_eq!(map.put(&mut env, &kx, &v1), Ok(None));
    // now bound
    let got = map.get(&mut env, &kx).unwrap().expect("bound after put");
    assert_eq!(env.string_text(&got).unwrap(), "1");
}

#[test]
fn put_returns_previous_value() {
    let (mut env, m) = map_env();
    let map = JMap::from_env(&mut env, &m).unwrap();
    let k = env.new_string("k");
    let v1 = env.new_string("one");
    let v2 = env.new_string("two");
    assert_eq!(map.put(&mut env, &k, &v1), Ok(None));
    let old = map.put(&mut env, &k, &v2).unwrap().expect("previous value");
    assert_eq!(env.string_text(&old).unwrap(), "one");
    let now = map.get(&mut env, &k).unwrap().unwrap();
    assert_eq!(env.string_text(&now).unwrap(), "two");
}

#[test]
fn key_matching_is_by_content_not_identity() {
    let (mut env, m) = map_env();
    let map = JMap::from_env(&mut env, &m).unwrap();
    let k1 = env.new_string("same");
    let k2 = env.new_string("same");
    assert_ne!(k1.as_raw(), k2.as_raw());
    let v = env.new_string("v");
    assert_eq!(map.put(&mut env, &k1, &v), Ok(None));
    let got = map.get(&mut env, &k2).unwrap().expect("found via equal key");
    assert_eq!(env.string_text(&got).unwrap(), "v");
}

#[test]
fn remove_nonexistent_key_is_absent_not_error() {
    let (mut env, m) = map_env();
    let map = JMap::from_env(&mut env, &m).unwrap();
    let k = env.new_string("ghostly");
    assert_eq!(map.remove(&mut env, &k), Ok(None));
}

#[test]
fn remove_returns_removed_value() {
    let (mut env, m) = map_env();
    let map = JMap::from_env(&mut env, &m).unwrap();
    let k = env.new_string("k");
    let v = env.new_string("gone");
    assert_eq!(map.put(&mut env, &k, &v), Ok(None));
    let removed = map.remove(&mut env, &k).unwrap().expect("was bound");
    assert_eq!(env.string_text(&removed).unwrap(), "gone");
    assert_eq!(map.get(&mut env, &k), Ok(None));
}

#[test]
fn put_with_non_string_key_is_a_foreign_exception() {
    let (mut env, m) = map_env();
    let map = JMap::from_env(&mut env, &m).unwrap();
    let v = env.new_string("v");
    // the map object itself is not a string key
    assert_eq!(map.put(&mut env, &m, &v), Err(Error::JavaException));
}

#[test]
fn iteration_yields_each_pair_exactly_once_then_ends() {
    let (mut env, m) = map_env();
    let map = JMap::from_env(&mut env, &m).unwrap();
    let ka = env.new_string("a");
    let v1 = env.new_string("1");
    let kb = env.new_string("b");
    let v2 = env.new_string("2");
    assert_eq!(map.put(&mut env, &ka, &v1), Ok(None));
    assert_eq!(map.put(&mut env, &kb, &v2), Ok(None));

    let it = map.iter(&mut env).unwrap();
    let p1 = it.next(&mut env).expect("first pair");
    let p2 = it.next(&mut env).expect("second pair");
    assert!(it.next(&mut env).is_none());
    assert!(it.next(&mut env).is_none());

    let mut pairs = vec![
        (env.string_text(&p1.0).unwrap(), env.string_text(&p1.1).unwrap()),
        (env.string_text(&p2.0).unwrap(), env.string_text(&p2.1).unwrap()),
    ];
    pairs.sort();
    assert_eq!(
        pairs,
        vec![("a".to_string(), "1".to_string()), ("b".to_string(), "2".to_string())]
    );
}

#[test]
fn iteration_restarts_with_a_fresh_iterator() {
    let (mut env, m) = map_env();
    let map = JMap::from_env(&mut env, &m).unwrap();
    let k = env.new_string("once");
    let v = env.new_string("more");
    assert_eq!(map.put(&mut env, &k, &v), Ok(None));
    let it1 = map.iter(&mut env).unwrap();
    assert!(it1.next(&mut env).is_some());
    assert!(it1.next(&mut env).is_none());
    let it2 = map.iter(&mut env).unwrap();
    assert!(it2.next(&mut env).is_some());
    it1.release(&mut env);
    it2.release(&mut env);
}

#[test]
fn iteration_ends_silently_on_a_null_value() {
    let (mut env, m) = map_env();
    let map = JMap::from_env(&mut env, &m).unwrap();
    let k = env.new_string("void-bound");
    assert_eq!(map.put(&mut env, &k, &JObject::null()), Ok(None));
    let it = map.iter(&mut env).unwrap();
    // the step itself reports the null result...
    assert_eq!(it.get_next(&mut env), Err(Error::NullPtr));
    // ...which the plain iterator maps to the end of the sequence
    let it2 = map.iter(&mut env).unwrap();
    assert!(it2.next(&mut env).is_none());
}

#[test]
fn iterator_frames_do_not_accumulate() {
    let (mut env, m) = map_env();
    let map = JMap::from_env(&mut env, &m).unwrap();
    let k = env.new_string("k");
    let v = env.new_string("v");
    assert_eq!(map.put(&mut env, &k, &v), Ok(None));
    let depth = env.frame_depth();
    let it = map.iter(&mut env).unwrap();
    assert_eq!(env.frame_depth(), depth);
    while it.next(&mut env).is_some() {}
    assert_eq!(env.frame_depth(), depth);
    it.release(&mut env);
    map.release(&mut env);
}

#[test]
fn from_env_fails_without_the_map_protocol() {
    let mut env = Runtime::new();
    // a map object exists, but nothing is defined to resolve against
    let m = {
        env.define_class("java/util/Map");
        let m = env.new_map();
        m
    };
    assert!(matches!(JMap::from_env(&mut env, &m), Err(Error::NotFound)));
}
