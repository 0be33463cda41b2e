//! Reference lifetime discipline: local guards release exactly once,
//! global guards release at the last drop whatever the order.

use jni::auto_local::AutoLocal;
use jni::errors::Error;
use jni::global_ref::GlobalRef;
use jni::jobject::JObject;
use jni::runtime::Runtime;

#[test]
fn local_guard_releases_exactly_once() {
    let mut env = Runtime::new();
    let s = env.new_string("pinned");
    let raw = s.as_raw();
    assert!(env.is_local_live(raw));
    let guard = AutoLocal::new(s);
    assert_eq!(guard.as_obj().as_raw(), raw);
    guard.release(&mut env);
    assert!(!env.is_local_live(raw));
    // releasing again through the runtime is an error: the single
    // release already happened
    assert_eq!(env.delete_local_ref(JObject::from_raw(raw)), Err(Error::JavaException));
}

#[test]
fn forget_cancels_the_release_obligation() {
    let mut env = Runtime::new();
    let s = env.new_string("kept");
    let raw = s.as_raw();
    let guard = AutoLocal::new(s);
    let bare = guard.forget();
    // forgetting performed no release call
    assert!(env.is_local_live(raw));
    assert_eq!(bare.as_raw(), raw);
    // the caller now owns the obligation and releases manually
    assert_eq!(env.delete_local_ref(bare), Ok(()));
    assert!(!env.is_local_live(raw));
}

#[test]
fn releasing_null_is_swallowed() {
    let mut env = Runtime::new();
    let before = env.frame_depth();
    AutoLocal::new(JObject::null()).release(&mut env);
    assert_eq!(env.frame_depth(), before);
}

#[test]
fn local_frames_reclaim_their_references() {
    let mut env = Runtime::new();
    let depth = env.frame_depth();
    env.push_local_frame(16);
    let tmp = env.new_string("transient");
    let raw = tmp.as_raw();
    assert!(env.is_local_live(raw));
    let kept = env.pop_local_frame(JObject::null());
    assert!(kept.is_null());
    assert!(!env.is_local_live(raw));
    assert_eq!(env.frame_depth(), depth);
}

#[test]
fn local_frames_keep_the_chosen_reference() {
    let mut env = Runtime::new();
    env.push_local_frame(4);
    let tmp = env.new_string("result");
    let raw = tmp.as_raw();
    let kept = env.pop_local_frame(tmp);
    assert_eq!(kept.as_raw(), raw);
    assert!(env.is_local_live(raw));
}

#[test]
fn global_guard_releases_only_after_last_drop() {
    let mut env = Runtime::new();
    let s = env.new_string("shared");
    let gid = env.register_global(&s);
    let g1 = GlobalRef::from_raw(&mut env, gid);
    assert_eq!(g1.as_obj().as_raw(), s.as_raw());
    let g2 = g1.clone_ref(&mut env);
    let g3 = g2.clone_ref(&mut env);
    assert_eq!(env.global_shares(gid), Some(3));
    assert_eq!(env.global_released(gid), Some(false));
    // drop in an order different from creation
    g2.drop_ref(&mut env);
    assert_eq!(env.global_shares(gid), Some(2));
    assert_eq!(env.global_released(gid), Some(false));
    g1.drop_ref(&mut env);
    assert_eq!(env.global_shares(gid), Some(1));
    assert_eq!(env.global_released(gid), Some(false));
    g3.drop_ref(&mut env);
    assert_eq!(env.global_shares(gid), Some(0));
    assert_eq!(env.global_released(gid), Some(true));
}

#[test]
fn global_release_from_detached_thread_is_recorded() {
    let mut env = Runtime::new();
    let s = env.new_string("afar");
    let gid = env.register_global(&s);
    let g1 = GlobalRef::from_raw(&mut env, gid);
    let g2 = g1.clone_ref(&mut env);
    env.set_attached(false);
    // not the last share: no release, nothing recorded
    g2.drop_ref(&mut env);
    assert_eq!(env.detached_release_count(), 0);
    // the last share from a detached thread: attach, release, detach
    g1.drop_ref(&mut env);
    assert_eq!(env.detached_release_count(), 1);
    assert_eq!(env.global_released(gid), Some(true));
    assert!(!env.is_attached());
}

#[test]
fn global_release_from_attached_thread_is_silent() {
    let mut env = Runtime::new();
    let s = env.new_string("near");
    let gid = env.register_global(&s);
    let g1 = GlobalRef::from_raw(&mut env, gid);
    g1.drop_ref(&mut env);
    assert_eq!(env.detached_release_count(), 0);
    assert_eq!(env.global_released(gid), Some(true));
}
