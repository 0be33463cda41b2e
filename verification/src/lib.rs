//! A safety-oriented wrapper around an object-reference interface to a
//! garbage-collected foreign runtime, together with an explicit model of
//! that runtime against which every reference-bookkeeping rule is verified.
//!
//! The core concern is reference lifetime and ownership across the GC
//! boundary: local references are scarce and scoped to a call context,
//! global references are reference-counted and thread-independent, and
//! every release must happen exactly once. The modules mirror that
//! structure:
//!
//! - [`runtime`] models the foreign runtime itself: a heap of objects, a
//!   stack of local-reference frames, a table of pinned global references,
//!   and the lookup and call primitives the rest of the crate drives.
//! - [`jobject`] and [`jmethodid`] are the raw handle and identifier types.
//! - [`jvalueowned`] is the tagged value union that crosses the calling
//!   boundary, with checked narrowing accessors.
//! - [`auto_local`] and [`global_ref`] are the local and global reference
//!   guards, each with an exactly-once release discipline.
//! - [`desc`], [`class_desc`], [`method_desc`], [`field_desc`] and
//!   [`exception_desc`] resolve symbolic descriptors to handles and
//!   identifiers, lazily and without caching.
//! - [`jmap`] is the map adapter: the full reference discipline applied to
//!   a map view with an entry iterator.

pub mod auto_local;
pub mod class_desc;
pub mod desc;
pub mod errors;
pub mod exception_desc;
pub mod field_desc;
pub mod global_ref;
pub mod jmap;
pub mod jmethodid;
pub mod jobject;
pub mod jvalueowned;
pub mod method_desc;
pub mod runtime;
pub mod signature;
