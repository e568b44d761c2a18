//! A live, queryable shadow of a vehicle's signal tree.
//!
//! Each signal, named by a dot-delimited path, carries a stored value,
//! liveness flags and static metadata. The crate offers the shadow store
//! (a path-keyed state table with per-path write locking), the wire value
//! mapping, the subscription registry for change notifications, and the
//! service layer that answers Get/Set/Subscribe/Unsubscribe/Lock/Unlock
//! against the store.

pub mod client;
pub mod codec;
pub mod decode;
pub mod error;
pub mod fmt;
pub mod json;
pub mod loader;
pub mod registry;
pub mod service;
pub mod signal;
pub mod store;
pub mod wire;
