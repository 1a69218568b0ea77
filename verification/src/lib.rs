//! Reconciliation of a pinned dependency lock with a target runtime.
//!
//! The crate checks that a lock may be used with a runtime, derives the set of
//! distributions the runtime must hold, narrows that set by workspace topology
//! and by the caller's install scope, and selects the build and hash policies
//! that the installer is to follow.

pub mod text;
pub mod names;
pub mod version;
pub mod marker;
pub mod lock;
pub mod walk;
pub mod resolution;
pub mod builder;
pub mod workspace;
pub mod filter;
pub mod runtime;
pub mod policy;
pub mod error;
pub mod validate;
pub mod sync;
pub mod laws;
