//! The runtime that a sync targets.

use crate::marker::MarkerEnvironment;
use crate::version::Version;
use vstd::prelude::*;

verus! {

/// An interpreter and the place where its packages are installed.
#[derive(Debug, PartialEq, Eq)]
pub struct Runtime {
    /// The version of the interpreter.
    pub version: Version,
    /// The platform that the interpreter runs on.
    pub platform: String,
    /// The facts against which marker expressions are evaluated.
    pub markers: MarkerEnvironment,
    /// The tags of the prebuilt artifacts that the runtime accepts, the
    /// preferred ones first.
    pub tags: Vec<String>,
    /// Where installed packages live.
    pub site: String,
}

} // verus!
