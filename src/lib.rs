//! A per-directory Java toolchain manager: named toolchains, a default, and
//! directory overrides resolved by the deepest matching directory, plus the
//! decisions of a binary that stands in for the Java tools.
use vstd::prelude::*;

pub mod config;
pub mod error;
pub mod installation;
pub mod path;
pub mod shim;

verus! {

} // verus!
