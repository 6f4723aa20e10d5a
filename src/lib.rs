//! Text utilities: semantic versions, hex, UUIDs, random ASCII text, regular expressions,
//! tokenizers and naming styles.
pub mod essential;
pub mod semver_error;
pub mod identifier;
pub mod dotted;
pub mod compare;
pub mod prerelease;
pub mod build_metadata;
pub mod scan;
pub mod semantic;
pub mod version_laws;
pub mod byte;
pub mod primitive;
pub mod hex;
pub mod random;
pub mod uuid;
pub mod token;
pub mod alpha_num;
pub mod naming;
pub mod regexp;

use vstd::prelude::*;
use crate::semantic::{package_version, parse_spec, numbers_only, Version};

verus! {

/// The version that this package declares; it must be kept equal to `version` under
/// `[package]` in Cargo.toml.
pub const PACKAGE_VERSION: &'static str = "0.1.0";

/// The version of this library, read from [`PACKAGE_VERSION`].
pub fn version() -> (r: Version)
    ensures
        r@ == match parse_spec(PACKAGE_VERSION@, false) {
            Ok(v) => v,
            Err(_) => numbers_only(0, 0, 0),
        },
{
    package_version(Some(PACKAGE_VERSION))
}

} // verus!
