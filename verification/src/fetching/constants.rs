//! Defaults of a run.

use vstd::prelude::*;

verus! {

/// Where the index tree lies when nothing else is configured.
pub const DEFAULT_INDEX_PATH: &'static str = "crates_index";

/// Where the fetched archives are put when nothing else is configured.
pub const DEFAULT_CRATES_PATH: &'static str = "crates";

/// The upstream origin of the index when nothing else is configured.
pub const DEFAULT_SOURCE_INDEX: &'static str = "https://github.com/rust-lang/crates.io-index.git";

/// The configuration file written at the root of a mirrored index.
pub const DEFAULT_CONFIG: &'static str = "\n{\n    \"dl\": \"127.0.0.1:3000\"\n}\n";

/// The least depth at which an index file lies, counted in directory
/// entries below the root of the index tree: the root itself is at depth 0,
/// and the index file of a name of length one or two is at depth 2, on the
/// third level of the tree.
pub const INDEX_MIN_DEPTH: usize = 2;

/// The greatest depth at which an index file lies, counted in directory
/// entries below the root of the index tree: the index file of a name of
/// length three or more is at depth 3, on the fourth level of the tree.
pub const INDEX_MAX_DEPTH: usize = 3;

} // verus!
