//! What the library knows of a newer Globlin build.
use vstd::prelude::*;

verus! {

/// A published Globlin build: its version and where its files are.
#[derive(Debug, Clone, PartialEq, Eq)]
pub struct Release {
    pub version: String,
    pub exe_url: String,
    pub sha_url: String,
}

} // verus!
