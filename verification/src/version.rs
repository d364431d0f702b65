//! Whether a text is a version that the `semver` crate accepts.
use vstd::prelude::*;

use crate::text::string_of;

verus! {

/// Whether `semver::Version::parse` accepts the text.
pub uninterp spec fn semver_accepts(text: Seq<char>) -> bool;

/// Calls `semver::Version::parse` and reports whether it succeeded. The
/// grammar it checks (SemVer 2.0.0: three numeric parts without leading
/// zeros, optional pre-release and build metadata) is not written out here:
/// the contract names the result and ties it to the text alone, which is
/// what the crate's parser depends on.
#[verifier::external_body]
pub(crate) fn is_semver(text: &str) -> (b: bool)
    ensures
        b == semver_accepts(text@),
{
    semver::Version::parse(text).is_ok()
}

/// `is_semver` on characters.
pub fn is_semver_chars(text: &Vec<char>) -> (b: bool)
    ensures
        b == semver_accepts(text@),
{
    let s = string_of(text);
    is_semver(s.as_str())
}

} // verus!
