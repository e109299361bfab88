use vstd::prelude::*;

use crate::errors::InstallError;
use crate::text::{contains_seq, contains_str, ends_with_str, starts_with_str};

verus! {

/// A filename counts as the compiled shared-library artifact for `ext` when
/// it contains the extension name as a substring, begins with the platform
/// library prefix, and ends with one of the platform library suffixes.
/// Substring matching is deliberately permissive, to tolerate ABI version
/// suffixes in filenames.
pub open spec fn is_artifact_name(name: Seq<char>, ext: Seq<char>) -> bool {
    &&& contains_seq(name, ext)
    &&& "lib"@.is_prefix_of(name)
    &&& {
        ||| ".so"@.is_suffix_of(name)
        ||| ".dylib"@.is_suffix_of(name)
        ||| ".dll"@.is_suffix_of(name)
    }
}

/// Whether `filename` is accepted as the shared-library artifact for
/// `extname`, as `is_artifact_name` describes.
pub fn artifact_matches(filename: &str, extname: &str) -> (r: bool)
    ensures
        r == is_artifact_name(filename@, extname@),
{
    contains_str(filename, extname) && starts_with_str(filename, "lib") && (ends_with_str(
        filename,
        ".so",
    ) || ends_with_str(filename, ".dylib") || ends_with_str(filename, ".dll"))
}

/// The build-output subdirectory that a profile selects.
pub fn profile_dir(is_release: bool) -> (r: &'static str)
    ensures
        is_release ==> r@ == "release"@,
        !is_release ==> r@ == "debug"@,
{
    if is_release {
        "release"
    } else {
        "debug"
    }
}

/// Searches the enumerated entries of a build-output directory for the
/// shared-library artifact of `extname` and returns the index of the first
/// match, or `ArtifactNotFound` when no entry matches. Directory enumeration
/// order is not guaranteed by the filesystem, so which entry is "first" is
/// the caller's enumeration order.
pub fn find_library_file(entries: &Vec<String>, extname: &str) -> (r: Result<
    usize,
    InstallError,
>)
    ensures
        match r {
            Ok(i) => i < entries@.len() && is_artifact_name(entries@[i as int]@, extname@)
                && forall|j: int|
                0 <= j < i ==> !is_artifact_name(entries@[j]@, extname@),
            Err(e) => e is ArtifactNotFound && forall|j: int|
                0 <= j < entries@.len() ==> !is_artifact_name(entries@[j]@, extname@),
        },
{
    let n = entries.len();
    let mut i: usize = 0;
    while i < n
        invariant
            i <= n,
            n == entries@.len(),
            forall|j: int| 0 <= j < i ==> !is_artifact_name(entries@[j]@, extname@),
        decreases n - i,
    {
        if artifact_matches(entries[i].as_str(), extname) {
            return Ok(i);
        }
        i = i + 1;
    }
    Err(InstallError::ArtifactNotFound)
}

} // verus!
