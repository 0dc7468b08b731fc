//! Queries on file-system paths made through `std::path`.

use vstd::prelude::*;

verus! {

/// Whether `answer` is an answer that `std::path::Path::exists` gave for `path`. Which answer
/// comes depends on the file system at the moment of the call; the relation only records which
/// path was asked about.
pub uninterp spec fn exists_answer(path: Seq<char>, answer: bool) -> bool;

/// Whether `path` names something on disk (`std::path::Path::exists`). The answer depends on
/// the file system at the moment of the call, so only the path it was given for is stated.
#[verifier::external_body]
pub(crate) fn path_exists(path: &str) -> (r: bool)
    ensures
        exists_answer(path@, r),
{
    std::path::Path::new(path).exists()
}

/// What `std::path::Path::parent` gives for `path`, as text: `None` where the path ends in a
/// root or is empty.
pub uninterp spec fn parent_of(path: Seq<char>) -> Option<Seq<char>>;

/// `std::path::Path::parent` of `path`, turned back into a string. The contract only ties the
/// result to `parent_of`; the rules by which `std` drops the last component are left unsaid.
#[verifier::external_body]
pub(crate) fn path_parent(path: &str) -> (r: Option<String>)
    ensures
        r matches Some(p) ==> parent_of(path@) == Some(p@),
        r is None ==> parent_of(path@) is None,
{
    std::path::Path::new(path).parent().map(|d| d.to_string_lossy().into_owned())
}

} // verus!
