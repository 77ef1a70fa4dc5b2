//! File system paths, held as strings, and the few `std::path` operations
//! the library uses on them.
use vstd::prelude::*;

verus! {

/// What `Path::join` gives for two paths.
pub uninterp spec fn spec_path_join(base: Seq<char>, part: Seq<char>) -> Seq<char>;

/// What `Path::parent` gives for a path.
pub uninterp spec fn spec_path_parent(p: Seq<char>) -> Option<Seq<char>>;

/// What `Path::extension` gives for a path.
pub uninterp spec fn spec_path_extension(p: Seq<char>) -> Option<Seq<char>>;

/// What `Path::file_stem` gives for a path.
pub uninterp spec fn spec_path_file_stem(p: Seq<char>) -> Option<Seq<char>>;

/// `Path::new(base).join(part)`, as a string. Trusted: the result is named
/// by `spec_path_join`; how the separator is placed is left to the
/// platform and not stated.
#[verifier::external_body]
pub(crate) fn path_join(base: &str, part: &str) -> (r: String)
    ensures
        r@ == spec_path_join(base@, part@),
{
    std::path::Path::new(base).join(part).to_string_lossy().into_owned()
}

/// `Path::new(p).parent()`, as a string. Trusted: the result is named by
/// `spec_path_parent`; a parent is the path without its final component,
/// a part of the path's own text, so it is shorter than the path.
#[verifier::external_body]
pub(crate) fn path_parent(p: &str) -> (r: Option<String>)
    ensures
        r matches Some(q) ==> q@ == spec_path_parent(p@)->0 && q@.len() < p@.len(),
        r is None <==> spec_path_parent(p@) is None,
{
    std::path::Path::new(p).parent().map(|q| q.to_string_lossy().into_owned())
}

/// `Path::new(p).extension()`, as a string where it is valid UTF-8.
/// Trusted: the result is named by `spec_path_extension`.
#[verifier::external_body]
pub(crate) fn path_extension(p: &str) -> (r: Option<String>)
    ensures
        match r {
            Some(e) => spec_path_extension(p@) == Some(e@),
            None => spec_path_extension(p@) is None,
        },
{
    std::path::Path::new(p).extension().and_then(|e| e.to_str()).map(|e| e.to_owned())
}

/// `Path::new(p).file_stem()`, as a string where it is valid UTF-8.
/// Trusted: the result is named by `spec_path_file_stem`.
#[verifier::external_body]
pub(crate) fn path_file_stem(p: &str) -> (r: Option<String>)
    ensures
        match r {
            Some(e) => spec_path_file_stem(p@) == Some(e@),
            None => spec_path_file_stem(p@) is None,
        },
{
    std::path::Path::new(p).file_stem().and_then(|e| e.to_str()).map(|e| e.to_owned())
}

} // verus!
