//! File-system paths, held as text. What the platform's path rules make of them is
//! computed by `std::path` and named here.

use vstd::prelude::*;

verus! {

/// The path `base` with `rel` adjoined, as `Path::join` forms it.
pub uninterp spec fn joined(base: Seq<char>, rel: Seq<char>) -> Seq<char>;

/// Whether `Path::is_absolute` holds of the path `p`.
pub uninterp spec fn absolute(p: Seq<char>) -> bool;

/// How many items `Path::components` yields for the path `p`.
pub uninterp spec fn component_count(p: Seq<char>) -> nat;

/// The final component of the path `p`, as `Path::file_name` gives it.
pub uninterp spec fn file_name_of(p: Seq<char>) -> Option<Seq<char>>;

/// The extension of the path `p`, as `Path::extension` gives it.
pub uninterp spec fn extension_of(p: Seq<char>) -> Option<Seq<char>>;

/// The file name of `p` without its extension, as `Path::file_stem` gives it.
pub uninterp spec fn file_stem_of(p: Seq<char>) -> Option<Seq<char>>;

/// `Path::join`: the result is what `joined` names (the platform's rule for a `rel`
/// that is itself absolute, and for separators, is not stated).
#[verifier::external_body]
pub(crate) fn join(base: &str, rel: &str) -> (r: String)
    ensures
        r@ == joined(base@, rel@),
{
    std::path::Path::new(base).join(rel).to_string_lossy().into_owned()
}

/// `Path::is_absolute`.
#[verifier::external_body]
pub(crate) fn is_absolute(p: &str) -> (r: bool)
    ensures
        r == absolute(p@),
{
    std::path::Path::new(p).is_absolute()
}

/// `Path::components().count()`.
#[verifier::external_body]
pub(crate) fn components(p: &str) -> (r: usize)
    ensures
        r as nat == component_count(p@),
{
    std::path::Path::new(p).components().count()
}

/// `Path::file_name`; a name that is not valid Unicode cannot arise from a `&str`.
#[verifier::external_body]
pub(crate) fn file_name(p: &str) -> (r: Option<String>)
    ensures
        match r {
            Some(n) => file_name_of(p@) == Some(n@),
            None => file_name_of(p@) is None,
        },
{
    std::path::Path::new(p).file_name().map(|n| n.to_string_lossy().into_owned())
}

/// `Path::extension`.
#[verifier::external_body]
pub(crate) fn extension(p: &str) -> (r: Option<String>)
    ensures
        match r {
            Some(n) => extension_of(p@) == Some(n@),
            None => extension_of(p@) is None,
        },
{
    std::path::Path::new(p).extension().map(|n| n.to_string_lossy().into_owned())
}

/// `Path::file_stem`.
#[verifier::external_body]
pub(crate) fn file_stem(p: &str) -> (r: Option<String>)
    ensures
        match r {
            Some(n) => file_stem_of(p@) == Some(n@),
            None => file_stem_of(p@) is None,
        },
{
    std::path::Path::new(p).file_stem().map(|n| n.to_string_lossy().into_owned())
}

} // verus!
