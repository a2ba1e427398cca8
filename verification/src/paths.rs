//! File-system path pieces, taken by `std::path::Path`.

use vstd::prelude::*;

use crate::text::{ascii_lower, ascii_lowercase, chars_of, lowercase_chars};

verus! {

/// The extension of the final component of `path` (without the dot), as
/// `Path::extension` finds it; `None` when there is none.
pub uninterp spec fn path_extension_of(path: Seq<char>) -> Option<Seq<char>>;

/// The final component of `path`, as `Path::file_name` finds it; `None`
/// when the path ends in `..` or has no component.
pub uninterp spec fn path_file_name_of(path: Seq<char>) -> Option<Seq<char>>;

/// `Path::extension` on `path`: its result is a function of the path alone,
/// named `path_extension_of` (the component rules are not restated here).
#[verifier::external_body]
fn path_extension(path: &str) -> (r: Option<String>)
    ensures
        match r {
            Some(e) => path_extension_of(path@) == Some(e@),
            None => path_extension_of(path@) is None,
        },
{
    match std::path::Path::new(path).extension() {
        Some(e) => Some(e.to_string_lossy().into_owned()),
        None => None,
    }
}

/// `Path::file_name` on `path`: its result is a function of the path alone,
/// named `path_file_name_of`.
#[verifier::external_body]
fn path_file_name(path: &str) -> (r: Option<String>)
    ensures
        match r {
            Some(n) => path_file_name_of(path@) == Some(n@),
            None => path_file_name_of(path@) is None,
        },
{
    match std::path::Path::new(path).file_name() {
        Some(n) => Some(n.to_string_lossy().into_owned()),
        None => None,
    }
}

/// The lower-cased extension of `path`, empty when it has none.
pub open spec fn lower_extension(path: Seq<char>) -> Seq<char> {
    match path_extension_of(path) {
        Some(e) => ascii_lowercase(e),
        None => Seq::empty(),
    }
}

/// The extension of `path`, ASCII letters lower-cased, empty when the path
/// has none.
pub fn lowercase_extension(path: &str) -> (r: Vec<char>)
    ensures
        r@ == lower_extension(path@),
{
    match path_extension(path) {
        Some(e) => lowercase_chars(&chars_of(e.as_str())),
        None => Vec::new(),
    }
}

/// `a` and `b` differ at most in the ASCII case of their letters.
pub open spec fn same_ignoring_ascii_case(a: Seq<char>, b: Seq<char>) -> bool {
    a.len() == b.len() && forall|i: int| 0 <= i < a.len() ==> #[trigger] ascii_lower(a[i]) == ascii_lower(b[i])
}

/// The extensions of `p` and `q` differ at most in ASCII case (or neither
/// path has one).
pub open spec fn extensions_match_ignoring_case(p: Seq<char>, q: Seq<char>) -> bool {
    match (path_extension_of(p), path_extension_of(q)) {
        (Some(a), Some(b)) => same_ignoring_ascii_case(a, b),
        (None, None) => true,
        _ => false,
    }
}

/// Paths whose extensions differ only in ASCII case have the same
/// lower-cased extension, so every MIME table maps them alike.
pub proof fn lemma_lower_extension_ignores_case(p: Seq<char>, q: Seq<char>)
    requires
        extensions_match_ignoring_case(p, q),
    ensures
        lower_extension(p) == lower_extension(q),
{
    match (path_extension_of(p), path_extension_of(q)) {
        (Some(a), Some(b)) => {
            assert(ascii_lowercase(a) =~= ascii_lowercase(b));
        },
        _ => {},
    }
}

/// The final component of `path`, or `fallback` when it has none.
pub open spec fn file_name_or(path: Seq<char>, fallback: Seq<char>) -> Seq<char> {
    match path_file_name_of(path) {
        Some(n) => n,
        None => fallback,
    }
}

/// The final component of `path`, or `fallback` when it has none.
pub fn file_name_or_else(path: &str, fallback: &str) -> (r: String)
    ensures
        r@ == file_name_or(path@, fallback@),
{
    match path_file_name(path) {
        Some(n) => n,
        None => fallback.to_owned(),
    }
}

} // verus!
