use vstd::prelude::*;

use std::path::PathBuf;

verus! {

/// `std::path::PathBuf`, carried through as an opaque value.
#[verifier::external_type_specification]
#[verifier::external_body]
pub struct ExPathBuf(std::path::PathBuf);

/// What the display form of a path reads.
pub uninterp spec fn path_display(p: PathBuf) -> Seq<char>;

/// Calls `Path::display` and `ToString::to_string` on the path; the contract
/// names the resulting text `path_display(p)`.
#[verifier::external_body]
pub(crate) fn display_path(p: &PathBuf) -> (s: String)
    ensures
        s@ == path_display(*p),
{
    p.display().to_string()
}

/// Calls `PathBuf::from` on a string slice. The contract claims that the
/// path displays as that same text, which holds because the text is valid
/// UTF-8 and `display` only replaces invalid sequences.
#[verifier::external_body]
pub(crate) fn path_from(s: &str) -> (p: PathBuf)
    ensures
        path_display(p) == s@,
{
    PathBuf::from(s)
}

/// Calls `Clone::clone` on a path; the contract claims that the copy
/// displays as the path it was made from.
#[verifier::external_body]
pub(crate) fn copy_path(p: &PathBuf) -> (r: PathBuf)
    ensures
        path_display(r) == path_display(*p),
{
    p.clone()
}

} // verus!
