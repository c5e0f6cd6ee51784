//! Outside types that a document carries without looking inside: its file
//! location and the error report type of its fallible constructors.

use color_eyre::eyre::Report;
use std::path::{Path, PathBuf};
use vstd::prelude::*;

verus! {

#[verifier::external_type_specification]
#[verifier::external_body]
pub struct ExPathBuf(PathBuf);

#[verifier::external_type_specification]
#[verifier::external_body]
pub struct ExPath(Path);

#[verifier::external_type_specification]
#[verifier::external_body]
pub struct ExReport(Report);

/// The bytes of a borrowed path.
pub uninterp spec fn path_bytes(p: &Path) -> Seq<u8>;

/// The bytes of an owned path.
pub uninterp spec fn path_buf_bytes(p: PathBuf) -> Seq<u8>;

/// Relies on `PathBuf::new`: an empty path.
#[verifier::external_body]
pub(crate) fn empty_path() -> (r: PathBuf)
    ensures
        path_buf_bytes(r) == Seq::<u8>::empty(),
{
    PathBuf::new()
}

/// Relies on `Path::to_path_buf`: an owned copy of a path.
#[verifier::external_body]
pub(crate) fn owned_path(p: &Path) -> (r: PathBuf)
    ensures
        path_buf_bytes(r) == path_bytes(p),
{
    p.to_path_buf()
}

/// Relies on `PathBuf::as_path`: the path borrowed as a `Path`.
#[verifier::external_body]
pub(crate) fn borrowed_path(p: &PathBuf) -> (r: &Path)
    ensures
        path_bytes(r) == path_buf_bytes(*p),
{
    p.as_path()
}

/// Relies on `PathBuf::clone`: a copy of the path.
#[verifier::external_body]
pub(crate) fn copied_path(p: &PathBuf) -> (r: PathBuf)
    ensures
        path_buf_bytes(r) == path_buf_bytes(*p),
{
    p.clone()
}

} // verus!
