//! What the library asks of the file system.
//!
//! Each function here makes one call into the standard library. What it
//! returns depends on what is on disk at the moment of the call, so none
//! promises anything of its result: the rules that use the answers are
//! stated, and proved, for every answer.

use vstd::prelude::*;

verus! {

/// `Path::metadata`: whether the entry at `path` is a directory, or `None`
/// where its metadata cannot be read (the entry is missing, a link is
/// broken, access is denied). Links are followed.
#[verifier::external_body]
pub(crate) fn is_directory(path: &str) -> (kind: Option<bool>) {
    std::path::Path::new(path).metadata().ok().map(|m| m.is_dir())
}

/// `Path::canonicalize`: the absolute form of `path` with every link
/// resolved, or `None` where the entry cannot be reached.
#[verifier::external_body]
pub(crate) fn canonical(path: &str) -> (full: Option<String>) {
    std::path::Path::new(path).canonicalize().ok().map(|p| format!("{}", p.display()))
}

/// Whether `path` leads to an entry whose metadata can be read.
pub(crate) fn is_on_disk(path: &str) -> (found: bool) {
    is_directory(path).is_some()
}

} // verus!
