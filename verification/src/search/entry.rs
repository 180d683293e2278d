//! Directory entries and units of work, as plain values.

use std::path::PathBuf;
use vstd::prelude::*;

verus! {

/// `std::path::PathBuf`. A path is carried and compared, never taken
/// apart.
#[verifier::external_type_specification]
#[verifier::external_body]
pub struct ExPathBuf(PathBuf);

/// `Clone::clone` of `std::path::PathBuf`. Trusted: the copy is the same
/// path.
pub assume_specification[ <PathBuf as Clone>::clone ](path: &PathBuf) -> (copy: PathBuf)
    ensures
        copy == *path,
;

/// One entry of a directory listing.
#[derive(Debug, Clone)]
pub struct Entry {
    /// The entry's full path: the directory's path joined with the name.
    pub path: PathBuf,
    /// The entry's name, when it is valid Unicode.
    pub file_name: Option<String>,
    /// Whether the entry is a directory.
    pub is_dir: bool,
}

/// One unit of work: a directory to list, and its nesting level below the
/// start directory, which is level 1.
#[derive(Debug, Clone)]
pub struct Unit {
    /// The directory to list.
    pub dir: PathBuf,
    /// The directory's nesting level.
    pub depth: usize,
}

} // verus!
