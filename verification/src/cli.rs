//! What the command line supplies.

use vstd::prelude::*;

verus! {

/// The arguments of one invocation.
#[derive(Debug)]
pub struct Cli {
    /// The file name pattern to search for.
    pub file_name_pattern: String,
    /// The directory the search starts in; the current directory when absent.
    pub start_directory: Option<String>,
}

impl Cli {
    /// The directory the search starts in: the one given, or else the
    /// current directory, written `.`.
    pub fn start_directory_or_default(&self) -> (dir: String)
        ensures
            dir@ == match self.start_directory {
                Some(given) => given@,
                None => "."@,
            },
    {
        match &self.start_directory {
            Some(given) => given.clone(),
            None => ".".to_owned(),
        }
    }
}

} // verus!
