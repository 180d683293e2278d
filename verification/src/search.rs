//! Searching a directory tree for entries whose names match a pattern.

pub mod entry;
pub mod error;
pub mod gate;
pub mod laws;
pub mod levels;
pub mod model;
pub mod pattern;
pub mod traversal;
pub mod visit;

use crate::search::error::SearchError;
use crate::search::gate::Gate;
use crate::search::model::TraversalModel;
use crate::search::pattern::{contains_text, is_plain_text, pattern_of, regex_new, SearchPattern};
use crate::search::traversal::Traversal;
use std::path::PathBuf;
use vstd::prelude::*;

verus! {

/// The settings of a search: how many directories may be listed at once,
/// how deep the search goes, and how the pattern text is read.
#[derive(Debug)]
pub struct Search {
    max_concurrent_threads: usize,
    max_depth: usize,
    use_semaphore: bool,
    use_regex: bool,
}

impl Search {
    /// The bound on the number of directories being listed at once.
    pub closed spec fn max_concurrent_threads(&self) -> usize {
        self.max_concurrent_threads
    }

    /// The deepest level that is listed; the start directory is level 1.
    pub closed spec fn max_depth(&self) -> usize {
        self.max_depth
    }

    /// Whether the bound on concurrent listings is enforced.
    pub closed spec fn use_semaphore(&self) -> bool {
        self.use_semaphore
    }

    /// Whether the pattern text is a regular expression.
    pub closed spec fn use_regex(&self) -> bool {
        self.use_regex
    }

    /// The settings are usable: both numbers are positive.
    pub open spec fn wf(&self) -> bool {
        self.max_concurrent_threads() >= 1 && self.max_depth() >= 1
    }

    /// A search with the given settings.
    pub fn new(
        max_concurrent_threads: usize,
        max_depth: usize,
        use_semaphore: bool,
        use_regex: bool,
    ) -> (search: Search)
        requires
            max_concurrent_threads >= 1,
            max_depth >= 1,
        ensures
            search.wf(),
            search.max_concurrent_threads() == max_concurrent_threads,
            search.max_depth() == max_depth,
            search.use_semaphore() == use_semaphore,
            search.use_regex() == use_regex,
    {
        Search { max_concurrent_threads, max_depth, use_semaphore, use_regex }
    }

    /// Begins a search for `search_pattern` at `dir`. `is_directory` says
    /// whether `dir` was found to be an existing directory.
    ///
    /// The pattern is built first: where it is to be a regular expression
    /// and does not compile, the search fails with that, whatever `dir` is.
    /// Otherwise it fails when `dir` is no directory. Either way nothing has
    /// been listed. Otherwise the traversal that comes back has `dir`
    /// waiting as its only unit, at level 1. A plain text finds the same
    /// whether it is read as a literal or as a regular expression.
    pub fn search_files_in_directory(
        &self,
        dir: PathBuf,
        is_directory: bool,
        search_pattern: String,
    ) -> (begun: Result<Traversal, SearchError>)
        requires
            self.wf(),
        ensures
            begun is Ok <==> is_directory && (self.use_regex() ==> regex_new(search_pattern@) is Some),
            self.use_regex() && regex_new(search_pattern@) is None ==> (begun matches Err(error)
                && error is RegexError),
            !is_directory && (self.use_regex() ==> regex_new(search_pattern@) is Some) ==> begun
                == Err::<Traversal, SearchError>(SearchError::NotADirectory(dir)),
            begun matches Ok(traversal) ==> {
                &&& traversal.wf()
                &&& traversal@ == TraversalModel::start(
                    pattern_of(self.use_regex(), search_pattern@),
                    self.max_depth(),
                    self.use_semaphore(),
                    self.max_concurrent_threads() as nat,
                    dir,
                )
                &&& traversal@.running() == 0
                &&& is_plain_text(search_pattern@) ==> forall|name: Seq<char>|
                    #[trigger] traversal@.pattern.matches(name) == contains_text(
                        name,
                        search_pattern@,
                    )
            },
    {
        let pattern = match SearchPattern::new(self.use_regex, search_pattern) {
            Ok(pattern) => pattern,
            Err(error) => {
                return Err(SearchError::from(error));
            },
        };
        if !is_directory {
            return Err(SearchError::NotADirectory(dir));
        }
        let gate = Gate::new(self.max_concurrent_threads, self.use_semaphore);
        Ok(Traversal::start(pattern, self.max_depth, gate, dir))
    }
}

} // verus!
