//! Settings that parameterise a search.

use vstd::prelude::*;

verus! {

/// The options a search is built from, as read from persisted settings.
#[derive(Debug)]
pub struct Config {
    /// Whether the number of concurrently running directory visits is bounded.
    pub enable_semaphore: bool,
    /// The bound on concurrently running directory visits, when enabled.
    pub max_concurrent_threads: usize,
    /// The deepest directory level that is listed; the start directory is level 1.
    pub max_depth: usize,
    /// Whether the pattern text is a regular expression rather than a literal.
    pub use_regex: bool,
}

impl Default for Config {
    /// Four concurrent visits, four levels deep, no gating, literal matching.
    fn default() -> (config: Config)
        ensures
            config.enable_semaphore == false,
            config.max_concurrent_threads == 4,
            config.max_depth == 4,
            config.use_regex == false,
    {
        Config { enable_semaphore: false, max_concurrent_threads: 4, max_depth: 4, use_regex: false }
    }
}

} // verus!
