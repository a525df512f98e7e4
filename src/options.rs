use vstd::prelude::*;

verus! {

/// The options that a caller may set for one search; the producer takes its other
/// settings from its own defaults.
#[derive(Clone, Copy, Debug, PartialEq, Eq, Structural)]
pub struct SearchOptions {
    content_case_sensitive: bool,
}

impl SearchOptions {
    /// Whether file contents are matched with case taken into account.
    pub closed spec fn case_sensitive(&self) -> bool {
        self.content_case_sensitive
    }

    pub fn new(content_case_sensitive: bool) -> (r: SearchOptions)
        ensures
            r.case_sensitive() == content_case_sensitive,
    {
        SearchOptions { content_case_sensitive }
    }

    pub fn content_case_sensitive(&self) -> (r: bool)
        ensures
            r == self.case_sensitive(),
    {
        self.content_case_sensitive
    }
}

impl Default for SearchOptions {
    /// Content matching ignores case unless asked otherwise.
    fn default() -> (r: SearchOptions)
        ensures
            !r.case_sensitive(),
    {
        SearchOptions { content_case_sensitive: false }
    }
}

/// A search to run on the executor: the query and the options it was made with.
pub struct SearchTask<Q> {
    pub query: Q,
    pub options: SearchOptions,
}

impl<Q> SearchTask<Q> {
    pub fn new(query: Q, options: SearchOptions) -> (r: SearchTask<Q>)
        ensures
            r.query == query,
            r.options == options,
    {
        SearchTask { query, options }
    }

    /// Searches are scheduled ahead of ordinary tasks.
    pub fn with_priority(&self) -> (r: bool)
        ensures
            r,
    {
        true
    }
}

} // verus!
