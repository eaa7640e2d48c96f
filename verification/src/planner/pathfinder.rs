//! Settings of the path search.

use vstd::prelude::*;

verus! {

/// How a path is searched for.
#[derive(Clone, Copy)]
pub struct Options {
    /// How close to the goal a path has to end.
    pub range: u32,
    /// How many nodes the search may expand.
    pub max_iters: u32,
}

impl Default for Options {
    fn default() -> (options: Self)
        ensures
            options.range == 0,
            options.max_iters == u32::MAX,
    {
        Options { range: 0, max_iters: u32::MAX }
    }
}

} // verus!
