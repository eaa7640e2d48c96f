//! What the colony remembers between ticks.

use vstd::prelude::*;

verus! {

/// The state that is kept between ticks.
#[derive(Debug)]
pub struct Memory {
    pub test: String,
}

impl Memory {
    /// The text that a fresh memory holds.
    pub open spec fn greeting() -> Seq<char> {
        "Hello, memory!"@
    }
}

impl Default for Memory {
    fn default() -> (memory: Self)
        ensures
            memory.test@ == Memory::greeting(),
    {
        Memory { test: "Hello, memory!".to_owned() }
    }
}

} // verus!
