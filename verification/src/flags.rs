//! Flags that are raised once and read many times: "the listener is bound"
//! and "shutdown was asked for".

use vstd::prelude::*;

verus! {

/// A flag that starts lowered and, once raised, stays raised.
#[derive(Clone, Copy, Debug, PartialEq, Eq, Structural)]
pub struct Latch {
    raised: bool,
}

impl Latch {
    /// Whether the flag is raised.
    pub closed spec fn spec_is_raised(&self) -> bool {
        self.raised
    }

    /// A lowered flag.
    pub fn new() -> (latch: Latch)
        ensures
            !latch.spec_is_raised(),
    {
        Latch { raised: false }
    }

    /// Raises the flag. Returns whether this call raised it.
    pub fn raise(&mut self) -> (first: bool)
        ensures
            final(self).spec_is_raised(),
            first == !old(self).spec_is_raised(),
    {
        let first = !self.raised;
        self.raised = true;
        first
    }

    /// Whether the flag is raised.
    pub fn is_raised(&self) -> (raised: bool)
        ensures
            raised == self.spec_is_raised(),
    {
        self.raised
    }
}

} // verus!
