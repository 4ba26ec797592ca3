//! Demand priorities.

use vstd::prelude::*;

verus! {

/// Relative urgency of a demand; larger is more urgent.
#[derive(Clone, Copy, Debug, PartialEq, Eq, PartialOrd, Ord, Hash, Structural)]
pub struct DemandPriority(pub u16);

impl DemandPriority {
    /// Work nobody is waiting for.
    #[verifier::allow_in_spec]
    pub fn background() -> DemandPriority
        returns
            DemandPriority(0),
    {
        DemandPriority(0)
    }

    /// Work just outside the viewport.
    #[verifier::allow_in_spec]
    pub fn prefetch() -> DemandPriority
        returns
            DemandPriority(64),
    {
        DemandPriority(64)
    }

    /// Work for what is on screen.
    #[verifier::allow_in_spec]
    pub fn visible() -> DemandPriority
        returns
            DemandPriority(128),
    {
        DemandPriority(128)
    }

    /// Work that a gesture waits for.
    #[verifier::allow_in_spec]
    pub fn interactive() -> DemandPriority
        returns
            DemandPriority(0xffff),
    {
        DemandPriority(0xffff)
    }

    /// Wraps a numeric priority.
    pub fn new(value: u16) -> (priority: DemandPriority)
        ensures
            priority == DemandPriority(value),
    {
        DemandPriority(value)
    }

    /// The numeric priority.
    pub fn get(self) -> (value: u16)
        ensures
            value == self.0,
    {
        self.0
    }
}

impl Default for DemandPriority {
    fn default() -> (priority: DemandPriority)
        ensures
            priority == DemandPriority::visible(),
    {
        DemandPriority::visible()
    }
}

/// What a gesture waits for is the most urgent of all; then comes what is on screen, then
/// what is just outside of it, and what nobody waits for is the least urgent.
pub proof fn law_named_priorities_are_in_order(other: DemandPriority)
    ensures
        DemandPriority::background().0 <= other.0 <= DemandPriority::interactive().0,
        DemandPriority::background().0 < DemandPriority::prefetch().0
            < DemandPriority::visible().0 < DemandPriority::interactive().0,
{
}

} // verus!
