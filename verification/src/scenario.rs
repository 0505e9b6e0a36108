//! The preset-selection tag: which particle scenario is currently shown.
//! The presets themselves construct particles and are supplied by the caller;
//! the core only cycles through the fixed ring of tags.

use vstd::prelude::*;

verus! {

/// One of the four built-in particle scenarios, cycled with the arrow keys.
#[derive(Debug, Copy, Clone, PartialEq, Eq, Structural)]
pub enum Scenario {
    SimpleElliptical,
    Circle,
    Multi,
    Dual,
}

impl Scenario {
    /// The scenario after `self` in the fixed cycle.
    pub open spec fn next_spec(self) -> Scenario {
        match self {
            Scenario::SimpleElliptical => Scenario::Circle,
            Scenario::Circle => Scenario::Multi,
            Scenario::Multi => Scenario::Dual,
            Scenario::Dual => Scenario::SimpleElliptical,
        }
    }

    /// The scenario before `self` in the fixed cycle.
    pub open spec fn prev_spec(self) -> Scenario {
        match self {
            Scenario::SimpleElliptical => Scenario::Dual,
            Scenario::Circle => Scenario::SimpleElliptical,
            Scenario::Multi => Scenario::Circle,
            Scenario::Dual => Scenario::Multi,
        }
    }

    /// Step forward through the scenario ring.
    pub fn incr(&self) -> (r: Scenario)
        ensures
            r == self.next_spec(),
            r.prev_spec() == *self,
    {
        match *self {
            Scenario::SimpleElliptical => Scenario::Circle,
            Scenario::Circle => Scenario::Multi,
            Scenario::Multi => Scenario::Dual,
            Scenario::Dual => Scenario::SimpleElliptical,
        }
    }

    /// Step backward through the scenario ring.
    pub fn decr(&self) -> (r: Scenario)
        ensures
            r == self.prev_spec(),
            r.next_spec() == *self,
    {
        match *self {
            Scenario::SimpleElliptical => Scenario::Dual,
            Scenario::Circle => Scenario::SimpleElliptical,
            Scenario::Multi => Scenario::Circle,
            Scenario::Dual => Scenario::Multi,
        }
    }
}

} // verus!
