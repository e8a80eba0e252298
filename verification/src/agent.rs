//! The two sides of the game.

use vstd::prelude::*;

verus! {

/// A side: X maximizes the score and O minimizes it.
#[derive(Clone, Copy, Debug, PartialEq, Eq, Structural)]
pub enum Agent {
    X,
    O,
}

impl Agent {
    /// The other side.
    pub open spec fn other(self) -> Agent {
        match self {
            Agent::X => Agent::O,
            Agent::O => Agent::X,
        }
    }

    /// The side that moves after this one.
    pub fn opponent(self) -> (next: Agent)
        ensures
            next == self.other(),
    {
        match self {
            Agent::X => Agent::O,
            Agent::O => Agent::X,
        }
    }
}

} // verus!
