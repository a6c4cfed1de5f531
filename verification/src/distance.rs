//! The spatial/ownership relation between two game objects, as an ordered
//! classification. The order is used for maximum-distance filtering when a
//! noun is resolved to an object, not as a magnitude.

use vstd::prelude::*;

verus! {

/// How one object stands to another, from nearest to farthest:
/// the object itself, something it holds, the place it is in, something in
/// the same place, something reachable through a passage, something out of
/// reach, and an unresolvable reference.
#[derive(Clone, Copy, Debug, PartialEq, Eq, Structural)]
pub enum Distance {
    Player,
    Held,
    Location,
    Here,
    OverThere,
    NotHere,
    Unknown,
}

impl Distance {
    /// Position of this variant in the order `Player < Held < Location <
    /// Here < OverThere < NotHere < Unknown`.
    pub open spec fn rank(self) -> int {
        match self {
            Distance::Player => 0,
            Distance::Held => 1,
            Distance::Location => 2,
            Distance::Here => 3,
            Distance::OverThere => 4,
            Distance::NotHere => 5,
            Distance::Unknown => 6,
        }
    }

    /// Executable comparison under the variant order.
    pub fn le(self, other: Distance) -> (r: bool)
        ensures
            r == (self.rank() <= other.rank()),
    {
        self.rank_exec() <= other.rank_exec()
    }

    fn rank_exec(self) -> (r: u8)
        ensures
            r as int == self.rank(),
    {
        match self {
            Distance::Player => 0,
            Distance::Held => 1,
            Distance::Location => 2,
            Distance::Here => 3,
            Distance::OverThere => 4,
            Distance::NotHere => 5,
            Distance::Unknown => 6,
        }
    }
}

} // verus!
