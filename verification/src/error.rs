//! The closed error taxonomy of the generator.

use vstd::prelude::*;

verus! {

/// Every failure the generator can report.
#[derive(Clone, Copy, Debug, PartialEq, Eq, Structural)]
pub enum GenError {
    /// A walker step was attempted after completion.
    WalkerFinished,
    /// An area operation or a shift would escape the grid.
    OutOfBounds,
    /// A room cannot fit at the given position.
    RoomOutOfBounds,
    /// A step was attempted without an active waypoint.
    NoGoal,
    /// A sample was drawn from an empty or zero-weight distribution.
    EmptyDistribution,
}

impl GenError {
    /// The textual tag of this error.
    pub fn tag(&self) -> (r: &'static str)
        ensures
            r@ == self.tag_spec(),
    {
        match self {
            GenError::WalkerFinished => "WalkerFinished",
            GenError::OutOfBounds => "OutOfBounds",
            GenError::RoomOutOfBounds => "RoomOutOfBounds",
            GenError::NoGoal => "NoGoal",
            GenError::EmptyDistribution => "EmptyDistribution",
        }
    }

    /// The tag each error variant carries.
    pub open spec fn tag_spec(self) -> Seq<char> {
        match self {
            GenError::WalkerFinished => "WalkerFinished"@,
            GenError::OutOfBounds => "OutOfBounds"@,
            GenError::RoomOutOfBounds => "RoomOutOfBounds"@,
            GenError::NoGoal => "NoGoal"@,
            GenError::EmptyDistribution => "EmptyDistribution"@,
        }
    }
}

} // verus!
