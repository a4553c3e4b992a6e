//! Directions in space and time.

use vstd::prelude::*;

verus! {

/// A step along both axes at once: one cell in space and one slice in time.
#[derive(Debug, Copy, Clone, PartialEq, Eq, Structural)]
pub struct Direction {
    pub spatial: SpatialDirection,
    pub temporal: TemporalDirection,
}

/// One cell along the grid. `Up` decreases `y`, `Left` decreases `x`.
#[derive(Debug, Copy, Clone, PartialEq, Eq, Structural)]
pub enum SpatialDirection {
    Left,
    Right,
    Up,
    Down,
}

/// One slice along the timeline.
#[derive(Debug, Copy, Clone, PartialEq, Eq, Structural)]
pub enum TemporalDirection {
    Forward,
    Backward,
}

impl SpatialDirection {
    /// Change of the `x` coordinate caused by one step.
    pub open spec fn dx(self) -> int {
        match self {
            SpatialDirection::Left => -1,
            SpatialDirection::Right => 1,
            SpatialDirection::Up => 0,
            SpatialDirection::Down => 0,
        }
    }

    /// Change of the `y` coordinate caused by one step.
    pub open spec fn dy(self) -> int {
        match self {
            SpatialDirection::Left => 0,
            SpatialDirection::Right => 0,
            SpatialDirection::Up => -1,
            SpatialDirection::Down => 1,
        }
    }
}

impl TemporalDirection {
    /// Change of the slice index caused by one step.
    pub open spec fn dt(self) -> int {
        match self {
            TemporalDirection::Forward => 1,
            TemporalDirection::Backward => -1,
        }
    }
}

} // verus!
