//! What a player submits.

use vstd::prelude::*;

use crate::space::Direction;

verus! {

/// What one player submits for one tick.
#[derive(Debug, Copy, Clone, PartialEq, Eq, Structural)]
pub struct PlayerAction {
    pub direction: Direction,
    pub action_type: ActionType,
}

/// Whether the player steps into the targeted cell or strikes it.
#[derive(Debug, Copy, Clone, PartialEq, Eq, Structural)]
pub enum ActionType {
    Move,
    Attack,
}

} // verus!
