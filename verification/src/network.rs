//! The vocabulary of a session.

use vstd::prelude::*;

use crate::display::DisplayData;
use crate::game::{GameResult, PlayerStatus};
use crate::player::PlayerAction;

verus! {

/// The messages a session exchanges with its participants, one per event.
#[derive(Debug, Clone)]
pub enum NetBlob {
    /// A participant asks for a seat.
    Join,
    /// The session gives the participant a seat.
    Assign(u8),
    /// One player's intent for the current tick.
    Action(PlayerAction),
    /// A seated participant gives the seat up.
    Leave,
    /// The drawable cells of the whole timeline.
    Display(DisplayData),
    /// The match has ended.
    Result(GameResult),
    /// The vitals of both players.
    Stati([PlayerStatus; 2]),
    /// A new tick begins.
    Start,
}

} // verus!
