//! Turn resolution for a two-player tactics game played on a small grid that
//! exists once per slice of a short timeline.
//!
//! Every tick both players submit a direction in space, a direction in time
//! and an action kind. The engine validates the pair against the board,
//! appends accepted actions to a per-player log and rebuilds hazards, vitals
//! and the outcome from that log.

pub mod board;
pub mod display;
pub mod game;
pub mod laws;
pub mod network;
pub mod player;
pub mod replay;
pub mod session;
pub mod space;

pub use board::{Board, BoardState, Error, Impact, Stamp, TileState, TileView, LENGTH, SIZE};
pub use display::{CellView, DisplayData, TileDisplayData};
pub use game::{GameResult, GameStatus, PlayerStatus, TurnStatus};
pub use network::NetBlob;
pub use player::{ActionType, PlayerAction};
pub use session::{Info, Input, Reaction, Server};
pub use space::{Direction, SpatialDirection, TemporalDirection};
