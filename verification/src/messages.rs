//! The values that cross the engine's boundary: requests as they come in,
//! and the answers that go out.

use crate::board::Coordinate;
use vstd::prelude::*;

verus! {

/// A player's request to fire at the cell `(x, y)`.
#[derive(Debug)]
pub struct ShotRequest {
    pub player_id: String,
    pub x: u32,
    pub y: u32,
}

/// What a shot did: the answer to the shooter, and the event that the player
/// shot at receives.
#[derive(Clone, Copy, Debug, PartialEq, Eq, Structural)]
pub struct ShotResponse {
    /// The cell that was fired at.
    pub shot: Coordinate,
    /// Whether a ship lies on it.
    pub hit: bool,
    /// Whether every cell of that ship has now been hit.
    pub sunk: bool,
    /// Length of that ship; 0 for a miss.
    pub length: usize,
    /// Whether every cell of every ship of the defender has now been hit.
    pub fleet_destroyed: bool,
}

/// A player's request to place a fleet.
#[derive(Debug)]
pub struct PositionRequest {
    pub player_id: String,
    pub position: Vec<Vec<Coordinate>>,
}

/// The answer to a player who opened or joined a session: the session's
/// identifier and the player's own.
#[derive(Debug)]
pub struct NewGameResponse {
    pub game_id: String,
    pub player_id: String,
}

impl ShotRequest {
    /// The cell that the request fires at.
    pub open spec fn target_cell(&self) -> Coordinate {
        Coordinate { x: self.x, y: self.y }
    }

    /// The cell that the request fires at.
    #[verifier::when_used_as_spec(target_cell)]
    pub fn target(&self) -> (cell: Coordinate)
        ensures
            cell == self.target_cell(),
    {
        Coordinate { x: self.x, y: self.y }
    }
}

} // verus!
