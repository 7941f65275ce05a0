//! Authoritative engine for a two-player naval combat game on a 10x10 board.
//!
//! The crate holds the rules of the game: which fleet layouts are legal, what
//! a shot does to a session, whose turn it is, and which sessions exist. Every
//! function carries a contract over a mathematical model of the game, and the
//! contracts are proved.

pub mod board;
pub mod combat;
pub mod error;
pub mod events;
pub mod fleet_laws;
pub mod game;
pub mod game_laws;
pub mod messages;
pub mod placement;
pub mod registry;
pub mod token;

pub use board::Coordinate;
pub use error::EngineError;
pub use game::{Game, PlayerInfo};
pub use messages::{NewGameResponse, PositionRequest, ShotRequest, ShotResponse};
pub use registry::Registry;
