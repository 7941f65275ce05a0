//! The ways in which the engine turns a request down.

use vstd::prelude::*;

verus! {

/// Why a request was rejected. A rejection never changes any session.
#[derive(Clone, Copy, Debug, PartialEq, Eq, Structural)]
pub enum EngineError {
    /// No session has the given identifier.
    SessionNotFound,
    /// The given identity is that of neither player of the session.
    PlayerNotFound,
    /// The shooter is not the player whose turn it is.
    TurnViolation,
    /// The proposed fleet breaks a placement rule.
    ValidationFailed,
    /// The session already has its second player.
    SessionFull,
    /// No fresh identifier could be drawn: the operating system's random
    /// source failed, or it repeated an identifier that is in use.
    IdentifierUnavailable,
}

} // verus!
