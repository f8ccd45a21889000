//! The error taxonomy of the engine.
//!
//! Every failed instruction maps to one of these and a `reject` finishing
//! status; none of them is fatal to the adapter loop.

use vstd::prelude::*;

verus! {

#[derive(Clone, Copy, PartialEq, Eq, Structural, Debug)]
pub enum GameError {
    /// A malformed instruction: bad hex, bad JSON, bad request type.
    DecodeError,
    /// A missing or invalid action field.
    ValidationError,
    /// An unknown player, lobby, or round id.
    NotFoundError,
    /// A full lobby, or too few players to start a round.
    CapacityError,
    /// An action a hand or round cannot take in its current state.
    StateError,
    /// The external store failed; nothing was committed.
    PersistenceError,
    /// A recognized action with no implemented effect.
    NotImplemented,
}

} // verus!
