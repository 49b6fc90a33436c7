//! Why a command was turned down.

use vstd::prelude::*;

verus! {

/// The kind of record a command looked for and did not find.
#[derive(Clone, Copy, Debug, PartialEq, Eq, Structural)]
pub enum Entity {
    Player,
    Game,
    Board,
    Unit,
    Colony,
    Ant,
}

/// The ledger entry that fell short of a cost.
#[derive(Clone, Copy, Debug, PartialEq, Eq, Structural)]
pub enum Shortage {
    Food,
    Water,
    Minerals,
    Larvae,
    Jelly,
}

/// A command that fails changes nothing and reports one of these.
#[derive(Clone, Copy, Debug, PartialEq, Eq, Structural)]
pub enum CommandError {
    /// A referenced record is missing.
    NotFound(Entity),
    /// The caller does not own the record, or it is not the caller's turn.
    Unauthorized,
    /// The record is of the wrong type or in the wrong phase for the command.
    InvalidState,
    /// The colony cannot pay; the payload names the first entry that is short.
    InsufficientResources(Shortage),
    /// A distance, adjacency or board-bounds test failed.
    OutOfRange,
    /// A table has handed out its last identifier.
    Exhausted,
}

} // verus!
