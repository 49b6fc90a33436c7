//! Who issues a command, and when.

use vstd::prelude::*;

verus! {

/// A stable 256-bit player identity, held as two 128-bit halves.
#[derive(Clone, Copy, Debug, PartialEq, Eq, Structural)]
pub struct Identity {
    pub hi: u128,
    pub lo: u128,
}

/// The caller of a command and the host's clock (milliseconds) at the call.
#[derive(Clone, Copy, Debug, PartialEq, Eq, Structural)]
pub struct Context {
    pub sender: Identity,
    pub timestamp: u64,
}

} // verus!
