//! Error taxonomy of the engine.

use vstd::prelude::*;

verus! {

/// Errors surfaced by the engine.
///
/// `ParseError` reports a malformed card token and is always recoverable.
/// `InsufficientCards` reports a draw or classification requested on a pool
/// or card set that is too small. `InvariantViolation` marks a state that
/// correct bookkeeping can never reach (a card pool union that is not the
/// full deck); it represents a programming defect.
#[derive(Clone, Copy, Debug, PartialEq, Eq, Structural)]
pub enum EngineError {
    ParseError,
    InsufficientCards,
    InvariantViolation,
}

} // verus!
