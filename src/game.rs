//! The interface of a local copy of an on-chain fault dispute game.

use crate::types::{Claim, ClaimData, GameError, Response};
use vstd::prelude::*;

verus! {

/// A local copy of an on-chain fault dispute game, with `T` the type of one
/// state of the trace.
pub trait Game<T> {
    /// Works out the response to the claim at `parent_index` of the claim
    /// array.
    fn respond(&self, parent_index: usize) -> (r: Result<Response, GameError>);

    /// Returns the claim at `index` of the claim array.
    fn claim_data(&self, index: usize) -> (r: Result<&ClaimData, GameError>);

    /// Returns our state at a position of the game tree.
    fn state_at(&self, position: u128) -> (r: Result<T, GameError>);

    /// Returns our claim at a position of the game tree.
    fn claim_at(&self, position: u128) -> (r: Result<Claim, GameError>);
}

} // verus!
