//! Data of a fault dispute game: claims, their rows in the game's claim
//! array, and the responses of the player.

use vstd::prelude::*;

verus! {

/// A 32-byte commitment at a position of the game tree.
pub type Claim = [u8; 32];

/// A 20-byte account identifier on the settlement chain.
pub type Address = [u8; 20];

/// The chess clock of a claim.
#[derive(Clone, Copy, Debug, PartialEq, Eq)]
pub struct Clock {
    /// The duration remaining on the chess clock.
    pub duration: u64,
    /// The timestamp at which the clock was last updated.
    pub timestamp: u64,
}

/// One row of a game's claim array.
#[derive(Clone, Copy, Debug, PartialEq, Eq)]
pub struct ClaimData {
    /// The index of the parent claim in the same array; the root's holds the
    /// marker `u32::MAX`.
    pub parent_index: usize,
    /// Whether the claim has ever been countered.
    pub countered: bool,
    /// The committed hash.
    pub claim: Claim,
    /// The position of the claim within the game tree.
    pub position: u128,
    /// The clock of the claim.
    pub clock: Clock,
}

/// The parent index that the root claim carries.
pub open spec fn is_root_marker(parent_index: usize) -> bool {
    parent_index as nat % 0x1_0000_0000 == 0xFFFF_FFFF
}

/// Whether a parent index is the root's marker: its low 32 bits are all set.
pub fn has_no_parent(parent_index: usize) -> (r: bool)
    ensures
        r == is_root_marker(parent_index),
{
    (parent_index as u64) % 0x1_0000_0000 == 0xFFFF_FFFF
}

/// Why the player could not work out a response.
#[derive(Clone, Copy, Debug, PartialEq, Eq)]
pub enum GameError {
    /// A claim index lies outside the claim array.
    InvalidClaimIndex,
    /// The trace is shorter than the position requires.
    InvalidTraceIndex,
    /// The position is `0` or deeper than the game tree.
    InvalidPosition,
}

/// The action taken in response to a claim.
#[derive(Clone, Debug, PartialEq, Eq)]
pub enum Response {
    /// Do nothing.
    DoNothing,
    /// Counter the parent claim (`is_attack`, counter claim), and optionally
    /// the grandparent as well (its index, counter claim).
    Move(bool, Claim, Option<(usize, Claim)>),
    /// A VM step against the parent claim: state index, parent index,
    /// `is_attack`, state data and proof.
    Step(usize, usize, bool, Vec<u8>, Vec<u8>),
}

/// The mathematical value of a [`Response`].
pub ghost enum ResponseView {
    DoNothing,
    Move(bool, Seq<u8>, Option<(usize, Seq<u8>)>),
    Step(usize, usize, bool, Seq<u8>, Seq<u8>),
}

impl View for Response {
    type V = ResponseView;

    open spec fn view(&self) -> ResponseView {
        match self {
            Response::DoNothing => ResponseView::DoNothing,
            Response::Move(is_attack, claim, secondary) => ResponseView::Move(
                *is_attack,
                claim@,
                secondary_view(*secondary),
            ),
            Response::Step(state_index, parent_index, is_attack, state_data, proof) =>
                ResponseView::Step(*state_index, *parent_index, *is_attack, state_data@, proof@),
        }
    }
}

/// The view of the counter against a grandparent.
pub open spec fn secondary_view(secondary: Option<(usize, Claim)>) -> Option<(usize, Seq<u8>)> {
    match secondary {
        Some(s) => Some((s.0, s.1@)),
        None => None,
    }
}

/// The view of a response, or the error.
pub open spec fn response_result_view(r: Result<Response, GameError>) -> Result<ResponseView, GameError> {
    match r {
        Ok(response) => Ok(response@),
        Err(e) => Err(e),
    }
}

} // verus!
