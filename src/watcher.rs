//! The fault-game watcher's decisions: reading claim rows fetched from the
//! chain, deciding what to fetch, and turning responses into calls.

use crate::alphabet::{may_append, respond_spec, AlphabetGame};
use crate::game::Game;
use crate::types::{response_result_view, Claim, ClaimData, Clock, GameError, Response, ResponseView};
use vstd::prelude::*;

verus! {

/// Builds a claim row from the fields of the contract's `claimData(i)`: the
/// packed clock holds the duration in its high 64 bits and the timestamp in
/// its low 64 bits.
pub fn claim_data_from_raw(
    parent_index: u32,
    countered: bool,
    claim: Claim,
    position: u128,
    clock: u128,
) -> (r: ClaimData)
    ensures
        r.parent_index == parent_index as usize,
        r.countered == countered,
        r.claim == claim,
        r.position == position,
        r.clock.duration == clock as nat / 0x1_0000_0000_0000_0000,
        r.clock.timestamp == clock as nat % 0x1_0000_0000_0000_0000,
{
    proof {
        assert(clock >> 64u128 == clock / 0x1_0000_0000_0000_0000u128) by (bit_vector);
        assert(clock & 0xFFFF_FFFF_FFFF_FFFFu128 == clock % 0x1_0000_0000_0000_0000u128)
            by (bit_vector);
    }
    ClaimData {
        parent_index: parent_index as usize,
        countered,
        claim,
        position,
        clock: Clock {
            duration: (clock >> 64u128) as u64,
            timestamp: (clock & 0xFFFF_FFFF_FFFF_FFFFu128) as u64,
        },
    }
}

/// What to do about a game whose claim array on chain has `onchain_len` rows
/// while the local copy has `local_len`.
#[derive(Clone, Copy, Debug, PartialEq, Eq)]
pub enum SyncStep {
    /// Both have the same rows.
    UpToDate,
    /// Fetch the rows with indices `from..to`, in order.
    Fetch(usize, usize),
    /// The local copy has more rows than the chain: an inconsistency.
    LocalAhead,
}

/// Compares the two lengths of a game's claim array.
pub fn plan_sync(onchain_len: usize, local_len: usize) -> (r: SyncStep)
    ensures
        onchain_len == local_len ==> r == SyncStep::UpToDate,
        onchain_len > local_len ==> r == SyncStep::Fetch(local_len, onchain_len),
        onchain_len < local_len ==> r == SyncStep::LocalAhead,
{
    if onchain_len > local_len {
        SyncStep::Fetch(local_len, onchain_len)
    } else if onchain_len < local_len {
        SyncStep::LocalAhead
    } else {
        SyncStep::UpToDate
    }
}

/// A call to a fault dispute game.
#[derive(Clone, Debug, PartialEq, Eq)]
pub enum GameCall {
    /// `attack(parentIndex, pivot)`.
    Attack(usize, Claim),
    /// `defend(parentIndex, pivot)`.
    Defend(usize, Claim),
    /// `step(stateIndex, claimIndex, isAttack, stateData, proof)`.
    Step(usize, usize, bool, Vec<u8>, Vec<u8>),
}

/// The mathematical value of a [`GameCall`].
pub ghost enum GameCallView {
    Attack(usize, Seq<u8>),
    Defend(usize, Seq<u8>),
    Step(usize, usize, bool, Seq<u8>, Seq<u8>),
}

impl View for GameCall {
    type V = GameCallView;

    open spec fn view(&self) -> GameCallView {
        match self {
            GameCall::Attack(i, c) => GameCallView::Attack(*i, c@),
            GameCall::Defend(i, c) => GameCallView::Defend(*i, c@),
            GameCall::Step(s, p, a, d, q) => GameCallView::Step(*s, *p, *a, d@, q@),
        }
    }
}

/// The call that carries out a response to the claim at `claim_index`: a
/// move becomes an attack or a defense against that claim (the counter to
/// the grandparent is left out: claims are handled in order, so the
/// grandparent was answered when it came), a step becomes the step call, and
/// doing nothing makes no call.
pub open spec fn call_for_spec(claim_index: usize, response: ResponseView) -> Option<GameCallView> {
    match response {
        ResponseView::DoNothing => None,
        ResponseView::Move(is_attack, claim, _) => if is_attack {
            Some(GameCallView::Attack(claim_index, claim))
        } else {
            Some(GameCallView::Defend(claim_index, claim))
        },
        ResponseView::Step(s, p, a, d, q) => Some(GameCallView::Step(s, p, a, d, q)),
    }
}

/// The view of an optional call.
pub open spec fn call_option_view(call: Option<GameCall>) -> Option<GameCallView> {
    match call {
        Some(c) => Some(c@),
        None => None,
    }
}

/// Turns a response to the claim at `claim_index` into the call that carries
/// it out.
pub fn call_for_response(claim_index: usize, response: Response) -> (r: Option<GameCall>)
    ensures
        call_option_view(r) == call_for_spec(claim_index, response@),
{
    match response {
        Response::DoNothing => None,
        Response::Move(is_attack, claim, _) => if is_attack {
            Some(GameCall::Attack(claim_index, claim))
        } else {
            Some(GameCall::Defend(claim_index, claim))
        },
        Response::Step(s, p, a, d, q) => Some(GameCall::Step(s, p, a, d, q)),
    }
}

/// What came of a new claim.
#[derive(Clone, Debug, PartialEq, Eq)]
pub enum ClaimOutcome {
    /// A call to send.
    Call(GameCall),
    /// Nothing to send.
    NoCall,
    /// No response could be worked out; the claim stays in the array.
    Unanswered(GameError),
}

/// The mathematical value of a [`ClaimOutcome`].
pub ghost enum ClaimOutcomeView {
    Call(GameCallView),
    NoCall,
    Unanswered(GameError),
}

impl View for ClaimOutcome {
    type V = ClaimOutcomeView;

    open spec fn view(&self) -> ClaimOutcomeView {
        match self {
            ClaimOutcome::Call(c) => ClaimOutcomeView::Call(c@),
            ClaimOutcome::NoCall => ClaimOutcomeView::NoCall,
            ClaimOutcome::Unanswered(e) => ClaimOutcomeView::Unanswered(*e),
        }
    }
}

/// The outcome of answering the claim at `claim_index` of `state`.
pub open spec fn outcome_spec(state: Seq<ClaimData>, trace: Seq<u8>, claim_index: usize) -> ClaimOutcomeView {
    match respond_spec(state, trace, claim_index as int) {
        Err(e) => ClaimOutcomeView::Unanswered(e),
        Ok(response) => match call_for_spec(claim_index, response) {
            Some(c) => ClaimOutcomeView::Call(c),
            None => ClaimOutcomeView::NoCall,
        },
    }
}

/// Appends a claim fetched from the chain to the local copy of the game and
/// answers it. A claim that would break the claim array's links is refused,
/// and the game is left as it was.
pub fn process_new_claim(game: &mut AlphabetGame, claim: ClaimData) -> (r: Result<ClaimOutcome, GameError>)
    ensures
        r is Ok <==> may_append(old(game).state@, claim),
        r matches Err(e) ==> e == GameError::InvalidClaimIndex && final(game).state@ == old(
            game,
        ).state@,
        r matches Ok(outcome) ==> {
            &&& final(game).state@ == old(game).state@.push(claim)
            &&& outcome@ == outcome_spec(
                final(game).state@,
                final(game).trace@,
                old(game).state@.len() as usize,
            )
        },
        final(game).address == old(game).address,
        final(game).created_at == old(game).created_at,
        final(game).trace@ == old(game).trace@,
        old(game).wf() ==> final(game).wf(),
{
    let index = game.state.len();
    game.push_claim(claim)?;
    match game.respond(index) {
        Err(e) => Ok(ClaimOutcome::Unanswered(e)),
        Ok(response) => {
            proof {
                assert(response_result_view(Ok::<Response, GameError>(response)) == Ok::<
                    ResponseView,
                    GameError,
                >(response@));
            }
            match call_for_response(index, response) {
                Some(c) => Ok(ClaimOutcome::Call(c)),
                None => Ok(ClaimOutcome::NoCall),
            }
        },
    }
}

} // verus!
