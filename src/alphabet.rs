//! The alphabet fault game: a game over a trace of one byte per leaf.

use crate::encoding::{
    bytes_equal, encode_uint_pair, keccak, keccak_of, uint_pair,
};
use crate::game::Game;
use crate::position::{
    depth_of, in_tree, index_at_depth_of, lemma_log2_bounds, lemma_log2_unique, lemma_moves_one_level_down,
    lemma_right_index_at_max_depth, move_of, right_index_of, trace_index_of,
    Position,
};
use crate::types::{
    has_no_parent, is_root_marker, response_result_view, Address, Claim, ClaimData, GameError,
    Response, ResponseView, secondary_view,
};
use vstd::prelude::*;

verus! {

/// The depth of the alphabet game's tree. The protocol's tree is deeper; this
/// game plays over a trace of sixteen leaves.
pub const MAX_DEPTH: u64 = 4;

/// A local replica of an alphabet fault dispute game.
pub struct AlphabetGame {
    /// The address of the dispute game contract.
    pub address: Address,
    /// The UNIX timestamp of the game's creation.
    pub created_at: u128,
    /// The game's claim array, in on-chain order.
    pub state: Vec<ClaimData>,
    /// Our full execution trace: one byte per leaf.
    pub trace: Vec<u8>,
}

/// The claim array's links: the root comes first and carries the root
/// marker, every other claim points to an earlier one, and every index fits
/// in 32 bits.
pub open spec fn claims_linked(state: Seq<ClaimData>) -> bool {
    &&& state.len() <= u32::MAX
    &&& state.len() > 0 ==> is_root_marker(state[0].parent_index)
    &&& forall|i: int| 0 < i < state.len() ==> #[trigger] state[i].parent_index < i
}

/// The preimage of the claim at trace index `trace_index` whose trace byte is
/// `byte`: the ABI encoding of the two as `uint256` values.
pub open spec fn claim_preimage(trace_index: int, byte: u8) -> Seq<u8> {
    uint_pair(trace_index as u64, byte as u64)
}

/// Our trace byte at a position.
pub open spec fn state_at_spec(trace: Seq<u8>, position: u128) -> Result<u8, GameError> {
    if !in_tree(position as nat, MAX_DEPTH as nat) {
        Err(GameError::InvalidPosition)
    } else if trace_index_of(position as nat, MAX_DEPTH as nat) < trace.len() {
        Ok(trace[trace_index_of(position as nat, MAX_DEPTH as nat)])
    } else {
        Err(GameError::InvalidTraceIndex)
    }
}

/// The preimage of our claim at a position.
pub open spec fn encode_claim_spec(trace: Seq<u8>, position: u128) -> Result<Seq<u8>, GameError> {
    match state_at_spec(trace, position) {
        Ok(byte) => Ok(claim_preimage(trace_index_of(position as nat, MAX_DEPTH as nat), byte)),
        Err(e) => Err(e),
    }
}

/// Our claim at a position: the digest of its preimage.
pub open spec fn claim_at_spec(trace: Seq<u8>, position: u128) -> Result<Seq<u8>, GameError> {
    match encode_claim_spec(trace, position) {
        Ok(preimage) => Ok(keccak_of(preimage)),
        Err(e) => Err(e),
    }
}

/// The index of the first claim on the path from `state[k]` up to the root
/// whose position commits to the leaf `leaf`.
pub open spec fn prestate_index(state: Seq<ClaimData>, k: int, leaf: nat) -> Result<usize, GameError>
    decreases k,
{
    if !(0 <= k < state.len()) {
        Err(GameError::InvalidClaimIndex)
    } else if !in_tree(state[k].position as nat, MAX_DEPTH as nat) {
        Err(GameError::InvalidPosition)
    } else if right_index_of(state[k].position as nat, MAX_DEPTH as nat) == leaf {
        Ok(k as usize)
    } else if state[k].parent_index >= state.len() || state[k].parent_index >= k {
        Err(GameError::InvalidClaimIndex)
    } else {
        prestate_index(state, state[k].parent_index as int, leaf)
    }
}

/// The 32-byte zero value.
pub open spec fn zero_claim() -> Seq<u8> {
    Seq::new(32, |i: int| 0u8)
}

/// The counter against the grandparent that goes with a move against
/// `parent`, on a best-effort basis: none when `parent` is the root, when its
/// parent index lies outside the claim array, when our claim at the
/// grandparent's position cannot be computed, or when we agree with the
/// grandparent; else the grandparent's index and our claim at the attack
/// position below it, zero where that claim cannot be computed.
pub open spec fn secondary_spec(state: Seq<ClaimData>, trace: Seq<u8>, parent: ClaimData) -> Option<
    (usize, Seq<u8>),
> {
    if is_root_marker(parent.parent_index) || parent.parent_index >= state.len() {
        None
    } else {
        let grandparent = state[parent.parent_index as int];
        match claim_at_spec(trace, grandparent.position) {
            Err(_) => None,
            Ok(ours) => if ours == grandparent.claim@ {
                None
            } else {
                let counter = match claim_at_spec(
                    trace,
                    move_of(grandparent.position as nat, true) as u128,
                ) {
                    Ok(c) => c,
                    Err(_) => zero_claim(),
                };
                Some((parent.parent_index, counter))
            },
        }
    }
}

/// Where an attack against a claim goes.
#[derive(Clone, Copy, Debug, PartialEq, Eq)]
pub enum AttackTarget {
    /// A move to this position.
    Move(u128),
    /// A step, where the attack position lies below the tree. Its prestate is
    /// committed to by the claim whose position commits to this leaf; where
    /// none is given, the prestate is the absolute prestate.
    Step(Option<u128>),
}

/// Where an attack against a claim at `position` goes: the attack position
/// where it lies in the tree, else a step whose prestate leaf is the one
/// just left of `position` (none where the attack position is the leftmost
/// one at its depth).
pub open spec fn attack_target_spec(position: u128) -> AttackTarget {
    let move_pos = move_of(position as nat, true);
    if depth_of(move_pos) > MAX_DEPTH {
        if index_at_depth_of(move_pos) > 0 {
            AttackTarget::Step(Some((position - 1) as u128))
        } else {
            AttackTarget::Step(None)
        }
    } else {
        AttackTarget::Move(move_pos as u128)
    }
}

/// The step against the claim `state[parent_index]` whose prestate is
/// committed to by the first claim on its path that commits to `leaf`, or is
/// the absolute prestate (state index zero, no state data) where `leaf` is
/// none.
pub open spec fn step_spec(
    state: Seq<ClaimData>,
    trace: Seq<u8>,
    parent_index: int,
    leaf: Option<u128>,
) -> Result<ResponseView, GameError> {
    match leaf {
        Some(leaf) => match prestate_index(state, parent_index, leaf as nat) {
            Err(e) => Err(e),
            Ok(k) => match encode_claim_spec(trace, state[k as int].position) {
                Err(e) => Err(e),
                Ok(data) => Ok(ResponseView::Step(k, parent_index as usize, true, data, Seq::empty())),
            },
        },
        None => Ok(ResponseView::Step(0, parent_index as usize, true, Seq::empty(), Seq::empty())),
    }
}

/// The response to the claim `state[parent_index]`: nothing where we agree
/// with it; else an attack, which is a step where the attack position lies
/// below the tree and a move otherwise. Only a move looks at the
/// grandparent, and only for its best-effort secondary counter.
pub open spec fn respond_spec(state: Seq<ClaimData>, trace: Seq<u8>, parent_index: int) -> Result<
    ResponseView,
    GameError,
> {
    if !(0 <= parent_index < state.len()) {
        Err(GameError::InvalidClaimIndex)
    } else {
        let parent = state[parent_index];
        match claim_at_spec(trace, parent.position) {
            Err(e) => Err(e),
            Ok(ours) => if ours == parent.claim@ {
                Ok(ResponseView::DoNothing)
            } else {
                match attack_target_spec(parent.position) {
                    AttackTarget::Step(leaf) => step_spec(state, trace, parent_index, leaf),
                    AttackTarget::Move(move_pos) => match claim_at_spec(trace, move_pos) {
                        Err(e) => Err(e),
                        Ok(counter) => Ok(
                            ResponseView::Move(true, counter, secondary_spec(state, trace, parent)),
                        ),
                    },
                }
            },
        }
    }
}

/// The trace index of a position of the alphabet tree lies below `2^4`.
proof fn lemma_trace_index_range(p: u128)
    requires
        in_tree(p as nat, MAX_DEPTH as nat),
    ensures
        0 <= trace_index_of(p as nat, MAX_DEPTH as nat) < 16,
{
    lemma_right_index_at_max_depth(p, MAX_DEPTH);
    let r = right_index_of(p as nat, MAX_DEPTH as nat);
    lemma_log2_bounds(r);
    vstd::arithmetic::power2::lemma2_to64();
}

/// Our claim at a position depends on nothing but the position and the trace
/// byte at the position's trace index: two traces that agree on that byte
/// give the same claim, the digest of the pair's encoding.
pub proof fn lemma_claim_depends_on_trace_byte(t1: Seq<u8>, t2: Seq<u8>, position: u128)
    requires
        in_tree(position as nat, MAX_DEPTH as nat),
        trace_index_of(position as nat, MAX_DEPTH as nat) < t1.len(),
        trace_index_of(position as nat, MAX_DEPTH as nat) < t2.len(),
        t1[trace_index_of(position as nat, MAX_DEPTH as nat)] == t2[trace_index_of(
            position as nat,
            MAX_DEPTH as nat,
        )],
    ensures
        claim_at_spec(t1, position) == claim_at_spec(t2, position),
        claim_at_spec(t1, position) == Ok::<Seq<u8>, GameError>(
            keccak_of(
                claim_preimage(
                    trace_index_of(position as nat, MAX_DEPTH as nat),
                    t1[trace_index_of(position as nat, MAX_DEPTH as nat)],
                ),
            ),
        ),
{
}

/// A disagreement with a claim at the leaves is answered by a step: where we
/// disagree with a claim at depth 4 other than the leftmost leaf and the
/// trace covers all sixteen leaves, the response is the step whose prestate is committed to by the
/// nearest claim on the parent's path that commits to the leaf just left of
/// it.
pub proof fn lemma_leaf_disagreement_steps(state: Seq<ClaimData>, trace: Seq<u8>, parent_index: int)
    requires
        0 <= parent_index < state.len(),
        trace.len() >= 16,
        depth_of(state[parent_index].position as nat) == MAX_DEPTH,
        state[parent_index].position != 16,
        claim_at_spec(trace, state[parent_index].position) != Ok::<Seq<u8>, GameError>(
            state[parent_index].claim@,
        ),
    ensures
        respond_spec(state, trace, parent_index) == step_spec(
            state,
            trace,
            parent_index,
            Some((state[parent_index].position - 1) as u128),
        ),
{
    let p = state[parent_index].position;
    lemma_log2_bounds(p as nat);
    vstd::arithmetic::power2::lemma2_to64();
    assert(in_tree(p as nat, MAX_DEPTH as nat));
    lemma_trace_index_range(p);
    lemma_in_game_tree_bound(p);
    lemma_moves_one_level_down(p);
    vstd::arithmetic::div_mod::lemma_small_mod(2 * p as nat, crate::position::gindex_modulus());
    assert(move_of(p as nat, true) == 2 * p);
    lemma_log2_unique(2 * p as nat, 5);
}

/// A disagreement with a claim at the leftmost leaf is answered by the step
/// on the absolute prestate: state index zero and no state data, whatever
/// the rest of the claim array holds.
pub proof fn lemma_leftmost_leaf_absolute_prestate(state: Seq<ClaimData>, trace: Seq<u8>, parent_index: int)
    requires
        0 <= parent_index < state.len(),
        trace.len() >= 16,
        state[parent_index].position == 16,
        claim_at_spec(trace, 16) != Ok::<Seq<u8>, GameError>(state[parent_index].claim@),
    ensures
        respond_spec(state, trace, parent_index) == Ok::<ResponseView, GameError>(
            ResponseView::Step(0, parent_index as usize, true, Seq::empty(), Seq::empty()),
        ),
{
    vstd::arithmetic::power2::lemma2_to64();
    lemma_log2_unique(16, 4);
    lemma_trace_index_range(16);
    lemma_moves_one_level_down(16);
    vstd::arithmetic::div_mod::lemma_small_mod(32, crate::position::gindex_modulus());
    lemma_log2_unique(32, 5);
}

/// The response depends on the claim array and the trace alone: two games
/// that hold the same claims and the same trace respond alike.
pub proof fn lemma_respond_deterministic(g1: &AlphabetGame, g2: &AlphabetGame, parent_index: usize)
    requires
        g1.state@ == g2.state@,
        g1.trace@ == g2.trace@,
    ensures
        respond_spec(g1.state@, g1.trace@, parent_index as int) == respond_spec(
            g2.state@,
            g2.trace@,
            parent_index as int,
        ),
{
}

/// The alphabet game's trace: the bytes `16..32`, one per leaf.
pub open spec fn alphabet_trace_spec() -> Seq<u8> {
    Seq::new(16, |i: int| (16 + i) as u8)
}

/// Builds the alphabet game's trace.
pub fn alphabet_trace() -> (r: Vec<u8>)
    ensures
        r@ == alphabet_trace_spec(),
{
    let mut trace: Vec<u8> = Vec::new();
    let mut b: u8 = 16;
    while b < 32
        invariant
            16 <= b <= 32,
            trace@ == Seq::new((b - 16) as nat, |i: int| (16 + i) as u8),
        decreases 32 - b,
    {
        trace.push(b);
        b = b + 1;
        assert(trace@ =~= Seq::new((b - 16) as nat, |i: int| (16 + i) as u8));
    }
    trace
}

/// Whether `claim` may be appended to the claim array `state`: the first
/// claim must be a root, every later one must point to an earlier claim, and
/// the array stays within 32-bit indices.
pub open spec fn may_append(state: Seq<ClaimData>, claim: ClaimData) -> bool {
    &&& state.len() < u32::MAX
    &&& if state.len() == 0 {
        is_root_marker(claim.parent_index)
    } else {
        claim.parent_index < state.len()
    }
}

/// Works out where an attack against a claim at `position` goes.
pub fn attack_target(position: u128) -> (r: AttackTarget)
    requires
        in_tree(position as nat, MAX_DEPTH as nat),
    ensures
        r == attack_target_spec(position),
{
    proof {
        lemma_in_game_tree_bound(position);
        lemma_moves_one_level_down(position);
        vstd::arithmetic::div_mod::lemma_small_mod(
            2 * position as nat,
            crate::position::gindex_modulus(),
        );
        lemma_log2_bounds(2 * position as nat);
        vstd::arithmetic::power2::lemma_pow2_pos(depth_of(2 * position as nat));
        assert(0 <= index_at_depth_of(2 * position as nat) < 64);
    }
    let move_pos = position.make_move(true);
    if move_pos.depth() > MAX_DEPTH {
        if move_pos.index_at_depth() > 0 {
            AttackTarget::Step(Some(position - 1))
        } else {
            AttackTarget::Step(None)
        }
    } else {
        AttackTarget::Move(move_pos)
    }
}

/// Whether a position lies in the alphabet game's tree.
pub fn in_game_tree(position: u128) -> (r: bool)
    ensures
        r == in_tree(position as nat, MAX_DEPTH as nat),
{
    position >= 1 && position.depth() <= MAX_DEPTH
}

/// Positions of the alphabet tree lie below `2^5`.
proof fn lemma_in_game_tree_bound(p: u128)
    requires
        in_tree(p as nat, MAX_DEPTH as nat),
    ensures
        p < 32,
{
    lemma_log2_bounds(p as nat);
    vstd::arithmetic::power2::lemma2_to64();
    if depth_of(p as nat) < 4 {
        vstd::arithmetic::power2::lemma_pow2_strictly_increases(depth_of(p as nat) + 1, 5);
    }
}

impl AlphabetGame {
    /// A game with an empty claim array.
    pub fn new(address: Address, created_at: u128, trace: Vec<u8>) -> (r: Self)
        ensures
            r.address == address,
            r.created_at == created_at,
            r.state@ == Seq::<ClaimData>::empty(),
            r.trace@ == trace@,
            r.wf(),
    {
        AlphabetGame { address, created_at, state: Vec::new(), trace }
    }

    /// The invariant of the claim array.
    pub open spec fn wf(&self) -> bool {
        claims_linked(self.state@)
    }

    /// Appends a claim to the claim array, or refuses one that would break
    /// the array's links.
    pub fn push_claim(&mut self, claim: ClaimData) -> (r: Result<(), GameError>)
        ensures
            r is Ok <==> may_append(old(self).state@, claim),
            r is Ok ==> final(self).state@ == old(self).state@.push(claim),
            r is Err ==> final(self).state@ == old(self).state@ && r == Err::<(), GameError>(
                GameError::InvalidClaimIndex,
            ),
            final(self).address == old(self).address,
            final(self).created_at == old(self).created_at,
            final(self).trace@ == old(self).trace@,
            old(self).wf() ==> final(self).wf(),
    {
        let len = self.state.len();
        if len >= 0xFFFF_FFFF {
            return Err(GameError::InvalidClaimIndex);
        }
        let linked = if len == 0 {
            has_no_parent(claim.parent_index)
        } else {
            claim.parent_index < len
        };
        if !linked {
            return Err(GameError::InvalidClaimIndex);
        }
        self.state.push(claim);
        proof {
            if claims_linked(old(self).state@) {
                assert forall|i: int| 0 < i < self.state@.len() implies #[trigger] self.state@[i].parent_index < i by {
                    if i < len {
                        assert(self.state@[i] == old(self).state@[i]);
                    }
                }
            }
        }
        Ok(())
    }

    /// Walks up from the claim at `start` to the first claim whose position
    /// commits to the leaf `leaf`, and returns its index.
    pub fn find_prestate(&self, start: usize, leaf: u128) -> (r: Result<usize, GameError>)
        ensures
            r == prestate_index(self.state@, start as int, leaf as nat),
            r matches Ok(k) ==> k < self.state@.len(),
    {
        if start >= self.state.len() {
            return Err(GameError::InvalidClaimIndex);
        }
        let mut k: usize = start;
        loop
            invariant
                k < self.state@.len(),
                prestate_index(self.state@, k as int, leaf as nat) == prestate_index(
                    self.state@,
                    start as int,
                    leaf as nat,
                ),
            decreases k,
        {
            let position = self.state[k].position;
            if !in_game_tree(position) {
                return Err(GameError::InvalidPosition);
            }
            if position.right_index(MAX_DEPTH) == leaf {
                return Ok(k);
            }
            let next = self.state[k].parent_index;
            if next >= self.state.len() || next >= k {
                return Err(GameError::InvalidClaimIndex);
            }
            k = next;
        }
    }

    /// The counter against the grandparent that goes with a move against
    /// `parent`.
    fn secondary_move(&self, parent: &ClaimData) -> (r: Option<(usize, Claim)>)
        ensures
            secondary_view(r) == secondary_spec(self.state@, self.trace@, *parent),
    {
        if has_no_parent(parent.parent_index) || parent.parent_index >= self.state.len() {
            return None;
        }
        let grandparent = &self.state[parent.parent_index];
        let ours = match self.claim_at(grandparent.position) {
            Ok(c) => c,
            Err(_) => {
                return None;
            },
        };
        if bytes_equal(&ours, &grandparent.claim) {
            return None;
        }
        proof {
            lemma_in_game_tree_bound(grandparent.position);
            lemma_moves_one_level_down(grandparent.position);
        }
        let counter = match self.claim_at(grandparent.position.make_move(true)) {
            Ok(c) => c,
            Err(_) => {
                let zero: Claim = [0u8; 32];
                assert(zero@ =~= zero_claim());
                zero
            },
        };
        Some((parent.parent_index, counter))
    }

    /// The step against the claim at `parent_index` whose prestate leaf is
    /// `leaf` (none for the absolute prestate).
    fn step(&self, parent_index: usize, leaf: Option<u128>) -> (r: Result<Response, GameError>)
        requires
            parent_index < self.state@.len(),
        ensures
            response_result_view(r) == step_spec(self.state@, self.trace@, parent_index as int, leaf),
    {
        match leaf {
            Some(leaf) => {
                let k = self.find_prestate(parent_index, leaf)?;
                let state_data = self.encode_claim(self.state[k].position)?;
                let proof_data: Vec<u8> = Vec::new();
                assert(proof_data@ =~= Seq::<u8>::empty());
                Ok(Response::Step(k, parent_index, true, state_data, proof_data))
            },
            None => {
                let state_data: Vec<u8> = Vec::new();
                let proof_data: Vec<u8> = Vec::new();
                assert(proof_data@ =~= Seq::<u8>::empty());
                assert(state_data@ =~= Seq::<u8>::empty());
                Ok(Response::Step(0, parent_index, true, state_data, proof_data))
            },
        }
    }

    /// ABI-encodes the preimage of our claim at a position.
    pub fn encode_claim(&self, position: u128) -> (r: Result<Vec<u8>, GameError>)
        ensures
            match r {
                Ok(v) => encode_claim_spec(self.trace@, position) == Ok::<Seq<u8>, GameError>(v@),
                Err(e) => encode_claim_spec(self.trace@, position) == Err::<Seq<u8>, GameError>(e),
            },
    {
        let byte = self.state_at(position)?;
        proof {
            lemma_trace_index_range(position);
        }
        let trace_index = position.trace_index(MAX_DEPTH);
        Ok(encode_uint_pair(trace_index, byte as u64))
    }
}

impl Game<u8> for AlphabetGame {
    fn respond(&self, parent_index: usize) -> (r: Result<Response, GameError>)
        ensures
            response_result_view(r) == respond_spec(self.state@, self.trace@, parent_index as int),
    {
        let parent = self.claim_data(parent_index)?;
        let ours = self.claim_at(parent.position)?;
        if bytes_equal(&ours, &parent.claim) {
            return Ok(Response::DoNothing);
        }
        match attack_target(parent.position) {
            AttackTarget::Step(leaf) => self.step(parent_index, leaf),
            AttackTarget::Move(move_pos) => {
                let counter = self.claim_at(move_pos)?;
                let secondary = self.secondary_move(parent);
                Ok(Response::Move(true, counter, secondary))
            },
        }
    }

    fn claim_data(&self, index: usize) -> (r: Result<&ClaimData, GameError>)
        ensures
            match r {
                Ok(c) => index < self.state@.len() && *c == self.state@[index as int],
                Err(e) => index >= self.state@.len() && e == GameError::InvalidClaimIndex,
            },
    {
        if index < self.state.len() {
            Ok(&self.state[index])
        } else {
            Err(GameError::InvalidClaimIndex)
        }
    }

    fn state_at(&self, position: u128) -> (r: Result<u8, GameError>)
        ensures
            r == state_at_spec(self.trace@, position),
    {
        if !in_game_tree(position) {
            return Err(GameError::InvalidPosition);
        }
        proof {
            lemma_trace_index_range(position);
        }
        let trace_index = position.trace_index(MAX_DEPTH);
        if trace_index < self.trace.len() as u64 {
            Ok(self.trace[trace_index as usize])
        } else {
            Err(GameError::InvalidTraceIndex)
        }
    }

    fn claim_at(&self, position: u128) -> (r: Result<Claim, GameError>)
        ensures
            match r {
                Ok(c) => claim_at_spec(self.trace@, position) == Ok::<Seq<u8>, GameError>(c@),
                Err(e) => claim_at_spec(self.trace@, position) == Err::<Seq<u8>, GameError>(e),
            },
    {
        let preimage = self.encode_claim(position)?;
        Ok(keccak(&preimage))
    }
}

} // verus!
