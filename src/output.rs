//! Output attestation: comparing a proposed output root with the trusted
//! one, and challenging a mismatch unless a challenge is already pending.

use crate::alphabet::zero_claim;
use crate::encoding::{be_word, bytes_equal, encode_uint, lemma_be_word_small};
use crate::events::{GameType, OutputProposed};
use crate::types::{Address, Claim};
use vstd::prelude::*;

verus! {

/// The trusted node's answer to `optimism_outputAtBlock`.
#[derive(Clone, Copy, Debug, PartialEq, Eq)]
pub struct OutputAtBlockResponse {
    /// The output root at the block asked for.
    pub output_root: Claim,
}

/// Compares an untrusted output root with the trusted node's answer, and
/// hands the answer back.
pub fn compare_output_root(untrusted_root: &Claim, trusted: OutputAtBlockResponse) -> (r: (
    bool,
    OutputAtBlockResponse,
))
    ensures
        r.0 == (untrusted_root@ == trusted.output_root@),
        r.1 == trusted,
{
    (bytes_equal(untrusted_root, &trusted.output_root), trusted)
}

/// A transaction waiting in the settlement chain's mempool.
#[derive(Clone, Debug, PartialEq, Eq)]
pub struct PendingTransaction {
    /// The recipient; none for a contract creation.
    pub to: Option<Address>,
    /// The calldata.
    pub input: Vec<u8>,
}

/// The selector of the factory's `create(uint8,bytes32,bytes)`.
pub open spec fn create_selector() -> Seq<u8> {
    seq![0x31u8, 0x42u8, 0xe5u8, 0x5eu8]
}

/// A pending call to the factory's `create` for a fault game on the root
/// claim `root`: the game type and the root claim are compared as the words
/// at bytes `4..36` and `36..68` of the calldata.
pub open spec fn is_pending_create(
    to: Option<Address>,
    input: Seq<u8>,
    factory: Address,
    root: Claim,
) -> bool {
    &&& to matches Some(a) && a@ == factory@
    &&& input.len() >= 68
    &&& input.subrange(0, 4) == create_selector()
    &&& input.subrange(4, 36) == be_word(GameType::Fault.code() as nat)
    &&& input.subrange(36, 68) == root@
}

/// Some pending transaction already creates a fault game on `root`.
pub open spec fn has_pending_create(
    pending: Seq<PendingTransaction>,
    factory: Address,
    root: Claim,
) -> bool {
    exists|i: int|
        0 <= i < pending.len() && #[trigger] is_pending_create(
            pending[i].to,
            pending[i].input@,
            factory,
            root,
        )
}

/// Whether a pending transaction creates a fault game on `root`.
pub fn is_pending_create_call(tx: &PendingTransaction, factory: &Address, root: &Claim) -> (r: bool)
    ensures
        r == is_pending_create(tx.to, tx.input@, *factory, *root),
{
    let to_factory = match &tx.to {
        Some(a) => bytes_equal(a, factory),
        None => false,
    };
    if !to_factory || tx.input.len() < 68 {
        return false;
    }
    let input = &tx.input;
    if !(input[0] == 0x31 && input[1] == 0x42 && input[2] == 0xe5 && input[3] == 0x5e) {
        assert(input@.subrange(0, 4) != create_selector()) by {
            assert(create_selector()[0] == 0x31 && create_selector()[1] == 0x42);
            assert(create_selector()[2] == 0xe5 && create_selector()[3] == 0x5e);
            if input@.subrange(0, 4) == create_selector() {
                assert(input@.subrange(0, 4)[0] == input@[0]);
                assert(input@.subrange(0, 4)[1] == input@[1]);
                assert(input@.subrange(0, 4)[2] == input@[2]);
                assert(input@.subrange(0, 4)[3] == input@[3]);
            }
        }
        return false;
    }
    assert(input@.subrange(0, 4) =~= create_selector());
    let game_type = GameType::Fault.as_u8();
    proof {
        lemma_be_word_small(game_type as nat);
    }
    let mut i: usize = 4;
    while i < 35
        invariant
            4 <= i <= 35,
            input@.len() >= 68,
            forall|j: int| 4 <= j < i ==> input@[j] == 0,
            forall|j: int| 0 <= j < 31 ==> #[trigger] be_word(game_type as nat)[j] == 0,
            game_type == GameType::Fault.code(),
            input == &tx.input,
        decreases 35 - i,
    {
        if input[i] != 0 {
            assert(input@.subrange(4, 36)[i - 4] != be_word(game_type as nat)[i - 4]);
            return false;
        }
        i = i + 1;
    }
    if input[35] != game_type {
        assert(input@.subrange(4, 36)[31] != be_word(game_type as nat)[31]);
        return false;
    }
    assert(input@.subrange(4, 36) =~= be_word(game_type as nat));
    let mut k: usize = 36;
    while k < 68
        invariant
            36 <= k <= 68,
            input@.len() >= 68,
            root@.len() == 32,
            forall|j: int| 36 <= j < k ==> input@[j] == root@[j - 36],
            input == &tx.input,
        decreases 68 - k,
    {
        if input[k] != root[k - 36] {
            assert(input@.subrange(36, 68)[k - 36] != root@[k - 36]);
            return false;
        }
        k = k + 1;
    }
    assert(input@.subrange(36, 68) =~= root@);
    true
}

/// Whether a pending transaction already creates a fault game on `root`.
pub fn has_pending_challenge(
    pending: &Vec<PendingTransaction>,
    factory: &Address,
    root: &Claim,
) -> (r: bool)
    ensures
        r == has_pending_create(pending@, *factory, *root),
{
    let mut i: usize = 0;
    while i < pending.len()
        invariant
            i <= pending@.len(),
            forall|j: int|
                0 <= j < i ==> !#[trigger] is_pending_create(
                    pending@[j].to,
                    pending@[j].input@,
                    *factory,
                    *root,
                ),
        decreases pending@.len() - i,
    {
        if is_pending_create_call(&pending[i], factory, root) {
            return true;
        }
        i = i + 1;
    }
    false
}

/// A call to the factory's `create(uint8,bytes32,bytes)`.
#[derive(Clone, Debug, PartialEq, Eq)]
pub struct CreateGame {
    /// The factory's address.
    pub factory: Address,
    /// The game type's byte.
    pub game_type: u8,
    /// The root claim of the new game.
    pub root_claim: Claim,
    /// The game's extra data.
    pub extra_data: Vec<u8>,
}

/// The challenge to a proposed output root that disagrees with the trusted
/// one: a new fault game with the zero root claim, whose extra data is the
/// ABI-encoded L2 block number; none where the mempool already holds a
/// transaction that creates a fault game on the proposed root.
pub fn output_challenge(
    factory: &Address,
    proposal: &OutputProposed,
    pending: &Vec<PendingTransaction>,
) -> (r: Option<CreateGame>)
    ensures
        r is None <==> has_pending_create(pending@, *factory, proposal.output_root),
        r matches Some(c) ==> {
            &&& c.factory == *factory
            &&& c.game_type == GameType::Fault.code()
            &&& c.root_claim@ == zero_claim()
            &&& c.extra_data@ == be_word(proposal.l2_block_number as nat)
        },
{
    if has_pending_challenge(pending, factory, &proposal.output_root) {
        return None;
    }
    let root_claim: Claim = [0u8; 32];
    assert(root_claim@ =~= zero_claim());
    Some(
        CreateGame {
            factory: *factory,
            game_type: GameType::Fault.as_u8(),
            root_claim,
            extra_data: encode_uint(proposal.l2_block_number),
        },
    )
}

/// Whether an output-attestation game calls for our challenge: not where we
/// created it ourselves, and only where its root claim disagrees with the
/// trusted output.
pub fn attestation_needs_challenge(is_creator: bool, roots_match: bool) -> (r: bool)
    ensures
        r == (!is_creator && !roots_match),
{
    !is_creator && !roots_match
}

/// The argument of an output-attestation game's `challenge(bytes)`: the
/// signature's `r`, `s` and `v`, ABI-encoded as three `uint256` values.
pub fn encode_signature(r: &[u8; 32], s: &[u8; 32], v: u64) -> (out: Vec<u8>)
    ensures
        out@ == r@ + s@ + be_word(v as nat),
{
    let mut out: Vec<u8> = Vec::new();
    let mut i: usize = 0;
    while i < 32
        invariant
            i <= 32,
            r@.len() == 32,
            out@ == r@.subrange(0, i as int),
        decreases 32 - i,
    {
        out.push(r[i]);
        i = i + 1;
        assert(out@ =~= r@.subrange(0, i as int));
    }
    assert(r@.subrange(0, 32) =~= r@);
    let mut j: usize = 0;
    while j < 32
        invariant
            j <= 32,
            r@.len() == 32,
            s@.len() == 32,
            out@ == r@ + s@.subrange(0, j as int),
        decreases 32 - j,
    {
        out.push(s[j]);
        j = j + 1;
        assert(out@ =~= r@ + s@.subrange(0, j as int));
    }
    assert(s@.subrange(0, 32) =~= s@);
    let mut word = encode_uint(v);
    out.append(&mut word);
    out
}

} // verus!
