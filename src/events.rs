//! The two settlement-chain events that the agent listens to, read from their
//! indexed topics, and the dispute game types.

use crate::encoding::be_value;
use crate::types::{Address, Claim};
use vstd::arithmetic::power2::{lemma_pow2_adds, pow2};
use vstd::prelude::*;

verus! {

/// One 32-byte topic of a log.
pub type Topic = [u8; 32];

/// The dispute game types that the factory can create.
#[derive(Clone, Copy, Debug, PartialEq, Eq)]
pub enum GameType {
    /// A fault dispute game.
    Fault,
    /// A validity game.
    Validity,
    /// An output-attestation game.
    OutputAttestation,
}

/// The game type that a byte stands for.
pub open spec fn game_type_of(value: u8) -> Option<GameType> {
    if value == 0 {
        Some(GameType::Fault)
    } else if value == 1 {
        Some(GameType::Validity)
    } else if value == 2 {
        Some(GameType::OutputAttestation)
    } else {
        None
    }
}

/// A byte that names no game type.
#[derive(Clone, Copy, Debug, PartialEq, Eq)]
pub struct InvalidGameType {
    /// The byte.
    pub value: u8,
}

impl GameType {
    /// The byte that stands for the game type.
    pub open spec fn code(self) -> u8 {
        match self {
            GameType::Fault => 0,
            GameType::Validity => 1,
            GameType::OutputAttestation => 2,
        }
    }

    /// Returns the byte that stands for the game type.
    pub fn as_u8(&self) -> (r: u8)
        ensures
            r == self.code(),
            game_type_of(r) == Some(*self),
    {
        match self {
            GameType::Fault => 0,
            GameType::Validity => 1,
            GameType::OutputAttestation => 2,
        }
    }
}

impl TryFrom<u8> for GameType {
    type Error = InvalidGameType;

    fn try_from(value: u8) -> (r: Result<Self, Self::Error>)
        ensures
            r == (match game_type_of(value) {
                Some(t) => Ok::<GameType, InvalidGameType>(t),
                None => Err(InvalidGameType { value }),
            }),
    {
        match value {
            0 => Ok(GameType::Fault),
            1 => Ok(GameType::Validity),
            2 => Ok(GameType::OutputAttestation),
            _ => Err(InvalidGameType { value }),
        }
    }
}

impl vstd::std_specs::convert::TryFromSpecImpl<u8> for GameType {
    open spec fn obeys_try_from_spec() -> bool {
        true
    }

    open spec fn try_from_spec(value: u8) -> Result<Self, InvalidGameType> {
        match game_type_of(value) {
            Some(t) => Ok(t),
            None => Err(InvalidGameType { value }),
        }
    }
}

/// Why an event could not be read.
#[derive(Clone, Copy, Debug, PartialEq, Eq)]
pub enum EventError {
    /// `DisputeGameCreated` without its game type topic.
    MissingGameType,
    /// `OutputProposed` without its output root topic.
    MissingOutputRoot,
    /// `OutputProposed` without its L2 block number topic.
    MissingBlockNumber,
}

/// A `DisputeGameCreated` event.
#[derive(Clone, Copy, Debug, PartialEq, Eq)]
pub struct DisputeGameCreated {
    /// The address of the new game's proxy: the low 20 bytes of topic 1.
    pub proxy: Address,
    /// The raw game type: the low byte of topic 2.
    pub game_type: u8,
}

/// An `OutputProposed` event.
#[derive(Clone, Copy, Debug, PartialEq, Eq)]
pub struct OutputProposed {
    /// The proposed output root: topic 1.
    pub output_root: Claim,
    /// The L2 block number: the low 8 bytes of topic 3, big-endian.
    pub l2_block_number: u64,
}

/// A big-endian string of `n` bytes stands for a number below `2^(8n)`.
proof fn lemma_be_value_bound(bytes: Seq<u8>)
    ensures
        be_value(bytes) < pow2(8 * bytes.len()),
    decreases bytes.len(),
{
    vstd::arithmetic::power2::lemma2_to64();
    if bytes.len() > 0 {
        let init = bytes.drop_last();
        lemma_be_value_bound(init);
        lemma_pow2_adds(8 * init.len(), 8);
        vstd::arithmetic::power2::lemma2_to64();
        assert(be_value(init) * 256 + bytes.last() < pow2(8 * init.len()) * 256) by (nonlinear_arith)
            requires
                be_value(init) < pow2(8 * init.len()),
                bytes.last() < 256,
        ;
        assert(8 * bytes.len() == 8 * init.len() + 8);
    }
}

/// Reads the low 8 bytes of a topic as a big-endian number.
pub fn low_u64_be(topic: &Topic) -> (r: u64)
    ensures
        r == be_value(topic@.subrange(24, 32)),
{
    let mut value: u64 = 0;
    let mut i: usize = 24;
    while i < 32
        invariant
            24 <= i <= 32,
            topic@.len() == 32,
            value == be_value(topic@.subrange(24, i as int)),
        decreases 32 - i,
    {
        proof {
            let next = topic@.subrange(24, i as int + 1);
            assert(next.drop_last() =~= topic@.subrange(24, i as int));
            lemma_be_value_bound(next);
            vstd::arithmetic::power2::lemma2_to64();
            assert(next.len() <= 8);
            if next.len() < 8 {
                vstd::arithmetic::power2::lemma_pow2_strictly_increases(8 * next.len(), 64);
            }
        }
        value = value * 256 + topic[i] as u64;
        i = i + 1;
    }
    value
}

/// Reads a `DisputeGameCreated` event from its topics.
pub fn parse_dispute_game_created(topics: &Vec<Topic>) -> (r: Result<DisputeGameCreated, EventError>)
    ensures
        r is Ok <==> topics@.len() >= 3,
        topics@.len() < 3 <==> r == Err::<DisputeGameCreated, EventError>(
            EventError::MissingGameType,
        ),
        r matches Ok(e) ==> e.game_type == topics@[2]@[31] && e.proxy@ == topics@[1]@.subrange(
            12,
            32,
        ),
{
    if topics.len() < 3 {
        return Err(EventError::MissingGameType);
    }
    let game_type = topics[2][31];
    let source = &topics[1];
    let mut proxy: Address = [0u8; 20];
    let mut i: usize = 0;
    while i < 20
        invariant
            i <= 20,
            source@.len() == 32,
            proxy@.len() == 20,
            forall|j: int| 0 <= j < i ==> proxy@[j] == source@[12 + j],
        decreases 20 - i,
    {
        proxy[i] = source[12 + i];
        i = i + 1;
    }
    assert(proxy@ =~= source@.subrange(12, 32));
    Ok(DisputeGameCreated { proxy, game_type })
}

/// Reads an `OutputProposed` event from its topics.
pub fn parse_output_proposed(topics: &Vec<Topic>) -> (r: Result<OutputProposed, EventError>)
    ensures
        r is Ok <==> topics@.len() >= 4,
        topics@.len() < 2 <==> r == Err::<OutputProposed, EventError>(
            EventError::MissingOutputRoot,
        ),
        2 <= topics@.len() < 4 <==> r == Err::<OutputProposed, EventError>(
            EventError::MissingBlockNumber,
        ),
        r matches Ok(e) ==> e.output_root == topics@[1] && e.l2_block_number == be_value(
            topics@[3]@.subrange(24, 32),
        ),
{
    if topics.len() < 2 {
        return Err(EventError::MissingOutputRoot);
    }
    if topics.len() < 4 {
        return Err(EventError::MissingBlockNumber);
    }
    let output_root = topics[1];
    let l2_block_number = low_u64_be(&topics[3]);
    Ok(OutputProposed { output_root, l2_block_number })
}

} // verus!
