//! Byte-level encodings: 32-byte big-endian words, ABI-encoded `uint256`
//! lists, and the Keccak-256 digest.

use vstd::arithmetic::power2::pow2;
use vstd::prelude::*;

verus! {

/// The byte of `v` that has weight `256^k`.
pub open spec fn be_byte(v: nat, k: nat) -> u8 {
    ((v / pow2(8 * k)) % 256) as u8
}

/// `v` as a 32-byte big-endian word (`v` taken modulo `2^256`).
pub open spec fn be_word(v: nat) -> Seq<u8> {
    Seq::new(32, |i: int| be_byte(v, (31 - i) as nat))
}

/// The ABI encoding of a list of `uint256` values: one word per value.
pub open spec fn uint_words(values: Seq<u64>) -> Seq<u8>
    decreases values.len(),
{
    if values.len() == 0 {
        Seq::empty()
    } else {
        uint_words(values.drop_last()) + be_word(values.last() as nat)
    }
}

/// The word of a value below `256`: thirty-one zero bytes, then the value.
pub proof fn lemma_be_word_small(v: nat)
    requires
        v < 256,
    ensures
        forall|i: int| 0 <= i < 31 ==> #[trigger] be_word(v)[i] == 0,
        be_word(v)[31] == v,
{
    vstd::arithmetic::power2::lemma2_to64();
    assert forall|i: int| 0 <= i < 31 implies #[trigger] be_word(v)[i] == 0 by {
        let k = (31 - i) as nat;
        if 8 * k > 8 {
            vstd::arithmetic::power2::lemma_pow2_strictly_increases(8, 8 * k);
        }
        vstd::arithmetic::div_mod::lemma_basic_div(v as int, pow2(8 * k) as int);
    }
    assert(be_word(v)[31] == be_byte(v, 0));
    assert(pow2(8 * 0) == 1);
    assert(v / 1 == v);
}

/// The number that a big-endian byte string stands for.
pub open spec fn be_value(bytes: Seq<u8>) -> nat
    decreases bytes.len(),
{
    if bytes.len() == 0 {
        0
    } else {
        be_value(bytes.drop_last()) * 256 + bytes.last() as nat
    }
}

/// The Keccak-256 digest of a byte string.
pub uninterp spec fn keccak_of(data: Seq<u8>) -> Seq<u8>;

/// Relies on `ethers::utils::keccak256`: the 32-byte Keccak-256 digest of
/// the bytes given, which depends on those bytes alone.
#[verifier::external_body]
pub(crate) fn keccak(data: &Vec<u8>) -> (r: [u8; 32])
    ensures
        r@ == keccak_of(data@),
{
    ethers::utils::keccak256(data.as_slice())
}

/// Relies on `ethers::abi::encode` over `Token::Uint` values: each value is
/// written as one 32-byte big-endian word, in order.
#[verifier::external_body]
pub(crate) fn encode_uints(values: &Vec<u64>) -> (r: Vec<u8>)
    ensures
        r@ == uint_words(values@),
{
    let tokens: Vec<ethers::abi::Token> = values
        .iter()
        .map(|v| ethers::abi::Token::Uint(ethers::types::U256::from(*v)))
        .collect();
    ethers::abi::encode(&tokens)
}

/// The ABI encoding of two `uint256` values.
pub open spec fn uint_pair(a: u64, b: u64) -> Seq<u8> {
    be_word(a as nat) + be_word(b as nat)
}

/// ABI-encodes the pair `(a, b)` of `uint256` values.
pub fn encode_uint_pair(a: u64, b: u64) -> (r: Vec<u8>)
    ensures
        r@ == uint_pair(a, b),
{
    let mut values: Vec<u64> = Vec::new();
    values.push(a);
    values.push(b);
    proof {
        assert(values@.drop_last() =~= seq![a]);
        assert(values@.drop_last().drop_last() =~= Seq::<u64>::empty());
        assert(uint_words(Seq::<u64>::empty()) == Seq::<u8>::empty());
        assert(Seq::<u8>::empty() + be_word(a as nat) =~= be_word(a as nat));
        assert(uint_words(seq![a]) == be_word(a as nat));
    }
    encode_uints(&values)
}

/// ABI-encodes a single `uint256` value.
pub fn encode_uint(a: u64) -> (r: Vec<u8>)
    ensures
        r@ == be_word(a as nat),
{
    let mut values: Vec<u64> = Vec::new();
    values.push(a);
    proof {
        assert(values@.drop_last() =~= Seq::<u64>::empty());
        assert(uint_words(Seq::<u64>::empty()) == Seq::<u8>::empty());
        assert(Seq::<u8>::empty() + be_word(a as nat) =~= be_word(a as nat));
        assert(uint_words(values@) == be_word(a as nat));
    }
    encode_uints(&values)
}

/// Compares two byte arrays of the same length.
pub fn bytes_equal<const N: usize>(a: &[u8; N], b: &[u8; N]) -> (r: bool)
    ensures
        r == (a@ == b@),
{
    let mut i: usize = 0;
    while i < N
        invariant
            i <= N,
            a@.len() == N,
            b@.len() == N,
            forall|j: int| 0 <= j < i ==> a@[j] == b@[j],
        decreases N - i,
    {
        if a[i] != b[i] {
            return false;
        }
        i = i + 1;
    }
    assert(a@ =~= b@);
    true
}

} // verus!
