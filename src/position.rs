//! Generalized indices of a perfect binary tree: `2^depth + index_at_depth`.

use vstd::arithmetic::power2::{lemma2_to64, lemma2_to64_rest, lemma_pow2_adds, lemma_pow2_pos, lemma_pow2_strictly_increases, pow2};
use vstd::prelude::*;

verus! {

/// One more than the largest `u128`: positions wrap modulo this value.
pub open spec fn gindex_modulus() -> nat {
    u128::MAX as nat + 1
}

/// `floor(log2(n))`, with `log2(0) == 0`.
pub open spec fn log2(n: nat) -> nat
    decreases n,
{
    if n <= 1 {
        0
    } else {
        1 + log2(n / 2)
    }
}

/// The depth of a position: the depth of its node in the tree.
pub open spec fn depth_of(p: nat) -> nat {
    log2(p)
}

/// The offset of a position within its depth, counted from the left.
pub open spec fn index_at_depth_of(p: nat) -> int {
    p - pow2(depth_of(p))
}

/// The left child of a position (as a 128-bit value).
pub open spec fn left_of(p: nat) -> nat {
    (2 * p) % gindex_modulus()
}

/// The right child of a position (as a 128-bit value).
pub open spec fn right_of(p: nat) -> nat {
    left_of(p) + 1
}

/// The parent of a position.
pub open spec fn parent_of(p: nat) -> nat {
    p / 2
}

/// The rightmost node at depth `max_depth` in the subtree rooted at `p`.
pub open spec fn right_index_of(p: nat, max_depth: nat) -> nat {
    let rem = (max_depth - depth_of(p)) as nat;
    (p * pow2(rem) + pow2(rem) - 1) as nat
}

/// The index in the trace that a position commits to.
pub open spec fn trace_index_of(p: nat, max_depth: nat) -> int {
    index_at_depth_of(right_index_of(p, max_depth))
}

/// The node whose left child a move against `p` lands on: `p` itself for an
/// attack, and `p`'s right sibling (or `p`, if it is a right child) for a
/// defense.
pub open spec fn move_base(p: nat, is_attack: bool) -> nat {
    if is_attack || p % 2 == 1 {
        p
    } else {
        p + 1
    }
}

/// The position of a move against `p`.
pub open spec fn move_of(p: nat, is_attack: bool) -> nat {
    left_of(move_base(p, is_attack))
}

/// `p` is a node of a tree of depth `max_depth`.
pub open spec fn in_tree(p: nat, max_depth: nat) -> bool {
    1 <= p && depth_of(p) <= max_depth
}

/// Generalized-index arithmetic over a perfect binary tree.
pub trait Position: Sized {
    /// The generalized index that the value stands for.
    spec fn gindex(&self) -> nat;

    /// Returns the depth of the position within the tree.
    fn depth(&self) -> (r: u64)
        requires
            self.gindex() >= 1,
        ensures
            r == depth_of(self.gindex()),
    ;

    /// Returns the index at depth of the position within the tree.
    fn index_at_depth(&self) -> (r: u64)
        requires
            self.gindex() >= 1,
        ensures
            r == index_at_depth_of(self.gindex()) % 0x1_0000_0000_0000_0000,
    ;

    /// Returns the left child position.
    fn left(&self) -> (r: Self)
        ensures
            r.gindex() == left_of(self.gindex()),
    ;

    /// Returns the right child position.
    fn right(&self) -> (r: Self)
        ensures
            r.gindex() == right_of(self.gindex()),
    ;

    /// Returns the parent position.
    fn parent(&self) -> (r: Self)
        ensures
            r.gindex() == parent_of(self.gindex()),
    ;

    /// Returns the rightmost position at depth `max_depth` below this one, the
    /// one that commits to the same trace index.
    fn right_index(&self, max_depth: u64) -> (r: Self)
        requires
            self.gindex() >= 1,
            depth_of(self.gindex()) <= max_depth < 128,
        ensures
            r.gindex() == right_index_of(self.gindex(), max_depth as nat),
    ;

    /// Returns the trace index that the position commits to.
    fn trace_index(&self, max_depth: u64) -> (r: u64)
        requires
            self.gindex() >= 1,
            depth_of(self.gindex()) <= max_depth < 128,
        ensures
            r == trace_index_of(self.gindex(), max_depth as nat) % 0x1_0000_0000_0000_0000,
    ;

    /// Returns the position of an attack (`true`) or a defense (`false`)
    /// against this position.
    fn make_move(&self, is_attack: bool) -> (r: Self)
        ensures
            r.gindex() == move_of(self.gindex(), is_attack),
    ;
}

/// The powers of two that the 128-bit arithmetic needs.
pub proof fn lemma_pow2_values()
    ensures
        pow2(0) == 1,
        pow2(1) == 2,
        pow2(64) == 0x1_0000_0000_0000_0000,
        pow2(127) == 0x8000_0000_0000_0000_0000_0000_0000_0000,
        pow2(128) == gindex_modulus(),
{
    lemma2_to64();
    lemma2_to64_rest();
    lemma_pow2_adds(64, 64);
    lemma_pow2_adds(63, 64);
}

/// `pow2(log2(n)) <= n < pow2(log2(n) + 1)` for `n >= 1`.
pub proof fn lemma_log2_bounds(n: nat)
    requires
        n >= 1,
    ensures
        pow2(log2(n)) <= n < pow2(log2(n) + 1),
    decreases n,
{
    if n <= 1 {
        lemma_pow2_values();
    } else {
        lemma_log2_bounds(n / 2);
        lemma_pow2_adds(log2(n / 2), 1);
        lemma_pow2_adds(log2(n / 2) + 1, 1);
        lemma_pow2_values();
    }
}

/// A number in `[pow2(k), pow2(k + 1))` has `log2` equal to `k`.
pub proof fn lemma_log2_unique(n: nat, k: nat)
    requires
        pow2(k) <= n < pow2(k + 1),
    ensures
        log2(n) == k,
    decreases k,
{
    lemma_pow2_values();
    if k == 0 {
    } else {
        lemma_pow2_adds((k - 1) as nat, 1);
        lemma_pow2_adds(k, 1);
        lemma_log2_unique(n / 2, (k - 1) as nat);
    }
}

/// Positions below `pow2(128)` have depth at most 127.
pub proof fn lemma_depth_of_u128(p: u128)
    requires
        p >= 1,
    ensures
        depth_of(p as nat) <= 127,
{
    lemma_log2_bounds(p as nat);
    lemma_pow2_values();
    if log2(p as nat) > 127 {
        lemma_pow2_strictly_increases(128, log2(p as nat));
    }
}

/// Computes `2^e` as a `u128`.
fn pow2_u128(e: u64) -> (r: u128)
    requires
        e < 128,
    ensures
        r == pow2(e as nat),
{
    let mut r: u128 = 1;
    let mut i: u64 = 0;
    proof { lemma_pow2_values(); }
    while i < e
        invariant
            i <= e < 128,
            r == pow2(i as nat),
        decreases e - i,
    {
        proof {
            lemma_pow2_adds(i as nat, 1);
            lemma_pow2_values();
            lemma_pow2_strictly_increases((i + 1) as nat, 128);
        }
        r = r * 2;
        i = i + 1;
    }
    r
}

impl Position for u128 {
    open spec fn gindex(&self) -> nat {
        *self as nat
    }

    fn depth(&self) -> (r: u64) {
        let mut v: u128 = *self;
        let mut d: u64 = 0;
        proof {
            lemma_depth_of_u128(*self);
        }
        while v > 1
            invariant
                1 <= v <= *self,
                d + log2(v as nat) == log2(*self as nat),
                log2(*self as nat) <= 127,
            decreases v,
        {
            v = v / 2;
            d = d + 1;
        }
        d
    }

    fn index_at_depth(&self) -> (r: u64) {
        let d = self.depth();
        proof {
            lemma_log2_bounds(*self as nat);
            lemma_depth_of_u128(*self);
        }
        let offset = *self - pow2_u128(d);
        (offset % 0x1_0000_0000_0000_0000) as u64
    }

    fn left(&self) -> (r: u128) {
        self.wrapping_mul(2)
    }

    fn right(&self) -> (r: u128) {
        let l = self.left();
        proof {
            lemma_pow2_values();
            if *self < 0x8000_0000_0000_0000_0000_0000_0000_0000 {
                assert(l == 2 * *self);
            } else {
                assert(l == 2 * *self - gindex_modulus());
            }
        }
        l + 1
    }

    fn parent(&self) -> (r: u128) {
        proof {
            vstd::bits::lemma_u128_shr_is_div(*self, 1);
            lemma_pow2_values();
        }
        *self >> 1
    }

    fn right_index(&self, max_depth: u64) -> (r: u128) {
        let rem = max_depth - self.depth();
        let m = pow2_u128(rem);
        proof {
            let d = depth_of(*self as nat);
            lemma_log2_bounds(*self as nat);
            lemma_pow2_adds(d + 1, rem as nat);
            lemma_pow2_pos(rem as nat);
            if max_depth + 1 < 128 {
                lemma_pow2_strictly_increases(max_depth as nat + 1, 128);
            }
            lemma_pow2_values();
            assert((*self as nat + 1) * m <= pow2(d + 1) * m) by (nonlinear_arith)
                requires
                    *self as nat + 1 <= pow2(d + 1),
            ;
            assert((*self as nat + 1) * m == *self as nat * m + m) by (nonlinear_arith);
        }
        *self * m + (m - 1)
    }

    fn trace_index(&self, max_depth: u64) -> (r: u64) {
        let r = self.right_index(max_depth);
        proof {
            lemma_pow2_pos((max_depth - depth_of(*self as nat)) as nat);
            assert(*self as nat * pow2((max_depth - depth_of(*self as nat)) as nat) >= *self as nat)
                by (nonlinear_arith)
                requires
                    pow2((max_depth - depth_of(*self as nat)) as nat) >= 1,
            ;
        }
        r.index_at_depth()
    }

    fn make_move(&self, is_attack: bool) -> (r: u128) {
        let base = (!is_attack as u128) | *self;
        proof {
            let p = *self;
            assert(p % 2 == 1 ==> (0u128 | p) == p && (1u128 | p) == p) by (bit_vector);
            assert(p % 2 == 0 ==> (0u128 | p) == p && (1u128 | p) == p + 1) by (bit_vector);
        }
        base.left()
    }
}

/// Going up to the parent and back down: for every position `p > 1`, the
/// parent's left child is `p` exactly when `p` is even, and otherwise the
/// parent's right child is `p`.
pub proof fn lemma_parent_child_round_trip(p: u128)
    requires
        p > 1,
    ensures
        (left_of(parent_of(p as nat)) == p) <==> (p % 2 == 0),
        p % 2 == 1 ==> right_of(parent_of(p as nat)) == p,
{
    assert(2 * (p as nat / 2) < gindex_modulus());
}

/// The right index of a position is at least the position and lies at the
/// tree's full depth.
pub proof fn lemma_right_index_at_max_depth(p: u128, max_depth: u64)
    requires
        p >= 1,
        depth_of(p as nat) <= max_depth < 128,
    ensures
        right_index_of(p as nat, max_depth as nat) >= p,
        depth_of(right_index_of(p as nat, max_depth as nat)) == max_depth,
{
    let d = depth_of(p as nat);
    let rem = (max_depth - d) as nat;
    let m = pow2(rem);
    let r = right_index_of(p as nat, max_depth as nat);
    lemma_log2_bounds(p as nat);
    lemma_pow2_pos(rem);
    lemma_pow2_adds(d, rem);
    lemma_pow2_adds(d + 1, rem);
    assert(pow2(d) * m <= p as nat * m) by (nonlinear_arith)
        requires
            pow2(d) <= p as nat,
    ;
    assert((p as nat + 1) * m <= pow2(d + 1) * m) by (nonlinear_arith)
        requires
            p as nat + 1 <= pow2(d + 1),
    ;
    assert((p as nat + 1) * m == p as nat * m + m) by (nonlinear_arith);
    assert(p as nat * m >= p as nat) by (nonlinear_arith)
        requires
            m >= 1,
    ;
    lemma_log2_unique(r, max_depth as nat);
}

/// Doubling a positive number adds one to its `log2`.
proof fn lemma_log2_double(n: nat)
    requires
        n >= 1,
    ensures
        log2(2 * n) == log2(n) + 1,
{
    assert((2 * n) / 2 == n);
}

/// An attack lands on the left child of the position, a defense on the left
/// child of its right sibling; both one level deeper.
pub proof fn lemma_moves_one_level_down(p: u128)
    requires
        1 <= p < 0x8000_0000_0000_0000_0000_0000_0000_0000u128,
    ensures
        move_of(p as nat, true) == left_of(p as nat),
        depth_of(move_of(p as nat, true)) == depth_of(p as nat) + 1,
        p % 2 == 0 ==> move_of(p as nat, false) == left_of(p as nat + 1),
        p % 2 == 1 ==> move_of(p as nat, false) == left_of(p as nat),
        depth_of(move_of(p as nat, false)) == depth_of(p as nat) + 1,
{
    lemma_pow2_values();
    lemma_log2_double(p as nat);
    if p % 2 == 0 {
        let d = depth_of(p as nat);
        lemma_log2_bounds(p as nat);
        vstd::arithmetic::power2::lemma_pow2_unfold(d + 1);
        lemma_log2_unique(p as nat + 1, d);
        lemma_log2_double(p as nat + 1);
    }
}

/// Building a position from a depth `d <= 64` and an index `i < 2^d` and then
/// reading both back gives `d` and `i`.
pub proof fn lemma_gindex_round_trip(d: nat, i: nat)
    requires
        d <= 64,
        i < pow2(d),
    ensures
        depth_of(pow2(d) + i) == d,
        index_at_depth_of(pow2(d) + i) == i,
{
    lemma_pow2_adds(d, 1);
    lemma_pow2_values();
    lemma_log2_unique(pow2(d) + i, d);
}

/// Computes a generalized index from a depth and an index at that depth.
pub fn compute_gindex(depth: u8, index_at_depth: u64) -> (r: u128)
    requires
        depth < 128,
    ensures
        r == pow2(depth as nat) + index_at_depth,
{
    proof {
        lemma_pow2_strictly_increases(depth as nat, 128);
        lemma_pow2_values();
        if depth < 127 {
            lemma_pow2_strictly_increases(depth as nat, 127);
        }
    }
    pow2_u128(depth as u64) + index_at_depth as u128
}

} // verus!
