//! Pure pin-encoding: maps a pin index or a vector of per-pin states to the
//! single byte written to the expander's register. No I/O, no hardware
//! dependency.

use vstd::prelude::*;

verus! {

/// Bit orientation of the packed byte. Some board wirings connect the chip's
/// hardware pin 0 to logical index 7; for those the packed byte is bit-swapped
/// end to end before it is written. The orientation is an explicit
/// configuration, never an implicit transformation.
#[derive(Clone, Copy, Debug, PartialEq, Eq, Structural)]
pub enum BitOrder {
    /// Bit `i` of the byte is pin `i`.
    Direct,
    /// Bit `7 - i` of the byte is pin `i`.
    Reversed,
}

/// The mask bit pin `i` of a states vector contributes: `1 << i` where the
/// state is active (any non-zero value), otherwise no bit at all.
pub open spec fn pin_contribution(states: Seq<u8>, i: int) -> u8 {
    if states[i] != 0 {
        1u8 << (i as u8)
    } else {
        0u8
    }
}

/// OR of the contributions of pins `0 .. n`.
pub open spec fn prefix_mask(states: Seq<u8>, n: int) -> u8
    decreases n,
{
    if n <= 0 {
        0u8
    } else {
        prefix_mask(states, n - 1) | pin_contribution(states, n - 1)
    }
}

/// The packed byte of a full 8-pin states vector, direct bit order.
pub open spec fn direct_mask(states: Seq<u8>) -> u8 {
    prefix_mask(states, 8)
}

/// The byte with the bits of `m` in the opposite order.
pub open spec fn bit_reversed(m: u8) -> u8 {
    (((m >> 0u8) & 1) << 7u8) | (((m >> 1u8) & 1) << 6u8) | (((m >> 2u8) & 1) << 5u8) | (((m
        >> 3u8) & 1) << 4u8) | (((m >> 4u8) & 1) << 3u8) | (((m >> 5u8) & 1) << 2u8) | (((m >> 6u8)
        & 1) << 1u8) | (((m >> 7u8) & 1) << 0u8)
}

/// The packed byte of a full 8-pin states vector under a bit order.
pub open spec fn packed_mask(states: Seq<u8>, order: BitOrder) -> u8 {
    match order {
        BitOrder::Direct => direct_mask(states),
        BitOrder::Reversed => bit_reversed(direct_mask(states)),
    }
}

/// The range-checked mask of a pin index: its own bit where the index is in
/// range, no mask at all where it is not.
pub open spec fn pin_mask_of(pin: u8) -> Option<u8> {
    if pin < 8 {
        Some(1u8 << pin)
    } else {
        None
    }
}

/// Every in-range pin index encodes to exactly its own bit, `1 << pin`, and
/// every out-of-range index fails the range check and yields no mask — never
/// a bus error, never a silently wrapped bit.
pub proof fn lemma_pin_range_check(pin: u8)
    ensures
        pin < 8 ==> pin_mask_of(pin) == Some(1u8 << pin),
        pin >= 8 ==> pin_mask_of(pin) is None,
{
}

/// `1 << pin` for a pin index in range; an out-of-range index fails the range
/// check and yields no mask.
pub fn pin_to_mask(pin: u8) -> (r: Option<u8>)
    ensures
        r == pin_mask_of(pin),
{
    if pin < 8 {
        Some(1u8 << pin)
    } else {
        None
    }
}

/// Fold an 8-entry states vector into the packed byte: OR in `1 << i` for
/// every index `i` whose state is non-zero, then apply the bit order.
pub fn pins_to_mask(states: &[u8], order: BitOrder) -> (r: u8)
    requires
        states@.len() == 8,
    ensures
        r == packed_mask(states@, order),
{
    let mut acc: u8 = 0;
    let mut i: usize = 0;
    while i < 8
        invariant
            i <= 8,
            states@.len() == 8,
            acc == prefix_mask(states@, i as int),
        decreases 8 - i,
    {
        if states[i] != 0 {
            acc = acc | (1u8 << (i as u8));
        } else {
            proof {
                assert(acc | 0u8 == acc) by (bit_vector);
            }
        }
        i = i + 1;
    }
    match order {
        BitOrder::Direct => acc,
        BitOrder::Reversed => reverse_bits(acc),
    }
}

/// Decode a packed byte back into the 8-entry states vector that encodes to
/// it under the given order: entry `i` is the bit that pin `i` owns, as 0 or
/// 1. Re-encoding the result under the same order yields the original byte.
pub fn mask_to_states(mask: u8, order: BitOrder) -> (r: Vec<u8>)
    ensures
        r@.len() == 8,
        forall|i: int| 0 <= i < 8 ==> (r@[i] == 0 || r@[i] == 1),
        packed_mask(r@, order) == mask,
{
    let direct = match order {
        BitOrder::Direct => mask,
        BitOrder::Reversed => reverse_bits(mask),
    };
    let mut v: Vec<u8> = Vec::new();
    let mut i: usize = 0;
    while i < 8
        invariant
            i <= 8,
            v@.len() == i,
            forall|j: int| 0 <= j < i ==> v@[j] == (direct >> (j as u8)) & 1,
        decreases 8 - i,
    {
        v.push((direct >> (i as u8)) & 1);
        i = i + 1;
    }
    proof {
        assert forall|j: int| 0 <= j < 8 implies (v@[j] == 0 || v@[j] == 1) by {
            let ju = j as u8;
            assert((direct >> ju) & 1 == 0 || (direct >> ju) & 1 == 1) by (bit_vector);
        }
        lemma_direct_mask_reconstructs(v@, direct);
        if order is Reversed {
            lemma_bit_reversed_involution(mask);
        }
    }
    v
}

/// Swapping the bit order twice restores the byte: the two orientations are
/// inverses, so either one can be decoded as well as encoded.
pub proof fn lemma_bit_reversed_involution(m: u8)
    ensures
        bit_reversed(bit_reversed(m)) == m,
{
    assert(bit_reversed(bit_reversed(m)) == m) by (bit_vector);
}

/// A states vector whose entries are the bits of `m` encodes back to `m` in
/// direct order: reconstruction inverts the packing fold bit for bit.
proof fn lemma_direct_mask_reconstructs(v: Seq<u8>, m: u8)
    requires
        v.len() == 8,
        forall|j: int| 0 <= j < 8 ==> v[j] == (m >> (j as u8)) & 1,
    ensures
        direct_mask(v) == m,
{
    assert forall|j: int| 0 <= j < 8 implies #[trigger] pin_contribution(v, j) == (((m >> (
    j as u8)) & 1) << (j as u8)) by {
        let ju = j as u8;
        assert((m >> ju) & 1 == 0 || (m >> ju) & 1 == 1) by (bit_vector);
        if (m >> ju) & 1 == 0 {
            assert((0u8 << ju) == 0) by (bit_vector);
        }
    }
    assert(prefix_mask(v, 0) == 0u8);
    assert(prefix_mask(v, 1) == prefix_mask(v, 0) | pin_contribution(v, 0));
    assert(prefix_mask(v, 2) == prefix_mask(v, 1) | pin_contribution(v, 1));
    assert(prefix_mask(v, 3) == prefix_mask(v, 2) | pin_contribution(v, 2));
    assert(prefix_mask(v, 4) == prefix_mask(v, 3) | pin_contribution(v, 3));
    assert(prefix_mask(v, 5) == prefix_mask(v, 4) | pin_contribution(v, 4));
    assert(prefix_mask(v, 6) == prefix_mask(v, 5) | pin_contribution(v, 5));
    assert(prefix_mask(v, 7) == prefix_mask(v, 6) | pin_contribution(v, 6));
    assert(prefix_mask(v, 8) == prefix_mask(v, 7) | pin_contribution(v, 7));
    assert(0u8 | (((m >> 0u8) & 1) << 0u8) | (((m >> 1u8) & 1) << 1u8) | (((m >> 2u8) & 1) << 2u8)
        | (((m >> 3u8) & 1) << 3u8) | (((m >> 4u8) & 1) << 4u8) | (((m >> 5u8) & 1) << 5u8) | (((m
        >> 6u8) & 1) << 6u8) | (((m >> 7u8) & 1) << 7u8) == m) by (bit_vector);
}

/// Left fold of OR over a sequence of mask bytes, starting from zero.
pub open spec fn or_fold(masks: Seq<u8>) -> u8
    decreases masks.len(),
{
    if masks.len() == 0 {
        0u8
    } else {
        or_fold(masks.drop_last()) | masks.last()
    }
}

/// The 8 per-pin mask contributions of a states vector, in pin order.
pub open spec fn contributions(states: Seq<u8>) -> Seq<u8> {
    Seq::new(8, |i: int| pin_contribution(states, i))
}

/// The packing fold is the OR fold of the first `n` contributions.
proof fn lemma_prefix_is_or_fold(states: Seq<u8>, n: int)
    requires
        0 <= n <= 8,
    ensures
        prefix_mask(states, n) == or_fold(contributions(states).take(n)),
    decreases n,
{
    if n == 0 {
        assert(contributions(states).take(0) =~= Seq::<u8>::empty());
    } else {
        lemma_prefix_is_or_fold(states, n - 1);
        let c = contributions(states).take(n);
        assert(c.drop_last() =~= contributions(states).take(n - 1));
        assert(c.last() == pin_contribution(states, n - 1));
    }
}

/// Pulling any one element out of an OR fold and OR-ing it back last changes
/// nothing.
proof fn lemma_or_fold_remove(s: Seq<u8>, i: int)
    requires
        0 <= i < s.len(),
    ensures
        or_fold(s) == or_fold(s.remove(i)) | s[i],
    decreases s.len(),
{
    if i == s.len() - 1 {
        assert(s.remove(i) =~= s.drop_last());
    } else {
        let t = s.drop_last();
        lemma_or_fold_remove(t, i);
        assert(s.remove(i).drop_last() =~= t.remove(i));
        assert(s.remove(i).last() == s.last());
        let x = or_fold(t.remove(i));
        let a = s[i];
        let b = s.last();
        assert((x | a) | b == (x | b) | a) by (bit_vector);
    }
}

/// Two sequences with the same elements have the same OR fold: OR is
/// commutative and associative, so the order of accumulation is irrelevant.
proof fn lemma_or_fold_permutation(a: Seq<u8>, b: Seq<u8>)
    requires
        a.to_multiset() == b.to_multiset(),
    ensures
        or_fold(a) == or_fold(b),
    decreases a.len(),
{
    broadcast use vstd::seq_lib::group_to_multiset_ensures;

    if a.len() == 0 {
        assert(a.to_multiset().len() == 0);
    } else {
        let x = a.last();
        assert(a.contains(x));
        assert(b.to_multiset().count(x) > 0);
        assert(b.contains(x));
        let j = choose|j: int| 0 <= j < b.len() && b[j] == x;
        lemma_or_fold_remove(b, j);
        assert(a.drop_last() =~= a.remove(a.len() - 1));
        lemma_or_fold_permutation(a.drop_last(), b.remove(j));
    }
}

/// The packing fold is invariant under permutation: OR-ing the per-pin
/// contributions of a states vector in any order at all yields the
/// direct-order packed byte.
pub proof fn lemma_fold_order_irrelevant(states: Seq<u8>, perm: Seq<u8>)
    requires
        perm.to_multiset() == contributions(states).to_multiset(),
    ensures
        or_fold(perm) == direct_mask(states),
{
    lemma_prefix_is_or_fold(states, 8);
    assert(contributions(states).take(8) =~= contributions(states));
    lemma_or_fold_permutation(perm, contributions(states));
}

/// The byte with its bit order swapped end to end.
pub fn reverse_bits(m: u8) -> (r: u8)
    ensures
        r == bit_reversed(m),
{
    (((m >> 0u8) & 1) << 7u8) | (((m >> 1u8) & 1) << 6u8) | (((m >> 2u8) & 1) << 5u8) | (((m
        >> 3u8) & 1) << 4u8) | (((m >> 4u8) & 1) << 3u8) | (((m >> 5u8) & 1) << 2u8) | (((m >> 6u8)
        & 1) << 1u8) | (((m >> 7u8) & 1) << 0u8)
}

} // verus!
