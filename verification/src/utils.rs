//! Small arithmetic helpers shared across the crate's callers.

use vstd::prelude::*;

use vstd::arithmetic::power2::lemma_pow2_unfold;
use vstd::arithmetic::power2::lemma_pow2_pos;
use vstd::arithmetic::power2::pow2;

verus! {

/// The number a bit vector denotes, least significant bit first.
pub open spec fn bits_value(s: Seq<bool>) -> nat
    decreases s,
{
    if s.len() == 0 {
        0
    } else {
        (if s[0] {
            1nat
        } else {
            0nat
        }) + 2 * bits_value(s.subrange(1, s.len() as int))
    }
}

/// A bit vector of width `n` denotes less than two to the `n`.
pub proof fn lemma_bits_value_bound(s: Seq<bool>)
    ensures
        bits_value(s) < pow2(s.len()),
    decreases s.len(),
{
    lemma_pow2_pos(s.len());
    if s.len() == 0 {
    } else {
        let rest = s.subrange(1, s.len() as int);
        lemma_bits_value_bound(rest);
        lemma_pow2_unfold(s.len());
    }
}

/// The number a constant's bit vector denotes, least significant bit
/// first; at most 32 bits fit the result type.
pub fn from_bits_to_u32(bits: Vec<bool>) -> (r: u32)
    requires
        bits@.len() <= 32,
    ensures
        r == bits_value(bits@),
{
    let ghost whole = bits@;
    let mut sum: u32 = 0;
    let mut i: usize = bits.len();
    proof {
        assert(whole.subrange(i as int, whole.len() as int) =~= Seq::<bool>::empty());
    }
    while i > 0
        invariant
            i <= whole.len() <= 32,
            bits@ == whole,
            sum == bits_value(whole.subrange(i as int, whole.len() as int)),
        decreases i,
    {
        i = i - 1;
        let ghost tail = whole.subrange(i + 1, whole.len() as int);
        proof {
            lemma_bits_value_bound(tail);
            vstd::arithmetic::power2::lemma2_to64();
            assert(pow2(tail.len()) <= pow2(31)) by {
                vstd::arithmetic::power2::lemma_pow2_strictly_increases(tail.len(), 32);
                vstd::arithmetic::power2::lemma_pow2_strictly_increases(31, 32);
                if tail.len() < 31 {
                    vstd::arithmetic::power2::lemma_pow2_strictly_increases(tail.len(), 31);
                }
            }
        }
        let bit: u32 = if bits[i] {
            1
        } else {
            0
        };
        sum = bit + 2 * sum;
        proof {
            assert(whole.subrange(i as int, whole.len() as int).subrange(
                1,
                whole.subrange(i as int, whole.len() as int).len() as int,
            ) =~= tail);
            assert(whole.subrange(i as int, whole.len() as int)[0] == whole[i as int]);
        }
    }
    proof {
        assert(whole.subrange(0, whole.len() as int) =~= whole);
    }
    sum
}

} // verus!
