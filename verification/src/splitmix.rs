//! The SplitMix64 step: a 64-bit state advanced by a fixed odd increment and
//! scrambled by two xor-shift-multiply rounds and a final xor-shift.

use vstd::prelude::*;

verus! {

/// The odd increment of the state, derived from the golden ratio.
pub const GOLDEN_GAMMA: u64 = 0x9E3779B97F4A7C15;

/// The multiplier of the first scrambling round.
pub const MIX_MULTIPLIER_1: u64 = 0xBF58476D1CE4E5B9;

/// The multiplier of the second scrambling round.
pub const MIX_MULTIPLIER_2: u64 = 0x94D049BB133111EB;

/// The sum of `a` and `b` modulo 2^64.
pub open spec fn spec_add64(a: u64, b: u64) -> u64 {
    ((a + b) % 0x1_0000_0000_0000_0000) as u64
}

/// The product of `a` and `b` modulo 2^64.
pub open spec fn spec_mul64(a: u64, b: u64) -> u64 {
    ((a * b) % 0x1_0000_0000_0000_0000) as u64
}

/// The state that follows `state`.
pub open spec fn spec_advance(state: u64) -> u64 {
    spec_add64(state, GOLDEN_GAMMA)
}

/// The output word that the mixer yields from a state it has just advanced to.
pub open spec fn spec_scramble(state: u64) -> u64 {
    let a = spec_mul64(state ^ (state >> 30), MIX_MULTIPLIER_1);
    let b = spec_mul64(a ^ (a >> 27), MIX_MULTIPLIER_2);
    b ^ (b >> 31)
}

/// Advances the state by one step and returns the output word of that step.
pub fn splitmix64_next(x: &mut u64) -> (word: u64)
    ensures
        *final(x) == spec_advance(*old(x)),
        word == spec_scramble(*final(x)),
{
    *x = x.wrapping_add(GOLDEN_GAMMA);
    let mut z: u64 = *x;
    z = (z ^ (z >> 30)).wrapping_mul(MIX_MULTIPLIER_1);
    z = (z ^ (z >> 27)).wrapping_mul(MIX_MULTIPLIER_2);
    z ^ (z >> 31)
}

/// Multiplying by `inverse` undoes multiplying by `factor`, modulo 2^64,
/// whenever the two multiply to one modulo 2^64.
proof fn lemma_mul64_undone(a: u64, factor: u64, inverse: u64)
    requires
        (factor * inverse) % 0x1_0000_0000_0000_0000 == 1,
    ensures
        spec_mul64(spec_mul64(a, factor), inverse) == a,
{
    let m = 0x1_0000_0000_0000_0000int;
    let p = a * factor;
    let t = (factor * inverse) / m;
    assert(factor * inverse == m * t + 1);
    assert(p == m * (p / m) + p % m);
    assert((p % m) * inverse == m * (a * t - (p / m) * inverse) + a) by (nonlinear_arith)
        requires
            p == a * factor,
            factor * inverse == m * t + 1,
            p == m * (p / m) + p % m,
    ;
    vstd::arithmetic::div_mod::lemma_mod_multiples_vanish(a * t - (p / m) * inverse, a as int, m);
}

/// Multiplying by an odd constant of the mixer loses nothing: different
/// factors give different products modulo 2^64.
pub proof fn lemma_mul64_injective(a: u64, b: u64)
    ensures
        spec_mul64(a, GOLDEN_GAMMA) == spec_mul64(b, GOLDEN_GAMMA) ==> a == b,
        spec_mul64(a, MIX_MULTIPLIER_1) == spec_mul64(b, MIX_MULTIPLIER_1) ==> a == b,
        spec_mul64(a, MIX_MULTIPLIER_2) == spec_mul64(b, MIX_MULTIPLIER_2) ==> a == b,
{
    lemma_mul64_undone(a, GOLDEN_GAMMA, 0xF1DE83E19937733D);
    lemma_mul64_undone(b, GOLDEN_GAMMA, 0xF1DE83E19937733D);
    lemma_mul64_undone(a, MIX_MULTIPLIER_1, 0x96DE1B173F119089);
    lemma_mul64_undone(b, MIX_MULTIPLIER_1, 0x96DE1B173F119089);
    lemma_mul64_undone(a, MIX_MULTIPLIER_2, 0x319642B2D24D8EC3);
    lemma_mul64_undone(b, MIX_MULTIPLIER_2, 0x319642B2D24D8EC3);
}

/// Folding the high bits of a word onto its low bits loses nothing.
pub proof fn lemma_xor_shift_injective(a: u64, b: u64)
    ensures
        a ^ (a >> 30) == b ^ (b >> 30) ==> a == b,
        a ^ (a >> 27) == b ^ (b >> 27) ==> a == b,
        a ^ (a >> 31) == b ^ (b >> 31) ==> a == b,
{
    assert(a ^ (a >> 30) == b ^ (b >> 30) ==> a == b) by (bit_vector);
    assert(a ^ (a >> 27) == b ^ (b >> 27) ==> a == b) by (bit_vector);
    assert(a ^ (a >> 31) == b ^ (b >> 31) ==> a == b) by (bit_vector);
}

/// The scrambling of a state loses nothing: different states yield different
/// output words.
pub proof fn lemma_scramble_injective(a: u64, b: u64)
    ensures
        spec_scramble(a) == spec_scramble(b) ==> a == b,
{
    if spec_scramble(a) == spec_scramble(b) {
        let a1 = spec_mul64(a ^ (a >> 30), MIX_MULTIPLIER_1);
        let b1 = spec_mul64(b ^ (b >> 30), MIX_MULTIPLIER_1);
        let a2 = spec_mul64(a1 ^ (a1 >> 27), MIX_MULTIPLIER_2);
        let b2 = spec_mul64(b1 ^ (b1 >> 27), MIX_MULTIPLIER_2);
        lemma_xor_shift_injective(a2, b2);
        lemma_mul64_injective(a1 ^ (a1 >> 27), b1 ^ (b1 >> 27));
        lemma_xor_shift_injective(a1, b1);
        lemma_mul64_injective(a ^ (a >> 30), b ^ (b >> 30));
        lemma_xor_shift_injective(a, b);
    }
}

} // verus!
