//! The deterministic mixer: a seed derived from values observed in the
//! execution context, expanded by SplitMix64 into a byte stream of any length.

use crate::error::Error;
use crate::le_bytes::{
    lemma_u64_le_low_half, lemma_u64_le_round_trip, spec_u32_from_le_bytes, spec_u32_to_le_bytes,
    spec_u64_from_le_bytes, spec_u64_to_le_bytes, u64_to_le_bytes,
};
use crate::slots::{lemma_written_bytes, read_u32, read_u64, spec_all_written, spec_written};
use crate::splitmix::{
    lemma_mul64_injective, lemma_scramble_injective, spec_advance, spec_mul64, spec_scramble,
    splitmix64_next, GOLDEN_GAMMA,
};
use vstd::prelude::*;

verus! {

/// What the mixer observes of the execution context. A query that the
/// environment does not offer is given as zero, which leaves the seed as if
/// the term had been left out.
#[derive(Debug, Clone, Copy, PartialEq, Eq, Structural)]
pub struct Environment {
    /// The environment's advancing clock or step counter.
    pub time: u64,
    /// The environment's count of executed operations.
    pub instructions: u64,
}

impl Environment {
    /// The environment in which no query is available.
    pub fn unavailable() -> (env: Environment)
        ensures
            env.time == 0,
            env.instructions == 0,
    {
        Environment { time: 0, instructions: 0 }
    }
}

/// The seed for a fill of `len` bytes: the clock, the operation count and the
/// length scaled by the golden-ratio constant, combined by exclusive-or.
pub open spec fn spec_seed(env: Environment, len: nat) -> u64 {
    env.time ^ env.instructions ^ spec_mul64(len as u64, GOLDEN_GAMMA)
}

/// The mixer's state after `steps` steps from `seed`.
pub open spec fn spec_state(seed: u64, steps: nat) -> u64 {
    ((seed + steps * GOLDEN_GAMMA) % 0x1_0000_0000_0000_0000) as u64
}

/// The output word of step number `k`, counted from zero.
pub open spec fn spec_word(seed: u64, k: nat) -> u64 {
    spec_scramble(spec_state(seed, k + 1))
}

/// Byte number `i` of the stream: the output words in turn, each written
/// least significant byte first.
pub open spec fn spec_stream_byte(seed: u64, i: int) -> u8 {
    spec_u64_to_le_bytes(spec_word(seed, (i / 8) as nat))[i % 8]
}

/// The first `len` bytes of the stream that grows from `seed`.
pub open spec fn spec_stream(seed: u64, len: nat) -> Seq<u8> {
    Seq::new(len, |i: int| spec_stream_byte(seed, i))
}

/// The buffer that a fill of `len` slots leaves in this environment: every
/// slot written, with the stream that grows from the seed for `len`.
pub open spec fn spec_fill(env: Environment, len: nat) -> Seq<Option<u8>> {
    spec_written(spec_stream(spec_seed(env, len), len))
}

/// One step takes the state after `steps` steps to the state after one more.
pub proof fn lemma_state_step(seed: u64, steps: nat)
    ensures
        spec_state(seed, 0) == seed,
        spec_advance(spec_state(seed, steps)) == spec_state(seed, steps + 1),
{
    let m = 0x1_0000_0000_0000_0000int;
    let a = seed + steps * GOLDEN_GAMMA;
    assert(spec_state(seed, steps) == a % m);
    assert((a % m + GOLDEN_GAMMA) % m == (a + GOLDEN_GAMMA) % m) by {
        assert(a == m * (a / m) + a % m);
        vstd::arithmetic::div_mod::lemma_mod_multiples_vanish(a / m, a % m + GOLDEN_GAMMA, m);
    }
    assert(seed + (steps + 1) * GOLDEN_GAMMA == a + GOLDEN_GAMMA);
}

/// Derives the seed for a fill of `len` bytes.
pub fn derive_seed(env: &Environment, len: usize) -> (seed: u64)
    ensures
        seed == spec_seed(*env, len as nat),
{
    env.time ^ env.instructions ^ (len as u64).wrapping_mul(GOLDEN_GAMMA)
}

/// Fills every slot of `dest` with the mixer's stream for this environment and
/// this length. No slot is read, and the fill cannot fail.
pub fn fill_with(dest: &mut [Option<u8>], env: &Environment) -> (r: Result<(), Error>)
    ensures
        r is Ok,
        final(dest)@.len() == old(dest)@.len(),
        spec_all_written(final(dest)@),
        final(dest)@ == spec_fill(*env, old(dest)@.len()),
{
    let len = dest.len();
    if len == 0 {
        assert(dest@ =~= spec_fill(*env, 0));
        return Ok(());
    }
    let seed = derive_seed(env, len);
    let mut state = seed;
    let mut i: usize = 0;
    proof {
        lemma_state_step(seed, 0);
    }
    while i < len
        invariant
            dest@.len() == len,
            i <= len,
            i < len ==> i % 8 == 0,
            i < len ==> state == spec_state(seed, (i / 8) as nat),
            forall|m: int| 0 <= m < i ==> dest@[m] == Some(spec_stream_byte(seed, m)),
        decreases len - i,
    {
        let ghost k = (i / 8) as nat;
        proof {
            lemma_state_step(seed, k);
        }
        let word = u64_to_le_bytes(splitmix64_next(&mut state));
        let n: usize = if len - i < 8 {
            len - i
        } else {
            8
        };
        let mut j: usize = 0;
        while j < n
            invariant
                dest@.len() == len,
                i == 8 * k,
                i + n <= len,
                0 < n <= 8,
                j <= n,
                word@ == spec_u64_to_le_bytes(spec_word(seed, k)),
                forall|m: int| 0 <= m < i + j ==> dest@[m] == Some(spec_stream_byte(seed, m)),
            decreases n - j,
        {
            assert((i + j) / 8 == k && (i + j) % 8 == j);
            dest[i + j] = Some(word[j]);
            j += 1;
        }
        i += n;
    }
    assert(dest@ =~= spec_fill(*env, len as nat));
    Ok(())
}

/// The integer that a four-byte fill in this environment reads back as: its
/// bytes, least significant first.
pub open spec fn spec_u32(env: Environment) -> u32 {
    spec_u32_from_le_bytes(spec_stream(spec_seed(env, 4), 4))
}

/// The integer that an eight-byte fill in this environment reads back as: its
/// bytes, least significant first.
pub open spec fn spec_u64(env: Environment) -> u64 {
    spec_u64_from_le_bytes(spec_stream(spec_seed(env, 8), 8))
}

/// Fills a fresh buffer of four slots in this environment and reads the bytes
/// back as one integer, in the byte order in which the fill wrote them.
pub fn u32_with(env: &Environment) -> (r: Result<u32, Error>)
    ensures
        r == Ok::<u32, Error>(spec_u32(*env)),
{
    let mut buf: [Option<u8>; 4] = [None; 4];
    match fill_with(&mut buf, env) {
        Ok(()) => {},
        Err(e) => {
            return Err(e);
        },
    }
    proof {
        lemma_written_bytes(spec_stream(spec_seed(*env, 4), 4));
    }
    Ok(read_u32(&buf))
}

/// Fills a fresh buffer of eight slots in this environment and reads the bytes
/// back as one integer, in the byte order in which the fill wrote them.
pub fn u64_with(env: &Environment) -> (r: Result<u64, Error>)
    ensures
        r == Ok::<u64, Error>(spec_u64(*env)),
{
    let mut buf: [Option<u8>; 8] = [None; 8];
    match fill_with(&mut buf, env) {
        Ok(()) => {},
        Err(e) => {
            return Err(e);
        },
    }
    proof {
        lemma_written_bytes(spec_stream(spec_seed(*env, 8), 8));
    }
    Ok(read_u64(&buf))
}

/// With no query available the seed is the length scaled by the golden-ratio
/// constant, and a query that is left out changes nothing.
pub proof fn lemma_fallback_seed(time: u64, len: nat)
    ensures
        spec_seed(Environment { time: 0, instructions: 0 }, len) == spec_mul64(
            len as u64,
            GOLDEN_GAMMA,
        ),
        spec_seed(Environment { time, instructions: 0 }, len) == time ^ spec_mul64(
            len as u64,
            GOLDEN_GAMMA,
        ),
{
    let scaled = spec_mul64(len as u64, GOLDEN_GAMMA);
    assert(0u64 ^ 0u64 ^ scaled == scaled) by (bit_vector);
    assert(time ^ 0u64 ^ scaled == time ^ scaled) by (bit_vector);
}

/// Two fills in the same environment and of the same length write the same
/// bytes: the stream depends on nothing else.
pub proof fn lemma_fill_deterministic(env1: Environment, env2: Environment, len: nat)
    requires
        env1.time == env2.time,
        env1.instructions == env2.instructions,
    ensures
        spec_seed(env1, len) == spec_seed(env2, len),
        spec_stream(spec_seed(env1, len), len) == spec_stream(spec_seed(env2, len), len),
        spec_fill(env1, len) == spec_fill(env2, len),
{
}

/// A stream of `n` bytes is the beginning of every longer stream from the same
/// seed.
pub proof fn lemma_stream_prefix(seed: u64, n: nat, m: nat)
    requires
        n <= m,
    ensures
        spec_stream(seed, n) == spec_stream(seed, m).subrange(0, n as int),
{
    assert(spec_stream(seed, n) =~= spec_stream(seed, m).subrange(0, n as int));
}

/// Chunk number `k` of a stream of `len` bytes holds the low-order bytes of
/// output word number `k`: all eight, or as many as are left before `len`.
pub proof fn lemma_chunk(seed: u64, len: nat, k: nat)
    requires
        8 * k < len,
    ensures
        ({
            let n = if len - 8 * k < 8 {
                len - 8 * k
            } else {
                8
            };
            spec_stream(seed, len).subrange(8 * (k as int), 8 * k + n) == spec_u64_to_le_bytes(
                spec_word(seed, k),
            ).subrange(0, n)
        }),
{
    let n = if len - 8 * k < 8 {
        len - 8 * k
    } else {
        8
    };
    let chunk = spec_stream(seed, len).subrange(8 * (k as int), 8 * k + n);
    let word = spec_u64_to_le_bytes(spec_word(seed, k)).subrange(0, n);
    assert forall|j: int| 0 <= j < n implies chunk[j] == word[j] by {
        assert((8 * k + j) / 8 == k && (8 * k + j) % 8 == j);
    }
    assert(chunk =~= word);
}

/// The last chunk of a stream of `len` bytes holds `len % 8` bytes, or eight
/// where `len` is a multiple of eight, and they are the low-order bytes of the
/// next output word, in the order of a full chunk.
pub proof fn lemma_final_chunk(seed: u64, len: nat)
    requires
        len > 0,
    ensures
        ({
            let k = ((len - 1) / 8) as nat;
            let n = len - 8 * k;
            &&& n == (if len % 8 == 0 {
                8
            } else {
                len % 8
            })
            &&& spec_stream(seed, len).subrange(8 * (k as int), len as int) == spec_u64_to_le_bytes(
                spec_word(seed, k),
            ).subrange(0, n)
        }),
{
    let k = ((len - 1) / 8) as nat;
    lemma_chunk(seed, len, k);
}

/// Different seeds never yield the same output word at the same step.
pub proof fn lemma_word_injective(seed1: u64, seed2: u64, k: nat)
    requires
        seed1 != seed2,
    ensures
        spec_word(seed1, k) != spec_word(seed2, k),
{
    lemma_state_injective(seed1, seed2, k + 1);
    lemma_scramble_injective(spec_state(seed1, k + 1), spec_state(seed2, k + 1));
}

/// Different seeds never pass through the same state after the same number of
/// steps.
proof fn lemma_state_injective(seed1: u64, seed2: u64, k: nat)
    requires
        seed1 != seed2,
    ensures
        spec_state(seed1, k) != spec_state(seed2, k),
{
    let m = 0x1_0000_0000_0000_0000int;
    let c = k * GOLDEN_GAMMA;
    let a = seed1 + c;
    let b = seed2 + c;
    assert(a == m * (a / m) + a % m);
    assert(b == m * (b / m) + b % m);
    if a % m == b % m {
        assert(seed1 - seed2 == m * (a / m - b / m));
    }
}

/// Changing one of the three seed inputs, and only one, changes the seed.
pub proof fn lemma_seed_sensitive(env1: Environment, len1: nat, env2: Environment, len2: nat)
    requires
        len1 <= u64::MAX,
        len2 <= u64::MAX,
        (env1.time != env2.time && env1.instructions == env2.instructions && len1 == len2) || (
        env1.time == env2.time && env1.instructions != env2.instructions && len1 == len2) || (
        env1.time == env2.time && env1.instructions == env2.instructions && len1 != len2),
    ensures
        spec_seed(env1, len1) != spec_seed(env2, len2),
{
    let t1 = env1.time;
    let t2 = env2.time;
    let i1 = env1.instructions;
    let i2 = env2.instructions;
    let s1 = spec_mul64(len1 as u64, GOLDEN_GAMMA);
    let s2 = spec_mul64(len2 as u64, GOLDEN_GAMMA);
    lemma_mul64_injective(len1 as u64, len2 as u64);
    assert(t1 ^ i1 ^ s1 == t2 ^ i2 ^ s2 ==> (t1 == t2 && i1 == i2 ==> s1 == s2) && (t1 == t2 && s1
        == s2 ==> i1 == i2) && (i1 == i2 && s1 == s2 ==> t1 == t2)) by (bit_vector);
}

/// Changing one of the three seed inputs, and only one, changes the first
/// eight bytes of every fill of eight bytes or more.
pub proof fn lemma_fill_sensitive(env1: Environment, len1: nat, env2: Environment, len2: nat)
    requires
        8 <= len1 <= u64::MAX,
        8 <= len2 <= u64::MAX,
        (env1.time != env2.time && env1.instructions == env2.instructions && len1 == len2) || (
        env1.time == env2.time && env1.instructions != env2.instructions && len1 == len2) || (
        env1.time == env2.time && env1.instructions == env2.instructions && len1 != len2),
    ensures
        spec_stream(spec_seed(env1, len1), len1).subrange(0, 8) != spec_stream(
            spec_seed(env2, len2),
            len2,
        ).subrange(0, 8),
{
    let seed1 = spec_seed(env1, len1);
    let seed2 = spec_seed(env2, len2);
    lemma_seed_sensitive(env1, len1, env2, len2);
    lemma_word_injective(seed1, seed2, 0);
    lemma_chunk(seed1, len1, 0);
    lemma_chunk(seed2, len2, 0);
    lemma_u64_le_round_trip(spec_word(seed1, 0));
    lemma_u64_le_round_trip(spec_word(seed2, 0));
    assert(spec_u64_to_le_bytes(spec_word(seed1, 0)).subrange(0, 8) =~= spec_u64_to_le_bytes(
        spec_word(seed1, 0),
    ));
    assert(spec_u64_to_le_bytes(spec_word(seed2, 0)).subrange(0, 8) =~= spec_u64_to_le_bytes(
        spec_word(seed2, 0),
    ));
}

/// The 64-bit integer is the first output word of an eight-byte fill, and
/// writing that integer out least significant byte first gives back the bytes
/// that the fill wrote.
pub proof fn lemma_u64_round_trip(env: Environment)
    ensures
        spec_u64(env) == spec_word(spec_seed(env, 8), 0),
        spec_u64_to_le_bytes(spec_u64(env)) == spec_stream(spec_seed(env, 8), 8),
{
    let seed = spec_seed(env, 8);
    lemma_chunk(seed, 8, 0);
    lemma_u64_le_round_trip(spec_word(seed, 0));
    assert(spec_stream(seed, 8) =~= spec_stream(seed, 8).subrange(0, 8));
    assert(spec_u64_to_le_bytes(spec_word(seed, 0)).subrange(0, 8) =~= spec_u64_to_le_bytes(
        spec_word(seed, 0),
    ));
}

/// The 32-bit integer is the low 32 bits of the first output word of a
/// four-byte fill, and writing that integer out least significant byte first
/// gives back the bytes that the fill wrote.
pub proof fn lemma_u32_round_trip(env: Environment)
    ensures
        spec_u32(env) == spec_word(spec_seed(env, 4), 0) % 0x1_0000_0000,
        spec_u32_to_le_bytes(spec_u32(env)) == spec_stream(spec_seed(env, 4), 4),
{
    let seed = spec_seed(env, 4);
    lemma_chunk(seed, 4, 0);
    lemma_u64_le_low_half(spec_word(seed, 0));
    assert(spec_stream(seed, 4) =~= spec_stream(seed, 4).subrange(0, 4));
}

} // verus!
