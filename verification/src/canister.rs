//! The mixer as a canister runs it: seeded from the canister's clock and from
//! the length asked for. The operation count is not consulted.
//!
//! The caller reads the clock and hands the reading in. Inside a canister it
//! is the consensus timestamp: during an update call every replica reads the
//! same value, so every replica fills the same bytes. During a query the value
//! is not certified. Where there is no clock to read the reading is zero, and
//! the seed is the scaled length alone.

use crate::error::Error;
use crate::mixer::{fill_with, spec_fill, spec_seed, spec_stream, spec_u32, spec_u64, Environment};
use crate::slots::{lemma_written_bytes, read_u32, read_u64, spec_all_written};
use vstd::prelude::*;

verus! {

/// The environment of a canister whose clock reads `time`. The operation count
/// is given as zero, so that term is left out of the seed.
pub open spec fn spec_canister(time: u64) -> Environment {
    Environment { time, instructions: 0 }
}

/// Whether a fill of `len` slots needs a reading of the clock: every fill but
/// the empty one, which writes nothing.
pub fn clock_needed(len: usize) -> (needed: bool)
    ensures
        needed == (len != 0),
{
    len != 0
}

/// Fills every slot of `dest` with the mixer's stream for a clock that reads
/// `time` and for this length. No slot is read, and the fill cannot fail. For
/// an empty buffer the reading plays no part.
pub fn fill_inner(dest: &mut [Option<u8>], time: u64) -> (r: Result<(), Error>)
    ensures
        r is Ok,
        final(dest)@.len() == old(dest)@.len(),
        spec_all_written(final(dest)@),
        final(dest)@ == spec_fill(spec_canister(time), old(dest)@.len()),
{
    let len = dest.len();
    if !clock_needed(len) {
        assert(dest@ =~= spec_fill(spec_canister(time), 0));
        return Ok(());
    }
    let env = Environment { time, instructions: 0 };
    fill_with(dest, &env)
}

/// Fills a fresh buffer of four slots for a clock that reads `time` and reads
/// the bytes back as one integer, in the byte order in which the fill wrote
/// them.
pub fn inner_u32(time: u64) -> (r: Result<u32, Error>)
    ensures
        r == Ok::<u32, Error>(spec_u32(spec_canister(time))),
{
    let mut buf: [Option<u8>; 4] = [None; 4];
    match fill_inner(&mut buf, time) {
        Ok(()) => {},
        Err(e) => {
            return Err(e);
        },
    }
    proof {
        lemma_written_bytes(spec_stream(spec_seed(spec_canister(time), 4), 4));
    }
    Ok(read_u32(&buf))
}

/// Fills a fresh buffer of eight slots for a clock that reads `time` and reads
/// the bytes back as one integer, in the byte order in which the fill wrote
/// them.
pub fn inner_u64(time: u64) -> (r: Result<u64, Error>)
    ensures
        r == Ok::<u64, Error>(spec_u64(spec_canister(time))),
{
    let mut buf: [Option<u8>; 8] = [None; 8];
    match fill_inner(&mut buf, time) {
        Ok(()) => {},
        Err(e) => {
            return Err(e);
        },
    }
    proof {
        lemma_written_bytes(spec_stream(spec_seed(spec_canister(time), 8), 8));
    }
    Ok(read_u64(&buf))
}

} // verus!
