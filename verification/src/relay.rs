//! The host-entropy relay: bytes that a trusted host supplied are handed over
//! to the destination buffer as they are, with no local mixing and no state.
//!
//! The host call itself is made by the caller. The relay decides what is asked
//! of the host, and what becomes of the buffer once the host has answered.

use crate::error::Error;
use crate::le_bytes::{spec_u32_from_le_bytes, spec_u64_from_le_bytes};
use crate::slots::{lemma_written_bytes, read_u32, read_u64, spec_all_written, spec_written};
use vstd::prelude::*;

verus! {

/// The bytes of the host's answer, if it gave any.
pub open spec fn spec_reply(reply: Option<&[u8]>) -> Option<Seq<u8>> {
    match reply {
        Some(bytes) => Some(bytes@),
        None => None,
    }
}

/// Whether a fill of `len` slots succeeds on this answer: an empty buffer needs
/// no answer, any other needs exactly `len` bytes.
pub open spec fn spec_relay_succeeds(len: nat, reply: Option<Seq<u8>>) -> bool {
    len == 0 || (reply matches Some(bytes) && bytes.len() == len)
}

/// The number of bytes to ask of the host for a buffer of `len` slots. For an
/// empty buffer the host is not called at all.
pub fn relay_request(len: usize) -> (ask: Option<usize>)
    ensures
        ask == (if len == 0 {
            None::<usize>
        } else {
            Some(len)
        }),
{
    if len == 0 {
        None
    } else {
        Some(len)
    }
}

/// Hands the host's answer over to `dest`. `reply` is `None` where the host
/// was not asked or reported a fault. On success every slot holds the host's
/// byte for it; on failure no slot has been touched.
pub fn relay_fill(dest: &mut [Option<u8>], reply: Option<&[u8]>) -> (r: Result<(), Error>)
    ensures
        r is Ok <==> spec_relay_succeeds(old(dest)@.len(), spec_reply(reply)),
        final(dest)@.len() == old(dest)@.len(),
        r is Ok ==> spec_all_written(final(dest)@),
        r is Ok && old(dest)@.len() > 0 ==> final(dest)@ == spec_written(spec_reply(reply)->0),
        r is Ok && old(dest)@.len() == 0 ==> final(dest)@ == old(dest)@,
        r is Err ==> final(dest)@ == old(dest)@,
{
    let len = dest.len();
    if len == 0 {
        return Ok(());
    }
    let bytes = match reply {
        Some(bytes) => bytes,
        None => {
            return Err(Error);
        },
    };
    if bytes.len() != len {
        return Err(Error);
    }
    let mut i: usize = 0;
    while i < len
        invariant
            dest@.len() == len,
            bytes@.len() == len,
            i <= len,
            forall|m: int| 0 <= m < i ==> dest@[m] == Some(bytes@[m]),
        decreases len - i,
    {
        dest[i] = Some(bytes[i]);
        i += 1;
    }
    assert(dest@ =~= spec_written(bytes@));
    Ok(())
}

/// Reads the host's answer to a request for four bytes as one integer, least
/// significant byte first. A failed fill is passed on and no integer is made.
pub fn relay_u32(reply: Option<&[u8]>) -> (r: Result<u32, Error>)
    ensures
        r is Ok <==> spec_relay_succeeds(4, spec_reply(reply)),
        r is Ok ==> r->Ok_0 == spec_u32_from_le_bytes(spec_reply(reply)->0),
{
    let mut buf: [Option<u8>; 4] = [None; 4];
    match relay_fill(&mut buf, reply) {
        Ok(()) => {},
        Err(e) => {
            return Err(e);
        },
    }
    proof {
        lemma_written_bytes(spec_reply(reply)->0);
    }
    Ok(read_u32(&buf))
}

/// Reads the host's answer to a request for eight bytes as one integer, least
/// significant byte first. A failed fill is passed on and no integer is made.
pub fn relay_u64(reply: Option<&[u8]>) -> (r: Result<u64, Error>)
    ensures
        r is Ok <==> spec_relay_succeeds(8, spec_reply(reply)),
        r is Ok ==> r->Ok_0 == spec_u64_from_le_bytes(spec_reply(reply)->0),
{
    let mut buf: [Option<u8>; 8] = [None; 8];
    match relay_fill(&mut buf, reply) {
        Ok(()) => {},
        Err(e) => {
            return Err(e);
        },
    }
    proof {
        lemma_written_bytes(spec_reply(reply)->0);
    }
    Ok(read_u64(&buf))
}

} // verus!
