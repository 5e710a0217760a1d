//! The destination buffer: a run of byte slots, each of which holds a byte
//! once one has been written to it and nothing before.

use crate::le_bytes::{
    spec_u32_from_le_bytes, spec_u64_from_le_bytes, u32_from_le_bytes, u64_from_le_bytes,
};
use vstd::prelude::*;

verus! {

/// A buffer in which every slot has been written, holding `bytes`.
pub open spec fn spec_written(bytes: Seq<u8>) -> Seq<Option<u8>> {
    Seq::new(bytes.len(), |i: int| Some(bytes[i]))
}

/// Whether every slot of the buffer has been written.
pub open spec fn spec_all_written(slots: Seq<Option<u8>>) -> bool {
    forall|i: int| 0 <= i < slots.len() ==> (#[trigger] slots[i]) is Some
}

/// The bytes that a fully written buffer holds.
pub open spec fn spec_bytes(slots: Seq<Option<u8>>) -> Seq<u8>
    recommends
        spec_all_written(slots),
{
    Seq::new(slots.len(), |i: int| slots[i]->0)
}

/// A buffer made of `bytes` is fully written and holds `bytes`.
pub proof fn lemma_written_bytes(bytes: Seq<u8>)
    ensures
        spec_written(bytes).len() == bytes.len(),
        spec_all_written(spec_written(bytes)),
        spec_bytes(spec_written(bytes)) == bytes,
{
    assert(spec_bytes(spec_written(bytes)) =~= bytes);
}

/// Reads a fully written buffer of four slots as one integer, least
/// significant byte first.
pub(crate) fn read_u32(buf: &[Option<u8>; 4]) -> (word: u32)
    requires
        spec_all_written(buf@),
    ensures
        word == spec_u32_from_le_bytes(spec_bytes(buf@)),
{
    let bytes: [u8; 4] = [buf[0].unwrap(), buf[1].unwrap(), buf[2].unwrap(), buf[3].unwrap()];
    assert(bytes@ =~= spec_bytes(buf@));
    u32_from_le_bytes(bytes)
}

/// Reads a fully written buffer of eight slots as one integer, least
/// significant byte first.
pub(crate) fn read_u64(buf: &[Option<u8>; 8]) -> (word: u64)
    requires
        spec_all_written(buf@),
    ensures
        word == spec_u64_from_le_bytes(spec_bytes(buf@)),
{
    let bytes: [u8; 8] = [
        buf[0].unwrap(),
        buf[1].unwrap(),
        buf[2].unwrap(),
        buf[3].unwrap(),
        buf[4].unwrap(),
        buf[5].unwrap(),
        buf[6].unwrap(),
        buf[7].unwrap(),
    ];
    assert(bytes@ =~= spec_bytes(buf@));
    u64_from_le_bytes(bytes)
}

} // verus!
