//! The failure signal of a fill.

use vstd::prelude::*;

verus! {

/// A fill could not be completed: the host did not supply the bytes asked of
/// it. After this the destination buffer must be discarded.
#[derive(Debug, Clone, Copy, PartialEq, Eq, Structural)]
pub struct Error;

} // verus!
