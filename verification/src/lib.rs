//! Byte fills for a deterministic, replicated execution environment.
//!
//! Two interchangeable strategies fill a caller-supplied buffer of byte slots,
//! none of which need hold a value beforehand: a deterministic SplitMix64
//! mixer seeded from values observed in the execution context, and a relay
//! that hands over bytes a trusted host supplied. A slot is an `Option<u8>`:
//! `None` while nothing has been written to it, `Some` once a byte has.
//!
//! The mixer is not a cryptographic generator: whoever knows the clock, the
//! operation count and the length knows every byte.

pub mod canister;
pub mod error;
pub mod le_bytes;
pub mod mixer;
pub mod relay;
pub mod slots;
pub mod splitmix;

pub use canister::{clock_needed, fill_inner, inner_u32, inner_u64};
pub use error::Error;
pub use mixer::{derive_seed, fill_with, u32_with, u64_with, Environment};
pub use relay::{relay_fill, relay_request, relay_u32, relay_u64};
pub use splitmix::splitmix64_next;
