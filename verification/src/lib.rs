//! Host-call boundary for a metered smart-contract execution environment.
//!
//! A sandboxed virtual machine issues typed operations (storage reads and
//! writes, contract calls and creations, log emission, account queries,
//! memory growth, tracing) that a separate host process carries out over a
//! narrow byte channel. This crate is the translation and caching layer on
//! that channel: it encodes each operation into a fixed wire format, hands
//! the payload to an abstract synchronous request primitive, decodes and
//! validates the response, and keeps a write-back cache for storage slots
//! so repeated accesses avoid redundant round trips.

use vstd::prelude::*;

pub mod bytes;
pub mod wire;
pub mod storage;
pub mod api;
pub mod text;
pub mod retdata;
pub mod req;
pub mod laws;

verus! {

/// Flat charge for crossing the host boundary on a storage-cache miss,
/// in ink (the deployment's metering unit). The exact figure is a
/// deployment parameter, not a structural one.
pub const EVM_API_INK: u64 = 10000;

} // verus!
