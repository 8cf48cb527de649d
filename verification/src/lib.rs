//! An encryption-aware file-storage core.
//!
//! The library holds immutable key material, applies a symmetric stream
//! cipher or a block-chunked asymmetric cipher to byte payloads, and keeps
//! stored files retrievable by name, rejecting names that could escape the
//! storage root.

use vstd::prelude::*;

pub mod crypto;
pub mod service;
pub mod store;
pub mod types;

verus! {

} // verus!
