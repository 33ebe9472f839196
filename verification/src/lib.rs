//! Data-model and binary-codec layer for a data-availability blockchain
//! client: wire-compatible representations of block headers, consensus
//! digests, dispatch-call payloads and availability proofs, together with
//! the discriminant-tagged binary codec that matches the chain node's
//! native serialization.

use vstd::prelude::*;

pub mod block;
pub mod calls;
pub mod errors;
pub mod events;
pub mod hex_codec;
pub mod kate;
pub mod scale;

verus! {

/// A 32-byte digest, used throughout for hashes, roots and identifiers.
#[derive(Debug, Clone, Copy, PartialEq, Eq)]
pub struct H256(pub [u8; 32]);

/// A transaction tip amount.
pub type Tip = u128;

/// An account's transaction counter.
pub type Nonce = u32;

/// An application's identifier in the data-availability lookup.
pub type AppId = u32;

/// A block height.
pub type BlockNumber = u32;

/// A block header.
pub type BlockHeader = crate::block::Header;

/// The node's runtime version report.
#[derive(Debug, Clone, PartialEq, Eq)]
pub struct RuntimeVersion {
    pub spec_name: String,
    pub impl_name: String,
    pub authoring_version: u32,
    pub spec_version: u32,
    pub impl_version: u32,
    pub apis: Vec<(String, u32)>,
    pub transaction_version: u32,
    pub state_version: u8,
}

} // verus!
