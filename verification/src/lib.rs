//! Core logic of a two-chain bridge relay: validator-set modelling,
//! checkpoint encoding, signature aggregation, event-log decoding and
//! batch assembly.

pub mod address;
pub mod batch;
pub mod bigendian;
pub mod checkpoint;
pub mod error;
pub mod events;
pub mod signatures;
pub mod uint256;
pub mod valset;
pub mod wallet;
