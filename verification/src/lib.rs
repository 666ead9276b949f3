//! Batch verification of ML-DSA (Dilithium2) signatures with a Merkle
//! commitment over the verified request identifiers, the guest program that
//! performs the batch run, the off-chain collector that assembles batches,
//! and the on-chain admission state machine that accepts proof bundles.

pub mod admission;
pub mod aggregator;
pub mod codec;
pub mod guest;
pub mod keccak;
pub mod merkle;
pub mod mldsa;
pub mod pack;
pub mod params;
pub mod poly;
pub mod precompiles;
pub mod sample;
pub mod tesserax_constants;
pub mod types;

