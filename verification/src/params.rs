//! Protocol constants: ML-DSA (Dilithium2) parameter set, batch limits, and
//! the protocol/chain tags that every proof must carry.

use vstd::prelude::*;

verus! {

/// ML-DSA (Dilithium2) public key size in bytes.
pub const MLDSA_PUBLIC_KEY_SIZE: usize = 1312;

/// ML-DSA (Dilithium2) signature size in bytes.
pub const MLDSA_SIGNATURE_SIZE: usize = 2420;

/// Maximum signatures per batch.
pub const MAX_BATCH_SIZE: usize = 256;

/// Protocol version carried by every batch input and output.
pub const REML_VERSION: u8 = 1;

/// Chain tag carried by every batch input and output.
pub const TESSERAX_CHAIN_ID: u32 = 13817;

/// Maximum proof size in bytes accepted on-chain.
pub const MAX_PROOF_SIZE: u32 = 102_400;

/// Maximum verified request IDs per proof accepted on-chain.
pub const MAX_VERIFIED_REQUESTS: u32 = 1_000;

/// Minimum proof size in bytes accepted on-chain.
pub const MIN_PROOF_SIZE: usize = 1024;

/// Size of a compressed (Groth16-style) proof, accepted besides the minimum.
pub const GROTH16_PROOF_SIZE: usize = 260;

/// Degree of the polynomial ring.
pub const N: usize = 256;

/// Prime modulus of the ring.
pub const Q: i64 = 8380417;

/// Number of rows of the public matrix.
pub const K: usize = 4;

/// Number of columns of the public matrix.
pub const L: usize = 4;

/// Number of dropped bits from the commitment vector.
pub const D: usize = 13;

/// Coefficient range of the response vector.
pub const GAMMA1: i64 = 131072;

/// Number of nonzero coefficients of the challenge polynomial.
pub const TAU: usize = 39;

/// Bound subtracted from the coefficient range when checking the response.
pub const BETA: i64 = 78;

/// Size in bytes of the hash of the public key.
pub const TRBYTES: usize = 64;

} // verus!
