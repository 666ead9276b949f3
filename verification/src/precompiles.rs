//! The read-query precompiles: pure functions from input bytes (and, where
//! one is needed, the admission state) to output bytes and a gas charge.
//! The surrounding virtual-machine plumbing hands bytes in and writes bytes
//! out; every decision is made here.

use vstd::prelude::*;

use crate::admission::Pallet;
use crate::codec::spec_read_le64;
use crate::merkle::spec_le64;

verus! {

/// Base gas charge of the commitment check.
pub const VERIFY_STARK_BASE_GAS: u64 = 50_000;

/// Gas charge per input byte of the commitment check.
pub const VERIFY_STARK_PER_BYTE_GAS: u64 = 100;

/// Gas charge of the request-status query.
pub const IS_REQUEST_VERIFIED_GAS: u64 = 10_000;

/// Gas charge of the batch-info query.
pub const GET_BATCH_INFO_GAS: u64 = 15_000;

/// Why a precompile refused its input.
#[derive(Clone, Copy, Debug, PartialEq, Eq, Structural)]
pub enum PrecompileError {
    /// The input was shorter than the call requires.
    InvalidInput,
}

/// Every byte of the window is zero.
pub open spec fn spec_all_zero(b: Seq<u8>) -> bool {
    forall|i: int| 0 <= i < b.len() ==> b[i] == 0u8
}

/// How many of the first `n` bytes of the window at `i` agree with the
/// commitment.
pub open spec fn spec_window_eq_count(proof: Seq<u8>, c: Seq<u8>, i: int, n: int) -> int
    decreases n,
{
    if n <= 0 {
        0
    } else {
        spec_window_eq_count(proof, c, i, n - 1) + if proof[i + n - 1] == c[n - 1] {
            1int
        } else {
            0int
        }
    }
}

/// The lightweight structural check of a proof against its key hash and
/// public commitment: nonzero inputs, a size floor, a known leading version
/// byte, and a window of the proof that agrees closely with the commitment,
/// waived for large proofs.
pub open spec fn spec_verify_commitment_structure(vkey_hash: Seq<u8>, public_commitment: Seq<
    u8>, proof_data: Seq<u8>) -> bool {
    if spec_all_zero(vkey_hash) {
        false
    } else if spec_all_zero(public_commitment) {
        false
    } else if proof_data.len() < 32 {
        false
    } else if proof_data[0] != 0x01 && proof_data[0] != 0x02 {
        false
    } else {
        let n = vstd::math::min(32, public_commitment.len() as int);
        (exists|i: int| 0 <= i <= proof_data.len() - 32 && spec_window_eq_count(proof_data,
            public_commitment, i, n) >= 28) || proof_data.len() > 1000
    }
}

/// Check whether a window of the slice is entirely zero.
fn all_zero(b: &[u8]) -> (r: bool)
    ensures
        r == spec_all_zero(b@),
{
    let mut i: usize = 0;
    while i < b.len()
        invariant
            i <= b@.len(),
            forall|j: int| 0 <= j < i ==> b@[j] == 0u8,
        decreases b@.len() - i,
    {
        if b[i] != 0 {
            return false;
        }
        i = i + 1;
    }
    true
}

/// Run the lightweight structural check.
pub fn verify_commitment_structure(vkey_hash: &[u8], public_commitment: &[u8], proof_data: &[
    u8]) -> (r: bool)
    ensures
        r == spec_verify_commitment_structure(vkey_hash@, public_commitment@, proof_data@),
{
    if all_zero(vkey_hash) {
        return false;
    }
    if all_zero(public_commitment) {
        return false;
    }
    if proof_data.len() < 32 {
        return false;
    }
    if proof_data[0] != 0x01 && proof_data[0] != 0x02 {
        return false;
    }
    let n = if public_commitment.len() < 32 {
        public_commitment.len()
    } else {
        32
    };
    let mut found = false;
    let mut i: usize = 0;
    let plen = proof_data.len();
    while i <= plen - 32 && !found
        invariant
            plen == proof_data@.len(),
            n == vstd::math::min(32, public_commitment@.len() as int),
            i <= plen - 31,
            proof_data@.len() >= 32,
            found ==> 0 <= i <= proof_data@.len() - 32 && spec_window_eq_count(proof_data@,
                public_commitment@, i as int, n as int) >= 28,
            !found ==> forall|m: int| 0 <= m < i ==> !(spec_window_eq_count(proof_data@,
                public_commitment@, m, n as int) >= 28),
        decreases (if found { 0int } else { proof_data@.len() - i + 1 }),
    {
        let mut eq: usize = 0;
        let mut j: usize = 0;
        while j < n
            invariant
                plen == proof_data@.len(),
                n == vstd::math::min(32, public_commitment@.len() as int),
                i + 32 <= plen,
                j <= n,
                eq == spec_window_eq_count(proof_data@, public_commitment@, i as int, j as int),
                eq <= j,
            decreases n - j,
        {
            if proof_data[i + j] == public_commitment[j] {
                eq = eq + 1;
            }
            j = j + 1;
        }
        if eq >= 28 {
            found = true;
        } else {
            i = i + 1;
        }
    }
    found || proof_data.len() > 1000
}

/// The structural-check precompile: key hash, commitment and proof arrive
/// concatenated; the answer is one right-aligned boolean word.
pub struct VerifyStarkCommitment;

impl VerifyStarkCommitment {
    /// Run the precompile on raw input bytes, returning the output word
    /// and the gas charged.
    pub fn execute(input: &[u8]) -> (r: Result<(Vec<u8>, u64), PrecompileError>)
        requires
            input@.len() * 100 + 50_000 <= u64::MAX,
        ensures
            input@.len() < 64 ==> r == Err::<(Vec<u8>, u64), PrecompileError>(
                PrecompileError::InvalidInput),
            input@.len() >= 64 ==> match r {
                Ok(out) => {
                    &&& out.0@.len() == 32
                    &&& out.1 == 50_000 + input@.len() * 100
                    &&& (out.0@[31] == 1u8 <==> spec_verify_commitment_structure(
                        input@.subrange(0, 32), input@.subrange(32, 64), input@.subrange(64,
                        input@.len() as int)))
                    &&& forall|j: int| 0 <= j < 31 ==> out.0@[j] == 0u8
                },
                Err(_) => false,
            },
    {
        let gas_cost = VERIFY_STARK_BASE_GAS + (input.len() as u64) * VERIFY_STARK_PER_BYTE_GAS;
        if input.len() < 64 {
            return Err(PrecompileError::InvalidInput);
        }
        let vkey_hash = vstd::slice::slice_subrange(input, 0, 32);
        let public_commitment = vstd::slice::slice_subrange(input, 32, 64);
        let proof_data = vstd::slice::slice_subrange(input, 64, input.len());
        let valid = verify_commitment_structure(vkey_hash, public_commitment, proof_data);
        let mut output = vec![0u8; 32];
        if valid {
            output.set(31, 1u8);
        }
        Ok((output, gas_cost))
    }
}

/// The request-status precompile: eight little-endian identifier bytes in,
/// one right-aligned boolean word out.
pub struct IsRequestVerified;

impl IsRequestVerified {
    /// Run the precompile against the admission state.
    pub fn execute(pallet: &Pallet, input: &[u8]) -> (r: Result<(Vec<u8>, u64),
        PrecompileError>)
        ensures
            input@.len() < 8 ==> r == Err::<(Vec<u8>, u64), PrecompileError>(
                PrecompileError::InvalidInput),
            input@.len() >= 8 ==> match r {
                Ok(out) => {
                    &&& out.0@.len() == 32
                    &&& out.1 == IS_REQUEST_VERIFIED_GAS
                    &&& (out.0@[31] == 1u8 <==> pallet@.requests.contains_key(spec_read_le64(
                        input@, 0)))
                    &&& forall|j: int| 0 <= j < 31 ==> out.0@[j] == 0u8
                },
                Err(_) => false,
            },
    {
        if input.len() < 8 {
            return Err(PrecompileError::InvalidInput);
        }
        let request_id = (input[0] as u64) | ((input[1] as u64) << 8) | ((input[2] as u64) << 16)
            | ((input[3] as u64) << 24) | ((input[4] as u64) << 32) | ((input[5] as u64) << 40)
            | ((input[6] as u64) << 48) | ((input[7] as u64) << 56);
        let verified = pallet.is_request_verified(request_id);
        let mut output = vec![0u8; 32];
        if verified {
            output.set(31, 1u8);
        }
        Ok((output, IS_REQUEST_VERIFIED_GAS))
    }
}

/// The batch-info precompile: eight little-endian identifier bytes in; the
/// root, the count and the admitting block out, zero-padded, or an all-zero
/// record for an unknown batch.
pub struct GetBatchInfo;

impl GetBatchInfo {
    /// Run the precompile against the admission state.
    pub fn execute(pallet: &Pallet, input: &[u8]) -> (r: Result<(Vec<u8>, u64),
        PrecompileError>)
        requires
            crate::admission::wf(*pallet),
        ensures
            input@.len() < 8 ==> r == Err::<(Vec<u8>, u64), PrecompileError>(
                PrecompileError::InvalidInput),
            input@.len() >= 8 ==> match r {
                Ok(out) => {
                    &&& out.0@.len() == 64
                    &&& out.1 == GET_BATCH_INFO_GAS
                    &&& {
                        let batch_id = spec_read_le64(input@, 0);
                        if pallet@.batches.contains_key(batch_id) {
                            let info = pallet@.batches[batch_id];
                            &&& out.0@.subrange(0, 32) == info.3
                            &&& out.0@.subrange(32, 36) == seq![
                                ((info.2 >> 24u32) & 0xff) as u8,
                                ((info.2 >> 16u32) & 0xff) as u8,
                                ((info.2 >> 8u32) & 0xff) as u8,
                                (info.2 & 0xff) as u8,
                            ]
                            &&& out.0@.subrange(36, 44) == spec_le64(info.1)
                            &&& (forall|j: int| 44 <= j < 64 ==> out.0@[j] == 0u8)
                        } else {
                            forall|j: int| 0 <= j < 64 ==> out.0@[j] == 0u8
                        }
                    }
                },
                Err(_) => false,
            },
    {
        if input.len() < 8 {
            return Err(PrecompileError::InvalidInput);
        }
        let batch_id = (input[0] as u64) | ((input[1] as u64) << 8) | ((input[2] as u64) << 16)
            | ((input[3] as u64) << 24) | ((input[4] as u64) << 32) | ((input[5] as u64) << 40)
            | ((input[6] as u64) << 48) | ((input[7] as u64) << 56);
        match pallet.verified_batches(batch_id) {
            Some(info) => {
                let mut output: Vec<u8> = Vec::new();
                output.extend_from_slice(info.requests_root.as_slice());
                proof {
                    assert(output@ =~= info.requests_root@);
                }
                let c = info.signature_count;
                proof {
                    assert((c >> 24u32) & 0xff < 256 && (c >> 16u32) & 0xff < 256 && (c >> 8u32)
                        & 0xff < 256 && c & 0xff < 256) by (bit_vector);
                }
                output.push(((c >> 24) & 0xff) as u8);
                output.push(((c >> 16) & 0xff) as u8);
                output.push(((c >> 8) & 0xff) as u8);
                output.push((c & 0xff) as u8);
                proof {
                    assert(output@ =~= info.requests_root@ + seq![
                        ((c >> 24u32) & 0xff) as u8,
                        ((c >> 16u32) & 0xff) as u8,
                        ((c >> 8u32) & 0xff) as u8,
                        (c & 0xff) as u8,
                    ]);
                }
                let ghost head36 = output@;
                let blk = info.verified_at;
                let mut b: usize = 0;
                while b < 8
                    invariant
                        head36.len() == 36,
                        b <= 8,
                        output@.len() == 36 + b,
                        forall|j: int| 0 <= j < 36 ==> output@[j] == head36[j],
                        forall|j: int| 0 <= j < b ==> output@[36 + j] == spec_le64(blk)[j],
                    decreases 8 - b,
                {
                    let sh = (b as u64) * 8;
                    proof {
                        assert((blk >> sh) & 0xff < 256) by (bit_vector);
                    }
                    output.push(((blk >> sh) & 0xff) as u8);
                    b = b + 1;
                }
                let ghost head44 = output@;
                let mut p: usize = 44;
                while p < 64
                    invariant
                        head44.len() == 44,
                        44 <= p <= 64,
                        output@.len() == p,
                        forall|j: int| 0 <= j < 44 ==> output@[j] == head44[j],
                        forall|j: int| 44 <= j < p ==> output@[j] == 0u8,
                    decreases 64 - p,
                {
                    output.push(0u8);
                    p = p + 1;
                }
                proof {
                    assert(info.requests_root@.len() == 32);
                    assert(forall|j: int| 0 <= j < 44 ==> output@[j] == head44[j]);
                    assert(forall|j: int| 0 <= j < 36 ==> head44[j] == head36[j]);
                    assert(forall|j: int| 0 <= j < 32 ==> head36[j] == info.requests_root@[j]);
                    assert forall|j: int| 0 <= j < 32 implies output@.subrange(0, 32)[j]
                        == info.requests_root@[j] by {
                        assert(output@.subrange(0, 32)[j] == output@[j]);
                        assert(output@[j] == head44[j]);
                        assert(head44[j] == head36[j]);
                    }
                    assert(output@.subrange(0, 32) =~= info.requests_root@);
                    assert forall|j: int| 0 <= j < 4 implies output@.subrange(32, 36)[j]
                        == head36[32 + j] by {
                        assert(output@.subrange(32, 36)[j] == output@[32 + j]);
                        assert(output@[32 + j] == head44[32 + j]);
                        assert(head44[32 + j] == head36[32 + j]);
                    }
                    assert(output@.subrange(32, 36) =~= seq![
                        ((c >> 24u32) & 0xff) as u8,
                        ((c >> 16u32) & 0xff) as u8,
                        ((c >> 8u32) & 0xff) as u8,
                        (c & 0xff) as u8,
                    ]);
                    assert forall|j: int| 0 <= j < 8 implies output@.subrange(36, 44)[j]
                        == spec_le64(blk)[j] by {
                        assert(output@.subrange(36, 44)[j] == output@[36 + j]);
                        assert(output@[36 + j] == head44[36 + j]);
                    }
                    assert(output@.subrange(36, 44) =~= spec_le64(blk));
                }
                Ok((output, GET_BATCH_INFO_GAS))
            },
            None => {
                let output = vec![0u8; 64];
                Ok((output, GET_BATCH_INFO_GAS))
            },
        }
    }
}

/// The request-status precompile detached from any state: always answers
/// that nothing is verified.
pub struct IsRequestVerifiedStandalone;

impl IsRequestVerifiedStandalone {
    /// Run the detached precompile.
    pub fn execute(input: &[u8]) -> (r: Result<(Vec<u8>, u64), PrecompileError>)
        ensures
            input@.len() < 8 ==> r == Err::<(Vec<u8>, u64), PrecompileError>(
                PrecompileError::InvalidInput),
            input@.len() >= 8 ==> match r {
                Ok(out) => out.0@.len() == 32 && out.1 == IS_REQUEST_VERIFIED_GAS && (forall|
                    j: int| 0 <= j < 32 ==> out.0@[j] == 0u8),
                Err(_) => false,
            },
    {
        if input.len() < 8 {
            return Err(PrecompileError::InvalidInput);
        }
        Ok((vec![0u8; 32], IS_REQUEST_VERIFIED_GAS))
    }
}

/// The batch-info precompile detached from any state: always answers with
/// the empty record.
pub struct GetBatchInfoStandalone;

impl GetBatchInfoStandalone {
    /// Run the detached precompile.
    pub fn execute(input: &[u8]) -> (r: Result<(Vec<u8>, u64), PrecompileError>)
        ensures
            input@.len() < 8 ==> r == Err::<(Vec<u8>, u64), PrecompileError>(
                PrecompileError::InvalidInput),
            input@.len() >= 8 ==> match r {
                Ok(out) => out.0@.len() == 64 && out.1 == GET_BATCH_INFO_GAS && (forall|j: int|
                    0 <= j < 64 ==> out.0@[j] == 0u8),
                Err(_) => false,
            },
    {
        if input.len() < 8 {
            return Err(PrecompileError::InvalidInput);
        }
        Ok((vec![0u8; 64], GET_BATCH_INFO_GAS))
    }
}

/// The set of standard precompile addresses the chain answers for, by their
/// low 64 bits.
pub struct TesseraxPrecompiles;

impl TesseraxPrecompiles {
    /// Build the address set.
    pub fn new() -> (r: TesseraxPrecompiles)
        ensures
            true,
    {
        TesseraxPrecompiles
    }

    /// The used precompile addresses.
    pub fn used_addresses() -> (r: Vec<u64>)
        ensures
            r@ == seq![1u64, 2u64, 3u64, 4u64, 5u64],
    {
        let mut v: Vec<u64> = Vec::new();
        v.push(1);
        v.push(2);
        v.push(3);
        v.push(4);
        v.push(5);
        proof {
            assert(v@ =~= seq![1u64, 2u64, 3u64, 4u64, 5u64]);
        }
        v
    }

    /// Whether an address belongs to the set.
    pub fn is_precompile(address: u64) -> (r: bool)
        ensures
            r == (1 <= address <= 5),
    {
        1 <= address && address <= 5
    }
}

} // verus!
