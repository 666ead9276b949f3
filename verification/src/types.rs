//! Data model of the batch-verification pipeline: a single signature
//! verification request, the batch handed to the guest program, the public
//! output the guest commits to, and the bundle shipped on-chain.

use vstd::prelude::*;

use crate::params::{MLDSA_PUBLIC_KEY_SIZE, MLDSA_SIGNATURE_SIZE, REML_VERSION, TESSERAX_CHAIN_ID};

verus! {

/// A single ML-DSA signature verification request.
#[derive(Clone, Debug)]
pub struct SignatureRequest {
    /// Message digest being signed (32 bytes).
    pub message: [u8; 32],
    /// ML-DSA public key (1312 bytes when well-formed).
    pub public_key: Vec<u8>,
    /// ML-DSA signature (2420 bytes when well-formed).
    pub signature: Vec<u8>,
    /// Caller-assigned request identifier.
    pub request_id: u64,
}

impl SignatureRequest {
    /// Create a new signature request.
    pub fn new(message: [u8; 32], public_key: Vec<u8>, signature: Vec<u8>, request_id: u64) -> (r:
        Self)
        ensures
            r.message == message,
            r.public_key == public_key,
            r.signature == signature,
            r.request_id == request_id,
    {
        Self { message, public_key, signature, request_id }
    }

    /// The key and signature have exactly the Dilithium2 sizes.
    pub open spec fn spec_valid_sizes(&self) -> bool {
        &&& self.public_key@.len() == MLDSA_PUBLIC_KEY_SIZE
        &&& self.signature@.len() == MLDSA_SIGNATURE_SIZE
    }

    /// Validate that sizes match the expected ML-DSA parameters.
    pub fn validate_sizes(&self) -> (r: bool)
        ensures
            r == self.spec_valid_sizes(),
    {
        self.public_key.len() == MLDSA_PUBLIC_KEY_SIZE
            && self.signature.len() == MLDSA_SIGNATURE_SIZE
    }

    /// Raw size of the request's data in bytes.
    pub open spec fn spec_raw_size(&self) -> int {
        32 + self.public_key@.len() as int + self.signature@.len() as int + 8
    }

    /// Get the raw data size.
    pub fn raw_size(&self) -> (r: usize)
        requires
            self.spec_raw_size() <= usize::MAX,
        ensures
            r == self.spec_raw_size(),
    {
        32 + self.public_key.len() + self.signature.len() + 8
    }
}

/// Input to the batch verification guest program.
#[derive(Clone, Debug)]
pub struct RemlProofInput {
    /// Protocol version; the guest rejects any batch that does not carry
    /// [`REML_VERSION`].
    pub version: u8,
    /// Chain tag; the guest rejects any batch that does not carry
    /// [`TESSERAX_CHAIN_ID`].
    pub chain_id: u32,
    /// Batch identifier assigned by the aggregator.
    pub batch_id: u64,
    /// The requests of the batch, in submission order.
    pub requests: Vec<SignatureRequest>,
}

/// Sum of the raw sizes of a sequence of requests.
pub open spec fn spec_requests_raw_size(reqs: Seq<SignatureRequest>) -> int
    decreases reqs.len(),
{
    if reqs.len() == 0 {
        0
    } else {
        spec_requests_raw_size(reqs.drop_last()) + reqs.last().spec_raw_size()
    }
}

impl RemlProofInput {
    /// Create a new batch input carrying the expected protocol tags.
    pub fn new(requests: Vec<SignatureRequest>, batch_id: u64) -> (r: Self)
        ensures
            r.version == REML_VERSION,
            r.chain_id == TESSERAX_CHAIN_ID,
            r.batch_id == batch_id,
            r.requests == requests,
    {
        Self { version: REML_VERSION, chain_id: TESSERAX_CHAIN_ID, batch_id, requests }
    }

    /// Number of requests in the batch.
    pub fn batch_size(&self) -> (r: usize)
        ensures
            r == self.requests@.len(),
    {
        self.requests.len()
    }

    /// Total raw data size of the batch.
    pub fn raw_size(&self) -> (r: usize)
        requires
            spec_requests_raw_size(self.requests@) <= usize::MAX,
        ensures
            r == spec_requests_raw_size(self.requests@),
    {
        let mut total: usize = 0;
        let mut i: usize = 0;
        while i < self.requests.len()
            invariant
                i <= self.requests@.len(),
                total == spec_requests_raw_size(self.requests@.take(i as int)),
                spec_requests_raw_size(self.requests@) <= usize::MAX,
            decreases self.requests@.len() - i,
        {
            proof {
                lemma_requests_raw_size_take(self.requests@, i as int);
                lemma_requests_raw_size_bounds(self.requests@, (i + 1) as int);
            }
            total = total + self.requests[i].raw_size();
            i = i + 1;
        }
        proof {
            assert(self.requests@.take(self.requests@.len() as int) =~= self.requests@);
        }
        total
    }
}

/// The sum of raw sizes is nonnegative.
proof fn lemma_requests_raw_size_nonneg(reqs: Seq<SignatureRequest>)
    ensures
        spec_requests_raw_size(reqs) >= 0,
    decreases reqs.len(),
{
    if reqs.len() > 0 {
        lemma_requests_raw_size_nonneg(reqs.drop_last());
    }
}

/// Each request's raw size is nonnegative, so prefix sums never exceed the
/// sum over the whole sequence.
proof fn lemma_requests_raw_size_bounds(reqs: Seq<SignatureRequest>, n: int)
    requires
        0 <= n <= reqs.len(),
    ensures
        0 <= spec_requests_raw_size(reqs.take(n)) <= spec_requests_raw_size(reqs),
    decreases reqs.len() - n,
{
    lemma_requests_raw_size_nonneg(reqs.take(n));
    if n == reqs.len() {
        assert(reqs.take(n) =~= reqs);
    } else {
        lemma_requests_raw_size_take(reqs, n);
        lemma_requests_raw_size_bounds(reqs, n + 1);
    }
}

/// Taking one more request adds exactly its raw size to the prefix sum.
proof fn lemma_requests_raw_size_take(reqs: Seq<SignatureRequest>, n: int)
    requires
        0 <= n < reqs.len(),
    ensures
        spec_requests_raw_size(reqs.take(n + 1)) == spec_requests_raw_size(reqs.take(n))
            + reqs[n].spec_raw_size(),
{
    assert(reqs.take(n + 1).drop_last() =~= reqs.take(n));
    assert(reqs.take(n + 1).last() == reqs[n]);
}

/// Public output of the guest program, committed in the proof.
#[derive(Clone, Debug)]
pub struct RemlProofOutput {
    /// Protocol version the guest ran under.
    pub version: u8,
    /// Chain tag the guest ran under.
    pub chain_id: u32,
    /// Batch identifier of the batch this output belongs to.
    pub batch_id: u64,
    /// Number of requests whose signature verified.
    pub verified_count: u32,
    /// Merkle root over the verified request identifiers.
    pub requests_root: [u8; 32],
    /// Verified request identifiers, in submission order.
    pub verified_request_ids: Vec<u64>,
}

impl RemlProofOutput {
    /// Create a new output carrying the expected protocol tags.
    pub fn new(
        batch_id: u64,
        verified_count: u32,
        requests_root: [u8; 32],
        verified_request_ids: Vec<u64>,
    ) -> (r: Self)
        ensures
            r.version == REML_VERSION,
            r.chain_id == TESSERAX_CHAIN_ID,
            r.batch_id == batch_id,
            r.verified_count == verified_count,
            r.requests_root == requests_root,
            r.verified_request_ids == verified_request_ids,
    {
        Self {
            version: REML_VERSION,
            chain_id: TESSERAX_CHAIN_ID,
            batch_id,
            verified_count,
            requests_root,
            verified_request_ids,
        }
    }
}

/// Complete proof bundle for on-chain submission.
#[derive(Clone, Debug)]
pub struct RemlProofBundle {
    /// Opaque serialized proof.
    pub proof: Vec<u8>,
    /// Public output values the proof commits to.
    pub output: RemlProofOutput,
    /// Hash of the verification key identifying the guest program.
    pub vkey_hash: [u8; 32],
    /// Seconds since the epoch when the proof was generated.
    pub generated_at: u64,
}

impl RemlProofBundle {
    /// Create a new proof bundle. The caller supplies the generation time,
    /// since reading a clock is outside this library.
    pub fn new(proof: Vec<u8>, output: RemlProofOutput, vkey_hash: [u8; 32], generated_at: u64) -> (r:
        Self)
        ensures
            r.proof == proof,
            r.output == output,
            r.vkey_hash == vkey_hash,
            r.generated_at == generated_at,
    {
        Self { proof, output, vkey_hash, generated_at }
    }

    /// Proof size in bytes.
    pub fn proof_size(&self) -> (r: usize)
        ensures
            r == self.proof@.len(),
    {
        self.proof.len()
    }
}

} // verus!
