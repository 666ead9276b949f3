//! The batch verification guest program: validate the protocol tags, verify
//! every request, and commit the verified identifiers under their Merkle
//! root. One productive path; a failing signature is excluded, never fatal.

use vstd::prelude::*;

use crate::merkle::{compute_merkle_root, spec_merkle_root};
use crate::mldsa::{spec_verify_mldsa, verify_mldsa_signature};
use crate::params::{REML_VERSION, TESSERAX_CHAIN_ID};
use crate::types::{RemlProofInput, RemlProofOutput, SignatureRequest};

verus! {

/// Why a guest run was aborted before producing any output.
#[derive(Clone, Copy, Debug, PartialEq, Eq, Structural)]
pub enum GuestError {
    /// The batch carries a protocol version other than the expected one.
    InvalidVersion,
    /// The batch carries a chain tag other than the expected one.
    InvalidChainId,
}

/// A request is counted exactly when its sizes are right and its signature
/// verifies.
pub open spec fn spec_request_accepted(r: SignatureRequest) -> bool {
    r.spec_valid_sizes() && spec_verify_mldsa(r.message@, r.public_key@, r.signature@)
}

/// The identifiers of the accepted requests, in submission order.
pub open spec fn spec_verified_ids(reqs: Seq<SignatureRequest>) -> Seq<u64>
    decreases reqs.len(),
{
    if reqs.len() == 0 {
        Seq::empty()
    } else {
        let rest = spec_verified_ids(reqs.drop_last());
        if spec_request_accepted(reqs.last()) {
            rest.push(reqs.last().request_id)
        } else {
            rest
        }
    }
}

/// Appending one request extends the accepted identifiers by its own
/// identifier exactly when it is accepted.
proof fn lemma_verified_ids_take(reqs: Seq<SignatureRequest>, n: int)
    requires
        0 <= n < reqs.len(),
    ensures
        spec_verified_ids(reqs.take(n + 1)) == if spec_request_accepted(reqs[n]) {
            spec_verified_ids(reqs.take(n)).push(reqs[n].request_id)
        } else {
            spec_verified_ids(reqs.take(n))
        },
{
    assert(reqs.take(n + 1).drop_last() =~= reqs.take(n));
    assert(reqs.take(n + 1).last() == reqs[n]);
}

/// Run the guest program over a batch: abort on a wrong protocol tag,
/// otherwise verify every request and commit the accepted identifiers in
/// submission order, together with their count and Merkle root.
pub fn run_batch(input: &RemlProofInput) -> (r: Result<RemlProofOutput, GuestError>)
    requires
        input.requests@.len() <= 0xFFFF_FFFF,
    ensures
        input.version != REML_VERSION ==> r == Result::<RemlProofOutput, GuestError>::Err(
            GuestError::InvalidVersion),
        input.version == REML_VERSION && input.chain_id != TESSERAX_CHAIN_ID ==> r
            == Result::<RemlProofOutput, GuestError>::Err(GuestError::InvalidChainId),
        r is Ok <==> input.version == REML_VERSION && input.chain_id == TESSERAX_CHAIN_ID,
        match r {
            Ok(out) => {
                &&& out.version == REML_VERSION
                &&& out.chain_id == TESSERAX_CHAIN_ID
                &&& out.batch_id == input.batch_id
                &&& out.verified_request_ids@ == spec_verified_ids(input.requests@)
                &&& out.verified_count == spec_verified_ids(input.requests@).len()
                &&& out.requests_root@ == spec_merkle_root(spec_verified_ids(input.requests@))
            },
            Err(_) => true,
        },
{
    if input.version != REML_VERSION {
        return Err(GuestError::InvalidVersion);
    }
    if input.chain_id != TESSERAX_CHAIN_ID {
        return Err(GuestError::InvalidChainId);
    }
    let mut verified_count: u32 = 0;
    let mut verified_request_ids: Vec<u64> = Vec::new();
    let mut i: usize = 0;
    while i < input.requests.len()
        invariant
            input.requests@.len() <= 0xFFFF_FFFF,
            i <= input.requests@.len(),
            verified_request_ids@ == spec_verified_ids(input.requests@.take(i as int)),
            verified_count == verified_request_ids@.len(),
        decreases input.requests@.len() - i,
    {
        let request = &input.requests[i];
        proof {
            lemma_verified_ids_take(input.requests@, i as int);
            lemma_verified_ids_len(input.requests@.take(i as int));
        }
        if request.validate_sizes() {
            if verify_mldsa_signature(
                request.message.as_slice(),
                request.public_key.as_slice(),
                request.signature.as_slice(),
            ) {
                verified_count = verified_count + 1;
                verified_request_ids.push(request.request_id);
            }
        }
        i = i + 1;
    }
    proof {
        assert(input.requests@.take(input.requests@.len() as int) =~= input.requests@);
    }
    let requests_root_vec = compute_merkle_root(&verified_request_ids);
    let mut requests_root = [0u8; 32];
    let mut b: usize = 0;
    while b < 32
        invariant
            requests_root_vec@.len() == 32,
            b <= 32,
            forall|m: int| 0 <= m < b ==> requests_root@[m] == requests_root_vec@[m],
        decreases 32 - b,
    {
        requests_root.set(b, requests_root_vec[b]);
        b = b + 1;
    }
    proof {
        assert(requests_root@ =~= requests_root_vec@);
    }
    Ok(RemlProofOutput::new(input.batch_id, verified_count, requests_root, verified_request_ids))
}

/// No more identifiers come out than requests went in.
proof fn lemma_verified_ids_len(reqs: Seq<SignatureRequest>)
    ensures
        spec_verified_ids(reqs).len() <= reqs.len(),
    decreases reqs.len(),
{
    if reqs.len() > 0 {
        lemma_verified_ids_len(reqs.drop_last());
    }
}

} // verus!
