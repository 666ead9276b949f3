use reml::admission::{AggregatorInfo, Error, Event, Origin, Pallet, ProofSubmission,
    PublicValues};
use reml::guest::{run_batch, GuestError};
use reml::keccak::{shake256_32, shake256_64};
use reml::merkle::compute_merkle_root;
use reml::mldsa::verify_mldsa_signature;
use reml::params::{MLDSA_PUBLIC_KEY_SIZE, MLDSA_SIGNATURE_SIZE, REML_VERSION, TESSERAX_CHAIN_ID};
use reml::types::{RemlProofInput, SignatureRequest};

/// A public key whose packed commitment vector is all zero, under the given
/// expansion seed byte.
fn stub_public_key(seed_byte: u8) -> Vec<u8> {
    let mut pk = vec![0u8; MLDSA_PUBLIC_KEY_SIZE];
    for i in 0..32 {
        pk[i] = seed_byte;
    }
    pk
}

/// A signature this library's verifier accepts for the given key and
/// message: the response vector packs to zero, no hints are set, and the
/// challenge seed is the one the verifier re-derives for that shape.
fn stub_signature(pk: &[u8], message: &[u8; 32]) -> Vec<u8> {
    // tr = H(pk); mu = H(tr || message)
    let tr = shake256_64(pk);
    let mut mu_input = tr.clone();
    mu_input.extend_from_slice(message);
    let mu = shake256_64(&mu_input);
    // With a zero response and zero commitment vector, the recovered
    // high-order commitment encodes to 512 zero bytes.
    let mut c_input = mu.clone();
    c_input.extend_from_slice(&[0u8; 512]);
    let c_tilde = shake256_32(&c_input);

    let mut sig = Vec::with_capacity(MLDSA_SIGNATURE_SIZE);
    sig.extend_from_slice(&c_tilde);
    // 18-bit fields equal to the centering constant make every response
    // coefficient zero: bits 17, 35, 53 and 71 of each 9-byte group.
    let group: [u8; 9] = [0, 0, 0x02, 0, 0x08, 0, 0x20, 0, 0x80];
    for _ in 0..256 {
        sig.extend_from_slice(&group);
    }
    // No hints: all position and count bytes zero.
    sig.extend_from_slice(&[0u8; 84]);
    assert_eq!(sig.len(), MLDSA_SIGNATURE_SIZE);
    sig
}

fn stub_request(seed_byte: u8, request_id: u64) -> SignatureRequest {
    let pk = stub_public_key(seed_byte);
    let mut message = [0u8; 32];
    message[0..8].copy_from_slice(&request_id.to_le_bytes());
    let sig = stub_signature(&pk, &message);
    SignatureRequest::new(message, pk, sig, request_id)
}

#[test]
fn verify_accepts_stub_signature() {
    let req = stub_request(1, 0);
    assert!(verify_mldsa_signature(&req.message, &req.public_key, &req.signature));
}

#[test]
fn verify_is_deterministic() {
    let req = stub_request(1, 0);
    let first = verify_mldsa_signature(&req.message, &req.public_key, &req.signature);
    let second = verify_mldsa_signature(&req.message, &req.public_key, &req.signature);
    assert_eq!(first, second);
    assert!(first);

    let mut bad = req.signature.clone();
    bad[0] ^= 0xFF;
    let third = verify_mldsa_signature(&req.message, &req.public_key, &bad);
    let fourth = verify_mldsa_signature(&req.message, &req.public_key, &bad);
    assert_eq!(third, fourth);
    assert!(!third);
}

#[test]
fn verify_rejects_wrong_keypair() {
    // A signature valid for one key must fail under another key.
    let message = [42u8; 32];
    let pk1 = stub_public_key(1);
    let pk2 = stub_public_key(2);
    let sig = stub_signature(&pk1, &message);
    assert!(verify_mldsa_signature(&message, &pk1, &sig));
    assert!(!verify_mldsa_signature(&message, &pk2, &sig));
}

#[test]
fn verify_rejects_bit_flips() {
    let message = [7u8; 32];
    let pk = stub_public_key(3);
    let sig = stub_signature(&pk, &message);
    assert!(verify_mldsa_signature(&message, &pk, &sig));
    // A flip in the challenge seed, in the packed response, and in the hint
    // counts must each flip the verdict. (A byte the hint decoding never
    // reads, such as an unused position byte, cannot affect the outcome.)
    for &pos in [0usize, 500, 2419].iter() {
        let mut flipped = sig.clone();
        flipped[pos] ^= 0x01;
        assert!(!verify_mldsa_signature(&message, &pk, &flipped));
    }
}

#[test]
fn verify_rejects_wrong_sizes() {
    let message = [0u8; 32];
    assert!(!verify_mldsa_signature(&message, &vec![0u8; 100], &vec![0u8; MLDSA_SIGNATURE_SIZE]));
    assert!(!verify_mldsa_signature(&message, &vec![0u8; MLDSA_PUBLIC_KEY_SIZE], &vec![0u8; 99]));
}

fn scenario_a_input() -> RemlProofInput {
    let mut requests = Vec::new();
    for id in 0..10u64 {
        requests.push(stub_request(1, id));
    }
    RemlProofInput::new(requests, 42)
}

#[test]
fn guest_scenario_all_valid() {
    // Ten validly-signed requests with distinct identifiers.
    let input = scenario_a_input();
    let output = run_batch(&input).unwrap();
    assert_eq!(output.verified_count, 10);
    assert_eq!(output.verified_request_ids, (0..10u64).collect::<Vec<u64>>());
    let expected_root = compute_merkle_root(&(0..10u64).collect::<Vec<u64>>());
    assert_eq!(output.requests_root.to_vec(), expected_root);
    assert_eq!(output.version, REML_VERSION);
    assert_eq!(output.chain_id, TESSERAX_CHAIN_ID);
    assert_eq!(output.batch_id, 42);
}

#[test]
fn guest_scenario_one_corrupted() {
    // The request with identifier 3 carries a corrupted signature.
    let mut input = scenario_a_input();
    input.requests[3].signature[10] ^= 0xFF;
    let output = run_batch(&input).unwrap();
    assert_eq!(output.verified_count, 9);
    assert!(!output.verified_request_ids.contains(&3));
    let expected_ids: Vec<u64> = (0..10u64).filter(|&i| i != 3).collect();
    assert_eq!(output.verified_request_ids, expected_ids);
}

#[test]
fn guest_rejects_wrong_protocol() {
    let mut input = scenario_a_input();
    input.version = 99;
    assert!(matches!(run_batch(&input), Err(GuestError::InvalidVersion)));
    let mut input = scenario_a_input();
    input.chain_id = 1;
    assert!(matches!(run_batch(&input), Err(GuestError::InvalidChainId)));
}

fn scenario_a_submission() -> ProofSubmission {
    let output = run_batch(&scenario_a_input()).unwrap();
    ProofSubmission {
        batch_id: output.batch_id,
        proof: vec![0u8; 2000],
        public_values: PublicValues {
            version: output.version,
            chain_id: output.chain_id,
            batch_id: output.batch_id,
            verified_count: output.verified_count,
            requests_root: output.requests_root,
            verified_request_ids: output.verified_request_ids.clone(),
        },
        vkey_hash: [5u8; 32],
    }
}

#[test]
fn chain_scenario_accept_then_replay() {
    let mut pallet = Pallet::new([0u8; 32]);
    assert_eq!(pallet.register_aggregator(Origin::Root, 100, 1), Ok(()));
    let submission = scenario_a_submission();

    // Scenario: submission by an active aggregator is accepted.
    assert_eq!(pallet.submit_proof(Origin::Signed(100), submission.clone(), 5), Ok(()));
    assert!(pallet.is_request_verified(5));
    assert_eq!(pallet.get_verification_info(5), Some((42, 5)));
    let info: AggregatorInfo = pallet.aggregators(100).unwrap();
    assert_eq!(info.proofs_submitted, 1);
    assert!(info.active);
    let batch = pallet.verified_batches(42).unwrap();
    assert_eq!(batch.signature_count, 10);
    assert_eq!(batch.verified_at, 5);
    assert_eq!(pallet.total_proofs_verified(), 1);
    assert_eq!(pallet.total_signatures_verified(), 10);

    // Scenario: the same exact submission replayed is rejected and the
    // state is unchanged; the batch guard fires first.
    let events_before = pallet.events.len();
    assert_eq!(pallet.submit_proof(Origin::Signed(100), submission.clone(), 6),
        Err(Error::BatchAlreadyVerified));
    assert_eq!(pallet.total_proofs_verified(), 1);
    assert_eq!(pallet.events.len(), events_before);
    let info_after: AggregatorInfo = pallet.aggregators(100).unwrap();
    assert_eq!(info_after.proofs_submitted, 1);

    // Resubmitting under a fresh batch identifier with the public values
    // untouched is still rejected: the committed identifier no longer
    // matches the claimed one.
    let mut rebranded = submission.clone();
    rebranded.batch_id = 43;
    assert_eq!(pallet.submit_proof(Origin::Signed(100), rebranded, 7),
        Err(Error::InvalidPublicValues));
    assert_eq!(pallet.total_proofs_verified(), 1);
}

#[test]
fn chain_rejects_unregistered_aggregator() {
    let mut pallet = Pallet::new([0u8; 32]);
    let submission = scenario_a_submission();
    assert_eq!(pallet.submit_proof(Origin::Signed(999), submission, 5),
        Err(Error::NotAuthorized));
    assert_eq!(pallet.total_proofs_verified(), 0);
    assert!(pallet.events.is_empty());
}

#[test]
fn chain_rejects_deactivated_aggregator() {
    let mut pallet = Pallet::new([0u8; 32]);
    assert_eq!(pallet.register_aggregator(Origin::Root, 100, 1), Ok(()));
    assert_eq!(pallet.deactivate_aggregator(Origin::Root, 100), Ok(()));
    let submission = scenario_a_submission();
    assert_eq!(pallet.submit_proof(Origin::Signed(100), submission, 5),
        Err(Error::NotAuthorized));
}

#[test]
fn chain_registration_rules() {
    let mut pallet = Pallet::new([0u8; 32]);
    assert_eq!(pallet.register_aggregator(Origin::Signed(1), 100, 1), Err(Error::BadOrigin));
    assert_eq!(pallet.register_aggregator(Origin::Root, 100, 1), Ok(()));
    assert_eq!(pallet.register_aggregator(Origin::Root, 100, 2),
        Err(Error::AggregatorAlreadyRegistered));
    assert_eq!(pallet.deactivate_aggregator(Origin::Root, 200),
        Err(Error::AggregatorNotFound));
    assert!(pallet.is_aggregator(100));
    assert!(!pallet.is_aggregator(200));
    assert_eq!(pallet.events[0], Event::AggregatorRegistered { aggregator: 100 });
}

#[test]
fn chain_rejects_wrong_public_values_and_root() {
    let mut pallet = Pallet::new([0u8; 32]);
    assert_eq!(pallet.register_aggregator(Origin::Root, 100, 1), Ok(()));

    let mut wrong_version = scenario_a_submission();
    wrong_version.public_values.version = 9;
    assert_eq!(pallet.submit_proof(Origin::Signed(100), wrong_version, 5),
        Err(Error::InvalidPublicValues));

    let mut wrong_root = scenario_a_submission();
    wrong_root.public_values.requests_root[0] ^= 0xFF;
    assert_eq!(pallet.submit_proof(Origin::Signed(100), wrong_root, 5),
        Err(Error::InvalidMerkleRoot));

    let mut empty = scenario_a_submission();
    empty.public_values.verified_count = 0;
    empty.public_values.verified_request_ids = Vec::new();
    empty.public_values.requests_root = {
        let root = compute_merkle_root(&vec![]);
        let mut arr = [0u8; 32];
        arr.copy_from_slice(&root);
        arr
    };
    // An empty claim passes the root check but fails proof validity, which
    // is auditable through a rejection event.
    let events_before = pallet.events.len();
    assert_eq!(pallet.submit_proof(Origin::Signed(100), empty, 5),
        Err(Error::ProofVerificationFailed));
    assert_eq!(pallet.events.len(), events_before + 1);
}

#[test]
fn chain_enforces_configured_vkey() {
    let mut pallet = Pallet::new([9u8; 32]);
    assert_eq!(pallet.register_aggregator(Origin::Root, 100, 1), Ok(()));
    let mut submission = scenario_a_submission();
    submission.vkey_hash = [8u8; 32];
    assert_eq!(pallet.submit_proof(Origin::Signed(100), submission, 5),
        Err(Error::InvalidVKeyHash));
    let mut matching = scenario_a_submission();
    matching.vkey_hash = [9u8; 32];
    assert_eq!(pallet.submit_proof(Origin::Signed(100), matching, 5), Ok(()));
}

#[test]
fn guest_empty_batch() {
    let input = RemlProofInput::new(Vec::new(), 1);
    let output = run_batch(&input).unwrap();
    assert_eq!(output.verified_count, 0);
    assert!(output.verified_request_ids.is_empty());
    assert_eq!(output.requests_root, [0u8; 32]);
}

#[test]
fn chain_duplicate_request_ids_keep_one_entry() {
    // Duplicate identifiers inside one accepted batch: the ledger keeps a
    // single entry per identifier, the last write.
    let mut pallet = Pallet::new([0u8; 32]);
    assert_eq!(pallet.register_aggregator(Origin::Root, 100, 1), Ok(()));
    let ids = vec![1u64, 1, 2];
    let root = {
        let r = compute_merkle_root(&ids);
        let mut arr = [0u8; 32];
        arr.copy_from_slice(&r);
        arr
    };
    let submission = ProofSubmission {
        batch_id: 7,
        proof: vec![0u8; 2000],
        public_values: PublicValues {
            version: reml::params::REML_VERSION,
            chain_id: reml::params::TESSERAX_CHAIN_ID,
            batch_id: 7,
            verified_count: 3,
            requests_root: root,
            verified_request_ids: ids,
        },
        vkey_hash: [0u8; 32],
    };
    assert_eq!(pallet.submit_proof(Origin::Signed(100), submission, 4), Ok(()));
    assert!(pallet.is_request_verified(1));
    assert!(pallet.is_request_verified(2));
    assert_eq!(pallet.get_verification_info(1), Some((7, 4)));
    assert_eq!(pallet.verified_requests.len(), 2);
}
