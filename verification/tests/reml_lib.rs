use reml::codec::{parse_bundle, parse_output, parse_request, serialize_bundle, serialize_output,
    serialize_request};
use reml::merkle::{compute_merkle_root, compute_requests_root};
use reml::params::{MLDSA_PUBLIC_KEY_SIZE, MLDSA_SIGNATURE_SIZE, REML_VERSION, TESSERAX_CHAIN_ID};
use reml::types::{RemlProofBundle, RemlProofInput, RemlProofOutput, SignatureRequest};

#[test]
fn test_signature_request_validation() {
    let valid = SignatureRequest::new(
        [0u8; 32],
        vec![0u8; MLDSA_PUBLIC_KEY_SIZE],
        vec![0u8; MLDSA_SIGNATURE_SIZE],
        1,
    );
    assert!(valid.validate_sizes());

    let invalid = SignatureRequest::new(
        [0u8; 32],
        vec![0u8; 100], // Wrong size
        vec![0u8; MLDSA_SIGNATURE_SIZE],
        2,
    );
    assert!(!invalid.validate_sizes());
}

#[test]
fn test_merkle_root_single() {
    let root = compute_requests_root(&[1]);
    assert_ne!(root, [0u8; 32]);
}

#[test]
fn test_merkle_root_multiple() {
    let root1 = compute_requests_root(&[1, 2, 3]);
    let root2 = compute_requests_root(&[1, 2, 3]);
    let root3 = compute_requests_root(&[1, 3, 2]); // Different order

    assert_eq!(root1, root2); // Deterministic
    assert_ne!(root1, root3); // Order matters
}

#[test]
fn test_merkle_root_empty() {
    let root = compute_requests_root(&[]);
    assert_eq!(root, [0u8; 32]);
}

#[test]
fn test_roots_agree_across_sides() {
    // The guest-side and chain-side computations are one function; the
    // slice and vector entry points agree.
    let ids = vec![4u64, 5, 6, 7, 8];
    let a = compute_requests_root(&ids);
    let b = compute_merkle_root(&ids);
    assert_eq!(a.to_vec(), b);
}

#[test]
fn test_proof_input_creation() {
    let requests = vec![
        SignatureRequest::new([0u8; 32], vec![0u8; MLDSA_PUBLIC_KEY_SIZE],
                              vec![0u8; MLDSA_SIGNATURE_SIZE], 1),
        SignatureRequest::new([1u8; 32], vec![1u8; MLDSA_PUBLIC_KEY_SIZE],
                              vec![1u8; MLDSA_SIGNATURE_SIZE], 2),
    ];

    let input = RemlProofInput::new(requests, 42);

    assert_eq!(input.version, REML_VERSION);
    assert_eq!(input.chain_id, TESSERAX_CHAIN_ID);
    assert_eq!(input.batch_id, 42);
    assert_eq!(input.batch_size(), 2);
}

#[test]
fn test_request_serialization() {
    let request = SignatureRequest::new(
        [0u8; 32],
        vec![1u8; MLDSA_PUBLIC_KEY_SIZE],
        vec![2u8; MLDSA_SIGNATURE_SIZE],
        1,
    );

    let bytes = serialize_request(&request);
    let parsed = parse_request(&bytes).unwrap();

    assert_eq!(parsed.request_id, 1);
    assert_eq!(parsed.public_key.len(), MLDSA_PUBLIC_KEY_SIZE);
    assert_eq!(parsed.message, request.message);
    assert_eq!(parsed.public_key, request.public_key);
    assert_eq!(parsed.signature, request.signature);
}

#[test]
fn test_output_serialization_round_trip() {
    let output = RemlProofOutput::new(7, 3, [9u8; 32], vec![10, 20, 30]);
    let bytes = serialize_output(&output);
    let parsed = parse_output(&bytes).unwrap();

    assert_eq!(parsed.version, output.version);
    assert_eq!(parsed.chain_id, output.chain_id);
    assert_eq!(parsed.batch_id, 7);
    assert_eq!(parsed.verified_count, 3);
    assert_eq!(parsed.requests_root, [9u8; 32]);
    assert_eq!(parsed.verified_request_ids, vec![10, 20, 30]);
}

#[test]
fn test_bundle_serialization_round_trip() {
    let output = RemlProofOutput::new(5, 2, [3u8; 32], vec![8, 9]);
    let bundle = RemlProofBundle::new(vec![0xAB; 1200], output, [7u8; 32], 1_700_000_000);
    let bytes = serialize_bundle(&bundle);
    let parsed = parse_bundle(&bytes).unwrap();

    assert_eq!(parsed.proof, bundle.proof);
    assert_eq!(parsed.vkey_hash, [7u8; 32]);
    assert_eq!(parsed.generated_at, 1_700_000_000);
    assert_eq!(parsed.output.batch_id, 5);
    assert_eq!(parsed.output.verified_count, 2);
    assert_eq!(parsed.output.requests_root, [3u8; 32]);
    assert_eq!(parsed.output.verified_request_ids, vec![8, 9]);
}

#[test]
fn test_parse_rejects_truncated_request() {
    let request = SignatureRequest::new(
        [0u8; 32],
        vec![1u8; MLDSA_PUBLIC_KEY_SIZE],
        vec![2u8; MLDSA_SIGNATURE_SIZE],
        1,
    );
    let mut bytes = serialize_request(&request);
    bytes.pop();
    assert!(parse_request(&bytes).is_none());
}

#[test]
fn test_proof_bundle_accessors() {
    let output = RemlProofOutput::new(1, 0, [0u8; 32], vec![]);
    let bundle = RemlProofBundle::new(vec![0u8; 50_000], output, [0u8; 32], 0);
    assert_eq!(bundle.proof_size(), 50_000);
}

#[test]
fn test_request_raw_size() {
    let request = SignatureRequest::new(
        [0u8; 32],
        vec![0u8; MLDSA_PUBLIC_KEY_SIZE],
        vec![0u8; MLDSA_SIGNATURE_SIZE],
        1,
    );
    assert_eq!(request.raw_size(), 32 + MLDSA_PUBLIC_KEY_SIZE + MLDSA_SIGNATURE_SIZE + 8);
    let input = RemlProofInput::new(vec![request], 1);
    assert_eq!(input.raw_size(), 32 + MLDSA_PUBLIC_KEY_SIZE + MLDSA_SIGNATURE_SIZE + 8);
}
