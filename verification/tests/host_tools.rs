use reml::aggregator::{http_response, u64_to_string, AggregatorState, SubmitOutcome,
    handle_batch_info, handle_status};
use reml::params::{MLDSA_PUBLIC_KEY_SIZE, MLDSA_SIGNATURE_SIZE};
use reml::precompiles::{verify_commitment_structure, GetBatchInfoStandalone, IsRequestVerified,
    IsRequestVerifiedStandalone, TesseraxPrecompiles, VerifyStarkCommitment};
use reml::admission::{Origin, Pallet};
use reml::types::SignatureRequest;

#[test]
fn test_http_response() {
    let response = http_response(200, "OK", r#"{"test": true}"#);
    assert!(response.contains("HTTP/1.1 200 OK"));
    assert!(response.contains("Content-Type: application/json"));
    assert!(response.contains(r#"{"test": true}"#));
}

#[test]
fn test_verify_commitment_structure() {
    // Valid structure
    let vkey = [1u8; 32];
    let commitment = [2u8; 32];
    let proof = {
        let mut p = vec![0x01]; // Version byte
        p.extend([2u8; 32]); // Contains commitment
        p.extend([0u8; 100]); // Padding
        p
    };

    assert!(verify_commitment_structure(&vkey, &commitment, &proof));

    // Invalid: zero vkey
    let zero_vkey = [0u8; 32];
    assert!(!verify_commitment_structure(
        &zero_vkey,
        &commitment,
        &proof
    ));

    // Invalid: zero commitment
    let zero_commit = [0u8; 32];
    assert!(!verify_commitment_structure(&vkey, &zero_commit, &proof));

    // Invalid: short proof
    let short_proof = vec![0x01; 16];
    assert!(!verify_commitment_structure(
        &vkey,
        &commitment,
        &short_proof
    ));

    // Invalid: wrong version
    let bad_version = vec![0x99; 64];
    assert!(!verify_commitment_structure(
        &vkey,
        &commitment,
        &bad_version
    ));
}

fn valid_request(id: u64) -> SignatureRequest {
    SignatureRequest::new(
        [0u8; 32],
        vec![0u8; MLDSA_PUBLIC_KEY_SIZE],
        vec![0u8; MLDSA_SIGNATURE_SIZE],
        id,
    )
}

#[test]
fn collector_buffers_and_closes_batches() {
    let mut state = AggregatorState::new(2);

    let bad = SignatureRequest::new([0u8; 32], vec![0u8; 10], vec![0u8; 10], 7);
    assert!(matches!(state.handle_submit(bad), SubmitOutcome::Rejected));
    assert_eq!(state.pending_requests.len(), 0);

    match state.handle_submit(valid_request(1)) {
        SubmitOutcome::Accepted { pending } => assert_eq!(pending, 1),
        _ => panic!("expected the request to be buffered"),
    }
    match state.handle_submit(valid_request(2)) {
        SubmitOutcome::BatchReady { batch_id, input } => {
            assert_eq!(batch_id, 1);
            assert_eq!(input.batch_id, 1);
            assert_eq!(input.requests.len(), 2);
            assert_eq!(input.requests[0].request_id, 1);
            assert_eq!(input.requests[1].request_id, 2);
        },
        _ => panic!("expected the batch to close"),
    }
    assert_eq!(state.pending_requests.len(), 0);
    assert_eq!(state.batch_counter, 1);
}

#[test]
fn collector_status_bodies() {
    let mut state = AggregatorState::new(5);
    let _ = state.handle_submit(valid_request(11));
    let _ = state.handle_submit(valid_request(22));

    let status = handle_status(&state);
    assert!(status.contains("\"pending_requests\": 2"));
    assert!(status.contains("\"batch_size\": 5"));
    assert!(status.contains("\"batches_completed\": 0"));

    let batch = handle_batch_info(&state);
    assert!(batch.contains("\"pending_count\": 2"));
    assert!(batch.contains("[11, 22]"));
}

#[test]
fn decimal_formatting() {
    assert_eq!(u64_to_string(0), "0");
    assert_eq!(u64_to_string(7), "7");
    assert_eq!(u64_to_string(13817), "13817");
    assert_eq!(u64_to_string(u64::MAX), "18446744073709551615");
}

#[test]
fn precompile_queries() {
    let mut pallet = Pallet::new([0u8; 32]);
    let _ = pallet.register_aggregator(Origin::Root, 1, 1);

    // Request-status query against an empty ledger.
    let mut input = Vec::new();
    input.extend_from_slice(&5u64.to_le_bytes());
    let (out, gas) = IsRequestVerified::execute(&pallet, &input).unwrap();
    assert_eq!(gas, 10_000);
    assert_eq!(out, vec![0u8; 32]);

    // Short input is refused.
    assert!(IsRequestVerified::execute(&pallet, &[0u8; 4]).is_err());

    // Standalone variants always answer empty.
    let (out, _) = IsRequestVerifiedStandalone::execute(&input).unwrap();
    assert_eq!(out, vec![0u8; 32]);
    let (out, _) = GetBatchInfoStandalone::execute(&input).unwrap();
    assert_eq!(out, vec![0u8; 64]);

    // The commitment-check precompile wraps the structural check.
    let mut vs_input = Vec::new();
    vs_input.extend_from_slice(&[1u8; 32]);
    vs_input.extend_from_slice(&[2u8; 32]);
    vs_input.push(0x01);
    vs_input.extend_from_slice(&[2u8; 32]);
    vs_input.extend_from_slice(&[0u8; 100]);
    let (out, gas) = VerifyStarkCommitment::execute(&vs_input).unwrap();
    assert_eq!(gas, 50_000 + vs_input.len() as u64 * 100);
    assert_eq!(out[31], 1);

    // The address set.
    let _ = TesseraxPrecompiles::new();
    assert_eq!(TesseraxPrecompiles::used_addresses(), vec![1, 2, 3, 4, 5]);
    assert!(TesseraxPrecompiles::is_precompile(3));
    assert!(!TesseraxPrecompiles::is_precompile(6));
}
