use message_lane::relay::{
    make_client_state, make_messages_proof, parse_messages_weights, parse_nonce_response,
    select_nonces_to_relay, source_header_known_to_target, FlowEvent, FlowPhase, RelayFlow,
};
use message_lane::scale::{encode_lane_query, encode_payload, encode_weights_query};
use message_lane::types::{ClientState, HeaderId};
use parity_scale_codec::{Decode, Encode};

#[test]
fn payload_encoding_matches_reference_codec() {
    let payload = (7u64, 50u64);
    assert_eq!(encode_payload(&payload), payload.encode());
    let decoded: (u64, u64) = Decode::decode(&mut &encode_payload(&payload)[..]).unwrap();
    assert_eq!(decoded, payload);
}

#[test]
fn query_argument_bytes_are_exact() {
    assert_eq!(encode_lane_query(1), vec![1, 0, 0, 0]);
    assert_eq!(
        encode_weights_query(1, 2, 3),
        vec![
            1, 0, 0, 0, 2, 0, 0, 0, 0, 0, 0, 0, 3, 0, 0, 0, 0, 0, 0, 0,
        ],
    );
}

#[test]
fn nonce_response_parses_encoded_nonce() {
    let resp = 42u64.encode();
    assert_eq!(parse_nonce_response(&resp), Some(42));
    assert_eq!(parse_nonce_response(&vec![1, 2, 3]), None);
}

#[test]
fn client_state_is_read_from_peer_response() {
    let peer_hash = [0x11u8; 32];
    let resp = (7u64, peer_hash).encode();
    let cs = make_client_state(5, vec![0xAA; 32], &resp).unwrap();
    assert_eq!(cs.best_self.number, 5);
    assert_eq!(cs.best_self.hash, vec![0xAA; 32]);
    assert_eq!(cs.best_peer.number, 7);
    assert_eq!(cs.best_peer.hash, peer_hash.to_vec());
    assert_eq!(make_client_state(5, vec![0xAA; 32], &vec![0u8; 10]), None);
}

#[test]
fn race_check_compares_peer_header_number() {
    let cs = ClientState {
        best_self: HeaderId { number: 100, hash: vec![0; 32] },
        best_peer: HeaderId { number: 40, hash: vec![1; 32] },
    };
    assert!(source_header_known_to_target(&cs, 40));
    assert!(source_header_known_to_target(&cs, 39));
    assert!(!source_header_known_to_target(&cs, 41));
}

#[test]
fn weight_response_parses_contiguous_table() {
    let table = vec![(1u64, 10u64), (2, 20), (3, 30)];
    let resp = table.encode();
    assert_eq!(parse_messages_weights(1, 3, &resp), Some(table.clone()));
    assert_eq!(parse_messages_weights(2, 4, &resp), None);
    let gapped = vec![(1u64, 10u64), (3u64, 30u64)].encode();
    assert_eq!(parse_messages_weights(1, 2, &gapped), None);
    assert_eq!(parse_messages_weights(1, 3, &vec![0xFFu8; 2]), None);
}

#[test]
fn weight_response_short_of_the_range_is_rejected() {
    // A contiguous table that stops before the requested range end does
    // not cover the query and is rejected as a whole.
    let table = vec![(1u64, 10u64), (2, 20), (3, 30)];
    let resp = table.encode();
    assert_eq!(parse_messages_weights(1, 5, &resp), None);
    assert_eq!(parse_messages_weights(1, 2, &resp), None);
}

#[test]
fn nonce_selection_respects_weight_and_batch_bounds() {
    let weights = vec![(1u64, 10u64), (2, 20), (3, 30)];
    assert_eq!(select_nonces_to_relay(3, 0, 10, 30, &weights), Some((1, 2)));
    assert_eq!(select_nonces_to_relay(3, 0, 1, 1000, &weights), Some((1, 1)));
    assert_eq!(select_nonces_to_relay(3, 0, 10, 1000, &weights), Some((1, 3)));
    assert_eq!(select_nonces_to_relay(3, 0, 10, 5, &weights), None);
    assert_eq!(select_nonces_to_relay(0, 0, 10, 1000, &vec![]), None);
}

#[test]
fn proof_bundle_keeps_its_fields() {
    let bundle = make_messages_proof(60, vec![9; 32], vec![1, 2, 3], 1, 4, 5);
    assert_eq!(bundle.dispatch_weight, 60);
    assert_eq!(bundle.at_header_hash, vec![9; 32]);
    assert_eq!(bundle.storage_proof, vec![1, 2, 3]);
    assert_eq!(bundle.lane_id, 1);
    assert_eq!(bundle.begin, 4);
    assert_eq!(bundle.end, 5);
}

#[test]
fn flow_cycles_through_read_prove_submit() {
    let mut flow = RelayFlow::new(3, 4);
    assert_eq!(flow.phase, FlowPhase::ReadSource);
    flow.step(&FlowEvent::SourceNonce { latest_generated: 10 });
    assert_eq!(flow.phase, FlowPhase::ReadTarget { latest_generated: 10 });
    flow.step(&FlowEvent::TargetNonce { latest_received: 2 });
    assert_eq!(flow.phase, FlowPhase::Prove { begin: 3, end: 6 });
    flow.step(&FlowEvent::ProofReady);
    assert_eq!(flow.phase, FlowPhase::Submit { begin: 3, end: 6 });
    flow.step(&FlowEvent::Submitted);
    assert_eq!(flow.phase, FlowPhase::ReadSource);
}

#[test]
fn flow_idles_when_target_is_caught_up() {
    let mut flow = RelayFlow::new(3, 4);
    flow.step(&FlowEvent::SourceNonce { latest_generated: 5 });
    flow.step(&FlowEvent::TargetNonce { latest_received: 5 });
    assert_eq!(flow.phase, FlowPhase::ReadSource);
}

#[test]
fn connection_failure_reconnects_and_resumes() {
    let mut flow = RelayFlow::new(3, 4);
    flow.step(&FlowEvent::SourceNonce { latest_generated: 5 });
    flow.step(&FlowEvent::ConnectionFailed);
    assert_eq!(flow.phase, FlowPhase::Reconnecting);
    flow.step(&FlowEvent::Reconnected);
    assert_eq!(flow.phase, FlowPhase::ReadSource);
}

#[test]
fn protocol_failures_retry_bounded_then_surface() {
    let mut flow = RelayFlow::new(2, 4);
    flow.step(&FlowEvent::ProtocolFailed);
    assert_eq!(flow.phase, FlowPhase::ReadSource);
    assert_eq!(flow.retries_left, 1);
    flow.step(&FlowEvent::ProtocolFailed);
    assert_eq!(flow.retries_left, 0);
    flow.step(&FlowEvent::ProtocolFailed);
    assert_eq!(flow.phase, FlowPhase::Failed);
}
