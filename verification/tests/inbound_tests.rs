use message_lane::inbound::InboundLane;
use message_lane::mock::{
    message, regular_payload, TestMessageDispatch, TestMessagesProof, TestSourceHeaderChain,
    TEST_LANE_ID, TEST_RELAYER_A, TEST_RELAYER_B,
};
use message_lane::types::{Error, Message, MessageData, MessageKey, OutboundLaneData};

fn lane_message(lane: u32, nonce: u64) -> Message {
    Message {
        key: MessageKey { lane_id: lane, nonce },
        data: MessageData { payload: vec![], fee: 1 },
    }
}

#[test]
fn proof_groups_messages_by_lane() {
    let pf = TestMessagesProof::from(Ok(vec![
        lane_message(2, 1),
        lane_message(1, 1),
        lane_message(2, 2),
    ]));
    let groups = pf.result.unwrap();
    assert_eq!(groups.len(), 2);
    assert_eq!(groups[0].0, 1);
    assert_eq!(groups[0].1.messages, vec![lane_message(1, 1)]);
    assert!(groups[0].1.lane_state.is_none());
    assert_eq!(groups[1].0, 2);
    assert_eq!(groups[1].1.messages, vec![lane_message(2, 1), lane_message(2, 2)]);
}

#[test]
fn invalid_input_stays_invalid_proof() {
    let pf = TestMessagesProof::from(Err(()));
    assert!(pf.result.is_err());
}

#[test]
fn rejects_invalid_messages_proof() {
    let mut lane = InboundLane::new(TEST_LANE_ID);
    let mut dispatcher = TestMessageDispatch::new();
    let pf = TestMessagesProof::from(Err(()));
    let r = lane.receive_messages(&TestSourceHeaderChain, &mut dispatcher, TEST_RELAYER_A, pf, 1000);
    assert_eq!(r, Err(Error::ProofInvalid));
}

#[test]
fn rejects_out_of_order_batch_in_full() {
    let mut lane = InboundLane::new(TEST_LANE_ID);
    let mut dispatcher = TestMessageDispatch::new();
    let pf = TestMessagesProof::from(Ok(vec![
        message(2, regular_payload()),
        message(3, regular_payload()),
    ]));
    let r = lane.receive_messages(&TestSourceHeaderChain, &mut dispatcher, TEST_RELAYER_A, pf, 1000);
    assert_eq!(r, Err(Error::NonceOutOfOrder));
    assert_eq!(lane.latest_received_nonce(), 0);
    assert!(dispatcher.dispatched_keys.is_empty());
}

#[test]
fn out_of_order_batch_leaves_prior_progress_intact() {
    let mut lane = InboundLane::new(TEST_LANE_ID);
    let mut dispatcher = TestMessageDispatch::new();
    let first = TestMessagesProof::from(Ok(vec![
        message(1, regular_payload()),
        message(2, regular_payload()),
    ]));
    assert_eq!(
        lane.receive_messages(&TestSourceHeaderChain, &mut dispatcher, TEST_RELAYER_A, first, 1000),
        Ok(2),
    );
    let skewed = TestMessagesProof::from(Ok(vec![
        message(5, regular_payload()),
        message(6, regular_payload()),
    ]));
    assert_eq!(
        lane.receive_messages(&TestSourceHeaderChain, &mut dispatcher, TEST_RELAYER_A, skewed, 1000),
        Err(Error::NonceOutOfOrder),
    );
    assert_eq!(lane.latest_received_nonce(), 2);
    assert_eq!(lane.data.relayers, vec![(1, 2, TEST_RELAYER_A)]);
}

#[test]
fn weight_budget_allows_partial_batch() {
    // Five messages of weight 50 each, but budget for only three: the
    // batch is accepted partially and the tail is left for a later cycle.
    let mut lane = InboundLane::new(TEST_LANE_ID);
    let mut dispatcher = TestMessageDispatch::new();
    let pf = TestMessagesProof::from(Ok(vec![
        message(1, regular_payload()),
        message(2, regular_payload()),
        message(3, regular_payload()),
        message(4, regular_payload()),
        message(5, regular_payload()),
    ]));
    let r = lane.receive_messages(&TestSourceHeaderChain, &mut dispatcher, TEST_RELAYER_A, pf, 150);
    assert_eq!(r, Ok(3));
    assert_eq!(lane.latest_received_nonce(), 3);
    assert_eq!(dispatcher.dispatched_keys.len(), 3);

    // The undelivered tail is re-offered and accepted on the next cycle.
    let tail = TestMessagesProof::from(Ok(vec![
        message(4, regular_payload()),
        message(5, regular_payload()),
    ]));
    assert_eq!(
        lane.receive_messages(&TestSourceHeaderChain, &mut dispatcher, TEST_RELAYER_A, tail, 150),
        Ok(2),
    );
    assert_eq!(lane.latest_received_nonce(), 5);
}

#[test]
fn dispatcher_sees_each_message_once_in_order() {
    let mut lane = InboundLane::new(TEST_LANE_ID);
    let mut dispatcher = TestMessageDispatch::new();
    let pf = TestMessagesProof::from(Ok(vec![
        message(1, regular_payload()),
        message(2, regular_payload()),
    ]));
    lane.receive_messages(&TestSourceHeaderChain, &mut dispatcher, TEST_RELAYER_A, pf, 1000)
        .unwrap();
    let expected = vec![
        MessageKey { lane_id: TEST_LANE_ID, nonce: 1 },
        MessageKey { lane_id: TEST_LANE_ID, nonce: 2 },
    ];
    assert_eq!(dispatcher.dispatched_keys, expected);
}

#[test]
fn consecutive_batches_by_same_relayer_merge() {
    let mut lane = InboundLane::new(TEST_LANE_ID);
    let mut dispatcher = TestMessageDispatch::new();
    let first = TestMessagesProof::from(Ok(vec![message(1, regular_payload())]));
    let second = TestMessagesProof::from(Ok(vec![message(2, regular_payload())]));
    lane.receive_messages(&TestSourceHeaderChain, &mut dispatcher, TEST_RELAYER_A, first, 1000)
        .unwrap();
    lane.receive_messages(&TestSourceHeaderChain, &mut dispatcher, TEST_RELAYER_A, second, 1000)
        .unwrap();
    assert_eq!(lane.data.relayers, vec![(1, 2, TEST_RELAYER_A)]);

    let third = TestMessagesProof::from(Ok(vec![message(3, regular_payload())]));
    lane.receive_messages(&TestSourceHeaderChain, &mut dispatcher, TEST_RELAYER_B, third, 1000)
        .unwrap();
    assert_eq!(
        lane.data.relayers,
        vec![(1, 2, TEST_RELAYER_A), (3, 3, TEST_RELAYER_B)],
    );
}

#[test]
fn state_update_drops_confirmed_relayer_entries() {
    let mut lane = InboundLane::new(TEST_LANE_ID);
    let mut dispatcher = TestMessageDispatch::new();
    let first = TestMessagesProof::from(Ok(vec![
        message(1, regular_payload()),
        message(2, regular_payload()),
    ]));
    lane.receive_messages(&TestSourceHeaderChain, &mut dispatcher, TEST_RELAYER_A, first, 1000)
        .unwrap();
    // The source reports, piggybacked on the next delivery, that rewards
    // for nonces up to 2 have been paid.
    lane.receive_state_update(&OutboundLaneData {
        oldest_unpruned_nonce: 3,
        latest_received_nonce: 2,
        latest_generated_nonce: 3,
    });
    assert_eq!(lane.data.latest_confirmed_nonce, 2);
    assert!(lane.data.relayers.is_empty());
}
