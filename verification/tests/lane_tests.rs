use message_lane::inbound::InboundLane;
use message_lane::mock::{
    message, payload_rejected_by_target_chain, regular_payload, TestLaneMessageVerifier,
    TestMessageDeliveryAndDispatchPayment, TestMessageDispatch, TestMessagesProof,
    TestRuntime, TestSourceHeaderChain, TestTargetHeaderChain, MAX_MESSAGES_TO_PRUNE_AT_ONCE,
    TEST_LANE_ID, TEST_RELAYER_A, TEST_RELAYER_B,
};
use message_lane::outbound::OutboundLane;
use message_lane::policies::{
    LaneMessageVerifier, MessageDeliveryAndDispatchPayment, SourceHeaderChain,
    TargetHeaderChain,
};
use message_lane::mock::TEST_ERROR;
use message_lane::types::{Error, InboundLaneData, MessageData, OutboundLaneData};

fn test_lane() -> OutboundLane {
    let runtime = TestRuntime;
    OutboundLane::new(TEST_LANE_ID, runtime.max_unconfirmed_messages_at_inbound_lane())
}

fn append_one(
    lane: &mut OutboundLane,
    payment: &mut TestMessageDeliveryAndDispatchPayment,
    fee: u64,
) -> Result<u64, Error> {
    lane.append(
        &TestTargetHeaderChain,
        &TestLaneMessageVerifier,
        payment,
        1,
        fee,
        regular_payload(),
    )
}

#[test]
fn monotonic_nonce_assignment() {
    let mut lane = test_lane();
    let mut payment = TestMessageDeliveryAndDispatchPayment::new();
    for expected in 1..=10u64 {
        let nonce = append_one(&mut lane, &mut payment, 1).unwrap();
        assert_eq!(nonce, expected);
    }
    assert_eq!(lane.latest_generated_nonce(), 10);
}

#[test]
fn append_rejects_zero_fee() {
    let mut lane = test_lane();
    let mut payment = TestMessageDeliveryAndDispatchPayment::new();
    assert_eq!(append_one(&mut lane, &mut payment, 0), Err(Error::AdmissionRejected));
    assert_eq!(lane.latest_generated_nonce(), 0);
}

#[test]
fn append_rejects_payload_refused_by_target() {
    let mut lane = test_lane();
    let mut payment = TestMessageDeliveryAndDispatchPayment::new();
    let r = lane.append(
        &TestTargetHeaderChain,
        &TestLaneMessageVerifier,
        &mut payment,
        1,
        1,
        payload_rejected_by_target_chain(),
    );
    assert_eq!(r, Err(Error::AdmissionRejected));
}

#[test]
fn append_rejects_when_fee_payment_fails() {
    let mut lane = test_lane();
    let mut payment = TestMessageDeliveryAndDispatchPayment::new();
    payment.reject_payments();
    assert_eq!(append_one(&mut lane, &mut payment, 1), Err(Error::AdmissionRejected));
}

#[test]
fn append_records_fee_payment() {
    let mut lane = test_lane();
    let mut payment = TestMessageDeliveryAndDispatchPayment::new();
    append_one(&mut lane, &mut payment, 7).unwrap();
    assert!(payment.is_fee_paid(1, 7));
    assert!(!payment.is_fee_paid(1, 8));
}

#[test]
fn policy_rejections_carry_the_test_error() {
    assert_eq!(
        TestLaneMessageVerifier.verify_message(&1, &0, &TEST_LANE_ID, &regular_payload()),
        Err(TEST_ERROR),
    );
    assert_eq!(
        TestTargetHeaderChain.verify_message(&payload_rejected_by_target_chain()),
        Err(TEST_ERROR),
    );
    assert_eq!(
        TestTargetHeaderChain.verify_messages_delivery_proof(Err(())),
        Err(TEST_ERROR),
    );
    assert_eq!(
        TestSourceHeaderChain.verify_messages_proof(TestMessagesProof::from(Err(()))),
        Err(TEST_ERROR),
    );
    let mut payment = TestMessageDeliveryAndDispatchPayment::new();
    payment.reject_payments();
    assert_eq!(payment.pay_delivery_and_dispatch_fee(&1, &1), Err(TEST_ERROR));
    assert!(!payment.is_fee_paid(1, 1));
}

#[test]
fn accepted_fee_payment_is_recorded() {
    let mut payment = TestMessageDeliveryAndDispatchPayment::new();
    assert_eq!(payment.pay_delivery_and_dispatch_fee(&3, &9), Ok(()));
    assert!(payment.is_fee_paid(3, 9));
    assert!(!payment.is_fee_paid(3, 8));
}

#[test]
fn double_reward_payment_is_observable() {
    let mut payment = TestMessageDeliveryAndDispatchPayment::new();
    payment.pay_relayer_reward(&1, &TEST_RELAYER_A, &5);
    payment.pay_relayer_reward(&1, &TEST_RELAYER_A, &5);
    assert!(payment.is_reward_paid(TEST_RELAYER_A, 5));
    assert!(payment.is_reward_paid(TEST_RELAYER_A, 5));
    assert!(!payment.is_reward_paid(TEST_RELAYER_A, 5));
}

#[test]
fn backpressure_rejects_seventeenth_append() {
    let mut lane = test_lane();
    let mut payment = TestMessageDeliveryAndDispatchPayment::new();
    for _ in 0..16 {
        append_one(&mut lane, &mut payment, 1).unwrap();
    }
    assert_eq!(append_one(&mut lane, &mut payment, 1), Err(Error::AdmissionRejected));
    assert_eq!(lane.latest_generated_nonce(), 16);
}

#[test]
fn append_overflow_is_fatal() {
    let mut lane = OutboundLane {
        lane_id: TEST_LANE_ID,
        data: OutboundLaneData {
            oldest_unpruned_nonce: u64::MAX,
            latest_received_nonce: u64::MAX,
            latest_generated_nonce: u64::MAX,
        },
        messages: vec![MessageData { payload: vec![], fee: 1 }],
        max_unconfirmed: u64::MAX,
    };
    let mut payment = TestMessageDeliveryAndDispatchPayment::new();
    assert_eq!(append_one(&mut lane, &mut payment, 1), Err(Error::ConfigurationOverflow));
}

#[test]
fn stored_messages_are_queryable_until_pruned() {
    let mut lane = test_lane();
    let mut payment = TestMessageDeliveryAndDispatchPayment::new();
    append_one(&mut lane, &mut payment, 5).unwrap();
    let stored = lane.message(1).unwrap();
    assert_eq!(stored.fee, 5);
    assert_eq!(stored.payload, {
        let p = regular_payload();
        message_lane::scale::encode_payload(&p)
    });
    assert!(lane.message(0).is_none());
    assert!(lane.message(2).is_none());
}

#[test]
fn confirm_rejects_invalid_proof() {
    let mut lane = test_lane();
    let mut payment = TestMessageDeliveryAndDispatchPayment::new();
    let r = lane.confirm_delivery(&TestTargetHeaderChain, &mut payment, TEST_RELAYER_B, Err(()));
    assert_eq!(r, Err(Error::ProofInvalid));
}

#[test]
fn confirm_rejects_wrong_lane() {
    let mut lane = test_lane();
    let mut payment = TestMessageDeliveryAndDispatchPayment::new();
    let data = InboundLaneData {
        relayers: vec![],
        latest_received_nonce: 0,
        latest_confirmed_nonce: 0,
    };
    let r = lane.confirm_delivery(&TestTargetHeaderChain, &mut payment, TEST_RELAYER_B, Ok((9, data)));
    assert_eq!(r, Err(Error::ProofInvalid));
}

#[test]
fn confirm_rejects_unsent_nonces() {
    let mut lane = test_lane();
    let mut payment = TestMessageDeliveryAndDispatchPayment::new();
    append_one(&mut lane, &mut payment, 1).unwrap();
    let data = InboundLaneData {
        relayers: vec![(1, 2, TEST_RELAYER_A)],
        latest_received_nonce: 2,
        latest_confirmed_nonce: 0,
    };
    let r = lane.confirm_delivery(&TestTargetHeaderChain, &mut payment, TEST_RELAYER_B, Ok((TEST_LANE_ID, data)));
    assert_eq!(r, Err(Error::ProofInvalid));
}

#[test]
fn confirmation_is_idempotent() {
    let mut lane = test_lane();
    let mut payment = TestMessageDeliveryAndDispatchPayment::new();
    for _ in 0..3 {
        append_one(&mut lane, &mut payment, 1).unwrap();
    }
    let data = InboundLaneData {
        relayers: vec![(1, 3, TEST_RELAYER_A)],
        latest_received_nonce: 3,
        latest_confirmed_nonce: 0,
    };
    let r1 = lane.confirm_delivery(
        &TestTargetHeaderChain,
        &mut payment,
        TEST_RELAYER_B,
        Ok((TEST_LANE_ID, data.clone())),
    );
    assert_eq!(r1, Ok(Some((1, 3))));
    assert_eq!(lane.latest_received_nonce(), 3);
    let r2 = lane.confirm_delivery(
        &TestTargetHeaderChain,
        &mut payment,
        TEST_RELAYER_B,
        Ok((TEST_LANE_ID, data)),
    );
    assert_eq!(r2, Ok(None));
    assert_eq!(lane.latest_received_nonce(), 3);
    for _ in 0..3 {
        assert!(payment.is_reward_paid(TEST_RELAYER_A, 1));
    }
    assert!(!payment.is_reward_paid(TEST_RELAYER_A, 1));
}

#[test]
fn rewards_paid_exactly_once_under_overlap() {
    let mut lane = test_lane();
    let mut payment = TestMessageDeliveryAndDispatchPayment::new();
    for _ in 0..5 {
        append_one(&mut lane, &mut payment, 1).unwrap();
    }
    let first = InboundLaneData {
        relayers: vec![(1, 3, TEST_RELAYER_A)],
        latest_received_nonce: 3,
        latest_confirmed_nonce: 0,
    };
    let second = InboundLaneData {
        relayers: vec![(1, 5, TEST_RELAYER_A)],
        latest_received_nonce: 5,
        latest_confirmed_nonce: 0,
    };
    assert_eq!(
        lane.confirm_delivery(
            &TestTargetHeaderChain,
            &mut payment,
            TEST_RELAYER_B,
            Ok((TEST_LANE_ID, first)),
        ),
        Ok(Some((1, 3))),
    );
    assert_eq!(
        lane.confirm_delivery(
            &TestTargetHeaderChain,
            &mut payment,
            TEST_RELAYER_B,
            Ok((TEST_LANE_ID, second)),
        ),
        Ok(Some((4, 5))),
    );
    for _ in 0..5 {
        assert!(payment.is_reward_paid(TEST_RELAYER_A, 1));
    }
    assert!(!payment.is_reward_paid(TEST_RELAYER_A, 1));
}

#[test]
fn pruning_removes_only_confirmed_messages() {
    let mut lane = test_lane();
    let mut payment = TestMessageDeliveryAndDispatchPayment::new();
    for _ in 0..5 {
        append_one(&mut lane, &mut payment, 1).unwrap();
    }
    assert_eq!(lane.prune_messages(MAX_MESSAGES_TO_PRUNE_AT_ONCE), 0);
    let data = InboundLaneData {
        relayers: vec![(1, 2, TEST_RELAYER_A)],
        latest_received_nonce: 2,
        latest_confirmed_nonce: 0,
    };
    lane.confirm_delivery(&TestTargetHeaderChain, &mut payment, TEST_RELAYER_B, Ok((TEST_LANE_ID, data)))
        .unwrap();
    assert_eq!(lane.prune_messages(1), 1);
    assert_eq!(lane.data.oldest_unpruned_nonce, 2);
    assert_eq!(lane.prune_messages(MAX_MESSAGES_TO_PRUNE_AT_ONCE), 1);
    assert_eq!(lane.data.oldest_unpruned_nonce, 3);
    assert_eq!(lane.messages.len(), 3);
}

#[test]
fn full_round_trip_scenario() {
    // Source side: three appended messages get nonces 1, 2, 3.
    let mut source = test_lane();
    let mut payment = TestMessageDeliveryAndDispatchPayment::new();
    for expected in 1..=3u64 {
        assert_eq!(append_one(&mut source, &mut payment, 1), Ok(expected));
    }
    assert_eq!(source.latest_generated_nonce(), 3);

    // Target side: the batch is delivered within budget.
    let mut target = InboundLane::new(TEST_LANE_ID);
    let mut dispatcher = TestMessageDispatch::new();
    let pf = TestMessagesProof::from(Ok(vec![
        message(1, regular_payload()),
        message(2, regular_payload()),
        message(3, regular_payload()),
    ]));
    let dispatched = target
        .receive_messages(&TestSourceHeaderChain, &mut dispatcher, TEST_RELAYER_A, pf, 150)
        .unwrap();
    assert_eq!(dispatched, 3);
    assert_eq!(target.latest_received_nonce(), 3);
    assert_eq!(target.data.relayers, vec![(1, 3, TEST_RELAYER_A)]);

    // Source side again: the delivery is confirmed, rewards are paid, and
    // the messages become eligible for pruning.
    let r = source.confirm_delivery(
        &TestTargetHeaderChain,
        &mut payment,
        TEST_RELAYER_B,
        Ok((TEST_LANE_ID, target.data.clone())),
    );
    assert_eq!(r, Ok(Some((1, 3))));
    assert_eq!(source.latest_received_nonce(), 3);
    for _ in 0..3 {
        assert!(payment.is_reward_paid(TEST_RELAYER_A, 1));
    }
    assert_eq!(source.prune_messages(10), 3);
    assert_eq!(source.data.oldest_unpruned_nonce, 4);
}
