//! Concrete test implementations of the four capability policies, with
//! explicit owned state standing in for the chain runtime's ambient
//! storage, plus helpers to build messages and proofs.

use vstd::prelude::*;
use vstd::multiset::Multiset;
use crate::policies::{
    DispatchMessage, LaneMessageVerifier, MessageDeliveryAndDispatchPayment, MessageDispatch,
    ProvedLaneMessages, SourceHeaderChain, TargetHeaderChain, TestMessagesDeliveryProof,
};
use crate::scale::{encode_payload, payload_bytes};
use crate::types::{
    AccountId, InboundLaneData, LaneId, Message, MessageData, MessageKey, MessageNonce,
    TestMessageFee, TestPayload, TestRelayer, Weight,
};

verus! {

/// Lane used by the test bridge pair.
pub const TEST_LANE_ID: LaneId = 1;

/// Account id of the primary test relayer.
pub const TEST_RELAYER_A: AccountId = 100;

/// Account id of an additional test relayer.
pub const TEST_RELAYER_B: AccountId = 101;

/// Account id of a third test relayer.
pub const TEST_RELAYER_C: AccountId = 102;

/// Error returned by every test policy.
pub const TEST_ERROR: &'static str = "Test error";

/// Bound on messages pruned per call, in the test configuration.
pub const MAX_MESSAGES_TO_PRUNE_AT_ONCE: u64 = 10;

/// Backpressure bound of the test configuration.
pub const MAX_UNCONFIRMED_MESSAGES_AT_INBOUND_LANE: u64 = 16;

/// The regular, accepted test payload.
pub fn regular_payload() -> (r: TestPayload)
    ensures
        r == (0u64, 50u64),
{
    (0, 50)
}

/// The payload that `TestTargetHeaderChain` rejects.
pub fn payload_rejected_by_target_chain() -> (r: TestPayload)
    ensures
        r == (1u64, 50u64),
{
    (1, 50)
}

/// The test bridge-pair configuration, bundling the policy constants.
#[derive(Clone, Copy, PartialEq, Eq, Structural, Debug)]
pub struct TestRuntime;

impl TestRuntime {
    /// Bound on messages pruned per `prune_messages` call.
    pub fn max_messages_to_prune_at_once(&self) -> (r: u64)
        ensures
            r == MAX_MESSAGES_TO_PRUNE_AT_ONCE,
    {
        MAX_MESSAGES_TO_PRUNE_AT_ONCE
    }

    /// Backpressure bound of the outbound lane.
    pub fn max_unconfirmed_messages_at_inbound_lane(&self) -> (r: u64)
        ensures
            r == MAX_UNCONFIRMED_MESSAGES_AT_INBOUND_LANE,
    {
        MAX_UNCONFIRMED_MESSAGES_AT_INBOUND_LANE
    }
}

/// Target header chain used in tests: rejects one distinguished payload
/// and trusts exactly the delivery proofs marked valid.
pub struct TestTargetHeaderChain;

impl TargetHeaderChain for TestTargetHeaderChain {
    open spec fn message_acceptable(&self, payload: TestPayload) -> bool {
        payload != (1u64, 50u64)
    }

    open spec fn delivery_proof_valid(&self, pf: TestMessagesDeliveryProof) -> bool {
        pf is Ok
    }

    open spec fn delivery_proof_contents(&self, pf: TestMessagesDeliveryProof) -> (
        LaneId,
        InboundLaneData,
    ) {
        pf->Ok_0
    }

    fn verify_message(&self, payload: &TestPayload) -> (r: Result<(), &'static str>)
        ensures
            r matches Err(e) ==> e == TEST_ERROR,
    {
        if payload.0 == 1 && payload.1 == 50 {
            Err(TEST_ERROR)
        } else {
            Ok(())
        }
    }

    fn verify_messages_delivery_proof(&self, pf: TestMessagesDeliveryProof) -> (r: Result<
        (LaneId, InboundLaneData),
        &'static str,
    >)
        ensures
            r matches Err(e) ==> e == TEST_ERROR,
    {
        match pf {
            Ok(v) => Ok(v),
            Err(_) => Err(TEST_ERROR),
        }
    }
}

/// Lane message verifier used in tests: any nonzero fee is acceptable.
pub struct TestLaneMessageVerifier;

impl LaneMessageVerifier for TestLaneMessageVerifier {
    open spec fn message_verified(
        &self,
        submitter: AccountId,
        fee: TestMessageFee,
        lane: LaneId,
        payload: TestPayload,
    ) -> bool {
        fee != 0
    }

    fn verify_message(
        &self,
        submitter: &AccountId,
        fee: &TestMessageFee,
        lane: &LaneId,
        payload: &TestPayload,
    ) -> (r: Result<(), &'static str>)
        ensures
            r matches Err(e) ==> e == TEST_ERROR,
    {
        if *fee != 0 {
            Ok(())
        } else {
            Err(TEST_ERROR)
        }
    }
}

/// Fee and reward payment system used in tests, with an owned ledger in
/// place of the runtime's keyed storage.
pub struct TestMessageDeliveryAndDispatchPayment {
    /// When set, every fee payment is rejected.
    pub reject: bool,
    /// The most recent accepted fee payment.
    pub fee_record: Option<(AccountId, TestMessageFee)>,
    /// Every reward paid so far, in payment order. Each payment is a
    /// record of its own, deliberately not one flag per `(relayer, fee)`
    /// pair: a double payment stays observable as two records, which the
    /// exactly-once reward law depends on.
    pub rewards_paid: Vec<(TestRelayer, TestMessageFee)>,
}

impl TestMessageDeliveryAndDispatchPayment {
    /// A fresh payment system: accepting fees, nothing paid yet.
    pub fn new() -> (r: TestMessageDeliveryAndDispatchPayment)
        ensures
            !r.reject,
            r.fee_record is None,
            r.rewards() =~= Multiset::<(TestRelayer, TestMessageFee)>::empty(),
    {
        let r = TestMessageDeliveryAndDispatchPayment {
            reject: false,
            fee_record: None,
            rewards_paid: Vec::new(),
        };
        proof {
            r.rewards_paid@.to_multiset_ensures();
        }
        r
    }

    /// Rejects all fee payments from here on.
    pub fn reject_payments(&mut self)
        ensures
            final(self).reject,
            final(self).fee_record == old(self).fee_record,
            final(self).rewards_paid == old(self).rewards_paid,
    {
        self.reject = true;
    }

    /// Returns true if the given fee is the most recent one paid by the
    /// given submitter.
    pub fn is_fee_paid(&self, submitter: AccountId, fee: TestMessageFee) -> (r: bool)
        ensures
            r == (self.fee_record == Some((submitter, fee))),
    {
        match &self.fee_record {
            Some(p) => p.0 == submitter && p.1 == fee,
            None => false,
        }
    }

    /// Returns true if the given relayer has been rewarded with the given
    /// fee; one matching payment record is consumed by the call. Because
    /// payments are counted rather than flagged, paying the same reward
    /// twice answers true twice: a double payment is observable here.
    pub fn is_reward_paid(&mut self, relayer: TestRelayer, fee: TestMessageFee) -> (r:
        bool)
        ensures
            r == old(self).rewards().contains((relayer, fee)),
            r ==> final(self).rewards() == old(self).rewards().remove((relayer, fee)),
            !r ==> final(self).rewards() == old(self).rewards(),
            final(self).reject == old(self).reject,
            final(self).fee_record == old(self).fee_record,
    {
        proof {
            self.rewards_paid@.to_multiset_ensures();
        }
        let mut i: usize = 0;
        while i < self.rewards_paid.len()
            invariant
                *self == *old(self),
                i <= self.rewards_paid@.len(),
                forall|j: int| 0 <= j < i ==> #[trigger] self.rewards_paid@[j] != (
                relayer,
                fee,
                ),
            decreases self.rewards_paid@.len() - i,
        {
            let e = self.rewards_paid[i];
            if e.0 == relayer && e.1 == fee {
                let ghost before = self.rewards_paid@;
                self.rewards_paid.remove(i);
                proof {
                    before.to_multiset_ensures();
                    assert(before.contains((relayer, fee)));
                }
                return true;
            }
            i = i + 1;
        }
        proof {
            self.rewards_paid@.to_multiset_ensures();
            if self.rewards_paid@.to_multiset().contains((relayer, fee)) {
                assert(self.rewards_paid@.contains((relayer, fee)));
                let w = choose|j: int| 0 <= j < self.rewards_paid@.len()
                    && self.rewards_paid@[j] == (relayer, fee);
                assert(self.rewards_paid@[w] != (relayer, fee));
            }
        }
        false
    }
}

impl MessageDeliveryAndDispatchPayment for TestMessageDeliveryAndDispatchPayment {
    open spec fn fee_accepted(&self, submitter: AccountId, fee: TestMessageFee) -> bool {
        !self.reject
    }

    open spec fn rewards(&self) -> Multiset<(TestRelayer, TestMessageFee)> {
        self.rewards_paid@.to_multiset()
    }

    fn pay_delivery_and_dispatch_fee(
        &mut self,
        submitter: &AccountId,
        fee: &TestMessageFee,
    ) -> (r: Result<(), &'static str>)
        ensures
            r matches Err(e) ==> e == TEST_ERROR,
            r is Ok ==> final(self).fee_record == Some((*submitter, *fee)),
            final(self).reject == old(self).reject,
            final(self).rewards_paid == old(self).rewards_paid,
    {
        if self.reject {
            Err(TEST_ERROR)
        } else {
            self.fee_record = Some((*submitter, *fee));
            Ok(())
        }
    }

    fn pay_relayer_reward(
        &mut self,
        confirmation_relayer: &AccountId,
        relayer: &TestRelayer,
        fee: &TestMessageFee,
    ) {
        let ghost before = self.rewards_paid@;
        self.rewards_paid.push((*relayer, *fee));
        proof {
            before.to_multiset_ensures();
        }
    }
}

/// Messages proof used in tests: either the proved per-lane bundles, or an
/// invalid blob.
pub struct TestMessagesProof {
    /// The proof's verdict and contents.
    pub result: Result<Vec<(LaneId, ProvedLaneMessages)>, ()>,
}

/// The per-lane membership predicate used to group messages.
pub open spec fn lane_pred(lane: LaneId) -> spec_fn(Message) -> bool {
    |x: Message| x.key.lane_id == lane
}

/// Whether some group is for `lane`.
pub open spec fn lane_present(
    groups: Seq<(LaneId, ProvedLaneMessages)>,
    lane: LaneId,
) -> bool {
    exists|k: int| 0 <= k < groups.len() && (#[trigger] groups[k]).0 == lane
}

/// Group lane ids are strictly ascending.
pub open spec fn sorted_groups(groups: Seq<(LaneId, ProvedLaneMessages)>) -> bool {
    forall|k1: int, k2: int| 0 <= k1 < k2 < groups.len() ==> (#[trigger] groups[k1]).0
        < (#[trigger] groups[k2]).0
}

/// A grouping of messages by lane: lane ids strictly ascending, one group
/// for exactly the lanes that occur, each holding exactly its lane's
/// messages in input order, never empty, with no piggybacked lane state.
pub open spec fn grouped_by_lane(
    msgs: Seq<Message>,
    groups: Seq<(LaneId, ProvedLaneMessages)>,
) -> bool {
    &&& sorted_groups(groups)
    &&& (forall|k: int| 0 <= k < groups.len() ==> (#[trigger] groups[k]).1.messages@
        == msgs.filter(lane_pred(groups[k].0)))
    &&& (forall|k: int| 0 <= k < groups.len() ==> (#[trigger] groups[k]).1.messages@.len()
        > 0)
    &&& (forall|k: int| 0 <= k < groups.len() ==> (#[trigger] groups[k]).1.lane_state
        is None)
    &&& (forall|j: int| 0 <= j < msgs.len() ==> lane_present(
        groups,
        (#[trigger] msgs[j]).key.lane_id,
    ))
}

impl TestMessagesProof {
    /// Bundles loose messages into per-lane groups, lane ids ascending; an
    /// invalid input stays an invalid proof.
    pub fn from(result: Result<Vec<Message>, ()>) -> (r: TestMessagesProof)
        ensures
            result is Err ==> r.result is Err,
            result is Ok ==> r.result is Ok,
            result is Ok ==> grouped_by_lane(result->Ok_0@, (r.result->Ok_0)@),
    {
        let mut msgs = match result {
            Ok(m) => m,
            Err(_) => {
                return TestMessagesProof { result: Err(()) };
            },
        };
        let ghost all = msgs@;
        let mut groups: Vec<(LaneId, ProvedLaneMessages)> = Vec::new();
        let n = msgs.len();
        let mut j: usize = 0;
        proof {
            assert(all.take(0) =~= Seq::<Message>::empty());
            assert(all.skip(0) =~= all);
        }
        while j < n
            invariant
                j <= n,
                n == all.len(),
                msgs@ == all.skip(j as int),
                sorted_groups(groups@),
                forall|k: int| 0 <= k < groups@.len() ==> (#[trigger] groups@[k]).1
                    .messages@ == all.take(j as int).filter(lane_pred(groups@[k].0)),
                forall|k: int| 0 <= k < groups@.len() ==> (#[trigger] groups@[k]).1
                    .messages@.len() > 0,
                forall|k: int| 0 <= k < groups@.len() ==> (#[trigger] groups@[k]).1
                    .lane_state is None,
                forall|t: int| 0 <= t < j ==> lane_present(
                    groups@,
                    (#[trigger] all[t]).key.lane_id,
                ),
            decreases n - j,
        {
            let ghost prefix = all.take(j as int);
            let m = msgs.remove(0);
            proof {
                assert(m == all[j as int]);
                assert(msgs@ =~= all.skip(j + 1));
                assert(all.take(j + 1) =~= prefix.push(m));
            }
            let lane = m.key.lane_id;
            let (pos, found) = find_position(&groups, lane);
            if found {
                let ghost oldg = groups@;
                let mut g = groups.remove(pos);
                g.1.messages.push(m);
                groups.insert(pos, g);
                proof {
                    assert(groups@ =~= oldg.update(pos as int, groups@[pos as int]));
                    assert forall|k1: int, k2: int| 0 <= k1 < k2 < groups@.len() implies (
                    #[trigger] groups@[k1]).0 < (#[trigger] groups@[k2]).0 by {
                        assert(groups@[k1].0 == oldg[k1].0);
                        assert(groups@[k2].0 == oldg[k2].0);
                        assert(oldg[k1].0 < oldg[k2].0);
                    }
                    assert forall|k: int| 0 <= k < groups@.len() implies (
                    #[trigger] groups@[k]).1.messages@ == all.take(j + 1).filter(
                        lane_pred(groups@[k].0),
                    ) by {
                        lemma_filter_lane_push(prefix, m, groups@[k].0);
                        assert(all.take(j + 1) == prefix.push(m));
                        if k != pos {
                            assert(groups@[k] == oldg[k]);
                            if k < pos {
                                assert(oldg[k].0 < oldg[pos as int].0);
                            } else {
                                assert(oldg[pos as int].0 < oldg[k].0);
                            }
                            assert(m.key.lane_id != groups@[k].0);
                        } else {
                            assert(groups@[k].1.messages@ == oldg[k].1.messages@.push(
                                m,
                            ));
                            assert(groups@[k].0 == lane);
                        }
                    }
                    assert forall|t: int| 0 <= t < j + 1 implies lane_present(
                        groups@,
                        (#[trigger] all[t]).key.lane_id,
                    ) by {
                        if t == j {
                            assert(groups@[pos as int].0 == lane);
                        } else {
                            let lv = all[t].key.lane_id;
                            assert(lane_present(oldg, lv));
                            let w = choose|k: int| 0 <= k < oldg.len() && (
                            #[trigger] oldg[k]).0 == lv;
                            assert(groups@[w].0 == lv);
                        }
                    }
                }
            } else {
                let ghost oldg = groups@;
                let mut bundle: Vec<Message> = Vec::new();
                bundle.push(m);
                groups.insert(pos, (lane, ProvedLaneMessages { lane_state: None, messages: bundle }));
                proof {
                    let ghost newg = groups@[pos as int];
                    assert(groups@ == oldg.insert(pos as int, newg));
                    oldg.insert_ensures(pos as int, newg);
                    assert forall|t: int| 0 <= t < prefix.len() implies (
                    #[trigger] prefix[t]).key.lane_id != lane by {
                        assert(prefix[t] == all[t]);
                        if prefix[t].key.lane_id == lane {
                            assert(lane_present(oldg, lane));
                            let w = choose|k: int| 0 <= k < oldg.len() && (
                            #[trigger] oldg[k]).0 == lane;
                            if w < pos {
                                assert(oldg[w].0 < lane);
                            } else {
                                assert(oldg[w].0 > lane);
                            }
                        }
                    }
                    lemma_absent_filter_empty(prefix, lane);
                    assert forall|k1: int, k2: int| 0 <= k1 < k2 < groups@.len() implies (
                    #[trigger] groups@[k1]).0 < (#[trigger] groups@[k2]).0 by {
                        if k1 < pos {
                            assert(groups@[k1] == oldg[k1]);
                        } else if k1 > pos {
                            assert(groups@[k1] == oldg[k1 - 1]);
                        }
                        if k2 < pos {
                            assert(groups@[k2] == oldg[k2]);
                        } else if k2 > pos {
                            assert(groups@[k2] == oldg[k2 - 1]);
                        }
                        if k1 < pos && k2 == pos {
                            assert(oldg[k1].0 < lane);
                        } else if k1 == pos && k2 > pos {
                            assert(oldg[k2 - 1].0 > lane);
                        } else if k1 < pos && k2 > pos {
                            assert(oldg[k1].0 < lane);
                            assert(oldg[k2 - 1].0 > lane);
                        } else if k1 > pos {
                            assert(oldg[k1 - 1].0 < oldg[k2 - 1].0);
                        } else {
                            assert(oldg[k1].0 < oldg[k2].0);
                        }
                    }
                    assert forall|k: int| 0 <= k < groups@.len() implies (
                    #[trigger] groups@[k]).1.messages@ == all.take(j + 1).filter(
                        lane_pred(groups@[k].0),
                    ) by {
                        lemma_filter_lane_push(prefix, m, groups@[k].0);
                        assert(all.take(j + 1) == prefix.push(m));
                        if k == pos {
                            assert(groups@[k].0 == lane);
                            assert(groups@[k].1.messages@ =~= Seq::<Message>::empty().push(
                                m,
                            ));
                            assert(prefix.filter(lane_pred(lane)) == Seq::<
                                Message,
                            >::empty());
                        } else {
                            let ko = if k < pos {
                                k
                            } else {
                                k - 1
                            };
                            assert(groups@[k] == oldg[ko]);
                            if ko < pos {
                                assert(oldg[ko].0 < lane);
                            } else {
                                assert(oldg[ko].0 > lane);
                            }
                            assert(m.key.lane_id != groups@[k].0);
                        }
                    }
                    assert forall|k: int| 0 <= k < groups@.len() implies (
                    #[trigger] groups@[k]).1.lane_state is None by {
                        if k != pos {
                            let ko = if k < pos {
                                k
                            } else {
                                k - 1
                            };
                            assert(groups@[k] == oldg[ko]);
                        }
                    }
                    assert forall|t: int| 0 <= t < j + 1 implies lane_present(
                        groups@,
                        (#[trigger] all[t]).key.lane_id,
                    ) by {
                        if t == j {
                            assert(groups@[pos as int].0 == lane);
                        } else {
                            let lv = all[t].key.lane_id;
                            assert(lane_present(oldg, lv));
                            let w = choose|k: int| 0 <= k < oldg.len() && (
                            #[trigger] oldg[k]).0 == lv;
                            if w < pos {
                                assert(groups@[w].0 == lv);
                            } else {
                                assert(groups@[w + 1] == oldg[w]);
                                assert(groups@[w + 1].0 == lv);
                            }
                        }
                    }
                }
            }
            j = j + 1;
        }
        proof {
            assert(all.take(n as int) =~= all);
        }
        TestMessagesProof { result: Ok(groups) }
    }
}

/// Finds where `lane` stands in the sorted groups: the index of its
/// bundle when one exists, else the insertion position that keeps the
/// lane ids ascending.
fn find_position(groups: &Vec<(LaneId, ProvedLaneMessages)>, lane: LaneId) -> (r: (
    usize,
    bool,
))
    requires
        sorted_groups(groups@),
    ensures
        r.0 <= groups@.len(),
        forall|k: int| 0 <= k < r.0 ==> (#[trigger] groups@[k]).0 < lane,
        r.1 ==> r.0 < groups@.len() && groups@[r.0 as int].0 == lane,
        !r.1 ==> forall|k: int| r.0 <= k < groups@.len() ==> (#[trigger] groups@[k]).0
            > lane,
{
    let len = groups.len();
    let mut i: usize = 0;
    while i < len && groups[i].0 < lane
        invariant
            i <= len,
            len == groups@.len(),
            forall|k: int| 0 <= k < i ==> (#[trigger] groups@[k]).0 < lane,
        decreases len - i,
    {
        i = i + 1;
    }
    if i < len && groups[i].0 == lane {
        (i, true)
    } else {
        proof {
            assert forall|k: int| i <= k < groups@.len() implies (#[trigger] groups@[k]).0
                > lane by {
                if k > i {
                    assert(groups@[i as int].0 < groups@[k].0);
                }
            }
        }
        (i, false)
    }
}

/// Filtering a sequence extended by one message keeps the old matches and
/// appends the new message exactly when it is on the filtered lane.
proof fn lemma_filter_lane_push(s: Seq<Message>, m: Message, lane: LaneId)
    ensures
        m.key.lane_id == lane ==> s.push(m).filter(lane_pred(lane)) == s.filter(
            lane_pred(lane),
        ).push(m),
        m.key.lane_id != lane ==> s.push(m).filter(lane_pred(lane)) == s.filter(
            lane_pred(lane),
        ),
{
    reveal_with_fuel(Seq::filter, 2);
    let pushed = s.push(m);
    assert(pushed.drop_last() =~= s);
    assert(pushed.last() == m);
}

/// A lane that never appears in a sequence has an empty filtered view.
proof fn lemma_absent_filter_empty(s: Seq<Message>, lane: LaneId)
    requires
        forall|t: int| 0 <= t < s.len() ==> (#[trigger] s[t]).key.lane_id != lane,
    ensures
        s.filter(lane_pred(lane)) =~= Seq::<Message>::empty(),
    decreases s.len(),
{
    reveal_with_fuel(Seq::filter, 2);
    if s.len() > 0 {
        assert forall|t: int| 0 <= t < s.drop_last().len() implies (
        #[trigger] s.drop_last()[t]).key.lane_id != lane by {
            assert(s[t].key.lane_id != lane);
        }
        lemma_absent_filter_empty(s.drop_last(), lane);
        assert(s.drop_last().push(s.last()) =~= s);
        assert(s.last().key.lane_id != lane);
        lemma_filter_lane_push(s.drop_last(), s.last(), lane);
    }
}

/// Source header chain used in tests: trusts exactly the message proofs
/// marked valid.
pub struct TestSourceHeaderChain;

impl SourceHeaderChain for TestSourceHeaderChain {
    type MessagesProof = TestMessagesProof;

    open spec fn messages_proof_valid(&self, pf: TestMessagesProof) -> bool {
        pf.result is Ok
    }

    open spec fn proved_messages(&self, pf: TestMessagesProof) -> Seq<
        (LaneId, ProvedLaneMessages),
    > {
        (pf.result->Ok_0)@
    }

    fn verify_messages_proof(&self, pf: TestMessagesProof) -> (r: Result<
        Vec<(LaneId, ProvedLaneMessages)>,
        &'static str,
    >)
        ensures
            r matches Err(e) ==> e == TEST_ERROR,
    {
        match pf.result {
            Ok(v) => Ok(v),
            Err(_) => Err(TEST_ERROR),
        }
    }
}

/// Message dispatcher used in tests: weight is the second payload half,
/// execution only records the key.
pub struct TestMessageDispatch {
    /// Keys of every dispatched message, in dispatch order.
    pub dispatched_keys: Vec<MessageKey>,
}

impl TestMessageDispatch {
    /// A fresh dispatcher with an empty ledger.
    pub fn new() -> (r: TestMessageDispatch)
        ensures
            r.dispatched() =~= Seq::<MessageKey>::empty(),
    {
        TestMessageDispatch { dispatched_keys: Vec::new() }
    }
}

impl MessageDispatch for TestMessageDispatch {
    open spec fn dispatch_weight_spec(&self, message: DispatchMessage) -> Weight {
        match message.payload {
            Ok(p) => p.1,
            Err(_) => 0,
        }
    }

    open spec fn dispatched(&self) -> Seq<MessageKey> {
        self.dispatched_keys@
    }

    fn dispatch_weight(&self, message: &DispatchMessage) -> (w: Weight) {
        match &message.payload {
            Ok(p) => p.1,
            Err(_) => 0,
        }
    }

    fn dispatch(&mut self, message: &DispatchMessage) {
        self.dispatched_keys.push(message.key);
    }
}

/// A test lane message with the given nonce and payload, on the test lane.
pub fn message(nonce: MessageNonce, payload: TestPayload) -> (r: Message)
    ensures
        r.key.lane_id == TEST_LANE_ID,
        r.key.nonce == nonce,
        r.data.fee == 1,
        r.data.payload@ == payload_bytes(payload),
{
    Message {
        key: MessageKey { lane_id: TEST_LANE_ID, nonce },
        data: message_data(payload),
    }
}

/// Message data with a valid fee for the given payload.
pub fn message_data(payload: TestPayload) -> (r: MessageData)
    ensures
        r.fee == 1,
        r.payload@ == payload_bytes(payload),
{
    MessageData { payload: encode_payload(&payload), fee: 1 }
}

} // verus!
