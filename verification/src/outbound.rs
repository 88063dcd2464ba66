//! Outbound lane: the source-side ledger state machine. Holds undelivered
//! and unconfirmed messages, assigns strictly increasing nonces, pays
//! relayer rewards exactly once on confirmation, and prunes only messages
//! whose reward has been paid.

use vstd::prelude::*;
use vstd::multiset::Multiset;
use crate::policies::{
    LaneMessageVerifier, MessageDeliveryAndDispatchPayment, TargetHeaderChain,
    TestMessagesDeliveryProof,
};
use crate::scale::{encode_payload, payload_bytes};
use crate::types::{
    AccountId, Error, InboundLaneData, LaneId, MessageData, MessageNonce, OutboundLaneData,
    TestMessageFee, TestPayload, TestRelayer,
};

verus! {

/// The source-chain half of one lane, as an explicit owned state struct.
pub struct OutboundLane {
    /// Identity of the lane.
    pub lane_id: LaneId,
    /// Wire-visible nonce bookkeeping.
    pub data: OutboundLaneData,
    /// Stored, not yet pruned messages; the message at index `i` has nonce
    /// `data.oldest_unpruned_nonce + i`.
    pub messages: Vec<MessageData>,
    /// Backpressure bound: an append is rejected once this many appended
    /// messages are still unconfirmed.
    pub max_unconfirmed: u64,
}

impl OutboundLane {
    /// Internal consistency of the lane state.
    pub open spec fn wf(self) -> bool {
        &&& 1 <= self.data.oldest_unpruned_nonce
        &&& self.data.oldest_unpruned_nonce <= self.data.latest_received_nonce + 1
        &&& self.data.latest_received_nonce <= self.data.latest_generated_nonce
        &&& self.messages@.len() == self.data.latest_generated_nonce + 1
            - self.data.oldest_unpruned_nonce
    }

    /// The stored data of message `nonce`.
    pub open spec fn stored(self, nonce: MessageNonce) -> MessageData
        recommends
            self.data.oldest_unpruned_nonce <= nonce <= self.data.latest_generated_nonce,
    {
        self.messages@[nonce - self.data.oldest_unpruned_nonce]
    }

    /// An empty lane: nothing generated, nothing received, nothing stored.
    pub fn new(lane_id: LaneId, max_unconfirmed: u64) -> (r: OutboundLane)
        ensures
            r.wf(),
            r.lane_id == lane_id,
            r.max_unconfirmed == max_unconfirmed,
            r.data.latest_generated_nonce == 0,
            r.data.latest_received_nonce == 0,
            r.data.oldest_unpruned_nonce == 1,
            r.messages@ =~= Seq::<MessageData>::empty(),
    {
        OutboundLane {
            lane_id,
            data: OutboundLaneData {
                oldest_unpruned_nonce: 1,
                latest_received_nonce: 0,
                latest_generated_nonce: 0,
            },
            messages: Vec::new(),
            max_unconfirmed,
        }
    }

    /// Highest nonce ever appended; read-only query surface.
    pub fn latest_generated_nonce(&self) -> (r: MessageNonce)
        ensures
            r == self.data.latest_generated_nonce,
    {
        self.data.latest_generated_nonce
    }

    /// Highest nonce the target chain has confirmed; read-only query surface.
    pub fn latest_received_nonce(&self) -> (r: MessageNonce)
        ensures
            r == self.data.latest_received_nonce,
    {
        self.data.latest_received_nonce
    }

    /// Stored data of message `nonce`, while not yet pruned; read-only
    /// query surface.
    pub fn message(&self, nonce: MessageNonce) -> (r: Option<&MessageData>)
        requires
            self.wf(),
        ensures
            (self.data.oldest_unpruned_nonce <= nonce
                <= self.data.latest_generated_nonce) ==> (r matches Some(d) && *d
                == self.stored(nonce)),
            !(self.data.oldest_unpruned_nonce <= nonce
                <= self.data.latest_generated_nonce) ==> r is None,
    {
        if nonce >= self.data.oldest_unpruned_nonce && nonce
            <= self.data.latest_generated_nonce {
            let idx = nonce - self.data.oldest_unpruned_nonce;
            let mlen = self.messages.len();
            proof {
                assert(idx < mlen);
            }
            Some(&self.messages[idx as usize])
        } else {
            None
        }
    }

    /// Runs the admission policies and, on success, debits the fee, assigns
    /// the next nonce and stores the message.
    pub fn append<T: TargetHeaderChain, V: LaneMessageVerifier, P: MessageDeliveryAndDispatchPayment>(
        &mut self,
        chain: &T,
        verifier: &V,
        payment: &mut P,
        submitter: AccountId,
        fee: TestMessageFee,
        payload: TestPayload,
    ) -> (r: Result<MessageNonce, Error>)
        requires
            old(self).wf(),
        ensures
            final(self).wf(),
            append_spec(
                *old(self),
                *final(self),
                fee,
                payload,
                chain.message_acceptable(payload),
                verifier.message_verified(submitter, fee, old(self).lane_id, payload),
                old(payment).fee_accepted(submitter, fee),
                r,
            ),
            final(payment).rewards() == old(payment).rewards(),
            r is Err ==> *final(payment) == *old(payment),
            r is Ok ==> forall|s: AccountId, f: TestMessageFee|
                #[trigger] final(payment).fee_accepted(s, f) == old(payment).fee_accepted(
                    s,
                    f,
                ),
    {
        if chain.verify_message(&payload).is_err() {
            return Err(Error::AdmissionRejected);
        }
        if verifier.verify_message(&submitter, &fee, &self.lane_id, &payload).is_err() {
            return Err(Error::AdmissionRejected);
        }
        if self.data.latest_generated_nonce == u64::MAX {
            return Err(Error::ConfigurationOverflow);
        }
        if self.data.latest_generated_nonce - self.data.latest_received_nonce
            >= self.max_unconfirmed {
            return Err(Error::AdmissionRejected);
        }
        if payment.pay_delivery_and_dispatch_fee(&submitter, &fee).is_err() {
            return Err(Error::AdmissionRejected);
        }
        let nonce = self.data.latest_generated_nonce + 1;
        let stored = MessageData { payload: encode_payload(&payload), fee };
        self.messages.push(stored);
        self.data.latest_generated_nonce = nonce;
        Ok(nonce)
    }

    /// Verifies a delivery proof and advances the confirmed mark, paying
    /// each newly confirmed nonce's reward exactly once. Replaying a proof
    /// that reports no advance is a no-op, not an error.
    pub fn confirm_delivery<T: TargetHeaderChain, P: MessageDeliveryAndDispatchPayment>(
        &mut self,
        chain: &T,
        payment: &mut P,
        confirmation_relayer: AccountId,
        pf: TestMessagesDeliveryProof,
    ) -> (r: Result<Option<(MessageNonce, MessageNonce)>, Error>)
        requires
            old(self).wf(),
        ensures
            final(self).wf(),
            confirm_spec(
                *old(self),
                old(payment).rewards(),
                *final(self),
                final(payment).rewards(),
                chain.delivery_proof_valid(pf),
                chain.delivery_proof_contents(pf),
                r,
            ),
    {
        let verified = chain.verify_messages_delivery_proof(pf);
        let (lane_id, inbound_data) = match verified {
            Ok(v) => v,
            Err(_) => {
                return Err(Error::ProofInvalid);
            },
        };
        if lane_id != self.lane_id {
            return Err(Error::ProofInvalid);
        }
        if !inbound_data_consistent(&inbound_data) {
            return Err(Error::ProofInvalid);
        }
        if inbound_data.latest_received_nonce > self.data.latest_generated_nonce {
            return Err(Error::ProofInvalid);
        }
        if inbound_data.latest_confirmed_nonce > self.data.latest_received_nonce {
            return Err(Error::ProofInvalid);
        }
        if inbound_data.latest_received_nonce <= self.data.latest_received_nonce {
            return Ok(None);
        }
        let prev = self.data.latest_received_nonce;
        let new_confirmed = inbound_data.latest_received_nonce;
        let total = new_confirmed - prev;
        proof {
            assert(old(payment).rewards().add(Multiset::empty()) =~= old(
                payment,
            ).rewards());
        }
        let mut k: u64 = 0;
        while k < total
            invariant
                *self == *old(self),
                self.wf(),
                prev == self.data.latest_received_nonce,
                prev < new_confirmed <= self.data.latest_generated_nonce,
                total == new_confirmed - prev,
                k <= total,
                payment.rewards() == old(payment).rewards().add(
                    reward_set(*self, inbound_data.relayers@, prev, (prev + k) as u64),
                ),
            decreases total - k,
        {
            let n = prev + 1 + k;
            let idx = n - self.data.oldest_unpruned_nonce;
            let mlen = self.messages.len();
            proof {
                assert(idx < mlen);
            }
            let relayer = relayer_lookup(&inbound_data.relayers, n);
            let ghost pre_pay = payment.rewards();
            let fee = self.messages[idx as usize].fee;
            payment.pay_relayer_reward(&confirmation_relayer, &relayer, &fee);
            proof {
                broadcast use vstd::multiset::group_multiset_axioms;

                let rel = inbound_data.relayers@;
                assert(fee == self.stored(n).fee);
                assert(payment.rewards() == pre_pay.insert((relayer_of(rel, n), fee)));
                assert(reward_set(*self, rel, prev, n) =~= reward_set(
                    *self,
                    rel,
                    prev,
                    (prev + k) as u64,
                ).insert((relayer_of(rel, n), self.stored(n).fee)));
                assert(payment.rewards() =~= old(payment).rewards().add(
                    reward_set(*self, rel, prev, n),
                ));
            }
            k = k + 1;
        }
        self.data.latest_received_nonce = new_confirmed;
        Ok(Some((prev + 1, new_confirmed)))
    }

    /// Deletes up to `max` stored messages whose nonce is at or below the
    /// confirmed (and therefore rewarded) mark, oldest first; the per-call
    /// bound guarantees a constant upper bound of work per invocation.
    pub fn prune_messages(&mut self, max: u64) -> (pruned: u64)
        requires
            old(self).wf(),
        ensures
            final(self).wf(),
            pruned == prune_count(*old(self), max),
            final(self).data.oldest_unpruned_nonce == old(self).data.oldest_unpruned_nonce
                + pruned,
            final(self).messages@ == old(self).messages@.subrange(
                pruned as int,
                old(self).messages@.len() as int,
            ),
            final(self).data.latest_received_nonce == old(self).data.latest_received_nonce,
            final(self).data.latest_generated_nonce == old(self).data.latest_generated_nonce,
            final(self).lane_id == old(self).lane_id,
            final(self).max_unconfirmed == old(self).max_unconfirmed,
            final(self).data.oldest_unpruned_nonce
                <= old(self).data.latest_received_nonce + 1,
    {
        let prunable = self.data.latest_received_nonce - (self.data.oldest_unpruned_nonce
            - 1);
        let headroom = u64::MAX - self.data.oldest_unpruned_nonce;
        let mut count = if max < prunable {
            max
        } else {
            prunable
        };
        if count > headroom {
            count = headroom;
        }
        let ghost orig = *self;
        let mut i: u64 = 0;
        while i < count
            invariant
                i <= count,
                count == prune_count(orig, max),
                orig.wf(),
                count <= orig.messages@.len(),
                self.lane_id == orig.lane_id,
                self.max_unconfirmed == orig.max_unconfirmed,
                self.data.latest_received_nonce == orig.data.latest_received_nonce,
                self.data.latest_generated_nonce == orig.data.latest_generated_nonce,
                self.data.oldest_unpruned_nonce == orig.data.oldest_unpruned_nonce + i,
                self.messages@ =~= orig.messages@.subrange(
                    i as int,
                    orig.messages@.len() as int,
                ),
            decreases count - i,
        {
            self.messages.remove(0);
            self.data.oldest_unpruned_nonce = self.data.oldest_unpruned_nonce + 1;
            proof {
                assert(self.messages@ =~= orig.messages@.subrange(
                    i + 1,
                    orig.messages@.len() as int,
                ));
            }
            i = i + 1;
        }
        count
    }
}

/// How many messages one `prune_messages` call with bound `max` removes:
/// all confirmed stored messages, capped by the bound (and by the nonce
/// space when the last nonce is in use).
pub open spec fn prune_count(pre: OutboundLane, max: u64) -> u64 {
    let prunable = pre.data.latest_received_nonce + 1 - pre.data.oldest_unpruned_nonce;
    let capped = if max < prunable {
        max as int
    } else {
        prunable
    };
    let headroom = u64::MAX - pre.data.oldest_unpruned_nonce;
    if capped > headroom {
        headroom as u64
    } else {
        capped as u64
    }
}

/// Full behaviour of `append`, as a relation between the lane before and
/// after, the policies' verdicts, and the result.
pub open spec fn append_spec(
    pre: OutboundLane,
    post: OutboundLane,
    fee: TestMessageFee,
    payload: TestPayload,
    acceptable: bool,
    verified: bool,
    fee_ok: bool,
    r: Result<MessageNonce, Error>,
) -> bool {
    if !acceptable || !verified {
        &&& r == Err::<MessageNonce, Error>(Error::AdmissionRejected)
        &&& post == pre
    } else if pre.data.latest_generated_nonce == u64::MAX {
        &&& r == Err::<MessageNonce, Error>(Error::ConfigurationOverflow)
        &&& post == pre
    } else if pre.data.latest_generated_nonce - pre.data.latest_received_nonce
        >= pre.max_unconfirmed {
        &&& r == Err::<MessageNonce, Error>(Error::AdmissionRejected)
        &&& post == pre
    } else if !fee_ok {
        &&& r == Err::<MessageNonce, Error>(Error::AdmissionRejected)
        &&& post == pre
    } else {
        &&& r == Ok::<MessageNonce, Error>((pre.data.latest_generated_nonce + 1) as u64)
        &&& post.lane_id == pre.lane_id
        &&& post.max_unconfirmed == pre.max_unconfirmed
        &&& post.data.oldest_unpruned_nonce == pre.data.oldest_unpruned_nonce
        &&& post.data.latest_received_nonce == pre.data.latest_received_nonce
        &&& post.data.latest_generated_nonce == pre.data.latest_generated_nonce + 1
        &&& post.messages@ =~= pre.messages@.push(post.messages@.last())
        &&& post.messages@.last().fee == fee
        &&& post.messages@.last().payload@ == payload_bytes(payload)
    }
}

/// The relayer credited with delivering `nonce`: the entry of the first
/// range containing it, or relayer 0 where no range does.
pub open spec fn relayer_of(
    relayers: Seq<(MessageNonce, MessageNonce, TestRelayer)>,
    nonce: MessageNonce,
) -> TestRelayer
    decreases relayers.len(),
{
    if relayers.len() == 0 {
        0
    } else if relayers[0].0 <= nonce <= relayers[0].1 {
        relayers[0].2
    } else {
        relayer_of(relayers.drop_first(), nonce)
    }
}

/// The rewards owed for confirming nonces in `(lo, hi]`: for each such
/// nonce, one payment of its stored fee to its recorded relayer.
pub open spec fn reward_set(
    lane: OutboundLane,
    relayers: Seq<(MessageNonce, MessageNonce, TestRelayer)>,
    lo: MessageNonce,
    hi: MessageNonce,
) -> Multiset<(TestRelayer, TestMessageFee)>
    decreases hi - lo,
{
    if hi <= lo {
        Multiset::empty()
    } else {
        reward_set(lane, relayers, lo, (hi - 1) as u64).insert(
            (relayer_of(relayers, hi), lane.stored(hi).fee),
        )
    }
}

/// Which delivery proofs `confirm_delivery` accepts: a verifying proof for
/// this lane, describing consistent inbound state that neither confirms
/// beyond what was generated nor contradicts the source's own bookkeeping.
pub open spec fn confirm_acceptable(
    pre: OutboundLane,
    valid: bool,
    contents: (LaneId, InboundLaneData),
) -> bool {
    &&& valid
    &&& contents.0 == pre.lane_id
    &&& contents.1.wf()
    &&& contents.1.latest_received_nonce <= pre.data.latest_generated_nonce
    &&& contents.1.latest_confirmed_nonce <= pre.data.latest_received_nonce
}

/// Full behaviour of `confirm_delivery`, as a relation between the lane
/// and the reward ledger before and after, the proof's verdict and
/// contents, and the result.
pub open spec fn confirm_spec(
    pre: OutboundLane,
    pre_rewards: Multiset<(TestRelayer, TestMessageFee)>,
    post: OutboundLane,
    post_rewards: Multiset<(TestRelayer, TestMessageFee)>,
    valid: bool,
    contents: (LaneId, InboundLaneData),
    r: Result<Option<(MessageNonce, MessageNonce)>, Error>,
) -> bool {
    if !confirm_acceptable(pre, valid, contents) {
        &&& r == Err::<Option<(MessageNonce, MessageNonce)>, Error>(Error::ProofInvalid)
        &&& post == pre
        &&& post_rewards == pre_rewards
    } else if contents.1.latest_received_nonce <= pre.data.latest_received_nonce {
        &&& r == Ok::<Option<(MessageNonce, MessageNonce)>, Error>(None)
        &&& post == pre
        &&& post_rewards == pre_rewards
    } else {
        &&& r == Ok::<Option<(MessageNonce, MessageNonce)>, Error>(
            Some(
                (
                    (pre.data.latest_received_nonce + 1) as u64,
                    contents.1.latest_received_nonce,
                ),
            ),
        )
        &&& post.lane_id == pre.lane_id
        &&& post.max_unconfirmed == pre.max_unconfirmed
        &&& post.messages == pre.messages
        &&& post.data.oldest_unpruned_nonce == pre.data.oldest_unpruned_nonce
        &&& post.data.latest_generated_nonce == pre.data.latest_generated_nonce
        &&& post.data.latest_received_nonce == contents.1.latest_received_nonce
        &&& post_rewards == pre_rewards.add(
            reward_set(
                pre,
                contents.1.relayers@,
                pre.data.latest_received_nonce,
                contents.1.latest_received_nonce,
            ),
        )
    }
}

/// Runtime check of `InboundLaneData::wf`.
fn inbound_data_consistent(d: &InboundLaneData) -> (r: bool)
    ensures
        r == d.wf(),
{
    if d.latest_confirmed_nonce > d.latest_received_nonce {
        return false;
    }
    let len = d.relayers.len();
    if len == 0 {
        return d.latest_confirmed_nonce == d.latest_received_nonce;
    }
    if d.latest_confirmed_nonce == u64::MAX {
        return false;
    }
    if d.relayers[0].0 != d.latest_confirmed_nonce + 1 {
        return false;
    }
    if d.relayers[len - 1].1 != d.latest_received_nonce {
        return false;
    }
    let mut i: usize = 0;
    while i < len
        invariant
            i <= len,
            len == d.relayers@.len(),
            forall|j: int| 0 <= j < i ==> (#[trigger] d.relayers@[j]).0 <= d.relayers@[j].1,
            forall|j: int| 0 < j <= i && j < len ==> (#[trigger] d.relayers@[j]).0
                == d.relayers@[j - 1].1 + 1,
        decreases len - i,
    {
        let e = d.relayers[i];
        if e.0 > e.1 {
            return false;
        }
        if i + 1 < len {
            let next = d.relayers[i + 1];
            if e.1 == u64::MAX || next.0 != e.1 + 1 {
                return false;
            }
        }
        i = i + 1;
    }
    true
}

/// Finds the relayer credited with `nonce` in a range-to-relayer table.
fn relayer_lookup(
    relayers: &Vec<(MessageNonce, MessageNonce, TestRelayer)>,
    nonce: MessageNonce,
) -> (r: TestRelayer)
    ensures
        r == relayer_of(relayers@, nonce),
{
    proof {
        assert(relayers@.subrange(0, relayers@.len() as int) =~= relayers@);
    }
    let mut i: usize = 0;
    while i < relayers.len()
        invariant
            i <= relayers@.len(),
            relayer_of(relayers@, nonce) == relayer_of(
                relayers@.subrange(i as int, relayers@.len() as int),
                nonce,
            ),
        decreases relayers@.len() - i,
    {
        let e = relayers[i];
        if e.0 <= nonce && nonce <= e.1 {
            return e.2;
        }
        proof {
            assert(relayers@.subrange(i as int, relayers@.len() as int).drop_first()
                =~= relayers@.subrange(i + 1, relayers@.len() as int));
        }
        i = i + 1;
    }
    0
}

/// Law: pruning safety: a `prune_messages` call never removes a message
/// whose nonce is above the confirmed mark, so every removed message has
/// had its reward paid by the `confirm_delivery` call that advanced the
/// mark past it.
pub proof fn lemma_prune_safety(pre: OutboundLane, max: u64)
    requires
        pre.wf(),
    ensures
        pre.data.oldest_unpruned_nonce + prune_count(pre, max)
            <= pre.data.latest_received_nonce + 1,
{
}

/// Law: confirming the same reported nonce twice advances the state only
/// once; the second call is a no-op that pays nothing.
pub proof fn lemma_confirm_idempotent(
    pre: OutboundLane,
    pre_rewards: Multiset<(TestRelayer, TestMessageFee)>,
    mid: OutboundLane,
    mid_rewards: Multiset<(TestRelayer, TestMessageFee)>,
    post: OutboundLane,
    post_rewards: Multiset<(TestRelayer, TestMessageFee)>,
    valid: bool,
    contents: (LaneId, InboundLaneData),
    r1: Result<Option<(MessageNonce, MessageNonce)>, Error>,
    r2: Result<Option<(MessageNonce, MessageNonce)>, Error>,
)
    requires
        confirm_spec(pre, pre_rewards, mid, mid_rewards, valid, contents, r1),
        confirm_spec(mid, mid_rewards, post, post_rewards, valid, contents, r2),
        r1 is Ok,
    ensures
        r2 == Ok::<Option<(MessageNonce, MessageNonce)>, Error>(None),
        post == mid,
        post_rewards == mid_rewards,
{
}

/// Law: rewards are paid exactly once per nonce: confirming `(a, c]` in
/// two steps split at `b` pays exactly what confirming it in one step
/// pays, with no nonce rewarded twice and none missed.
pub proof fn lemma_reward_exactly_once(
    lane: OutboundLane,
    relayers: Seq<(MessageNonce, MessageNonce, TestRelayer)>,
    a: MessageNonce,
    b: MessageNonce,
    c: MessageNonce,
)
    requires
        a <= b <= c,
    ensures
        reward_set(lane, relayers, a, c) =~= reward_set(lane, relayers, a, b).add(
            reward_set(lane, relayers, b, c),
        ),
    decreases c - b,
{
    if c <= b {
        assert(reward_set(lane, relayers, b, c) =~= Multiset::empty());
    } else {
        lemma_reward_exactly_once(lane, relayers, a, b, (c - 1) as u64);
    }
}

/// Law: confirming `(lo, hi]` pays exactly `hi - lo` rewards: one per
/// newly confirmed nonce.
pub proof fn lemma_reward_set_len(
    lane: OutboundLane,
    relayers: Seq<(MessageNonce, MessageNonce, TestRelayer)>,
    lo: MessageNonce,
    hi: MessageNonce,
)
    requires
        lo <= hi,
    ensures
        reward_set(lane, relayers, lo, hi).len() == hi - lo,
    decreases hi - lo,
{
    if lo < hi {
        lemma_reward_set_len(lane, relayers, lo, (hi - 1) as u64);
    }
}

/// One step of a successful `append`: the nonce handed out and the new
/// generated mark are both one past the previous generated mark.
pub open spec fn append_ok_step(
    pre: OutboundLane,
    post: OutboundLane,
    nonce: MessageNonce,
) -> bool {
    &&& nonce == pre.data.latest_generated_nonce + 1
    &&& post.data.latest_generated_nonce == nonce
}

/// A successful `append` is an `append_ok_step`.
pub proof fn lemma_append_spec_ok_step(
    pre: OutboundLane,
    post: OutboundLane,
    fee: TestMessageFee,
    payload: TestPayload,
    acceptable: bool,
    verified: bool,
    fee_ok: bool,
    nonce: MessageNonce,
)
    requires
        append_spec(
            pre,
            post,
            fee,
            payload,
            acceptable,
            verified,
            fee_ok,
            Ok::<MessageNonce, Error>(nonce),
        ),
    ensures
        append_ok_step(pre, post, nonce),
{
}

/// Law: monotonic nonce assignment: any chain of successful appends
/// starting from an empty lane hands out the nonces 1, 2, 3, ... in
/// order, with no gap and no repeat.
pub proof fn lemma_append_nonces_sequential(
    lanes: Seq<OutboundLane>,
    nonces: Seq<MessageNonce>,
)
    requires
        lanes.len() == nonces.len() + 1,
        lanes[0].data.latest_generated_nonce == 0,
        forall|i: int| 0 <= i < nonces.len() ==> append_ok_step(
            lanes[i],
            lanes[i + 1],
            #[trigger] nonces[i],
        ),
    ensures
        forall|i: int| 0 <= i < nonces.len() ==> #[trigger] nonces[i] == i + 1,
{
    assert forall|i: int| 0 <= i < nonces.len() implies #[trigger] nonces[i] == i + 1 by {
        lemma_generated_counts_steps(lanes, nonces, i);
    }
}

/// After `k` successful appends from an empty lane, the generated mark is
/// exactly `k`.
proof fn lemma_generated_counts_steps(
    lanes: Seq<OutboundLane>,
    nonces: Seq<MessageNonce>,
    k: int,
)
    requires
        lanes.len() == nonces.len() + 1,
        lanes[0].data.latest_generated_nonce == 0,
        forall|i: int| 0 <= i < nonces.len() ==> append_ok_step(
            lanes[i],
            lanes[i + 1],
            #[trigger] nonces[i],
        ),
        0 <= k < nonces.len(),
    ensures
        lanes[k].data.latest_generated_nonce == k,
        nonces[k] == k + 1,
    decreases k,
{
    if k > 0 {
        lemma_generated_counts_steps(lanes, nonces, k - 1);
    }
}

} // verus!
