//! Capability policies: pluggable admission, payment, trust and dispatch
//! rules that the lane state machines are polymorphic over. Each policy is
//! an independent trait; one concrete implementation exists per deployed
//! bridge pair.

use vstd::prelude::*;
use vstd::multiset::Multiset;
use crate::types::{
    AccountId, InboundLaneData, LaneId, MessageKey, MessageNonce, OutboundLaneData,
    TestMessageFee, TestPayload, TestRelayer, Weight,
};

verus! {

/// A delivery proof as the source chain sees it: either the proved
/// `(lane, inbound lane state)` pair, or an invalid blob.
pub type TestMessagesDeliveryProof = Result<(LaneId, InboundLaneData), ()>;

/// Messages proved to have been sent on one lane, together with the
/// outbound lane state at the proof's header, when the proof carries it.
#[derive(Clone, PartialEq, Eq, Debug)]
pub struct ProvedLaneMessages {
    /// Outbound lane state at the header the proof is anchored to.
    pub lane_state: Option<OutboundLaneData>,
    /// The proved messages, in increasing nonce order.
    pub messages: Vec<crate::types::Message>,
}

/// A message as handed to the dispatcher: payload already decoded, or
/// marked undecodable.
#[derive(PartialEq, Eq)]
pub struct DispatchMessage {
    /// Identity of the message.
    pub key: MessageKey,
    /// Decoded payload, or `Err` if the payload bytes did not decode.
    pub payload: Result<TestPayload, ()>,
    /// Fee paid for the message on the source chain.
    pub fee: TestMessageFee,
}

/// Source-chain trust in the target chain: validates outgoing payloads and
/// delivery proofs anchored to target-chain state the source ledger trusts.
pub trait TargetHeaderChain {
    /// Which payloads the target chain will accept.
    spec fn message_acceptable(&self, payload: TestPayload) -> bool;

    /// Which delivery proofs verify against trusted target-chain state.
    spec fn delivery_proof_valid(&self, pf: TestMessagesDeliveryProof) -> bool;

    /// The lane and inbound lane state a valid delivery proof describes.
    spec fn delivery_proof_contents(&self, pf: TestMessagesDeliveryProof)
        -> (LaneId, InboundLaneData);

    /// Admission gate for outgoing payloads.
    fn verify_message(&self, payload: &TestPayload) -> (r: Result<(), &'static str>)
        ensures
            r is Ok <==> self.message_acceptable(*payload),
    ;

    /// Cryptographic/consistency check of a delivery proof.
    fn verify_messages_delivery_proof(&self, pf: TestMessagesDeliveryProof)
        -> (r: Result<(LaneId, InboundLaneData), &'static str>)
        ensures
            r is Ok <==> self.delivery_proof_valid(pf),
            r is Ok ==> r->Ok_0 == self.delivery_proof_contents(pf),
    ;
}

/// Chain-specific admission rule for messages submitted to a lane.
pub trait LaneMessageVerifier {
    /// Which submissions the lane accepts.
    spec fn message_verified(
        &self,
        submitter: AccountId,
        fee: TestMessageFee,
        lane: LaneId,
        payload: TestPayload,
    ) -> bool;

    /// Admission gate run on every `append`.
    fn verify_message(
        &self,
        submitter: &AccountId,
        fee: &TestMessageFee,
        lane: &LaneId,
        payload: &TestPayload,
    ) -> (r: Result<(), &'static str>)
        ensures
            r is Ok <==> self.message_verified(*submitter, *fee, *lane, *payload),
    ;
}

/// Fee collection on append and reward payment on confirmation. The reward
/// ledger is the multiset of `(relayer, fee)` payments made so far; every
/// payment inserts exactly one element, which is what makes reward payment
/// exactly-once provable at the lane level.
pub trait MessageDeliveryAndDispatchPayment: Sized {
    /// Whether a fee payment by `submitter` would currently succeed.
    spec fn fee_accepted(&self, submitter: AccountId, fee: TestMessageFee) -> bool;

    /// All relayer rewards paid so far, as a multiset of `(relayer, fee)`.
    spec fn rewards(&self) -> Multiset<(TestRelayer, TestMessageFee)>;

    /// Debits the message fee from the submitter; called exactly once per
    /// accepted message.
    fn pay_delivery_and_dispatch_fee(
        &mut self,
        submitter: &AccountId,
        fee: &TestMessageFee,
    ) -> (r: Result<(), &'static str>)
        ensures
            r is Ok <==> old(self).fee_accepted(*submitter, *fee),
            final(self).rewards() == old(self).rewards(),
            !old(self).fee_accepted(*submitter, *fee) ==> *final(self) == *old(self),
            r is Ok ==> forall|s: AccountId, f: TestMessageFee|
                #[trigger] final(self).fee_accepted(s, f) == old(self).fee_accepted(s, f),
    ;

    /// Pays one delivery reward; called exactly once per newly confirmed
    /// nonce.
    fn pay_relayer_reward(
        &mut self,
        confirmation_relayer: &AccountId,
        relayer: &TestRelayer,
        fee: &TestMessageFee,
    )
        ensures
            final(self).rewards() == old(self).rewards().insert((*relayer, *fee)),
    ;
}

/// Target-chain trust in the source chain: validates message proofs
/// anchored to source-chain state the target ledger trusts.
pub trait SourceHeaderChain {
    /// The messages-proof type of the bridge pair.
    type MessagesProof;

    /// Which message proofs verify against trusted source-chain state.
    spec fn messages_proof_valid(&self, pf: Self::MessagesProof) -> bool;

    /// The per-lane message bundles a valid proof describes.
    spec fn proved_messages(&self, pf: Self::MessagesProof)
        -> Seq<(LaneId, ProvedLaneMessages)>;

    /// Cryptographic/consistency check of a messages proof.
    fn verify_messages_proof(&self, pf: Self::MessagesProof)
        -> (r: Result<Vec<(LaneId, ProvedLaneMessages)>, &'static str>)
        ensures
            r is Ok <==> self.messages_proof_valid(pf),
            r is Ok ==> (r->Ok_0)@ == self.proved_messages(pf),
    ;
}

/// Execution of delivered messages on the target chain.
pub trait MessageDispatch {
    /// Weight a message's dispatch will consume; a function of the message
    /// alone, never of dispatcher state.
    spec fn dispatch_weight_spec(&self, message: DispatchMessage) -> Weight;

    /// Keys of all messages dispatched so far, in dispatch order.
    spec fn dispatched(&self) -> Seq<MessageKey>;

    /// Pre-dispatch weight estimate used for budget accounting.
    fn dispatch_weight(&self, message: &DispatchMessage) -> (w: Weight)
        ensures
            w == self.dispatch_weight_spec(*message),
    ;

    /// Executes one delivered message; called exactly once per accepted
    /// nonce, in increasing nonce order.
    fn dispatch(&mut self, message: &DispatchMessage)
        ensures
            final(self).dispatched() == old(self).dispatched().push(message.key),
            forall|m: DispatchMessage| final(self).dispatch_weight_spec(m)
                == old(self).dispatch_weight_spec(m),
    ;
}

} // verus!
