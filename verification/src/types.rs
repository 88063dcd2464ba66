//! Core data model: lanes, messages, nonces, header identifiers and errors.

use vstd::prelude::*;

verus! {

/// Identifier of an independent message stream between the two chains.
pub type LaneId = u32;

/// Per-lane message sequence number; strictly increasing from 1, no gaps.
pub type MessageNonce = u64;

/// Resource-cost unit bounding the execution of dispatched messages.
pub type Weight = u64;

/// Account identifier on either chain.
pub type AccountId = u64;

/// Relayer identity credited with delivering a message batch.
pub type TestRelayer = u64;

/// Fee paid by the submitter of an outbound message.
pub type TestMessageFee = u64;

/// Application payload as submitted to the outbound lane: an identifier and
/// the weight its dispatch will consume on the target chain.
pub type TestPayload = (u64, Weight);

/// Unique identity of a message: the lane it travels on and its nonce.
#[derive(Clone, Copy, PartialEq, Eq, Structural, Debug)]
pub struct MessageKey {
    /// Lane the message belongs to.
    pub lane_id: LaneId,
    /// Position of the message in the lane.
    pub nonce: MessageNonce,
}

/// Payload bytes and fee of a stored message.
#[derive(Clone, PartialEq, Eq, Debug)]
pub struct MessageData {
    /// Encoded application payload.
    pub payload: Vec<u8>,
    /// Fee paid by the submitter, rewarded to the delivering relayer.
    pub fee: TestMessageFee,
}

/// A message owned by the outbound lane from creation until pruned.
#[derive(Clone, PartialEq, Eq, Debug)]
pub struct Message {
    /// Identity of the message.
    pub key: MessageKey,
    /// Payload and fee.
    pub data: MessageData,
}

/// Wire-visible state of the source-chain half of a lane.
#[derive(Clone, PartialEq, Eq, Structural, Debug)]
pub struct OutboundLaneData {
    /// Nonce of the oldest message still stored by the lane.
    pub oldest_unpruned_nonce: MessageNonce,
    /// Highest nonce the target chain has confirmed receipt of.
    pub latest_received_nonce: MessageNonce,
    /// Highest nonce ever appended to the lane.
    pub latest_generated_nonce: MessageNonce,
}

/// Wire-visible state of the target-chain half of a lane: delivery and
/// reward bookkeeping.
#[derive(Clone, PartialEq, Eq, Debug)]
pub struct InboundLaneData {
    /// Disjoint, contiguous, strictly increasing nonce ranges, each credited
    /// to the relayer that delivered it; covers exactly
    /// `(latest_confirmed_nonce, latest_received_nonce]`.
    pub relayers: Vec<(MessageNonce, MessageNonce, TestRelayer)>,
    /// Highest nonce this chain has accepted and dispatched.
    pub latest_received_nonce: MessageNonce,
    /// Highest nonce whose delivery reward is known to have been paid on the
    /// source side; relayer entries at or below it have been dropped.
    pub latest_confirmed_nonce: MessageNonce,
}

/// A relayer table covers exactly `(confirmed, received]` with disjoint,
/// contiguous, strictly increasing ranges.
pub open spec fn relayers_wf(
    rel: Seq<(MessageNonce, MessageNonce, TestRelayer)>,
    confirmed: MessageNonce,
    received: MessageNonce,
) -> bool {
    &&& (rel.len() == 0 ==> confirmed == received)
    &&& (rel.len() > 0 ==> rel[0].0 == confirmed + 1)
    &&& (rel.len() > 0 ==> rel.last().1 == received)
    &&& (forall|i: int| 0 <= i < rel.len() ==> (#[trigger] rel[i]).0 <= rel[i].1)
    &&& (forall|i: int| 0 < i < rel.len() ==> (#[trigger] rel[i]).0 == rel[i - 1].1 + 1)
}

impl InboundLaneData {
    /// Internal consistency of the reward bookkeeping.
    pub open spec fn wf(self) -> bool {
        &&& self.latest_confirmed_nonce <= self.latest_received_nonce
        &&& relayers_wf(
            self.relayers@,
            self.latest_confirmed_nonce,
            self.latest_received_nonce,
        )
    }
}

/// Identity of a specific finalized block on a chain.
#[derive(Clone, PartialEq, Eq, Debug)]
pub struct HeaderId {
    /// Block number.
    pub number: u64,
    /// Block hash bytes.
    pub hash: Vec<u8>,
}

/// What the relay knows of one chain: its own best finalized header and the
/// latest peer-chain header that its ledger already trusts.
#[derive(Clone, PartialEq, Eq, Debug)]
pub struct ClientState {
    /// The chain's own latest finalized header.
    pub best_self: HeaderId,
    /// The latest peer-chain header the chain's ledger trusts.
    pub best_peer: HeaderId,
}

/// Length of the longest prefix of `weights` whose sum stays within
/// `budget`; the per-step dispatch rule of the inbound lane and of the
/// relay's batch selection.
pub open spec fn max_prefix_within(weights: Seq<Weight>, budget: Weight) -> nat
    decreases weights.len(),
{
    if weights.len() == 0 || weights[0] > budget {
        0
    } else {
        1 + max_prefix_within(weights.drop_first(), (budget - weights[0]) as u64)
    }
}

/// Errors of the lane state machines and the relay.
#[derive(Clone, Copy, PartialEq, Eq, Structural, Debug)]
pub enum Error {
    /// A verifier or fee-payment policy rejected an append; permanent.
    AdmissionRejected,
    /// A proof failed verification or referenced an untrusted header.
    ProofInvalid,
    /// An incoming batch's lowest nonce is not the expected next nonce.
    NonceOutOfOrder,
    /// A transport-level failure talking to a chain client; transient.
    ConnectionError,
    /// Nonce arithmetic overflow or malformed constant bounds; fatal.
    ConfigurationOverflow,
}

} // verus!
