//! Relay loop decisions: parsing the chain's state-query responses,
//! choosing the nonce range to relay next, assembling proof bundles, and
//! the per-direction flow state machine with its reconnect and retry
//! policy. The surrounding process performs the remote calls and feeds
//! the outcomes back as events; every decision in between is made here.

use vstd::prelude::*;
use crate::scale::{
    decode_header_id_fields, decode_nonce_bytes, decode_nonce_weights, le_to_u64,
    scale_weights,
};
use crate::types::{
    ClientState, HeaderId, LaneId, MessageNonce, Weight, max_prefix_within,
};

verus! {

/// A weight table is anchored at `begin` when its nonces are exactly
/// `begin, begin + 1, ...`.
pub open spec fn contiguous_from(s: Seq<(MessageNonce, Weight)>, begin: MessageNonce) -> bool {
    forall|i: int| 0 <= i < s.len() ==> (#[trigger] s[i]).0 == begin + i
}

/// The weights alone of a `(nonce, weight)` table.
pub open spec fn weights_of(s: Seq<(MessageNonce, Weight)>) -> Seq<Weight> {
    Seq::new(s.len(), |i: int| s[i].1)
}

/// Reads a latest-nonce state-query response.
pub fn parse_nonce_response(response: &Vec<u8>) -> (r: Option<MessageNonce>)
    ensures
        response@.len() >= 8 ==> r == Some(le_to_u64(response@.subrange(0, 8))),
        response@.len() < 8 ==> r is None,
{
    decode_nonce_bytes(response)
}

/// Assembles the relay's view of one chain from its own best finalized
/// header and the response to the best-peer-header state query made at
/// that exact header.
pub fn make_client_state(
    self_number: u64,
    self_hash: Vec<u8>,
    peer_response: &Vec<u8>,
) -> (r: Option<ClientState>)
    ensures
        r matches Some(cs) ==> {
            &&& peer_response@.len() >= 40
            &&& cs.best_self.number == self_number
            &&& cs.best_self.hash@ == self_hash@
            &&& cs.best_peer.number == le_to_u64(peer_response@.subrange(0, 8))
            &&& cs.best_peer.hash@ == peer_response@.subrange(8, 40)
        },
        r is None ==> peer_response@.len() < 40,
{
    match decode_header_id_fields(peer_response) {
        Some(peer) => Some(
            ClientState {
                best_self: HeaderId { number: self_number, hash: self_hash },
                best_peer: HeaderId { number: peer.0, hash: peer.1 },
            },
        ),
        None => None,
    }
}

/// Whether a proof generated at the given source header can already be
/// verified by the target: the target's ledger must trust that header.
pub fn source_header_known_to_target(
    target_state: &ClientState,
    required_source_number: u64,
) -> (r: bool)
    ensures
        r == (required_source_number <= target_state.best_peer.number),
{
    required_source_number <= target_state.best_peer.number
}

/// Checks that a decoded weight table covers exactly the requested range
/// `begin..=end`: one entry per nonce, in order, with no gap, no reorder,
/// and nothing missing at the tail.
pub fn validate_weights(
    begin: MessageNonce,
    end: MessageNonce,
    weights: &Vec<(MessageNonce, Weight)>,
) -> (r: bool)
    ensures
        r == (weights@.len() == end - begin + 1 && contiguous_from(weights@, begin)),
{
    let len = weights.len();
    if end < begin {
        return len == 0 && end + 1 == begin;
    }
    if len == 0 || (len - 1) as u64 != end - begin {
        return false;
    }
    let mut i: usize = 0;
    while i < len
        invariant
            i <= len,
            len == weights@.len(),
            forall|k: int| 0 <= k < i ==> (#[trigger] weights@[k]).0 == begin + k,
        decreases len - i,
    {
        let expected_low = begin as u128 + i as u128;
        let e = weights[i];
        if e.0 as u128 != expected_low {
            return false;
        }
        i = i + 1;
    }
    true
}

/// Reads a dispatch-weight range query response: decodes the table and
/// rejects one that does not cover exactly the requested range
/// `begin..=end` with consecutive nonces.
pub fn parse_messages_weights(
    begin: MessageNonce,
    end: MessageNonce,
    response: &Vec<u8>,
) -> (r: Option<Vec<(MessageNonce, Weight)>>)
    ensures
        (match scale_weights(response@) {
            Some(s) => {
                if s.len() == end - begin + 1 && contiguous_from(s, begin) {
                    r matches Some(v) && v@ == s
                } else {
                    r is None
                }
            },
            None => r is None,
        }),
{
    match decode_nonce_weights(response) {
        Some(v) => {
            if validate_weights(begin, end, &v) {
                Some(v)
            } else {
                None
            }
        },
        None => None,
    }
}

/// How many of the offered nonces one batch takes: all of them, capped by
/// the batch-size bound and by the longest prefix whose cumulative
/// dispatch weight stays within the weight bound.
pub open spec fn selected_batch_size(
    available: int,
    max_batch: u64,
    within_weight: int,
) -> int {
    let capped = if max_batch < available {
        max_batch as int
    } else {
        available
    };
    if within_weight < capped {
        within_weight
    } else {
        capped
    }
}

/// Chooses the nonce range to relay next: the unrelayed range, bounded by
/// batch size and cumulative dispatch weight; nothing to relay yields
/// `None`.
pub fn select_nonces_to_relay(
    latest_generated_at_source: MessageNonce,
    latest_received_at_target: MessageNonce,
    max_batch: u64,
    max_weight: Weight,
    weights: &Vec<(MessageNonce, Weight)>,
) -> (r: Option<(MessageNonce, MessageNonce)>)
    requires
        latest_received_at_target <= latest_generated_at_source,
        weights@.len() == latest_generated_at_source - latest_received_at_target,
    ensures
        ({
            let count = selected_batch_size(
                weights@.len() as int,
                max_batch,
                max_prefix_within(weights_of(weights@), max_weight) as int,
            );
            if count == 0 {
                r is None
            } else {
                r == Some(
                    (
                        (latest_received_at_target + 1) as u64,
                        (latest_received_at_target + count) as u64,
                    ),
                )
            }
        }),
{
    let ghost ws = weights_of(weights@);
    proof {
        assert(ws.skip(0) =~= ws);
    }
    let len = weights.len();
    let mut count: usize = 0;
    let mut used: Weight = 0;
    let mut room = true;
    while room && count < len && (count as u64) < max_batch
        invariant
            count <= len,
            len == weights@.len(),
            ws == weights_of(weights@),
            used <= max_weight,
            count <= max_batch,
            room ==> max_prefix_within(ws, max_weight) == count + max_prefix_within(
                ws.skip(count as int),
                (max_weight - used) as u64,
            ),
            !room ==> max_prefix_within(ws, max_weight) == count,
        decreases len - count, (if room {
            1int
        } else {
            0int
        }),
    {
        let w = weights[count].1;
        proof {
            assert(ws.skip(count as int)[0] == w);
        }
        if w > max_weight - used {
            proof {
                assert(max_prefix_within(ws.skip(count as int), (max_weight - used) as u64)
                    == 0);
            }
            room = false;
        } else {
            proof {
                assert(ws.skip(count as int).drop_first() =~= ws.skip(count + 1));
            }
            used = used + w;
            count = count + 1;
        }
    }
    proof {
        if room && count == len {
            assert(ws.skip(count as int) =~= Seq::<Weight>::empty());
            assert(max_prefix_within(ws, max_weight) == count);
        }
    }
    if count == 0 {
        None
    } else {
        Some(
            (
                latest_received_at_target + 1,
                latest_received_at_target + (count as u64),
            ),
        )
    }
}

/// A messages proof bundle as submitted to the target chain: the batch's
/// cumulative dispatch weight, and the storage proof bound to a specific
/// source header and nonce range.
pub struct MessagesProofData {
    /// Cumulative dispatch weight of the bundled messages.
    pub dispatch_weight: Weight,
    /// Hash of the source header the proof is anchored to.
    pub at_header_hash: Vec<u8>,
    /// The opaque storage proof bytes.
    pub storage_proof: Vec<u8>,
    /// Lane the messages travel on.
    pub lane_id: LaneId,
    /// First nonce of the proved range.
    pub begin: MessageNonce,
    /// Last nonce of the proved range.
    pub end: MessageNonce,
}

/// Assembles a messages proof bundle from a fetched storage proof.
pub fn make_messages_proof(
    dispatch_weight: Weight,
    at_header_hash: Vec<u8>,
    storage_proof: Vec<u8>,
    lane_id: LaneId,
    begin: MessageNonce,
    end: MessageNonce,
) -> (r: MessagesProofData)
    ensures
        r.dispatch_weight == dispatch_weight,
        r.at_header_hash@ == at_header_hash@,
        r.storage_proof@ == storage_proof@,
        r.lane_id == lane_id,
        r.begin == begin,
        r.end == end,
{
    MessagesProofData { dispatch_weight, at_header_hash, storage_proof, lane_id, begin, end }
}

/// Where one relay direction stands in its cycle. The same machine runs
/// the forward (message) direction, where the frontier is the target's
/// latest received nonce, and the backward (confirmation) direction,
/// where it is the source's latest confirmed nonce.
#[derive(Clone, Copy, PartialEq, Eq, Structural, Debug)]
pub enum FlowPhase {
    /// About to read the providing chain's latest produced nonce.
    ReadSource,
    /// About to read the consuming chain's frontier nonce.
    ReadTarget {
        /// Latest nonce produced on the providing side.
        latest_generated: MessageNonce,
    },
    /// About to request a proof for the chosen range.
    Prove {
        /// First nonce of the batch.
        begin: MessageNonce,
        /// Last nonce of the batch.
        end: MessageNonce,
    },
    /// About to submit the fetched proof.
    Submit {
        /// First nonce of the batch.
        begin: MessageNonce,
        /// Last nonce of the batch.
        end: MessageNonce,
    },
    /// Re-establishing the remote handles after a connection failure.
    Reconnecting,
    /// A protocol failure persisted beyond the retry budget.
    Failed,
}

/// The outcome of the remote operation the flow was waiting for.
pub enum FlowEvent {
    /// The providing chain's latest produced nonce was read.
    SourceNonce {
        /// The nonce read.
        latest_generated: MessageNonce,
    },
    /// The consuming chain's frontier nonce was read.
    TargetNonce {
        /// The nonce read.
        latest_received: MessageNonce,
    },
    /// The requested proof was fetched.
    ProofReady,
    /// The submission was handed to the chain; fire and forget.
    Submitted,
    /// The connection to the remote handle was re-established.
    Reconnected,
    /// A transport-level failure.
    ConnectionFailed,
    /// A protocol-level failure: a malformed response or a rejected proof.
    ProtocolFailed,
}

/// One relay direction's loop state.
pub struct RelayFlow {
    /// Where the cycle stands.
    pub phase: FlowPhase,
    /// Protocol-failure retries left before surfacing the failure.
    pub retries_left: u8,
    /// Retry budget granted after every completed cycle.
    pub max_retries: u8,
    /// Largest batch one proof may span.
    pub max_batch: u64,
}

/// The flow's reaction to an event: the cycle of reads, proof request and
/// submission; a connection failure reconnects and resumes at the initial
/// state; a protocol failure re-reads fresh state a bounded number of
/// times, then surfaces. An event that does not answer the pending step
/// changes nothing.
pub open spec fn flow_step_spec(f: RelayFlow, ev: FlowEvent) -> RelayFlow {
    match ev {
        FlowEvent::ConnectionFailed => RelayFlow {
            phase: FlowPhase::Reconnecting,
            ..f
        },
        FlowEvent::Reconnected => {
            if f.phase is Reconnecting {
                RelayFlow { phase: FlowPhase::ReadSource, ..f }
            } else {
                f
            }
        },
        FlowEvent::ProtocolFailed => {
            if f.retries_left > 0 {
                RelayFlow {
                    phase: FlowPhase::ReadSource,
                    retries_left: (f.retries_left - 1) as u8,
                    ..f
                }
            } else {
                RelayFlow { phase: FlowPhase::Failed, ..f }
            }
        },
        FlowEvent::SourceNonce { latest_generated } => {
            if f.phase is ReadSource {
                RelayFlow {
                    phase: FlowPhase::ReadTarget { latest_generated },
                    ..f
                }
            } else {
                f
            }
        },
        FlowEvent::TargetNonce { latest_received } => {
            match f.phase {
                FlowPhase::ReadTarget { latest_generated } => {
                    if latest_received >= latest_generated {
                        RelayFlow { phase: FlowPhase::ReadSource, ..f }
                    } else {
                        let avail = (latest_generated - latest_received) as u64;
                        let span = if f.max_batch < avail {
                            f.max_batch
                        } else {
                            avail
                        };
                        if span == 0 {
                            RelayFlow { phase: FlowPhase::ReadSource, ..f }
                        } else {
                            RelayFlow {
                                phase: FlowPhase::Prove {
                                    begin: (latest_received + 1) as u64,
                                    end: (latest_received + span) as u64,
                                },
                                ..f
                            }
                        }
                    }
                },
                _ => f,
            }
        },
        FlowEvent::ProofReady => {
            match f.phase {
                FlowPhase::Prove { begin, end } => RelayFlow {
                    phase: FlowPhase::Submit { begin, end },
                    ..f
                },
                _ => f,
            }
        },
        FlowEvent::Submitted => {
            match f.phase {
                FlowPhase::Submit { .. } => RelayFlow {
                    phase: FlowPhase::ReadSource,
                    retries_left: f.max_retries,
                    ..f
                },
                _ => f,
            }
        },
    }
}

impl RelayFlow {
    /// A fresh flow, about to read the providing chain's state.
    pub fn new(max_retries: u8, max_batch: u64) -> (r: RelayFlow)
        ensures
            r.phase == FlowPhase::ReadSource,
            r.retries_left == max_retries,
            r.max_retries == max_retries,
            r.max_batch == max_batch,
    {
        RelayFlow {
            phase: FlowPhase::ReadSource,
            retries_left: max_retries,
            max_retries,
            max_batch,
        }
    }

    /// Advances the flow by one event.
    pub fn step(&mut self, ev: &FlowEvent)
        ensures
            *final(self) == flow_step_spec(*old(self), *ev),
    {
        match ev {
            FlowEvent::ConnectionFailed => {
                self.phase = FlowPhase::Reconnecting;
            },
            FlowEvent::Reconnected => {
                if matches!(self.phase, FlowPhase::Reconnecting) {
                    self.phase = FlowPhase::ReadSource;
                }
            },
            FlowEvent::ProtocolFailed => {
                if self.retries_left > 0 {
                    self.retries_left = self.retries_left - 1;
                    self.phase = FlowPhase::ReadSource;
                } else {
                    self.phase = FlowPhase::Failed;
                }
            },
            FlowEvent::SourceNonce { latest_generated } => {
                if matches!(self.phase, FlowPhase::ReadSource) {
                    self.phase = FlowPhase::ReadTarget {
                        latest_generated: *latest_generated,
                    };
                }
            },
            FlowEvent::TargetNonce { latest_received } => {
                match self.phase {
                    FlowPhase::ReadTarget { latest_generated } => {
                        if *latest_received >= latest_generated {
                            self.phase = FlowPhase::ReadSource;
                        } else {
                            let avail = latest_generated - *latest_received;
                            let span = if self.max_batch < avail {
                                self.max_batch
                            } else {
                                avail
                            };
                            if span == 0 {
                                self.phase = FlowPhase::ReadSource;
                            } else {
                                self.phase = FlowPhase::Prove {
                                    begin: *latest_received + 1,
                                    end: *latest_received + span,
                                };
                            }
                        }
                    },
                    _ => {},
                }
            },
            FlowEvent::ProofReady => {
                match self.phase {
                    FlowPhase::Prove { begin, end } => {
                        self.phase = FlowPhase::Submit { begin, end };
                    },
                    _ => {},
                }
            },
            FlowEvent::Submitted => {
                match self.phase {
                    FlowPhase::Submit { .. } => {
                        self.phase = FlowPhase::ReadSource;
                        self.retries_left = self.max_retries;
                    },
                    _ => {},
                }
            },
        }
    }
}

} // verus!
