//! Inbound lane: the target-side ledger state machine. Accepts strictly
//! ordered message batches under a dispatch-weight budget, records which
//! relayer delivered which nonces, and drops reward bookkeeping once the
//! source side confirms payment.

use vstd::prelude::*;
use crate::policies::{DispatchMessage, MessageDispatch, ProvedLaneMessages, SourceHeaderChain};
use crate::scale::{decode_payload, le_to_u64};
use crate::types::{
    relayers_wf, Error, InboundLaneData, LaneId, Message, MessageKey, MessageNonce,
    OutboundLaneData, TestRelayer, Weight, max_prefix_within,
};

verus! {

/// The target-chain half of one lane, as an explicit owned state struct.
pub struct InboundLane {
    /// Identity of the lane.
    pub lane_id: LaneId,
    /// Wire-visible delivery and reward bookkeeping.
    pub data: InboundLaneData,
}

/// The dispatcher's view of one delivered message: key kept, payload
/// decoded (or marked undecodable), fee kept.
pub open spec fn dispatch_message_of(m: Message) -> DispatchMessage {
    DispatchMessage {
        key: m.key,
        payload: if m.data.payload@.len() >= 16 {
            Ok(
                (
                    le_to_u64(m.data.payload@.subrange(0, 8)),
                    le_to_u64(m.data.payload@.subrange(8, 16)),
                ),
            )
        } else {
            Err(())
        },
        fee: m.data.fee,
    }
}

/// The dispatch weights of a batch, as the given dispatcher rates it.
pub open spec fn message_weights<D: MessageDispatch>(d: D, msgs: Seq<Message>) -> Seq<
    Weight,
> {
    Seq::new(msgs.len(), |i: int| d.dispatch_weight_spec(dispatch_message_of(msgs[i])))
}

/// The keys of a batch, in order.
pub open spec fn message_keys(msgs: Seq<Message>) -> Seq<MessageKey> {
    Seq::new(msgs.len(), |i: int| msgs[i].key)
}

/// A batch is in order when its nonces are exactly
/// `latest + 1, latest + 2, ...`.
pub open spec fn batch_ordered_spec(msgs: Seq<Message>, latest: MessageNonce) -> bool {
    forall|j: int| 0 <= j < msgs.len() ==> (#[trigger] msgs[j]).key.nonce == latest + 1 + j
}

/// The first proved bundle for `lane`, if the proof carries one.
pub open spec fn lane_entry(
    proved: Seq<(LaneId, ProvedLaneMessages)>,
    lane: LaneId,
) -> Option<ProvedLaneMessages>
    decreases proved.len(),
{
    if proved.len() == 0 {
        None
    } else if proved[0].0 == lane {
        Some(proved[0].1)
    } else {
        lane_entry(proved.drop_first(), lane)
    }
}

/// The relayer table after the source side confirms reward payment up to
/// `confirmed`: fully paid ranges are dropped, a partially paid range is
/// shortened to its unpaid tail.
pub open spec fn trim_relayers(
    rel: Seq<(MessageNonce, MessageNonce, TestRelayer)>,
    confirmed: MessageNonce,
) -> Seq<(MessageNonce, MessageNonce, TestRelayer)>
    decreases rel.len(),
{
    if rel.len() == 0 {
        rel
    } else if rel[0].1 <= confirmed {
        trim_relayers(rel.drop_first(), confirmed)
    } else if rel[0].0 <= confirmed {
        seq![((confirmed + 1) as u64, rel[0].1, rel[0].2)] + rel.drop_first()
    } else {
        rel
    }
}

/// The confirmed mark after learning the source's received mark: it never
/// moves backwards and never beyond what this lane itself received.
pub open spec fn updated_confirmed(
    confirmed: MessageNonce,
    received: MessageNonce,
    source_received: MessageNonce,
) -> MessageNonce {
    let c = if source_received < received {
        source_received
    } else {
        received
    };
    if c > confirmed {
        c
    } else {
        confirmed
    }
}

/// The relayer table after recording that `relayer` delivered the `count`
/// nonces following `prev_latest`: the last range is extended when the
/// same relayer delivered it, otherwise a new range is appended.
pub open spec fn record_relayers(
    rel: Seq<(MessageNonce, MessageNonce, TestRelayer)>,
    relayer: TestRelayer,
    prev_latest: MessageNonce,
    count: u64,
) -> Seq<(MessageNonce, MessageNonce, TestRelayer)> {
    if count == 0 {
        rel
    } else if rel.len() > 0 && rel.last().2 == relayer {
        rel.update(rel.len() - 1, (rel.last().0, (prev_latest + count) as u64, relayer))
    } else {
        rel.push(((prev_latest + 1) as u64, (prev_latest + count) as u64, relayer))
    }
}

/// Full behaviour of `receive_messages`, as a relation between the lane
/// and the dispatcher before and after, the proof's verdict and contents,
/// and the result.
pub open spec fn receive_spec<D: MessageDispatch>(
    pre: InboundLane,
    post: InboundLane,
    pre_disp: D,
    post_disp: D,
    valid: bool,
    proved: Seq<(LaneId, ProvedLaneMessages)>,
    relayer: TestRelayer,
    budget: Weight,
    r: Result<u64, Error>,
) -> bool {
    if !valid {
        &&& r == Err::<u64, Error>(Error::ProofInvalid)
        &&& post == pre
        &&& post_disp == pre_disp
    } else {
        match lane_entry(proved, pre.lane_id) {
            None => {
                &&& r == Ok::<u64, Error>(0)
                &&& post == pre
                &&& post_disp == pre_disp
            },
            Some(plm) => {
                if !batch_ordered_spec(plm.messages@, pre.data.latest_received_nonce) {
                    &&& r == Err::<u64, Error>(Error::NonceOutOfOrder)
                    &&& post == pre
                    &&& post_disp == pre_disp
                } else {
                    let prev = pre.data.latest_received_nonce;
                    let conf = match plm.lane_state {
                        Some(out) => updated_confirmed(
                            pre.data.latest_confirmed_nonce,
                            prev,
                            out.latest_received_nonce,
                        ),
                        None => pre.data.latest_confirmed_nonce,
                    };
                    let mid_rel = if conf == pre.data.latest_confirmed_nonce {
                        pre.data.relayers@
                    } else {
                        trim_relayers(pre.data.relayers@, conf)
                    };
                    let count = max_prefix_within(
                        message_weights(pre_disp, plm.messages@),
                        budget,
                    ) as u64;
                    &&& r == Ok::<u64, Error>(count)
                    &&& post.lane_id == pre.lane_id
                    &&& post.data.latest_received_nonce == prev + count
                    &&& post.data.latest_confirmed_nonce == conf
                    &&& post.data.relayers@ == record_relayers(mid_rel, relayer, prev, count)
                    &&& post_disp.dispatched() == pre_disp.dispatched() + message_keys(
                        plm.messages@,
                    ).take(count as int)
                    &&& (forall|m: DispatchMessage| post_disp.dispatch_weight_spec(m)
                        == pre_disp.dispatch_weight_spec(m))
                }
            },
        }
    }
}

impl InboundLane {
    /// Internal consistency of the lane state.
    pub open spec fn wf(self) -> bool {
        self.data.wf()
    }

    /// An empty lane: nothing received, nothing confirmed, no relayers.
    pub fn new(lane_id: LaneId) -> (r: InboundLane)
        ensures
            r.wf(),
            r.lane_id == lane_id,
            r.data.latest_received_nonce == 0,
            r.data.latest_confirmed_nonce == 0,
            r.data.relayers@ =~= Seq::<(MessageNonce, MessageNonce, TestRelayer)>::empty(),
    {
        InboundLane {
            lane_id,
            data: InboundLaneData {
                relayers: Vec::new(),
                latest_received_nonce: 0,
                latest_confirmed_nonce: 0,
            },
        }
    }

    /// Highest nonce accepted and dispatched; read-only query surface.
    pub fn latest_received_nonce(&self) -> (r: MessageNonce)
        ensures
            r == self.data.latest_received_nonce,
    {
        self.data.latest_received_nonce
    }

    /// Learns, from proved outbound lane state, how far the source side
    /// has paid rewards, and drops the covered relayer entries.
    pub fn receive_state_update(&mut self, out: &OutboundLaneData)
        requires
            old(self).wf(),
        ensures
            final(self).wf(),
            final(self).lane_id == old(self).lane_id,
            final(self).data.latest_received_nonce == old(self).data.latest_received_nonce,
            final(self).data.latest_confirmed_nonce == updated_confirmed(
                old(self).data.latest_confirmed_nonce,
                old(self).data.latest_received_nonce,
                out.latest_received_nonce,
            ),
            final(self).data.latest_confirmed_nonce == old(self).data.latest_confirmed_nonce
                ==> final(self).data.relayers@ == old(self).data.relayers@,
            final(self).data.latest_confirmed_nonce != old(self).data.latest_confirmed_nonce
                ==> final(self).data.relayers@ == trim_relayers(
                old(self).data.relayers@,
                final(self).data.latest_confirmed_nonce,
            ),
    {
        let new_conf = if out.latest_received_nonce < self.data.latest_received_nonce {
            out.latest_received_nonce
        } else {
            self.data.latest_received_nonce
        };
        if new_conf <= self.data.latest_confirmed_nonce {
            return ;
        }
        let ghost orig = self.data.relayers@;
        proof {
            lemma_trim_wf(
                orig,
                self.data.latest_confirmed_nonce,
                self.data.latest_received_nonce,
                new_conf,
            );
        }
        while self.data.relayers.len() > 0 && self.data.relayers[0].1 <= new_conf
            invariant
                self.lane_id == old(self).lane_id,
                self.data.latest_received_nonce == old(self).data.latest_received_nonce,
                self.data.latest_confirmed_nonce == old(self).data.latest_confirmed_nonce,
                trim_relayers(orig, new_conf) == trim_relayers(
                    self.data.relayers@,
                    new_conf,
                ),
            decreases self.data.relayers@.len(),
        {
            let ghost before = self.data.relayers@;
            self.data.relayers.remove(0);
            proof {
                assert(self.data.relayers@ =~= before.drop_first());
            }
        }
        if self.data.relayers.len() > 0 && self.data.relayers[0].0 <= new_conf {
            let ghost rel1 = self.data.relayers@;
            let e = self.data.relayers.remove(0);
            self.data.relayers.insert(0, (new_conf + 1, e.1, e.2));
            proof {
                assert(self.data.relayers@ =~= seq![((new_conf + 1) as u64, e.1, e.2)]
                    + rel1.drop_first());
            }
        }
        self.data.latest_confirmed_nonce = new_conf;
    }

    /// Verifies a messages proof, applies any piggybacked source-state
    /// update, then dispatches the batch in nonce order within the weight
    /// budget; undispatched tail nonces are not marked received and will
    /// be re-offered. A batch not starting at the expected next nonce is
    /// rejected in full.
    pub fn receive_messages<S: SourceHeaderChain, D: MessageDispatch>(
        &mut self,
        chain: &S,
        dispatcher: &mut D,
        relayer: TestRelayer,
        messages_proof: S::MessagesProof,
        budget: Weight,
    ) -> (r: Result<u64, Error>)
        requires
            old(self).wf(),
        ensures
            final(self).wf(),
            receive_spec(
                *old(self),
                *final(self),
                *old(dispatcher),
                *final(dispatcher),
                chain.messages_proof_valid(messages_proof),
                chain.proved_messages(messages_proof),
                relayer,
                budget,
                r,
            ),
    {
        let verified = match chain.verify_messages_proof(messages_proof) {
            Ok(v) => v,
            Err(_) => {
                return Err(Error::ProofInvalid);
            },
        };
        let entry = match find_entry(&verified, self.lane_id) {
            Some(i) => i,
            None => {
                return Ok(0u64);
            },
        };
        let plm = &verified[entry];
        if !batch_ordered(&plm.1.messages, self.data.latest_received_nonce) {
            return Err(Error::NonceOutOfOrder);
        }
        if let Some(out) = &plm.1.lane_state {
            self.receive_state_update(out);
        }
        let prev = self.data.latest_received_nonce;
        let ghost mid = *self;
        let ghost ws = message_weights(*old(dispatcher), plm.1.messages@);
        proof {
            assert(ws.skip(0) =~= ws);
        }
        let mlen = plm.1.messages.len();
        let mut count: usize = 0;
        let mut used: Weight = 0;
        let mut room = true;
        while room && count < mlen
            invariant
                *self == mid,
                count <= mlen,
                mlen == plm.1.messages@.len(),
                ws == message_weights(*old(dispatcher), plm.1.messages@),
                used <= budget,
                room ==> max_prefix_within(ws, budget) == count + max_prefix_within(
                    ws.skip(count as int),
                    (budget - used) as u64,
                ),
                !room ==> max_prefix_within(ws, budget) == count,
                dispatcher.dispatched() == old(dispatcher).dispatched() + message_keys(
                    plm.1.messages@,
                ).take(count as int),
                forall|m: DispatchMessage| dispatcher.dispatch_weight_spec(m) == old(
                    dispatcher,
                ).dispatch_weight_spec(m),
            decreases mlen - count, (if room {
                1int
            } else {
                0int
            }),
        {
            let m = &plm.1.messages[count];
            let dm = make_dispatch_message(m);
            let w = dispatcher.dispatch_weight(&dm);
            proof {
                assert(ws.skip(count as int)[0] == w);
            }
            if w > budget - used {
                proof {
                    assert(max_prefix_within(ws.skip(count as int), (budget - used) as u64)
                        == 0);
                }
                room = false;
            } else {
                dispatcher.dispatch(&dm);
                proof {
                    assert(ws.skip(count as int).drop_first() =~= ws.skip(count + 1));
                    assert(message_keys(plm.1.messages@).take(count + 1) =~= message_keys(
                        plm.1.messages@,
                    ).take(count as int).push(m.key));
                    assert(old(dispatcher).dispatched() + message_keys(plm.1.messages@).take(
                        count + 1,
                    ) =~= (old(dispatcher).dispatched() + message_keys(plm.1.messages@).take(
                        count as int,
                    )).push(m.key));
                }
                used = used + w;
                count = count + 1;
            }
        }
        proof {
            if room {
                assert(ws.skip(count as int) =~= Seq::<Weight>::empty());
            }
            assert(max_prefix_within(ws, budget) == count);
        }
        if count > 0 {
            let new_latest = plm.1.messages[count - 1].key.nonce;
            proof {
                assert(plm.1.messages@[count - 1].key.nonce == prev + count);
                lemma_record_wf(
                    mid.data.relayers@,
                    mid.data.latest_confirmed_nonce,
                    prev,
                    relayer,
                    count as u64,
                    (prev + count) as u64,
                );
            }
            let rlen = self.data.relayers.len();
            let merge = if rlen > 0 {
                self.data.relayers[rlen - 1].2 == relayer
            } else {
                false
            };
            if merge {
                let ghost rel1 = self.data.relayers@;
                let e = match self.data.relayers.pop() {
                    Some(e) => e,
                    None => {
                        proof {
                            assert(false);
                        }
                        (0, 0, 0)
                    },
                };
                self.data.relayers.push((e.0, new_latest, e.2));
                proof {
                    assert(self.data.relayers@ =~= record_relayers(
                        rel1,
                        relayer,
                        prev,
                        count as u64,
                    ));
                }
            } else {
                let begin = plm.1.messages[0].key.nonce;
                proof {
                    assert(plm.1.messages@[0].key.nonce == prev + 1);
                }
                self.data.relayers.push((begin, new_latest, relayer));
            }
            self.data.latest_received_nonce = new_latest;
        }
        Ok(count as u64)
    }
}

/// Builds the dispatcher's view of one message.
fn make_dispatch_message(m: &Message) -> (r: DispatchMessage)
    ensures
        r == dispatch_message_of(*m),
{
    DispatchMessage {
        key: MessageKey { lane_id: m.key.lane_id, nonce: m.key.nonce },
        payload: decode_payload(&m.data.payload),
        fee: m.data.fee,
    }
}

/// Checks that a batch's nonces are exactly the ones following `latest`.
fn batch_ordered(msgs: &Vec<Message>, latest: MessageNonce) -> (r: bool)
    ensures
        r == batch_ordered_spec(msgs@, latest),
{
    let len = msgs.len();
    if len == 0 {
        return true;
    }
    if latest == u64::MAX {
        proof {
            if batch_ordered_spec(msgs@, latest) {
                assert(msgs@[0].key.nonce == latest + 1);
            }
        }
        return false;
    }
    let mut expected: MessageNonce = latest + 1;
    let mut j: usize = 0;
    while j < len
        invariant
            j <= len,
            len == msgs@.len(),
            latest < u64::MAX,
            j < len ==> expected == latest + 1 + j,
            forall|i: int| 0 <= i < j ==> (#[trigger] msgs@[i]).key.nonce == latest + 1 + i,
        decreases len - j,
    {
        if msgs[j].key.nonce != expected {
            return false;
        }
        if j + 1 < len {
            if expected == u64::MAX {
                proof {
                    if batch_ordered_spec(msgs@, latest) {
                        assert(msgs@[j + 1].key.nonce == latest + 1 + j + 1);
                    }
                }
                return false;
            }
            expected = expected + 1;
        }
        j = j + 1;
    }
    true
}

/// Finds the first proved bundle for `lane`.
fn find_entry(v: &Vec<(LaneId, ProvedLaneMessages)>, lane: LaneId) -> (r: Option<usize>)
    ensures
        match r {
            Some(i) => i < v@.len() && lane_entry(v@, lane) == Some(v@[i as int].1),
            None => lane_entry(v@, lane) is None,
        },
{
    proof {
        assert(v@.subrange(0, v@.len() as int) =~= v@);
    }
    let mut i: usize = 0;
    while i < v.len()
        invariant
            i <= v@.len(),
            lane_entry(v@, lane) == lane_entry(v@.subrange(i as int, v@.len() as int), lane),
        decreases v@.len() - i,
    {
        if v[i].0 == lane {
            return Some(i);
        }
        proof {
            assert(v@.subrange(i as int, v@.len() as int).drop_first() =~= v@.subrange(
                i + 1,
                v@.len() as int,
            ));
        }
        i = i + 1;
    }
    None
}

/// Trimming a well-formed relayer table to a higher confirmed mark leaves
/// a table well-formed for that mark.
proof fn lemma_trim_wf(
    rel: Seq<(MessageNonce, MessageNonce, TestRelayer)>,
    conf0: MessageNonce,
    recv: MessageNonce,
    c: MessageNonce,
)
    requires
        relayers_wf(rel, conf0, recv),
        conf0 <= c <= recv,
    ensures
        relayers_wf(trim_relayers(rel, c), c, recv),
    decreases rel.len(),
{
    if rel.len() == 0 {
    } else if rel[0].1 <= c {
        let tail = rel.drop_first();
        assert forall|i: int| 0 < i < tail.len() implies (#[trigger] tail[i]).0 == tail[i
            - 1].1 + 1 by {
            assert(rel[i + 1].0 == rel[i].1 + 1);
        }
        assert forall|i: int| 0 <= i < tail.len() implies (#[trigger] tail[i]).0
            <= tail[i].1 by {
            assert(rel[i + 1].0 <= rel[i + 1].1);
        }
        if tail.len() > 0 {
            assert(tail[0].0 == rel[1].0);
            assert(rel[1].0 == rel[0].1 + 1);
            assert(tail.last() == rel.last());
        }
        lemma_trim_wf(tail, rel[0].1, recv, c);
    } else if rel[0].0 <= c {
        let res = seq![((c + 1) as u64, rel[0].1, rel[0].2)] + rel.drop_first();
        assert(res.len() == rel.len());
        if rel.len() == 1 {
            assert(res.last().1 == rel[0].1);
        } else {
            assert(res.last() == rel.last());
        }
        assert forall|i: int| 0 < i < res.len() implies (#[trigger] res[i]).0 == res[i
            - 1].1 + 1 by {
            assert(res[i] == rel[i]);
            assert(rel[i].0 == rel[i - 1].1 + 1);
            if i == 1 {
                assert(res[0].1 == rel[0].1);
            } else {
                assert(res[i - 1] == rel[i - 1]);
            }
        }
        assert forall|i: int| 0 <= i < res.len() implies (#[trigger] res[i]).0
            <= res[i].1 by {
            assert(rel[i].0 <= rel[i].1);
        }
        assert(relayers_wf(res, c, recv));
    } else {
    }
}

/// Recording a freshly delivered contiguous range keeps the relayer table
/// well-formed for the advanced received mark.
proof fn lemma_record_wf(
    rel: Seq<(MessageNonce, MessageNonce, TestRelayer)>,
    conf: MessageNonce,
    prev: MessageNonce,
    relayer: TestRelayer,
    count: u64,
    new_latest: MessageNonce,
)
    requires
        relayers_wf(rel, conf, prev),
        count > 0,
        new_latest == prev + count,
    ensures
        relayers_wf(record_relayers(rel, relayer, prev, count), conf, new_latest),
{
    let res = record_relayers(rel, relayer, prev, count);
    if rel.len() > 0 && rel.last().2 == relayer {
        assert(res.last().1 == new_latest);
        assert forall|i: int| 0 < i < res.len() implies (#[trigger] res[i]).0 == res[i
            - 1].1 + 1 by {
            assert(rel[i].0 == rel[i - 1].1 + 1);
            if i < res.len() - 1 {
                assert(res[i] == rel[i]);
            }
        }
        assert forall|i: int| 0 <= i < res.len() implies (#[trigger] res[i]).0
            <= res[i].1 by {
            assert(rel[i].0 <= rel[i].1);
        }
    } else {
        assert forall|i: int| 0 < i < res.len() implies (#[trigger] res[i]).0 == res[i
            - 1].1 + 1 by {
            if i < rel.len() {
                assert(rel[i].0 == rel[i - 1].1 + 1);
            } else {
                assert(rel.len() > 0 ==> rel.last().1 == prev);
            }
        }
    }
}

} // verus!
