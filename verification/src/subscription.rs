//! The subscription state machine: a FIFO of user subscribe/unsubscribe
//! intents, a pending-acknowledgement table keyed by packet identifier, and
//! replay of unacknowledged intents on reconnect.

use vstd::prelude::*;

use crate::id_pool::{ExhaustedPool, PacketIdentifiers, IDENTIFIER_SLOTS, next_free};
use crate::proto::{lemma_packet_views_push, packet_views, Packet, PacketView, QoS};
use crate::{lemma_assoc, lemma_skip_append};

verus! {

/// A request to subscribe to a topic filter at a QoS level.
#[derive(Debug)]
pub struct SubscribeTo {
    pub topic_filter: String,
    pub qos: QoS,
}

/// One user intent: start or stop a subscription.
#[derive(Debug)]
pub enum SubscriptionUpdate {
    Subscribe(SubscribeTo),
    Unsubscribe(String),
}

/// An intent and the token under which its caller awaits the matching
/// SUBACK or UNSUBACK.
pub struct SubscriptionRequest {
    pub update: SubscriptionUpdate,
    pub ack_token: u64,
}

/// The mathematical state of the subscription machine together with the
/// identifier pool. Slot 0 is never occupied.
#[verifier::ext_equal]
pub ghost struct SubModel {
    pub queue: Seq<SubscriptionRequest>,
    pub pending: Seq<Option<SubscriptionRequest>>,
    pub pool: Seq<bool>,
    pub cursor: int,
}

/// What one step produces.
#[verifier::ext_equal]
pub ghost struct SubStepOut {
    pub m: SubModel,
    pub packets: Seq<PacketView>,
    pub completions: Seq<u64>,
    pub return_codes: Option<Vec<u8>>,
    pub exhausted: bool,
}

/// A step that changes nothing and produces nothing.
pub open spec fn sub_no_output(m: SubModel) -> SubStepOut {
    SubStepOut {
        m,
        packets: Seq::empty(),
        completions: Seq::empty(),
        return_codes: None,
        exhausted: false,
    }
}

/// Well-formedness: full vectors, slot 0 free, cursor in range, every
/// pending identifier outstanding in the pool.
pub open spec fn sub_wf(m: SubModel) -> bool {
    &&& m.pending.len() == IDENTIFIER_SLOTS
    &&& m.pool.len() == IDENTIFIER_SLOTS
    &&& 1 <= m.cursor < IDENTIFIER_SLOTS
    &&& m.pending[0] is None
    &&& !m.pool[0]
    &&& forall|id: int|
        0 <= id < IDENTIFIER_SLOTS && #[trigger] m.pending[id] is Some ==> m.pool[id]
}

/// SUBACK(id, return_codes) or UNSUBACK(id): the pending intent is done,
/// its identifier returns to the pool, its token is signalled, and for a
/// SUBACK the per-filter return codes are surfaced verbatim. An unknown
/// identifier changes nothing but still surfaces the codes.
pub open spec fn sub_ack_step(m: SubModel, id: int, return_codes: Option<Vec<u8>>) -> SubStepOut {
    match m.pending[id] {
        Some(req) => SubStepOut {
            m: SubModel { pending: m.pending.update(id, None), pool: m.pool.update(id, false), ..m },
            packets: Seq::empty(),
            completions: seq![req.ack_token],
            return_codes,
            exhausted: false,
        },
        None => SubStepOut { return_codes, ..sub_no_output(m) },
    }
}

/// The packet kinds the subscription machine consumes from the wire.
pub open spec fn sub_handles_packet(pkt: Option<Packet>) -> bool {
    match pkt {
        Some(Packet::SubAck { .. }) => true,
        Some(Packet::UnsubAck { .. }) => true,
        _ => false,
    }
}

/// Routing of one inbound packet.
pub open spec fn sub_inbound_step(m: SubModel, pkt: Option<Packet>) -> SubStepOut {
    match pkt {
        Some(Packet::SubAck { packet_identifier, return_codes }) => sub_ack_step(
            m,
            packet_identifier as int,
            Some(return_codes),
        ),
        Some(Packet::UnsubAck { packet_identifier }) => sub_ack_step(
            m,
            packet_identifier as int,
            None,
        ),
        _ => sub_no_output(m),
    }
}

/// The SUBSCRIBE or UNSUBSCRIBE packet an intent goes out as, under `id`.
pub open spec fn sub_packet(id: int, req: SubscriptionRequest) -> PacketView {
    match req.update {
        SubscriptionUpdate::Subscribe(st) => PacketView::Subscribe {
            packet_identifier: id as u16,
            subscribe_to: seq![st],
        },
        SubscriptionUpdate::Unsubscribe(filter) => PacketView::Unsubscribe {
            packet_identifier: id as u16,
            unsubscribe_from: seq![filter],
        },
    }
}

/// Draining the intent FIFO front to back while identifiers are available:
/// each intent reserves the identifier the pool must yield next, goes out,
/// and parks in the pending-ack table; on exhaustion the intent stays at
/// the head and draining stops.
pub open spec fn sub_drain(m: SubModel) -> SubStepOut
    decreases m.queue.len(),
{
    if m.queue.len() == 0 {
        sub_no_output(m)
    } else {
        let req = m.queue[0];
        let rest = m.queue.drop_first();
        match next_free(m.pool, m.cursor) {
            None => SubStepOut {
                m,
                packets: Seq::empty(),
                completions: Seq::empty(),
                return_codes: None,
                exhausted: true,
            },
            Some(id) => {
                let out = sub_drain(
                    SubModel {
                        queue: rest,
                        pending: m.pending.update(id, Some(req)),
                        pool: m.pool.update(id, true),
                        cursor: crate::publish::cursor_after(id),
                    },
                );
                SubStepOut { packets: seq![sub_packet(id, req)] + out.packets, ..out }
            },
        }
    }
}

/// One whole `poll`: consume at most one inbound packet, then drain.
pub open spec fn sub_poll_spec(m: SubModel, pkt: Option<Packet>) -> SubStepOut {
    let mid = sub_inbound_step(m, pkt);
    let out = sub_drain(mid.m);
    SubStepOut {
        m: out.m,
        packets: mid.packets + out.packets,
        completions: mid.completions + out.completions,
        return_codes: mid.return_codes,
        exhausted: out.exhausted,
    }
}

/// The pending-ack intents from identifier `i` upward, ascending.
pub open spec fn revived_from(p: Seq<Option<SubscriptionRequest>>, i: int) -> Seq<
    SubscriptionRequest,
>
    decreases IDENTIFIER_SLOTS - i,
{
    if i < 0 || i >= IDENTIFIER_SLOTS {
        Seq::empty()
    } else {
        (match p[i] {
            Some(req) => seq![req],
            None => Seq::empty(),
        }) + revived_from(p, i + 1)
    }
}

/// The model after a reconnect: every unacknowledged intent moves back to
/// the front of the FIFO (ascending identifier order, ahead of what was
/// already queued) and its identifier returns to the pool. The server may
/// or may not have kept the session; unacknowledged intents are replayed
/// either way.
pub open spec fn sub_reset(m: SubModel) -> SubModel {
    SubModel {
        queue: revived_from(m.pending, 1) + m.queue,
        pending: Seq::new(IDENTIFIER_SLOTS as nat, |id: int| None),
        pool: Seq::new(IDENTIFIER_SLOTS as nat, |id: int| m.pool[id] && m.pending[id] is None),
        cursor: m.cursor,
    }
}

/// What `State::poll` hands back to the driver.
pub struct SubPollOutput {
    /// SUBSCRIBE/UNSUBSCRIBE packets to write, in submission order.
    pub packets: Vec<Packet>,
    /// Completion tokens of intents whose ack arrived.
    pub completions: Vec<u64>,
    /// For a consumed SUBACK, its per-filter return codes, verbatim.
    pub return_codes: Option<Vec<u8>>,
    /// The identifier pool ran dry; intents remain queued.
    pub exhausted: bool,
}

/// The subscription machine's concrete state.
pub struct State {
    pending_subscription_updates: Vec<SubscriptionRequest>,
    waiting_to_be_acked: Vec<Option<SubscriptionRequest>>,
}

impl State {
    /// Intents not yet sent, front first.
    pub closed spec fn queue(self) -> Seq<SubscriptionRequest> {
        self.pending_subscription_updates@
    }

    /// Intents sent and awaiting SUBACK/UNSUBACK, by identifier.
    pub closed spec fn pending(self) -> Seq<Option<SubscriptionRequest>> {
        self.waiting_to_be_acked@
    }

    /// This state together with the pool it draws identifiers from.
    pub open spec fn model(self, pool: PacketIdentifiers) -> SubModel {
        SubModel {
            queue: self.queue(),
            pending: self.pending(),
            pool: pool.in_use(),
            cursor: pool.cursor(),
        }
    }

    /// An empty machine.
    pub fn new() -> (r: Self)
        ensures
            r.queue() == Seq::<SubscriptionRequest>::empty(),
            r.pending() == Seq::new(IDENTIFIER_SLOTS as nat, |id: int| None::<SubscriptionRequest>),
    {
        let mut waiting_to_be_acked: Vec<Option<SubscriptionRequest>> = Vec::new();
        let mut i: usize = 0;
        while i < IDENTIFIER_SLOTS
            invariant
                i == waiting_to_be_acked.len() <= IDENTIFIER_SLOTS,
                forall|j: int| 0 <= j < i ==> #[trigger] waiting_to_be_acked@[j] is None,
            decreases IDENTIFIER_SLOTS - i,
        {
            waiting_to_be_acked.push(None);
            i = i + 1;
        }
        let r = State { pending_subscription_updates: Vec::new(), waiting_to_be_acked };
        proof {
            assert(r.pending() =~= Seq::new(IDENTIFIER_SLOTS as nat, |id: int| None::<
                SubscriptionRequest,
            >));
        }
        r
    }

    /// Queues an intent behind the ones already waiting.
    pub fn enqueue_update(&mut self, request: SubscriptionRequest)
        ensures
            final(self).queue() == old(self).queue().push(request),
            final(self).pending() == old(self).pending(),
    {
        self.pending_subscription_updates.push(request);
    }

    /// One driver step: consume the inbound packet if it is a SUBACK or
    /// UNSUBACK (leave it alone otherwise), then send as many queued
    /// intents as the identifier pool allows. The effect is exactly
    /// `sub_poll_spec` on the combined model.
    #[verifier::rlimit(60)]
    pub fn poll(
        &mut self,
        packet: &mut Option<Packet>,
        packet_identifiers: &mut PacketIdentifiers,
    ) -> (r: SubPollOutput)
        requires
            sub_wf(old(self).model(*old(packet_identifiers))),
        ensures
            sub_wf(final(self).model(*final(packet_identifiers))),
            ({
                let out = sub_poll_spec(old(self).model(*old(packet_identifiers)), *old(packet));
                &&& final(self).model(*final(packet_identifiers)) == out.m
                &&& packet_views(r.packets@) == out.packets
                &&& r.completions@ == out.completions
                &&& r.return_codes == out.return_codes
                &&& r.exhausted == out.exhausted
            }),
            *final(packet) == if sub_handles_packet(*old(packet)) {
                None::<Packet>
            } else {
                *old(packet)
            },
    {
        let ghost m0 = self.model(*packet_identifiers);
        let ghost pkt0 = *packet;
        let mut packets: Vec<Packet> = Vec::new();
        let mut completions: Vec<u64> = Vec::new();
        let mut return_codes: Option<Vec<u8>> = None;

        let taken = packet.take();
        match taken {
            Some(Packet::SubAck { packet_identifier, return_codes: codes }) => {
                match &self.waiting_to_be_acked[packet_identifier as usize] {
                    Some(req) => {
                        completions.push(req.ack_token);
                        self.waiting_to_be_acked.set(packet_identifier as usize, None);
                        packet_identifiers.discard(packet_identifier);
                    },
                    None => {
                        // A SUBACK for a SUBSCRIBE this client never sent
                        // is tolerated and dropped.
                    },
                }
                return_codes = Some(codes);
            },
            Some(Packet::UnsubAck { packet_identifier }) => {
                match &self.waiting_to_be_acked[packet_identifier as usize] {
                    Some(req) => {
                        completions.push(req.ack_token);
                        self.waiting_to_be_acked.set(packet_identifier as usize, None);
                        packet_identifiers.discard(packet_identifier);
                    },
                    None => {},
                }
            },
            other => {
                *packet = other;
            },
        }

        let ghost mid = sub_inbound_step(m0, pkt0);
        proof {
            assert(self.model(*packet_identifiers) =~= mid.m);
            assert(packet_views(packets@) =~= mid.packets);
            assert(completions@ =~= mid.completions);
        }

        let ghost m_mid = self.model(*packet_identifiers);
        let ghost base_packets = packet_views(packets@);
        let ghost base_completions = completions@;
        let mut exhausted = false;

        while self.pending_subscription_updates.len() > 0 && !exhausted
            invariant
                sub_wf(self.model(*packet_identifiers)),
                return_codes == mid.return_codes,
                completions@ == base_completions,
                base_packets.len() <= packet_views(packets@).len(),
                packet_views(packets@).take(base_packets.len() as int) == base_packets,
                ({
                    let whole = sub_drain(m_mid);
                    let cur = sub_drain(self.model(*packet_identifiers));
                    &&& whole.m == cur.m
                    &&& whole.packets == packet_views(packets@).skip(base_packets.len() as int)
                        + cur.packets
                    &&& whole.completions == cur.completions
                    &&& whole.exhausted == cur.exhausted
                    &&& exhausted ==> cur.exhausted && self.model(*packet_identifiers) == cur.m
                        && cur.packets == Seq::<PacketView>::empty()
                }),
            decreases self.pending_subscription_updates.len() as int + 1 - (if exhausted {
                1int
            } else {
                0int
            }),
        {
            let ghost cur_pre = self.model(*packet_identifiers);
            let ghost packets_pre = packets@;
            match packet_identifiers.reserve() {
                Ok(packet_identifier) => {
                    let req = self.pending_subscription_updates.remove(0);
                    let ghost req_g = req;
                    let out_packet = match &req.update {
                        SubscriptionUpdate::Subscribe(st) => {
                            let mut subscribe_to: Vec<SubscribeTo> = Vec::new();
                            subscribe_to.push(
                                SubscribeTo { topic_filter: st.topic_filter.clone(), qos: st.qos },
                            );
                            Packet::Subscribe { packet_identifier, subscribe_to }
                        },
                        SubscriptionUpdate::Unsubscribe(filter) => {
                            let mut unsubscribe_from: Vec<String> = Vec::new();
                            unsubscribe_from.push(filter.clone());
                            Packet::Unsubscribe { packet_identifier, unsubscribe_from }
                        },
                    };
                    proof {
                        lemma_packet_views_push(packets_pre, out_packet);
                    }
                    packets.push(out_packet);
                    self.waiting_to_be_acked.set(packet_identifier as usize, Some(req));
                    proof {
                        let id = packet_identifier as int;
                        let cur = self.model(*packet_identifiers);
                        let pkt_step = seq![sub_packet(id, req_g)];
                        assert(next_free(cur_pre.pool, cur_pre.cursor) == Some(id));
                        assert(cur =~= SubModel {
                            queue: cur_pre.queue.drop_first(),
                            pending: cur_pre.pending.update(id, Some(req_g)),
                            pool: cur_pre.pool.update(id, true),
                            cursor: crate::publish::cursor_after(id),
                        });
                        assert(out_packet@ == sub_packet(id, req_g));
                        assert(sub_drain(cur_pre).packets == pkt_step + sub_drain(cur).packets);
                        assert(packet_views(packets@) =~= packet_views(packets_pre) + pkt_step);
                        lemma_skip_append(
                            packet_views(packets_pre),
                            pkt_step,
                            base_packets.len() as int,
                        );
                        lemma_assoc(
                            packet_views(packets_pre).skip(base_packets.len() as int),
                            pkt_step,
                            sub_drain(cur).packets,
                        );
                    }
                },
                Err(ExhaustedPool) => {
                    exhausted = true;
                    proof {
                        let cur = self.model(*packet_identifiers);
                        assert(cur =~= cur_pre);
                        assert(sub_drain(cur_pre).exhausted);
                    }
                },
            }
        }

        proof {
            let out = sub_poll_spec(m0, pkt0);
            let pv = packet_views(packets@);
            assert(pv =~= base_packets + pv.skip(base_packets.len() as int));
            if !exhausted {
                assert(sub_drain(self.model(*packet_identifiers)) == sub_no_output(
                    self.model(*packet_identifiers),
                ));
            }
            assert(pv =~= out.packets);
            assert(completions@ =~= out.completions);
        }
        SubPollOutput { packets, completions, return_codes, exhausted }
    }

    /// Tells the machine a fresh connection is up: every unacknowledged
    /// intent moves back to the front of the FIFO, ahead of what was
    /// already queued and in ascending identifier order, and its identifier
    /// returns to the pool; the next `poll` sends them again. Intents are
    /// replayed whether or not the server kept the session.
    #[verifier::rlimit(60)]
    pub fn new_connection(&mut self, packet_identifiers: &mut PacketIdentifiers)
        requires
            sub_wf(old(self).model(*old(packet_identifiers))),
        ensures
            sub_wf(final(self).model(*final(packet_identifiers))),
            final(self).model(*final(packet_identifiers)) == sub_reset(
                old(self).model(*old(packet_identifiers)),
            ),
    {
        let ghost m0 = self.model(*packet_identifiers);
        let mut revived: Vec<SubscriptionRequest> = Vec::new();
        let mut i: usize = 1;
        while i < IDENTIFIER_SLOTS
            invariant
                1 <= i <= IDENTIFIER_SLOTS,
                sub_wf(m0),
                self.queue() == m0.queue,
                self.pending().len() == IDENTIFIER_SLOTS,
                packet_identifiers.in_use().len() == IDENTIFIER_SLOTS,
                packet_identifiers.cursor() == m0.cursor,
                self.pending()[0] is None,
                !packet_identifiers.in_use()[0],
                revived_from(m0.pending, 1) == revived@ + revived_from(m0.pending, i as int),
                forall|j: int| 1 <= j < i ==> #[trigger] self.pending()[j] is None,
                forall|j: int|
                    1 <= j < i ==> #[trigger] packet_identifiers.in_use()[j] == (m0.pool[j]
                        && m0.pending[j] is None),
                forall|j: int|
                    i <= j < IDENTIFIER_SLOTS ==> #[trigger] self.pending()[j] == m0.pending[j],
                forall|j: int|
                    i <= j < IDENTIFIER_SLOTS ==> #[trigger] packet_identifiers.in_use()[j]
                        == m0.pool[j],
            decreases IDENTIFIER_SLOTS - i,
        {
            if self.waiting_to_be_acked[i].is_some() {
                let mut entry: Option<SubscriptionRequest> = None;
                self.waiting_to_be_acked.set_and_swap(i, &mut entry);
                let ghost revived_pre = revived@;
                match entry {
                    Some(req) => {
                        let ghost req_g = req;
                        revived.push(req);
                        packet_identifiers.discard(i as u16);
                        proof {
                            assert(revived_from(m0.pending, i as int) == seq![req_g]
                                + revived_from(m0.pending, i as int + 1));
                            assert(revived_pre + (seq![req_g] + revived_from(
                                m0.pending,
                                i as int + 1,
                            )) =~= revived@ + revived_from(m0.pending, i as int + 1));
                        }
                    },
                    None => {},
                }
            } else {
                proof {
                    assert(Seq::<SubscriptionRequest>::empty() + revived_from(
                        m0.pending,
                        i as int + 1,
                    ) =~= revived_from(m0.pending, i as int + 1));
                }
            }
            i = i + 1;
        }
        let ghost revived_seq = revived@;
        while self.pending_subscription_updates.len() > 0
            invariant
                self.pending().len() == IDENTIFIER_SLOTS,
                packet_identifiers.in_use().len() == IDENTIFIER_SLOTS,
                packet_identifiers.cursor() == m0.cursor,
                self.pending()[0] is None,
                !packet_identifiers.in_use()[0],
                forall|j: int| 1 <= j < IDENTIFIER_SLOTS ==> #[trigger] self.pending()[j] is None,
                forall|j: int|
                    1 <= j < IDENTIFIER_SLOTS ==> #[trigger] packet_identifiers.in_use()[j] == (
                    m0.pool[j] && m0.pending[j] is None),
                revived@ + self.queue() == revived_seq + m0.queue,
            decreases self.pending_subscription_updates.len(),
        {
            let ghost rev_pre = revived@;
            let ghost rest_pre = self.queue();
            let front = self.pending_subscription_updates.remove(0);
            revived.push(front);
            proof {
                assert(revived@ + self.queue() =~= rev_pre + rest_pre);
            }
        }
        proof {
            assert(revived@ =~= revived@ + self.queue());
        }
        self.pending_subscription_updates = revived;
        proof {
            assert(self.model(*packet_identifiers) =~= sub_reset(m0));
        }
    }
}

} // verus!
