//! The publish state machine: QoS 0/1/2 protocol flows in both directions.
//!
//! Outbound publications wait in a FIFO until an identifier can be reserved,
//! then park in `waiting_to_be_acked` (until PUBACK or PUBREC) or
//! `waiting_to_be_completed` (until PUBCOMP). Inbound QoS 2 identifiers park
//! in `waiting_to_be_released` (until PUBREL) so duplicate deliveries can be
//! suppressed. Every transition is specified against the `Model` transition
//! functions below, which speak of packets by their views.

use vstd::prelude::*;

use crate::id_pool::{
    first_free_in_range, lemma_first_free_is_free, next_free, ExhaustedPool, PacketIdentifiers,
    IDENTIFIER_SLOTS,
};
use crate::proto::{
    lemma_packet_views_push, packet_views, Packet, PacketIdentifierDupQoS, PacketView, QoS,
};
use crate::{lemma_assoc, lemma_skip_append, Publication, ReceivedPublication};

verus! {

/// A publish request taken from the user: the publication itself and an
/// opaque token under which the caller waits for completion. The token is
/// chosen by the caller; completions are reported by returning the token.
pub struct PublishRequest {
    pub publication: Publication,
    pub ack_token: u64,
}

/// An outbound QoS >= 1 publication parked in flight, together with the
/// completion token of the request it came from. The packet identifier is
/// the slot the value is stored under, so it is not repeated here.
pub struct InFlightPublish {
    pub ack_token: u64,
    pub retain: bool,
    pub topic_name: String,
    pub payload: Vec<u8>,
    pub qos: QoS,
}

/// The mathematical state of the publish machine together with the
/// identifier pool it draws from. Slot vectors are indexed by packet
/// identifier; `acked` and `completed` live in this client's identifier
/// space (slot 0 never occupied), `released` in the server's.
#[verifier::ext_equal]
pub ghost struct Model {
    pub queue: Seq<PublishRequest>,
    pub acked: Seq<Option<InFlightPublish>>,
    pub released: Seq<bool>,
    pub completed: Seq<Option<InFlightPublish>>,
    pub pool: Seq<bool>,
    pub cursor: int,
}

/// What one step of the machine produces: the successor model, views of the
/// packets to write, at most one publication to surface, completion tokens
/// to signal, and whether the identifier pool ran dry.
#[verifier::ext_equal]
pub ghost struct StepOut {
    pub m: Model,
    pub packets: Seq<PacketView>,
    pub publication: Option<ReceivedPublication>,
    pub completions: Seq<u64>,
    pub exhausted: bool,
}

/// A step that changes nothing and produces nothing.
pub open spec fn no_output(m: Model) -> StepOut {
    StepOut {
        m,
        packets: Seq::empty(),
        publication: None,
        completions: Seq::empty(),
        exhausted: false,
    }
}

/// Well-formedness: full slot vectors, slot 0 unoccupied on the outbound
/// side, a cursor inside the identifier space, every parked entry at
/// QoS >= 1, each outbound identifier in at most one of the two outbound
/// structures and outstanding in the pool. `released` lives in the
/// server's identifier space: the server chooses those identifiers freely,
/// so they are tracked on their own and never drawn from or returned to
/// this client's pool.
pub open spec fn m_wf(m: Model) -> bool {
    &&& m.acked.len() == IDENTIFIER_SLOTS
    &&& m.released.len() == IDENTIFIER_SLOTS
    &&& m.completed.len() == IDENTIFIER_SLOTS
    &&& m.pool.len() == IDENTIFIER_SLOTS
    &&& 1 <= m.cursor < IDENTIFIER_SLOTS
    &&& m.acked[0] is None
    &&& m.completed[0] is None
    &&& !m.pool[0]
    &&& forall|id: int|
        0 <= id < IDENTIFIER_SLOTS ==> match #[trigger] m.acked[id] {
            Some(p) => p.qos != QoS::AtMostOnce && m.completed[id] is None && m.pool[id],
            None => true,
        }
    &&& forall|id: int|
        0 <= id < IDENTIFIER_SLOTS ==> match #[trigger] m.completed[id] {
            Some(p) => p.qos != QoS::AtMostOnce && m.pool[id],
            None => true,
        }
}

/// PUBACK(id): the QoS 1 flow for `id` is over. The entry leaves
/// `waiting_to_be_acked`, the identifier returns to the pool, and the
/// completion token is signalled. An unknown identifier changes nothing.
pub open spec fn puback_step(m: Model, id: int) -> StepOut {
    match m.acked[id] {
        Some(p) => StepOut {
            m: Model { acked: m.acked.update(id, None), pool: m.pool.update(id, false), ..m },
            packets: Seq::empty(),
            publication: None,
            completions: seq![p.ack_token],
            exhausted: false,
        },
        None => no_output(m),
    }
}

/// PUBREC(id): the first half of the outbound QoS 2 flow is over. The entry
/// moves from `waiting_to_be_acked` to `waiting_to_be_completed` (keeping
/// its token), and PUBREL(id) is written; PUBREL is written even for an
/// unknown identifier, the lenient recovery choice.
pub open spec fn pubrec_step(m: Model, id: int) -> StepOut {
    let moved = match m.acked[id] {
        Some(p) => Model {
            acked: m.acked.update(id, None),
            completed: m.completed.update(id, Some(p)),
            ..m
        },
        None => m,
    };
    StepOut {
        m: moved,
        packets: seq![PacketView::PubRel { packet_identifier: id as u16 }],
        publication: None,
        completions: Seq::empty(),
        exhausted: false,
    }
}

/// PUBREL(id): the server has released an inbound QoS 2 identifier. It
/// leaves `waiting_to_be_released` — which never occupied this client's
/// pool, the identifier being the server's — and PUBCOMP(id) is written
/// either way.
pub open spec fn pubrel_step(m: Model, id: int) -> StepOut {
    let next = if m.released[id] {
        Model { released: m.released.update(id, false), ..m }
    } else {
        m
    };
    StepOut {
        m: next,
        packets: seq![PacketView::PubComp { packet_identifier: id as u16 }],
        publication: None,
        completions: Seq::empty(),
        exhausted: false,
    }
}

/// PUBCOMP(id): the outbound QoS 2 flow for `id` is over. As `puback_step`,
/// on `waiting_to_be_completed`.
pub open spec fn pubcomp_step(m: Model, id: int) -> StepOut {
    match m.completed[id] {
        Some(p) => StepOut {
            m: Model {
                completed: m.completed.update(id, None),
                pool: m.pool.update(id, false),
                ..m
            },
            packets: Seq::empty(),
            publication: None,
            completions: seq![p.ack_token],
            exhausted: false,
        },
        None => no_output(m),
    }
}

/// An inbound PUBLISH. QoS 0 and 1 always surface the publication (QoS 1
/// also acknowledges it); QoS 2 surfaces it only the first time an
/// identifier is seen, parks the identifier until PUBREL, and answers
/// every delivery with PUBREC. The identifier is the server's choice and
/// is tracked in `released` alone, so duplicate suppression works whatever
/// the server picks — even an identifier equal to one of this client's own
/// outbound ones.
pub open spec fn inbound_publish_step(
    m: Model,
    tag: PacketIdentifierDupQoS,
    topic_name: String,
    payload: Vec<u8>,
) -> StepOut {
    match tag {
        PacketIdentifierDupQoS::AtMostOnce => StepOut {
            m,
            packets: Seq::empty(),
            publication: Some(
                ReceivedPublication { topic_name, dup: false, qos: QoS::AtMostOnce, payload },
            ),
            completions: Seq::empty(),
            exhausted: false,
        },
        PacketIdentifierDupQoS::AtLeastOnce(id, dup) => StepOut {
            m,
            packets: seq![PacketView::PubAck { packet_identifier: id }],
            publication: Some(
                ReceivedPublication { topic_name, dup, qos: QoS::AtLeastOnce, payload },
            ),
            completions: Seq::empty(),
            exhausted: false,
        },
        PacketIdentifierDupQoS::ExactlyOnce(id, dup) => {
            if m.released[id as int] {
                StepOut {
                    m,
                    packets: seq![PacketView::PubRec { packet_identifier: id }],
                    publication: None,
                    completions: Seq::empty(),
                    exhausted: false,
                }
            } else {
                StepOut {
                    m: Model { released: m.released.update(id as int, true), ..m },
                    packets: seq![PacketView::PubRec { packet_identifier: id }],
                    publication: Some(
                        ReceivedPublication { topic_name, dup, qos: QoS::ExactlyOnce, payload },
                    ),
                    completions: Seq::empty(),
                    exhausted: false,
                }
            }
        },
    }
}

/// The packet kinds the publish machine consumes from the wire.
pub open spec fn handles_packet(pkt: Option<Packet>) -> bool {
    match pkt {
        Some(Packet::PubAck { .. }) => true,
        Some(Packet::PubRec { .. }) => true,
        Some(Packet::PubRel { .. }) => true,
        Some(Packet::PubComp { .. }) => true,
        Some(Packet::Publish { .. }) => true,
        _ => false,
    }
}

/// Routing of one inbound packet; packets not addressed to this machine
/// change nothing.
pub open spec fn inbound_step(m: Model, pkt: Option<Packet>) -> StepOut {
    match pkt {
        Some(Packet::PubAck { packet_identifier }) => puback_step(m, packet_identifier as int),
        Some(Packet::PubRec { packet_identifier }) => pubrec_step(m, packet_identifier as int),
        Some(Packet::PubRel { packet_identifier }) => pubrel_step(m, packet_identifier as int),
        Some(Packet::PubComp { packet_identifier }) => pubcomp_step(m, packet_identifier as int),
        Some(
            Packet::Publish { packet_identifier_dup_qos, retain: _, topic_name, payload },
        ) => inbound_publish_step(m, packet_identifier_dup_qos, topic_name, payload),
        _ => no_output(m),
    }
}

/// The view of the PUBLISH packet for a new QoS 0 publication.
pub open spec fn qos0_packet(p: Publication) -> PacketView {
    PacketView::Publish {
        packet_identifier_dup_qos: PacketIdentifierDupQoS::AtMostOnce,
        retain: p.retain,
        topic_name: p.topic_name,
        payload: p.payload@,
    }
}

/// The in-flight record a request parks under while awaiting its ack.
pub open spec fn in_flight_of(req: PublishRequest) -> InFlightPublish {
    InFlightPublish {
        ack_token: req.ack_token,
        retain: req.publication.retain,
        topic_name: req.publication.topic_name,
        payload: req.publication.payload,
        qos: req.publication.qos,
    }
}

/// The view of the PUBLISH packet for an in-flight QoS >= 1 record stored
/// under `id`.
pub open spec fn publish_packet(id: int, dup: bool, p: InFlightPublish) -> PacketView {
    PacketView::Publish {
        packet_identifier_dup_qos: if p.qos == QoS::AtLeastOnce {
            PacketIdentifierDupQoS::AtLeastOnce(id as u16, dup)
        } else {
            PacketIdentifierDupQoS::ExactlyOnce(id as u16, dup)
        },
        retain: p.retain,
        topic_name: p.topic_name,
        payload: p.payload@,
    }
}

/// The cursor position after handing out `id`.
pub open spec fn cursor_after(id: int) -> int {
    if id + 1 < IDENTIFIER_SLOTS {
        id + 1
    } else {
        1
    }
}

/// Draining the request FIFO front to back. A QoS 0 request is written and
/// completed at once. A QoS >= 1 request reserves the identifier the pool
/// must yield next, parks in `waiting_to_be_acked` and is written with
/// `dup = false`; if the pool is exhausted the request stays at the head of
/// the queue and draining stops with `exhausted` set.
pub open spec fn drain(m: Model) -> StepOut
    decreases m.queue.len(),
{
    if m.queue.len() == 0 {
        no_output(m)
    } else {
        let req = m.queue[0];
        let rest = m.queue.drop_first();
        if req.publication.qos == QoS::AtMostOnce {
            let out = drain(Model { queue: rest, ..m });
            StepOut {
                packets: seq![qos0_packet(req.publication)] + out.packets,
                completions: seq![req.ack_token] + out.completions,
                ..out
            }
        } else {
            match next_free(m.pool, m.cursor) {
                None => StepOut {
                    m,
                    packets: Seq::empty(),
                    publication: None,
                    completions: Seq::empty(),
                    exhausted: true,
                },
                Some(id) => {
                    let out = drain(
                        Model {
                            queue: rest,
                            acked: m.acked.update(id, Some(in_flight_of(req))),
                            pool: m.pool.update(id, true),
                            cursor: cursor_after(id),
                            ..m
                        },
                    );
                    StepOut {
                        packets: seq![publish_packet(id, false, in_flight_of(req))] + out.packets,
                        ..out
                    }
                },
            }
        }
    }
}

/// One whole `poll`: consume at most one inbound packet, then drain the
/// request FIFO as far as the identifier pool allows.
pub open spec fn poll_spec(m: Model, pkt: Option<Packet>) -> StepOut {
    let mid = inbound_step(m, pkt);
    let out = drain(mid.m);
    StepOut {
        m: out.m,
        packets: mid.packets + out.packets,
        publication: mid.publication,
        completions: mid.completions + out.completions,
        exhausted: out.exhausted,
    }
}

/// The model after a session reset: entries awaiting PUBCOMP demote back to
/// awaiting PUBACK/PUBREC (the ExactlyOnce flow must restart at PUBLISH),
/// and inbound identifiers awaiting PUBREL are forgotten (the server no
/// longer remembers the PUBREC). Inbound identifiers never occupied this
/// client's pool, so the pool is untouched.
pub open spec fn reset_model(m: Model) -> Model {
    Model {
        queue: m.queue,
        acked: Seq::new(
            IDENTIFIER_SLOTS as nat,
            |id: int|
                if m.completed[id] is Some {
                    m.completed[id]
                } else {
                    m.acked[id]
                },
        ),
        released: Seq::new(IDENTIFIER_SLOTS as nat, |id: int| false),
        completed: Seq::new(IDENTIFIER_SLOTS as nat, |id: int| None),
        pool: m.pool,
        cursor: m.cursor,
    }
}

/// The replay of a slot vector of parked PUBLISH packets from identifier
/// `i` upward, in ascending identifier order, each with `dup` set.
pub open spec fn publish_replay_from(s: Seq<Option<InFlightPublish>>, i: int) -> Seq<PacketView>
    decreases IDENTIFIER_SLOTS - i,
{
    if i < 0 || i >= IDENTIFIER_SLOTS {
        Seq::empty()
    } else {
        (match s[i] {
            Some(p) => seq![publish_packet(i, true, p)],
            None => Seq::empty(),
        }) + publish_replay_from(s, i + 1)
    }
}

/// The replay of PUBREC answers for parked inbound identifiers from `i`
/// upward, in ascending identifier order.
pub open spec fn pubrec_replay_from(s: Seq<bool>, i: int) -> Seq<PacketView>
    decreases IDENTIFIER_SLOTS - i,
{
    if i < 0 || i >= IDENTIFIER_SLOTS {
        Seq::empty()
    } else {
        (if s[i] {
            seq![PacketView::PubRec { packet_identifier: i as u16 }]
        } else {
            Seq::empty()
        }) + pubrec_replay_from(s, i + 1)
    }
}

/// Everything a fresh connection must be told: every PUBLISH awaiting its
/// first ack, then a PUBREC for every parked inbound identifier, then every
/// PUBLISH awaiting PUBCOMP — each exactly once, with `dup` set.
pub open spec fn replay_packets(m: Model) -> Seq<PacketView> {
    publish_replay_from(m.acked, 1) + pubrec_replay_from(m.released, 0) + publish_replay_from(
        m.completed,
        1,
    )
}

/// What `State::poll` hands back to the driver.
pub struct PollOutput {
    /// Packets to write, in order: responses to the inbound packet first,
    /// then new PUBLISH packets in submission order.
    pub packets: Vec<Packet>,
    /// At most one publication to surface to the user.
    pub publication: Option<ReceivedPublication>,
    /// Completion tokens of requests whose protocol flow finished.
    pub completions: Vec<u64>,
    /// The identifier pool ran dry; requests remain queued and the driver
    /// should stop draining until an identifier frees.
    pub exhausted: bool,
}

/// The publish machine's concrete state.
pub struct State {
    publish_requests_waiting_to_be_sent: Vec<PublishRequest>,
    waiting_to_be_acked: Vec<Option<InFlightPublish>>,
    waiting_to_be_released: Vec<bool>,
    waiting_to_be_completed: Vec<Option<InFlightPublish>>,
}

impl State {
    /// Requests not yet written, front first.
    pub closed spec fn queue(self) -> Seq<PublishRequest> {
        self.publish_requests_waiting_to_be_sent@
    }

    /// Outbound publications awaiting PUBACK or PUBREC, by identifier.
    pub closed spec fn acked(self) -> Seq<Option<InFlightPublish>> {
        self.waiting_to_be_acked@
    }

    /// Inbound QoS 2 identifiers awaiting PUBREL.
    pub closed spec fn released(self) -> Seq<bool> {
        self.waiting_to_be_released@
    }

    /// Outbound QoS 2 publications past PUBREC, awaiting PUBCOMP.
    pub closed spec fn completed(self) -> Seq<Option<InFlightPublish>> {
        self.waiting_to_be_completed@
    }

    /// This state together with the pool it draws identifiers from.
    pub open spec fn model(self, pool: PacketIdentifiers) -> Model {
        Model {
            queue: self.queue(),
            acked: self.acked(),
            released: self.released(),
            completed: self.completed(),
            pool: pool.in_use(),
            cursor: pool.cursor(),
        }
    }

    /// An empty machine: nothing queued, nothing in flight.
    pub fn new() -> (r: Self)
        ensures
            r.queue() == Seq::<PublishRequest>::empty(),
            r.acked() == Seq::new(IDENTIFIER_SLOTS as nat, |id: int| None::<InFlightPublish>),
            r.released() == Seq::new(IDENTIFIER_SLOTS as nat, |id: int| false),
            r.completed() == Seq::new(IDENTIFIER_SLOTS as nat, |id: int| None::<InFlightPublish>),
    {
        let mut waiting_to_be_acked: Vec<Option<InFlightPublish>> = Vec::new();
        let mut waiting_to_be_released: Vec<bool> = Vec::new();
        let mut waiting_to_be_completed: Vec<Option<InFlightPublish>> = Vec::new();
        let mut i: usize = 0;
        while i < IDENTIFIER_SLOTS
            invariant
                i == waiting_to_be_acked.len() <= IDENTIFIER_SLOTS,
                i == waiting_to_be_released.len(),
                i == waiting_to_be_completed.len(),
                forall|j: int| 0 <= j < i ==> #[trigger] waiting_to_be_acked@[j] is None,
                forall|j: int| 0 <= j < i ==> !(#[trigger] waiting_to_be_released@[j]),
                forall|j: int| 0 <= j < i ==> #[trigger] waiting_to_be_completed@[j] is None,
            decreases IDENTIFIER_SLOTS - i,
        {
            waiting_to_be_acked.push(None);
            waiting_to_be_released.push(false);
            waiting_to_be_completed.push(None);
            i = i + 1;
        }
        let r = State {
            publish_requests_waiting_to_be_sent: Vec::new(),
            waiting_to_be_acked,
            waiting_to_be_released,
            waiting_to_be_completed,
        };
        proof {
            assert(r.acked() =~= Seq::new(IDENTIFIER_SLOTS as nat, |id: int| None::<
                InFlightPublish,
            >));
            assert(r.released() =~= Seq::new(IDENTIFIER_SLOTS as nat, |id: int| false));
            assert(r.completed() =~= Seq::new(IDENTIFIER_SLOTS as nat, |id: int| None::<
                InFlightPublish,
            >));
        }
        r
    }

    /// Queues a publish request behind the ones already waiting.
    pub fn enqueue_publish(&mut self, request: PublishRequest)
        ensures
            final(self).queue() == old(self).queue().push(request),
            final(self).acked() == old(self).acked(),
            final(self).released() == old(self).released(),
            final(self).completed() == old(self).completed(),
    {
        self.publish_requests_waiting_to_be_sent.push(request);
    }

    /// Consumes the inbound packet if it is addressed to this machine and
    /// leaves it alone otherwise; the effect is exactly `inbound_step`.
    #[verifier::rlimit(60)]
    fn handle_inbound(
        &mut self,
        packet: &mut Option<Packet>,
        packet_identifiers: &mut PacketIdentifiers,
    ) -> (r: (Vec<Packet>, Option<ReceivedPublication>, Vec<u64>))
        requires
            m_wf(old(self).model(*old(packet_identifiers))),
        ensures
            m_wf(final(self).model(*final(packet_identifiers))),
            ({
                let out = inbound_step(old(self).model(*old(packet_identifiers)), *old(packet));
                &&& final(self).model(*final(packet_identifiers)) == out.m
                &&& packet_views(r.0@) == out.packets
                &&& r.1 == out.publication
                &&& r.2@ == out.completions
            }),
            *final(packet) == if handles_packet(*old(packet)) {
                None::<Packet>
            } else {
                *old(packet)
            },
    {
        let ghost m0 = self.model(*packet_identifiers);
        let ghost pkt0 = *packet;
        let mut packets: Vec<Packet> = Vec::new();
        let mut publication: Option<ReceivedPublication> = None;
        let mut completions: Vec<u64> = Vec::new();

        let taken = packet.take();
        match taken {
            Some(Packet::PubAck { packet_identifier }) => {
                match &self.waiting_to_be_acked[packet_identifier as usize] {
                    Some(in_flight) => {
                        completions.push(in_flight.ack_token);
                        self.waiting_to_be_acked.set(packet_identifier as usize, None);
                        packet_identifiers.discard(packet_identifier);
                    },
                    None => {
                        // A PUBACK for a PUBLISH this client never sent is
                        // tolerated and dropped.
                    },
                }
            },
            Some(Packet::PubComp { packet_identifier }) => {
                match &self.waiting_to_be_completed[packet_identifier as usize] {
                    Some(in_flight) => {
                        completions.push(in_flight.ack_token);
                        self.waiting_to_be_completed.set(packet_identifier as usize, None);
                        packet_identifiers.discard(packet_identifier);
                    },
                    None => {},
                }
            },
            Some(Packet::PubRec { packet_identifier }) => {
                if self.waiting_to_be_acked[packet_identifier as usize].is_some() {
                    let mut entry: Option<InFlightPublish> = None;
                    self.waiting_to_be_acked.set_and_swap(packet_identifier as usize, &mut entry);
                    self.waiting_to_be_completed.set(packet_identifier as usize, entry);
                }
                packets.push(Packet::PubRel { packet_identifier });
            },
            Some(Packet::PubRel { packet_identifier }) => {
                if self.waiting_to_be_released[packet_identifier as usize] {
                    self.waiting_to_be_released.set(packet_identifier as usize, false);
                }
                packets.push(Packet::PubComp { packet_identifier });
            },
            Some(Packet::Publish { packet_identifier_dup_qos, retain: _, topic_name, payload }) => {
                match packet_identifier_dup_qos {
                    PacketIdentifierDupQoS::AtMostOnce => {
                        publication = Some(
                            ReceivedPublication {
                                topic_name,
                                dup: false,
                                qos: QoS::AtMostOnce,
                                payload,
                            },
                        );
                    },
                    PacketIdentifierDupQoS::AtLeastOnce(packet_identifier, dup) => {
                        publication = Some(
                            ReceivedPublication { topic_name, dup, qos: QoS::AtLeastOnce, payload },
                        );
                        packets.push(Packet::PubAck { packet_identifier });
                    },
                    PacketIdentifierDupQoS::ExactlyOnce(packet_identifier, dup) => {
                        if self.waiting_to_be_released[packet_identifier as usize] {
                            // Duplicate delivery: the earlier PUBREC was
                            // lost. Answer again, surface nothing.
                        } else {
                            self.waiting_to_be_released.set(packet_identifier as usize, true);
                            publication = Some(
                                ReceivedPublication {
                                    topic_name,
                                    dup,
                                    qos: QoS::ExactlyOnce,
                                    payload,
                                },
                            );
                        }
                        packets.push(Packet::PubRec { packet_identifier });
                    },
                }
            },
            other => {
                *packet = other;
            },
        }

        proof {
            let out = inbound_step(m0, pkt0);
            assert(self.model(*packet_identifiers) =~= out.m);
            assert(packet_views(packets@) =~= out.packets);
            assert(completions@ =~= out.completions);
        }
        (packets, publication, completions)
    }

    /// One driver step: consume the inbound packet if it is addressed to
    /// this machine (leave it alone otherwise), then send as many queued
    /// requests as the identifier pool allows. The effect is exactly
    /// `poll_spec` on the combined model.
    #[verifier::rlimit(60)]
    pub fn poll(
        &mut self,
        packet: &mut Option<Packet>,
        packet_identifiers: &mut PacketIdentifiers,
    ) -> (r: PollOutput)
        requires
            m_wf(old(self).model(*old(packet_identifiers))),
        ensures
            m_wf(final(self).model(*final(packet_identifiers))),
            ({
                let out = poll_spec(old(self).model(*old(packet_identifiers)), *old(packet));
                &&& final(self).model(*final(packet_identifiers)) == out.m
                &&& packet_views(r.packets@) == out.packets
                &&& r.publication == out.publication
                &&& r.completions@ == out.completions
                &&& r.exhausted == out.exhausted
            }),
            *final(packet) == if handles_packet(*old(packet)) {
                None::<Packet>
            } else {
                *old(packet)
            },
    {
        let ghost m0 = self.model(*packet_identifiers);
        let ghost pkt0 = *packet;
        let (mut packets, publication, mut completions) = self.handle_inbound(
            packet,
            packet_identifiers,
        );

        let ghost mid = inbound_step(m0, pkt0);
        let ghost m_mid = self.model(*packet_identifiers);
        let ghost base_packets = packet_views(packets@);
        let ghost base_completions = completions@;
        let mut exhausted = false;

        while self.publish_requests_waiting_to_be_sent.len() > 0 && !exhausted
            invariant
                m_wf(self.model(*packet_identifiers)),
                publication == mid.publication,
                base_packets.len() <= packet_views(packets@).len(),
                packet_views(packets@).take(base_packets.len() as int) == base_packets,
                base_completions.len() <= completions@.len(),
                completions@.take(base_completions.len() as int) == base_completions,
                ({
                    let whole = drain(m_mid);
                    let cur = drain(self.model(*packet_identifiers));
                    &&& whole.m == cur.m
                    &&& whole.packets == packet_views(packets@).skip(base_packets.len() as int)
                        + cur.packets
                    &&& whole.completions == completions@.skip(base_completions.len() as int)
                        + cur.completions
                    &&& whole.exhausted == cur.exhausted
                    &&& exhausted ==> cur.exhausted && self.model(*packet_identifiers) == cur.m
                        && cur.packets == Seq::<PacketView>::empty() && cur.completions == Seq::<
                        u64,
                    >::empty()
                }),
            decreases self.publish_requests_waiting_to_be_sent.len() as int + 1 - (if exhausted {
                1int
            } else {
                0int
            }),
        {
            let ghost cur_pre = self.model(*packet_identifiers);
            let ghost packets_pre = packets@;
            let ghost completions_pre = completions@;
            let req = self.publish_requests_waiting_to_be_sent.remove(0);
            let ghost req_g = req;
            if req.publication.qos == QoS::AtMostOnce {
                let PublishRequest { publication: p, ack_token } = req;
                let Publication { topic_name, qos: _, retain, payload } = p;
                let out_packet = Packet::Publish {
                    packet_identifier_dup_qos: PacketIdentifierDupQoS::AtMostOnce,
                    retain,
                    topic_name,
                    payload,
                };
                proof {
                    lemma_packet_views_push(packets_pre, out_packet);
                }
                packets.push(out_packet);
                completions.push(ack_token);
                proof {
                    let cur = self.model(*packet_identifiers);
                    let pkt_step = seq![qos0_packet(req_g.publication)];
                    let tok_step = seq![req_g.ack_token];
                    assert(cur =~= Model { queue: cur_pre.queue.drop_first(), ..cur_pre });
                    assert(drain(cur_pre).packets == pkt_step + drain(cur).packets);
                    assert(drain(cur_pre).completions == tok_step + drain(cur).completions);
                    assert(packet_views(packets@) =~= packet_views(packets_pre) + pkt_step);
                    assert(completions@ =~= completions_pre + tok_step);
                    lemma_skip_append(
                        packet_views(packets_pre),
                        pkt_step,
                        base_packets.len() as int,
                    );
                    lemma_skip_append(completions_pre, tok_step, base_completions.len() as int);
                    lemma_assoc(
                        packet_views(packets_pre).skip(base_packets.len() as int),
                        pkt_step,
                        drain(cur).packets,
                    );
                    lemma_assoc(
                        completions_pre.skip(base_completions.len() as int),
                        tok_step,
                        drain(cur).completions,
                    );
                }
            } else {
                match packet_identifiers.reserve() {
                    Ok(packet_identifier) => {
                        let topic_copy = req.publication.topic_name.clone();
                        let payload_copy = crate::clone_bytes(&req.publication.payload);
                        let dup_tag = if req.publication.qos == QoS::AtLeastOnce {
                            PacketIdentifierDupQoS::AtLeastOnce(packet_identifier, false)
                        } else {
                            PacketIdentifierDupQoS::ExactlyOnce(packet_identifier, false)
                        };
                        let PublishRequest { publication: p, ack_token } = req;
                        let Publication { topic_name, qos, retain, payload } = p;
                        let out_packet = Packet::Publish {
                            packet_identifier_dup_qos: dup_tag,
                            retain,
                            topic_name: topic_copy,
                            payload: payload_copy,
                        };
                        proof {
                            lemma_packet_views_push(packets_pre, out_packet);
                        }
                        packets.push(out_packet);
                        self.waiting_to_be_acked.set(
                            packet_identifier as usize,
                            Some(InFlightPublish { ack_token, retain, topic_name, payload, qos }),
                        );
                        proof {
                            let id = packet_identifier as int;
                            let cur = self.model(*packet_identifiers);
                            let pkt_step = seq![publish_packet(id, false, in_flight_of(req_g))];
                            assert(next_free(cur_pre.pool, cur_pre.cursor) == Some(id));
                            assert(cur =~= Model {
                                queue: cur_pre.queue.drop_first(),
                                acked: cur_pre.acked.update(id, Some(in_flight_of(req_g))),
                                pool: cur_pre.pool.update(id, true),
                                cursor: cursor_after(id),
                                ..cur_pre
                            });
                            assert(drain(cur_pre).packets == pkt_step + drain(cur).packets);
                            assert(drain(cur_pre).completions == drain(cur).completions);
                            assert(packet_views(packets@) =~= packet_views(packets_pre)
                                + pkt_step);
                            lemma_skip_append(
                                packet_views(packets_pre),
                                pkt_step,
                                base_packets.len() as int,
                            );
                            lemma_assoc(
                                packet_views(packets_pre).skip(base_packets.len() as int),
                                pkt_step,
                                drain(cur).packets,
                            );
                        }
                    },
                    Err(ExhaustedPool) => {
                        self.publish_requests_waiting_to_be_sent.insert(0, req);
                        exhausted = true;
                        proof {
                            let cur = self.model(*packet_identifiers);
                            assert(cur =~= cur_pre);
                            assert(drain(cur_pre).exhausted);
                        }
                    },
                }
            }
        }

        proof {
            let out = poll_spec(m0, pkt0);
            let pv = packet_views(packets@);
            assert(pv =~= base_packets + pv.skip(base_packets.len() as int));
            assert(completions@ =~= base_completions + completions@.skip(
                base_completions.len() as int,
            ));
            if !exhausted {
                assert(drain(self.model(*packet_identifiers)) == no_output(
                    self.model(*packet_identifiers),
                ));
            }
            assert(pv =~= out.packets);
            assert(completions@ =~= out.completions);
        }
        PollOutput { packets, publication, completions, exhausted }
    }

    /// Tells the machine a fresh connection is up. On a session reset the
    /// model demotes and forgets as `reset_model` says; either way the
    /// returned packets replay every in-flight flow exactly once, in the
    /// order `replay_packets` gives: parked PUBLISHes awaiting their first
    /// ack, then PUBRECs for parked inbound identifiers, then PUBLISHes
    /// awaiting PUBCOMP — all with `dup` set.
    #[verifier::rlimit(60)]
    pub fn new_connection(
        &mut self,
        reset_session: bool,
        packet_identifiers: &mut PacketIdentifiers,
    ) -> (r: Vec<Packet>)
        requires
            m_wf(old(self).model(*old(packet_identifiers))),
        ensures
            m_wf(final(self).model(*final(packet_identifiers))),
            ({
                let m0 = old(self).model(*old(packet_identifiers));
                let m1 = if reset_session {
                    reset_model(m0)
                } else {
                    m0
                };
                &&& final(self).model(*final(packet_identifiers)) == m1
                &&& packet_views(r@) == replay_packets(m1)
            }),
    {
        let ghost m0 = self.model(*packet_identifiers);
        let ghost pool0 = *packet_identifiers;
        if reset_session {
            let mut i: usize = 0;
            while i < IDENTIFIER_SLOTS
                invariant
                    i <= IDENTIFIER_SLOTS,
                    m_wf(m0),
                    self.queue() == m0.queue,
                    self.acked().len() == IDENTIFIER_SLOTS,
                    self.released().len() == IDENTIFIER_SLOTS,
                    self.completed().len() == IDENTIFIER_SLOTS,
                    *packet_identifiers == pool0,
                    forall|j: int|
                        0 <= j < i ==> #[trigger] self.acked()[j] == (if m0.completed[j] is Some {
                            m0.completed[j]
                        } else {
                            m0.acked[j]
                        }),
                    forall|j: int| 0 <= j < i ==> !(#[trigger] self.released()[j]),
                    forall|j: int| 0 <= j < i ==> #[trigger] self.completed()[j] is None,
                    forall|j: int|
                        i <= j < IDENTIFIER_SLOTS ==> #[trigger] self.acked()[j] == m0.acked[j],
                    forall|j: int|
                        i <= j < IDENTIFIER_SLOTS ==> #[trigger] self.released()[j]
                            == m0.released[j],
                    forall|j: int|
                        i <= j < IDENTIFIER_SLOTS ==> #[trigger] self.completed()[j]
                            == m0.completed[j],
                decreases IDENTIFIER_SLOTS - i,
            {
                if self.waiting_to_be_completed[i].is_some() {
                    let mut entry: Option<InFlightPublish> = None;
                    self.waiting_to_be_completed.set_and_swap(i, &mut entry);
                    self.waiting_to_be_acked.set(i, entry);
                }
                if self.waiting_to_be_released[i] {
                    self.waiting_to_be_released.set(i, false);
                }
                i = i + 1;
            }
            proof {
                assert(self.model(*packet_identifiers) =~= reset_model(m0));
                lemma_reset_wf(m0);
            }
        }

        let ghost m1 = self.model(*packet_identifiers);
        let mut packets: Vec<Packet> = Vec::new();
        proof {
            assert(packet_views(packets@) =~= Seq::<PacketView>::empty());
        }
        collect_publish_replay(&self.waiting_to_be_acked, &mut packets);
        collect_pubrec_replay(&self.waiting_to_be_released, &mut packets);
        collect_publish_replay(&self.waiting_to_be_completed, &mut packets);
        proof {
            assert(Seq::<PacketView>::empty() + publish_replay_from(m1.acked, 1)
                =~= publish_replay_from(m1.acked, 1));
            lemma_assoc(
                publish_replay_from(m1.acked, 1),
                pubrec_replay_from(m1.released, 0),
                publish_replay_from(m1.completed, 1),
            );
            assert(packet_views(packets@) == replay_packets(m1));
        }
        packets
    }
}

/// A completion is signalled only by the final ack of its flow — PUBACK
/// for QoS 1, PUBCOMP for QoS 2 — and never before: the signalling step
/// removes the flow, so the same ack again signals nothing.
pub proof fn lemma_completion_only_on_final_ack(m: Model, pkt: Option<Packet>, tok: u64)
    requires
        m_wf(m),
        inbound_step(m, pkt).completions.contains(tok),
    ensures
        match pkt {
            Some(Packet::PubAck { packet_identifier }) => {
                &&& m.acked[packet_identifier as int] matches Some(p) && p.ack_token == tok
                &&& inbound_step(m, pkt).m.acked[packet_identifier as int] is None
                &&& inbound_step(inbound_step(m, pkt).m, pkt).completions =~= Seq::<u64>::empty()
            },
            Some(Packet::PubComp { packet_identifier }) => {
                &&& m.completed[packet_identifier as int] matches Some(p) && p.ack_token == tok
                &&& inbound_step(m, pkt).m.completed[packet_identifier as int] is None
                &&& inbound_step(inbound_step(m, pkt).m, pkt).completions =~= Seq::<u64>::empty()
            },
            _ => false,
        },
{
}

/// An inbound QoS 2 publication is surfaced to the user exactly once per
/// identifier: the first delivery surfaces it and parks the identifier;
/// any further delivery before the PUBREL surfaces nothing and changes
/// nothing, though each one is answered with PUBREC; the PUBREL finally
/// unparks the identifier.
pub proof fn lemma_inbound_qos2_exactly_once(
    m: Model,
    id: u16,
    dup1: bool,
    dup2: bool,
    t1: String,
    p1: Vec<u8>,
    t2: String,
    p2: Vec<u8>,
)
    requires
        m_wf(m),
        !m.released[id as int],
    ensures
        ({
            let first = inbound_publish_step(
                m,
                PacketIdentifierDupQoS::ExactlyOnce(id, dup1),
                t1,
                p1,
            );
            let second = inbound_publish_step(
                first.m,
                PacketIdentifierDupQoS::ExactlyOnce(id, dup2),
                t2,
                p2,
            );
            &&& first.publication is Some
            &&& first.packets == seq![PacketView::PubRec { packet_identifier: id }]
            &&& second.publication is None
            &&& second.m == first.m
            &&& second.packets == seq![PacketView::PubRec { packet_identifier: id }]
            &&& !pubrel_step(first.m, id as int).m.released[id as int]
        }),
{
}

/// The queue drain completes only QoS 0 requests, at the moment their
/// PUBLISH is written; together with `lemma_completion_only_on_final_ack`
/// this says a QoS >= 1 publication's future resolves only on its final
/// ack.
pub proof fn lemma_drain_completions_are_qos0(m: Model, tok: u64)
    requires
        drain(m).completions.contains(tok),
    ensures
        exists|k: int|
            0 <= k < m.queue.len() && #[trigger] m.queue[k].ack_token == tok
                && m.queue[k].publication.qos == QoS::AtMostOnce,
    decreases m.queue.len(),
{
    let req = m.queue[0];
    let rest = m.queue.drop_first();
    if req.publication.qos == QoS::AtMostOnce {
        let m2 = Model { queue: rest, ..m };
        let s = drain(m).completions;
        let i = choose|i: int| 0 <= i < s.len() && s[i] == tok;
        if i == 0 {
            assert(m.queue[0].ack_token == tok && m.queue[0].publication.qos == QoS::AtMostOnce);
        } else {
            assert(drain(m2).completions[i - 1] == tok);
            assert(drain(m2).completions.contains(tok));
            lemma_drain_completions_are_qos0(m2, tok);
            let k = choose|k: int|
                0 <= k < m2.queue.len() && #[trigger] m2.queue[k].ack_token == tok
                    && m2.queue[k].publication.qos == QoS::AtMostOnce;
            assert(m.queue[k + 1].ack_token == tok && m.queue[k + 1].publication.qos
                == QoS::AtMostOnce);
        }
    } else {
        match next_free(m.pool, m.cursor) {
            None => {},
            Some(id) => {
                let m2 = Model {
                    queue: rest,
                    acked: m.acked.update(id, Some(in_flight_of(req))),
                    pool: m.pool.update(id, true),
                    cursor: cursor_after(id),
                    ..m
                };
                lemma_drain_completions_are_qos0(m2, tok);
                let k = choose|k: int|
                    0 <= k < m2.queue.len() && #[trigger] m2.queue[k].ack_token == tok
                        && m2.queue[k].publication.qos == QoS::AtMostOnce;
                assert(m.queue[k + 1].ack_token == tok && m.queue[k + 1].publication.qos
                    == QoS::AtMostOnce);
            },
        }
    }
}

/// Whether `pv` is the PUBLISH that request `req` goes out as: a QoS 0
/// request goes out untagged; a QoS >= 1 request goes out under some
/// identifier with `dup` clear.
pub open spec fn packet_of_request(pv: PacketView, req: PublishRequest) -> bool {
    if req.publication.qos == QoS::AtMostOnce {
        pv == qos0_packet(req.publication)
    } else {
        exists|id: int|
            1 <= id < IDENTIFIER_SLOTS && pv == publish_packet(id, false, in_flight_of(req))
    }
}

/// The queue drains front to back: the packets written are exactly the
/// PUBLISHes of a prefix of the queue in submission order — the k-th
/// packet written belongs to the k-th queued request — and the whole queue
/// goes out unless the identifier pool runs dry.
pub proof fn lemma_drain_sends_in_submission_order(m: Model)
    requires
        m_wf(m),
    ensures
        drain(m).packets.len() <= m.queue.len(),
        !drain(m).exhausted ==> drain(m).packets.len() == m.queue.len(),
        forall|k: int|
            0 <= k < drain(m).packets.len() ==> packet_of_request(
                #[trigger] drain(m).packets[k],
                m.queue[k],
            ),
    decreases m.queue.len(),
{
    if m.queue.len() == 0 {
    } else {
        let req = m.queue[0];
        let rest = m.queue.drop_first();
        if req.publication.qos == QoS::AtMostOnce {
            let m2 = Model { queue: rest, ..m };
            lemma_drain_sends_in_submission_order(m2);
            assert forall|k: int|
                0 <= k < drain(m).packets.len() implies packet_of_request(
                drain(m).packets[k],
                m.queue[k],
            ) by {
                if k == 0 {
                    assert(drain(m).packets[0] == qos0_packet(req.publication));
                } else {
                    assert(drain(m).packets[k] == drain(m2).packets[k - 1]);
                    assert(m.queue[k] == m2.queue[k - 1]);
                }
            }
        } else {
            match next_free(m.pool, m.cursor) {
                None => {},
                Some(id) => {
                    if first_free_in_range(m.pool, m.cursor, IDENTIFIER_SLOTS as int) == Some(
                        id,
                    ) {
                        lemma_first_free_is_free(m.pool, m.cursor, IDENTIFIER_SLOTS as int, id);
                    } else {
                        lemma_first_free_is_free(m.pool, 1, m.cursor, id);
                    }
                    assert(1 <= id < IDENTIFIER_SLOTS && !m.pool[id]);
                    let m2 = Model {
                        queue: rest,
                        acked: m.acked.update(id, Some(in_flight_of(req))),
                        pool: m.pool.update(id, true),
                        cursor: cursor_after(id),
                        ..m
                    };
                    assert(m_wf(m2));
                    lemma_drain_sends_in_submission_order(m2);
                    assert forall|k: int|
                        0 <= k < drain(m).packets.len() implies packet_of_request(
                        drain(m).packets[k],
                        m.queue[k],
                    ) by {
                        if k == 0 {
                            assert(drain(m).packets[0] == publish_packet(
                                id,
                                false,
                                in_flight_of(req),
                            ));
                        } else {
                            assert(drain(m).packets[k] == drain(m2).packets[k - 1]);
                            assert(m.queue[k] == m2.queue[k - 1]);
                        }
                    }
                },
            }
        }
    }
}

/// The completion tokens of the QoS 0 requests in a queue, in order.
pub open spec fn qos0_tokens(q: Seq<PublishRequest>) -> Seq<u64>
    decreases q.len(),
{
    if q.len() == 0 {
        Seq::empty()
    } else {
        (if q[0].publication.qos == QoS::AtMostOnce {
            seq![q[0].ack_token]
        } else {
            Seq::empty()
        }) + qos0_tokens(q.drop_first())
    }
}

/// When the pool does not run dry, draining signals exactly the QoS 0
/// requests' tokens, in submission order, at the moment their PUBLISH is
/// written: a QoS 0 publish future resolves immediately, without any ack.
pub proof fn lemma_drain_completes_qos0_immediately(m: Model)
    requires
        m_wf(m),
        !drain(m).exhausted,
    ensures
        drain(m).completions == qos0_tokens(m.queue),
    decreases m.queue.len(),
{
    if m.queue.len() == 0 {
    } else {
        let req = m.queue[0];
        let rest = m.queue.drop_first();
        if req.publication.qos == QoS::AtMostOnce {
            let m2 = Model { queue: rest, ..m };
            lemma_drain_completes_qos0_immediately(m2);
        } else {
            match next_free(m.pool, m.cursor) {
                None => {},
                Some(id) => {
                    if first_free_in_range(m.pool, m.cursor, IDENTIFIER_SLOTS as int) == Some(
                        id,
                    ) {
                        lemma_first_free_is_free(m.pool, m.cursor, IDENTIFIER_SLOTS as int, id);
                    } else {
                        lemma_first_free_is_free(m.pool, 1, m.cursor, id);
                    }
                    let m2 = Model {
                        queue: rest,
                        acked: m.acked.update(id, Some(in_flight_of(req))),
                        pool: m.pool.update(id, true),
                        cursor: cursor_after(id),
                        ..m
                    };
                    assert(m_wf(m2));
                    lemma_drain_completes_qos0_immediately(m2);
                    assert(drain(m).completions =~= Seq::<u64>::empty() + qos0_tokens(rest));
                },
            }
        }
    }
}

/// A flow's final step does not leak identifiers: the outbound acks return
/// the identifier to the pool and park it in neither outbound structure;
/// the PUBREL forgets the parked inbound identifier, which — being the
/// server's — never occupied the pool at all.
pub proof fn lemma_flow_completion_frees_identifier(m: Model, id: int)
    requires
        m_wf(m),
        0 <= id < IDENTIFIER_SLOTS,
    ensures
        m.acked[id] is Some ==> ({
            let out = puback_step(m, id);
            !out.m.pool[id] && out.m.acked[id] is None && out.m.completed[id] is None
        }),
        m.completed[id] is Some ==> ({
            let out = pubcomp_step(m, id);
            !out.m.pool[id] && out.m.acked[id] is None && out.m.completed[id] is None
        }),
        m.released[id] ==> ({
            let out = pubrel_step(m, id);
            !out.m.released[id] && out.m.pool == m.pool
        }),
{
}

/// A PUBACK for an identifier with no flow in flight is harmless: no state
/// change, no packet, no completion, no publication.
pub proof fn lemma_unknown_puback_harmless(m: Model, id: int)
    requires
        m.acked[id] is None,
    ensures
        puback_step(m, id) == no_output(m),
{
}

/// A completion signalled by a whole poll comes from one of exactly two
/// places: the final ack of an in-flight flow (see
/// `lemma_completion_only_on_final_ack`), or a queued QoS 0 publication
/// completed at the moment its PUBLISH is written. Nothing else resolves a
/// publish future.
pub proof fn lemma_poll_completion_discipline(m: Model, pkt: Option<Packet>, tok: u64)
    requires
        m_wf(m),
        poll_spec(m, pkt).completions.contains(tok),
    ensures
        inbound_step(m, pkt).completions.contains(tok) || exists|k: int|
            0 <= k < m.queue.len() && #[trigger] m.queue[k].ack_token == tok
                && m.queue[k].publication.qos == QoS::AtMostOnce,
{
    let mid = inbound_step(m, pkt);
    let s = poll_spec(m, pkt).completions;
    let i = choose|i: int| 0 <= i < s.len() && s[i] == tok;
    if i < mid.completions.len() {
        assert(mid.completions[i] == tok);
        assert(mid.completions.contains(tok));
    } else {
        assert(drain(mid.m).completions[i - mid.completions.len()] == tok);
        assert(drain(mid.m).completions.contains(tok));
        assert(mid.m.queue == m.queue);
        lemma_drain_completions_are_qos0(mid.m, tok);
    }
}

/// The number of parked entries in a slot vector from `i` upward.
pub open spec fn occupied_from(s: Seq<Option<InFlightPublish>>, i: int) -> int
    decreases IDENTIFIER_SLOTS - i,
{
    if i < 0 || i >= IDENTIFIER_SLOTS {
        0
    } else {
        (if s[i] is Some {
            1int
        } else {
            0int
        }) + occupied_from(s, i + 1)
    }
}

/// The replay of a slot vector holds one packet per parked entry — no
/// entry is skipped and none is sent twice: the packet of slot `id` stands
/// in the replay exactly once, and the lengths agree so there is no room
/// for a second copy of anything.
pub proof fn lemma_publish_replay_exactly_once(s: Seq<Option<InFlightPublish>>, i: int)
    ensures
        publish_replay_from(s, i).len() == occupied_from(s, i),
        forall|id: int|
            i <= id < IDENTIFIER_SLOTS && 0 <= i && (#[trigger] s[id]) is Some
                ==> publish_replay_from(s, i).contains(
                publish_packet(id, true, s[id]->Some_0),
            ),
    decreases IDENTIFIER_SLOTS - i,
{
    if i < 0 || i >= IDENTIFIER_SLOTS {
    } else {
        lemma_publish_replay_exactly_once(s, i + 1);
        let whole = publish_replay_from(s, i);
        let head: Seq<PacketView> = match s[i] {
            Some(p) => seq![publish_packet(i, true, p)],
            None => Seq::empty(),
        };
        let rest = publish_replay_from(s, i + 1);
        assert forall|id: int|
            i <= id < IDENTIFIER_SLOTS && (#[trigger] s[id]) is Some implies whole.contains(
            publish_packet(id, true, s[id]->Some_0),
        ) by {
            if id == i {
                assert(whole[0] == publish_packet(i, true, s[i]->Some_0));
            } else {
                let target = publish_packet(id, true, s[id]->Some_0);
                assert(rest.contains(target));
                let j = choose|j: int| 0 <= j < rest.len() && rest[j] == target;
                assert(whole[head.len() + j] == target);
            }
        }
    }
}

/// Whether a packet is a PUBLISH marked as a retransmission.
pub open spec fn is_dup_publish(pv: PacketView) -> bool {
    match pv {
        PacketView::Publish { packet_identifier_dup_qos: tag, .. } => match tag {
            PacketIdentifierDupQoS::AtMostOnce => false,
            PacketIdentifierDupQoS::AtLeastOnce(_, dup) => dup,
            PacketIdentifierDupQoS::ExactlyOnce(_, dup) => dup,
        },
        _ => false,
    }
}

/// Every PUBLISH replayed from a parked slot carries the dup flag.
pub proof fn lemma_publish_replay_is_dup(s: Seq<Option<InFlightPublish>>, i: int)
    ensures
        forall|k: int|
            0 <= k < publish_replay_from(s, i).len() ==> is_dup_publish(
                #[trigger] publish_replay_from(s, i)[k],
            ),
    decreases IDENTIFIER_SLOTS - i,
{
    if i < 0 || i >= IDENTIFIER_SLOTS {
    } else {
        lemma_publish_replay_is_dup(s, i + 1);
        let head: Seq<PacketView> = match s[i] {
            Some(p) => seq![publish_packet(i, true, p)],
            None => Seq::empty(),
        };
        let rest = publish_replay_from(s, i + 1);
        assert forall|k: int|
            0 <= k < publish_replay_from(s, i).len() implies is_dup_publish(
            publish_replay_from(s, i)[k],
        ) by {
            if k < head.len() {
                assert(publish_replay_from(s, i)[k] == head[0]);
            } else {
                assert(publish_replay_from(s, i)[k] == rest[k - head.len()]);
            }
        }
    }
}

/// Every PUBLISH in a reconnect replay carries the dup flag (the PUBREC
/// answers in between carry none, being no PUBLISHes at all).
pub proof fn lemma_replay_publishes_are_dup(m: Model)
    ensures
        forall|k: int|
            0 <= k < replay_packets(m).len() && replay_packets(m)[k] is Publish
                ==> is_dup_publish(#[trigger] replay_packets(m)[k]),
{
    lemma_publish_replay_is_dup(m.acked, 1);
    lemma_publish_replay_is_dup(m.completed, 1);
    let a = publish_replay_from(m.acked, 1);
    let b = pubrec_replay_from(m.released, 0);
    let c = publish_replay_from(m.completed, 1);
    lemma_pubrec_replay_no_publish(m.released, 0);
    assert forall|k: int|
        0 <= k < replay_packets(m).len() && replay_packets(m)[k] is Publish implies is_dup_publish(
        replay_packets(m)[k],
    ) by {
        if k < a.len() {
            assert(replay_packets(m)[k] == a[k]);
        } else if k < a.len() + b.len() {
            assert(replay_packets(m)[k] == b[k - a.len()]);
        } else {
            assert(replay_packets(m)[k] == c[k - a.len() - b.len()]);
        }
    }
}

/// The PUBREC part of a replay contains PUBREC packets only.
pub proof fn lemma_pubrec_replay_no_publish(s: Seq<bool>, i: int)
    ensures
        forall|k: int|
            0 <= k < pubrec_replay_from(s, i).len() ==> (#[trigger] pubrec_replay_from(s, i)[k])
                is PubRec,
    decreases IDENTIFIER_SLOTS - i,
{
    if i < 0 || i >= IDENTIFIER_SLOTS {
    } else {
        lemma_pubrec_replay_no_publish(s, i + 1);
        let head: Seq<PacketView> = if s[i] {
            seq![PacketView::PubRec { packet_identifier: i as u16 }]
        } else {
            Seq::empty()
        };
        let rest = pubrec_replay_from(s, i + 1);
        assert forall|k: int|
            0 <= k < pubrec_replay_from(s, i).len() implies pubrec_replay_from(s, i)[k] is PubRec
        by {
            if k < head.len() {
                assert(pubrec_replay_from(s, i)[k] == head[0]);
            } else {
                assert(pubrec_replay_from(s, i)[k] == rest[k - head.len()]);
            }
        }
    }
}

/// After a reset the model is still well-formed.
pub proof fn lemma_reset_wf(m: Model)
    requires
        m_wf(m),
    ensures
        m_wf(reset_model(m)),
{
    let r = reset_model(m);
    assert forall|id: int| 0 <= id < IDENTIFIER_SLOTS implies match #[trigger] r.acked[id] {
        Some(p) => p.qos != QoS::AtMostOnce && r.completed[id] is None && r.pool[id],
        None => true,
    } by {
        if m.completed[id] is Some {
            assert(m.pool[id]);
        } else if m.acked[id] is Some {
            assert(m.pool[id]);
        }
    }
}

/// Rebuilds the PUBLISH packet for an in-flight record stored under
/// `packet_identifier`.
fn render_in_flight(packet_identifier: u16, dup: bool, entry: &InFlightPublish) -> (r: Packet)
    ensures
        r@ == publish_packet(packet_identifier as int, dup, *entry),
{
    Packet::Publish {
        packet_identifier_dup_qos: if entry.qos == QoS::AtLeastOnce {
            PacketIdentifierDupQoS::AtLeastOnce(packet_identifier, dup)
        } else {
            PacketIdentifierDupQoS::ExactlyOnce(packet_identifier, dup)
        },
        retain: entry.retain,
        topic_name: entry.topic_name.clone(),
        payload: crate::clone_bytes(&entry.payload),
    }
}

/// Appends the replay of a slot vector of parked PUBLISH packets, in
/// ascending identifier order, each with `dup` set.
fn collect_publish_replay(slots: &Vec<Option<InFlightPublish>>, packets: &mut Vec<Packet>)
    requires
        slots@.len() == IDENTIFIER_SLOTS,
    ensures
        packet_views(final(packets)@) == packet_views(old(packets)@) + publish_replay_from(
            slots@,
            1,
        ),
{
    let ghost base = packet_views(packets@);
    let mut i: usize = 1;
    while i < IDENTIFIER_SLOTS
        invariant
            slots@.len() == IDENTIFIER_SLOTS,
            1 <= i <= IDENTIFIER_SLOTS,
            base.len() <= packet_views(packets@).len(),
            packet_views(packets@).take(base.len() as int) == base,
            publish_replay_from(slots@, 1) == packet_views(packets@).skip(base.len() as int)
                + publish_replay_from(slots@, i as int),
        decreases IDENTIFIER_SLOTS - i,
    {
        let ghost packets_pre = packets@;
        match &slots[i] {
            Some(entry) => {
                let ghost stored = *entry;
                let rendered = render_in_flight(i as u16, true, entry);
                proof {
                    lemma_packet_views_push(packets_pre, rendered);
                }
                packets.push(rendered);
                proof {
                    let step = seq![publish_packet(i as int, true, stored)];
                    assert(packet_views(packets@) =~= packet_views(packets_pre) + step);
                    lemma_skip_append(packet_views(packets_pre), step, base.len() as int);
                    lemma_assoc(
                        packet_views(packets_pre).skip(base.len() as int),
                        step,
                        publish_replay_from(slots@, i as int + 1),
                    );
                }
            },
            None => {
                proof {
                    assert(Seq::<PacketView>::empty() + publish_replay_from(slots@, i as int + 1)
                        =~= publish_replay_from(slots@, i as int + 1));
                }
            },
        }
        i = i + 1;
    }
}

/// Appends a PUBREC for every parked inbound identifier, ascending.
fn collect_pubrec_replay(slots: &Vec<bool>, packets: &mut Vec<Packet>)
    requires
        slots@.len() == IDENTIFIER_SLOTS,
    ensures
        packet_views(final(packets)@) == packet_views(old(packets)@) + pubrec_replay_from(
            slots@,
            0,
        ),
{
    let ghost base = packet_views(packets@);
    let mut i: usize = 0;
    while i < IDENTIFIER_SLOTS
        invariant
            slots@.len() == IDENTIFIER_SLOTS,
            i <= IDENTIFIER_SLOTS,
            base.len() <= packet_views(packets@).len(),
            packet_views(packets@).take(base.len() as int) == base,
            pubrec_replay_from(slots@, 0) == packet_views(packets@).skip(base.len() as int)
                + pubrec_replay_from(slots@, i as int),
        decreases IDENTIFIER_SLOTS - i,
    {
        let ghost packets_pre = packets@;
        if slots[i] {
            let rendered = Packet::PubRec { packet_identifier: i as u16 };
            proof {
                lemma_packet_views_push(packets_pre, rendered);
            }
            packets.push(rendered);
            proof {
                let step = seq![PacketView::PubRec { packet_identifier: i as u16 }];
                assert(packet_views(packets@) =~= packet_views(packets_pre) + step);
                lemma_skip_append(packet_views(packets_pre), step, base.len() as int);
                lemma_assoc(
                    packet_views(packets_pre).skip(base.len() as int),
                    step,
                    pubrec_replay_from(slots@, i as int + 1),
                );
            }
        } else {
            proof {
                assert(Seq::<PacketView>::empty() + pubrec_replay_from(slots@, i as int + 1)
                    =~= pubrec_replay_from(slots@, i as int + 1));
            }
        }
        i = i + 1;
    }
}

} // verus!
