//! The connection orchestrator's decisions: the CONNECT handshake, the
//! reconnect back-off, and the routing of inbound packets to the
//! sub-state-machines. The surrounding driver owns the transport and the
//! timers; it reports events to this state machine and carries out what it
//! answers.

use vstd::prelude::*;

use crate::id_pool::{first_free_in_range, lemma_first_free_is_free, next_free, IDENTIFIER_SLOTS};
use crate::proto::{Packet, PacketView, QoS};
use crate::publish;
use crate::subscription;
use crate::Publication;

verus! {

/// Where the connection currently stands.
#[derive(Clone, Copy, PartialEq, Eq, Structural, Debug)]
pub enum ConnectionState {
    /// No transport; the driver should dial after the current back-off.
    Disconnected,
    /// CONNECT sent, CONNACK awaited (for at most the keep-alive interval).
    Handshaking,
    /// CONNACK accepted; the event loop is running.
    Connected,
    /// The server refused the session; the client has stopped for good.
    Closed,
}

/// The server refused the CONNECT; the code says why. This is fatal: the
/// client stops instead of redialling.
#[derive(Clone, Copy, PartialEq, Eq, Structural, Debug)]
pub struct ConnectionRefused {
    pub return_code: u8,
}

/// Which machine an inbound packet belongs to while connected.
#[derive(Clone, Copy, PartialEq, Eq, Structural, Debug)]
pub enum PacketRoute {
    ToPublish,
    ToSubscription,
    ToPing,
    ProtocolViolation,
}

/// The back-off after one more failed connection attempt: a first failure
/// waits one second, every further failure doubles the wait, capped at
/// `max`. A successful CONNACK resets it to zero.
pub open spec fn next_back_off(b: int, max: int) -> int {
    if b == 0 {
        if max == 0 {
            0
        } else {
            1
        }
    } else if 2 * b <= max {
        2 * b
    } else {
        max
    }
}

/// Routing of inbound packets while connected. Anything the three machines
/// do not consume is a protocol violation and tears the connection down.
pub open spec fn route_spec(p: Packet) -> PacketRoute {
    match p {
        Packet::Publish { .. } => PacketRoute::ToPublish,
        Packet::PubAck { .. } => PacketRoute::ToPublish,
        Packet::PubRec { .. } => PacketRoute::ToPublish,
        Packet::PubRel { .. } => PacketRoute::ToPublish,
        Packet::PubComp { .. } => PacketRoute::ToPublish,
        Packet::SubAck { .. } => PacketRoute::ToSubscription,
        Packet::UnsubAck { .. } => PacketRoute::ToSubscription,
        Packet::PingResp => PacketRoute::ToPing,
        _ => PacketRoute::ProtocolViolation,
    }
}

/// Decides where an inbound packet goes while connected.
pub fn route(packet: &Packet) -> (r: PacketRoute)
    ensures
        r == route_spec(*packet),
{
    match packet {
        Packet::Publish { .. } => PacketRoute::ToPublish,
        Packet::PubAck { .. } => PacketRoute::ToPublish,
        Packet::PubRec { .. } => PacketRoute::ToPublish,
        Packet::PubRel { .. } => PacketRoute::ToPublish,
        Packet::PubComp { .. } => PacketRoute::ToPublish,
        Packet::SubAck { .. } => PacketRoute::ToSubscription,
        Packet::UnsubAck { .. } => PacketRoute::ToSubscription,
        Packet::PingResp => PacketRoute::ToPing,
        _ => PacketRoute::ProtocolViolation,
    }
}

/// The routing agrees with what the machines consume: a packet goes to the
/// publish machine exactly when that machine handles it, likewise for the
/// subscription machine, and no packet is claimed by both.
pub proof fn lemma_route_matches_machines(p: Packet)
    ensures
        (route_spec(p) == PacketRoute::ToPublish) == publish::handles_packet(Some(p)),
        (route_spec(p) == PacketRoute::ToSubscription) == subscription::sub_handles_packet(
            Some(p),
        ),
{
}

/// The connection lifecycle driver state.
pub struct Connector {
    pub client_id: Option<String>,
    pub username: Option<String>,
    pub password: Option<String>,
    pub will: Option<Publication>,
    /// Keep-alive advertised in CONNECT, in seconds.
    pub keep_alive: u16,
    /// Upper bound on the reconnect back-off, in seconds.
    pub max_reconnect_back_off: u64,
    /// The wait before the next dial, in seconds.
    pub current_back_off: u64,
    pub state: ConnectionState,
    /// A CONNACK has been accepted at least once, so a session may exist
    /// server-side and must not be discarded by a clean connect.
    pub has_connected_before: bool,
}

impl Connector {
    /// A client that has never connected: no back-off, disconnected.
    pub fn new(
        client_id: Option<String>,
        username: Option<String>,
        password: Option<String>,
        will: Option<Publication>,
        max_reconnect_back_off: u64,
        keep_alive: u16,
    ) -> (r: Self)
        ensures
            r.client_id == client_id,
            r.username == username,
            r.password == password,
            r.will == will,
            r.keep_alive == keep_alive,
            r.max_reconnect_back_off == max_reconnect_back_off,
            r.current_back_off == 0,
            r.state == ConnectionState::Disconnected,
            !r.has_connected_before,
    {
        Connector {
            client_id,
            username,
            password,
            will,
            keep_alive,
            max_reconnect_back_off,
            current_back_off: 0,
            state: ConnectionState::Disconnected,
            has_connected_before: false,
        }
    }

    /// The session is clean when the client cannot resume one: no client
    /// identifier, or no CONNACK ever accepted.
    pub open spec fn clean_session(self) -> bool {
        self.client_id is None || !self.has_connected_before
    }

    /// The driver dialled successfully; hand it the CONNECT to send and
    /// await the CONNACK.
    pub fn transport_connected(&mut self) -> (r: Packet)
        requires
            old(self).state == ConnectionState::Disconnected,
        ensures
            *final(self) == (Connector { state: ConnectionState::Handshaking, ..*old(self) }),
            r@ == (PacketView::Connect {
                client_id: old(self).client_id,
                username: old(self).username,
                password: old(self).password,
                will: match old(self).will {
                    Some(w) => Some(w@),
                    None => None,
                },
                clean_session: old(self).clean_session(),
                keep_alive: old(self).keep_alive,
            }),
    {
        self.state = ConnectionState::Handshaking;
        let clean_session = match &self.client_id {
            Some(_) => !self.has_connected_before,
            None => true,
        };
        Packet::Connect {
            client_id: clone_opt_string(&self.client_id),
            username: clone_opt_string(&self.username),
            password: clone_opt_string(&self.password),
            will: match &self.will {
                Some(w) => Some(
                    Publication {
                        topic_name: w.topic_name.clone(),
                        qos: w.qos,
                        retain: w.retain,
                        payload: crate::clone_bytes(&w.payload),
                    },
                ),
                None => None,
            },
            clean_session,
            keep_alive: self.keep_alive,
        }
    }

    /// Dialling failed, or the connection dropped before CONNACK: how many
    /// seconds the driver must wait before dialling again. The wait is the
    /// current back-off; the next one doubles, capped at the maximum.
    pub fn connect_failed(&mut self) -> (wait: u64)
        ensures
            wait == old(self).current_back_off,
            final(self).current_back_off as int == next_back_off(
                old(self).current_back_off as int,
                old(self).max_reconnect_back_off as int,
            ),
            *final(self) == (Connector {
                state: ConnectionState::Disconnected,
                current_back_off: final(self).current_back_off,
                ..*old(self)
            }),
    {
        let wait = self.current_back_off;
        self.state = ConnectionState::Disconnected;
        self.current_back_off = if self.current_back_off == 0 {
            if self.max_reconnect_back_off == 0 {
                0
            } else {
                1
            }
        } else if self.current_back_off <= self.max_reconnect_back_off / 2 {
            self.current_back_off * 2
        } else {
            self.max_reconnect_back_off
        };
        wait
    }

    /// The CONNACK arrived. A refusing return code stops the client for
    /// good. An accepting one resets the back-off and reports whether the
    /// session must be rebuilt: the machines' `new_connection` is to be
    /// called with the answered flag (`true` when the server kept no
    /// session).
    pub fn handle_connack(&mut self, session_present: bool, return_code: u8) -> (r: Result<
        bool,
        ConnectionRefused,
    >)
        requires
            old(self).state == ConnectionState::Handshaking,
        ensures
            if return_code != 0 {
                r == Err::<bool, ConnectionRefused>(ConnectionRefused { return_code })
                    && *final(self) == (Connector { state: ConnectionState::Closed, ..*old(self) })
            } else {
                r == Ok::<bool, ConnectionRefused>(!session_present) && *final(self) == (Connector {
                    state: ConnectionState::Connected,
                    current_back_off: 0,
                    has_connected_before: true,
                    ..*old(self)
                })
            },
    {
        if return_code != 0 {
            self.state = ConnectionState::Closed;
            Err(ConnectionRefused { return_code })
        } else {
            self.state = ConnectionState::Connected;
            self.current_back_off = 0;
            self.has_connected_before = true;
            Ok(!session_present)
        }
    }

    /// The transport failed, a packet failed to decode, the keep-alive
    /// lapsed, or the server broke protocol: back to dialling.
    pub fn connection_lost(&mut self)
        ensures
            *final(self) == (Connector { state: ConnectionState::Disconnected, ..*old(self) }),
    {
        self.state = ConnectionState::Disconnected;
    }
}

/// The two machines draw from one pool: their views of it agree, each is
/// well-formed on its own, no identifier is parked in both machines at
/// once, and every outstanding identifier backs exactly one in-flight
/// structure of this client's own — a parked outbound publication, one
/// past PUBREC, or a pending subscription intent. (Inbound QoS 2
/// identifiers are the server's and never enter the pool.)
pub open spec fn session_wf(pm: publish::Model, sm: subscription::SubModel) -> bool {
    &&& publish::m_wf(pm)
    &&& subscription::sub_wf(sm)
    &&& pm.pool == sm.pool
    &&& pm.cursor == sm.cursor
    &&& forall|id: int|
        0 <= id < crate::id_pool::IDENTIFIER_SLOTS ==> #[trigger] pm.pool[id] == (pm.acked[id]
            is Some || pm.completed[id] is Some || sm.pending[id] is Some)
    &&& forall|id: int|
        0 <= id < crate::id_pool::IDENTIFIER_SLOTS && #[trigger] sm.pending[id] is Some
            ==> pm.acked[id] is None && pm.completed[id] is None
}

/// Consuming one inbound packet in the publish machine leaves the session
/// invariant intact.
pub proof fn lemma_session_wf_publish_inbound(
    pm: publish::Model,
    sm: subscription::SubModel,
    pkt: Option<Packet>,
)
    requires
        session_wf(pm, sm),
    ensures
        ({
            let out = publish::inbound_step(pm, pkt);
            session_wf(
                out.m,
                subscription::SubModel { pool: out.m.pool, cursor: out.m.cursor, ..sm },
            )
        }),
{
}

/// Draining the publish queue leaves the session invariant intact: every
/// identifier handed out was free, and the same step parks it in
/// `waiting_to_be_acked`.
pub proof fn lemma_session_wf_publish_drain(pm: publish::Model, sm: subscription::SubModel)
    requires
        session_wf(pm, sm),
    ensures
        ({
            let out = publish::drain(pm);
            session_wf(
                out.m,
                subscription::SubModel { pool: out.m.pool, cursor: out.m.cursor, ..sm },
            )
        }),
    decreases pm.queue.len(),
{
    if pm.queue.len() == 0 {
    } else {
        let req = pm.queue[0];
        let rest = pm.queue.drop_first();
        if req.publication.qos == QoS::AtMostOnce {
            let m2 = publish::Model { queue: rest, ..pm };
            lemma_session_wf_publish_drain(m2, sm);
        } else {
            match next_free(pm.pool, pm.cursor) {
                None => {},
                Some(id) => {
                    if first_free_in_range(pm.pool, pm.cursor, IDENTIFIER_SLOTS as int) == Some(
                        id,
                    ) {
                        lemma_first_free_is_free(pm.pool, pm.cursor, IDENTIFIER_SLOTS as int, id);
                    } else {
                        lemma_first_free_is_free(pm.pool, 1, pm.cursor, id);
                    }
                    assert(!pm.pool[id]);
                    assert(pm.acked[id] is None && pm.completed[id] is None && sm.pending[id]
                        is None);
                    let m2 = publish::Model {
                        queue: rest,
                        acked: pm.acked.update(id, Some(publish::in_flight_of(req))),
                        pool: pm.pool.update(id, true),
                        cursor: publish::cursor_after(id),
                        ..pm
                    };
                    let sm2 = subscription::SubModel {
                        pool: m2.pool,
                        cursor: m2.cursor,
                        ..sm
                    };
                    assert(session_wf(m2, sm2));
                    lemma_session_wf_publish_drain(m2, sm2);
                    let out = publish::drain(pm);
                    assert(subscription::SubModel {
                        pool: out.m.pool,
                        cursor: out.m.cursor,
                        ..sm
                    } =~= subscription::SubModel {
                        pool: out.m.pool,
                        cursor: out.m.cursor,
                        ..sm2
                    });
                },
            }
        }
    }
}

/// A whole publish poll — inbound packet, then queue drain — preserves the
/// session invariant, however the server behaves.
pub proof fn lemma_session_wf_publish_poll(
    pm: publish::Model,
    sm: subscription::SubModel,
    pkt: Option<Packet>,
)
    requires
        session_wf(pm, sm),
    ensures
        ({
            let out = publish::poll_spec(pm, pkt);
            session_wf(
                out.m,
                subscription::SubModel { pool: out.m.pool, cursor: out.m.cursor, ..sm },
            )
        }),
{
    lemma_session_wf_publish_inbound(pm, sm, pkt);
    let mid = publish::inbound_step(pm, pkt);
    lemma_session_wf_publish_drain(
        mid.m,
        subscription::SubModel { pool: mid.m.pool, cursor: mid.m.cursor, ..sm },
    );
    let out = publish::poll_spec(pm, pkt);
    assert(subscription::SubModel { pool: out.m.pool, cursor: out.m.cursor, ..sm }
        =~= subscription::SubModel {
        pool: out.m.pool,
        cursor: out.m.cursor,
        ..(subscription::SubModel { pool: mid.m.pool, cursor: mid.m.cursor, ..sm })
    });
}

/// A whole subscription poll preserves the session invariant likewise.
pub proof fn lemma_session_wf_subscription_poll(
    pm: publish::Model,
    sm: subscription::SubModel,
    pkt: Option<Packet>,
)
    requires
        session_wf(pm, sm),
    ensures
        ({
            let out = subscription::sub_poll_spec(sm, pkt);
            session_wf(
                publish::Model { pool: out.m.pool, cursor: out.m.cursor, ..pm },
                out.m,
            )
        }),
{
    let mid = subscription::sub_inbound_step(sm, pkt);
    assert(session_wf(publish::Model { pool: mid.m.pool, cursor: mid.m.cursor, ..pm }, mid.m));
    lemma_session_wf_subscription_drain(
        publish::Model { pool: mid.m.pool, cursor: mid.m.cursor, ..pm },
        mid.m,
    );
    let out = subscription::sub_poll_spec(sm, pkt);
    assert(publish::Model { pool: out.m.pool, cursor: out.m.cursor, ..pm }
        =~= publish::Model {
        pool: out.m.pool,
        cursor: out.m.cursor,
        ..(publish::Model { pool: mid.m.pool, cursor: mid.m.cursor, ..pm })
    });
}

/// Draining the subscription intent queue preserves the session invariant.
pub proof fn lemma_session_wf_subscription_drain(pm: publish::Model, sm: subscription::SubModel)
    requires
        session_wf(pm, sm),
    ensures
        ({
            let out = subscription::sub_drain(sm);
            session_wf(
                publish::Model { pool: out.m.pool, cursor: out.m.cursor, ..pm },
                out.m,
            )
        }),
    decreases sm.queue.len(),
{
    if sm.queue.len() == 0 {
    } else {
        let req = sm.queue[0];
        let rest = sm.queue.drop_first();
        match next_free(sm.pool, sm.cursor) {
            None => {},
            Some(id) => {
                if first_free_in_range(sm.pool, sm.cursor, IDENTIFIER_SLOTS as int) == Some(id) {
                    lemma_first_free_is_free(sm.pool, sm.cursor, IDENTIFIER_SLOTS as int, id);
                } else {
                    lemma_first_free_is_free(sm.pool, 1, sm.cursor, id);
                }
                assert(!sm.pool[id]);
                assert(pm.acked[id] is None && pm.completed[id] is None && sm.pending[id]
                    is None);
                let s2 = subscription::SubModel {
                    queue: rest,
                    pending: sm.pending.update(id, Some(req)),
                    pool: sm.pool.update(id, true),
                    cursor: publish::cursor_after(id),
                };
                let p2 = publish::Model { pool: s2.pool, cursor: s2.cursor, ..pm };
                assert(session_wf(p2, s2));
                lemma_session_wf_subscription_drain(p2, s2);
                let out = subscription::sub_drain(sm);
                assert(publish::Model { pool: out.m.pool, cursor: out.m.cursor, ..pm }
                    =~= publish::Model { pool: out.m.pool, cursor: out.m.cursor, ..p2 });
            },
        }
    }
}

/// Requeuing the subscription machine's unacknowledged intents alone — the
/// reconnect where the server kept the session — also leaves the session
/// invariant intact.
pub proof fn lemma_session_wf_sub_reset(pm: publish::Model, sm: subscription::SubModel)
    requires
        session_wf(pm, sm),
    ensures
        ({
            let sm1 = subscription::sub_reset(sm);
            session_wf(publish::Model { pool: sm1.pool, cursor: sm1.cursor, ..pm }, sm1)
        }),
{
    let sm1 = subscription::sub_reset(sm);
    let pm1 = publish::Model { pool: sm1.pool, cursor: sm1.cursor, ..pm };
    assert forall|id: int|
        0 <= id < IDENTIFIER_SLOTS implies #[trigger] pm1.pool[id] == (pm1.acked[id] is Some
        || pm1.completed[id] is Some || sm1.pending[id] is Some) by {
        assert(pm.pool[id] == (pm.acked[id] is Some || pm.completed[id] is Some || sm.pending[id]
            is Some));
    }
}

/// After a reconnect with a session reset, both machines forget what the
/// server forgot, and the pool then holds exactly the identifiers of the
/// publications that must restart at PUBLISH (the demoted ExactlyOnce
/// flows included): no identifier from the prior connection leaks. When
/// the session is instead kept, both models are left untouched by their
/// `new_connection`, so every in-flight identifier survives.
pub proof fn lemma_reconnect_identifiers(pm: publish::Model, sm: subscription::SubModel)
    requires
        session_wf(pm, sm),
    ensures
        ({
            let pm1 = publish::reset_model(pm);
            let sm1 = subscription::sub_reset(
                subscription::SubModel { pool: pm1.pool, cursor: pm1.cursor, ..sm },
            );
            &&& forall|id: int|
                0 <= id < crate::id_pool::IDENTIFIER_SLOTS ==> #[trigger] sm1.pool[id] == (
                pm1.acked[id] is Some)
            &&& session_wf(publish::Model { pool: sm1.pool, cursor: sm1.cursor, ..pm1 }, sm1)
        }),
{
    let pm1 = publish::reset_model(pm);
    let sm1 = subscription::sub_reset(
        subscription::SubModel { pool: pm1.pool, cursor: pm1.cursor, ..sm },
    );
    assert forall|id: int|
        0 <= id < crate::id_pool::IDENTIFIER_SLOTS implies #[trigger] sm1.pool[id] == (
    pm1.acked[id] is Some) by {
        assert(pm.pool[id] == (pm.acked[id] is Some || pm.completed[id] is Some || sm.pending[id]
            is Some));
    }
}

/// A copy of an optional owned string, equal to the original.
fn clone_opt_string(s: &Option<String>) -> (r: Option<String>)
    ensures
        r == *s,
{
    match s {
        Some(v) => Some(v.clone()),
        None => None,
    }
}

} // verus!
