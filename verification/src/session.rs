//! One client session: the connection lifecycle state, the identifier
//! pool, and the three sub-state-machines, owned together so that the
//! session invariant — one pool, every outstanding identifier parked in
//! exactly one in-flight structure — is kept across every step. The
//! surrounding driver owns the transport, the timers and the channels; it
//! feeds this type packets and requests and writes out what it returns.

use vstd::prelude::*;

use crate::connect::{
    lemma_session_wf_publish_poll, lemma_session_wf_subscription_poll, route, route_spec,
    session_wf, ConnectionRefused, ConnectionState, Connector, PacketRoute,
};
use crate::id_pool::PacketIdentifiers;
use crate::ping::{PingState, PingTimedOut};
use crate::proto::{packet_views, Packet};
use crate::publish;
use crate::subscription;
use crate::{Publication, ReceivedPublication};

verus! {

/// What one session step hands back to the driver.
pub struct SessionOutput {
    /// Packets to write, in order.
    pub packets: Vec<Packet>,
    /// At most one publication to surface to the user.
    pub publication: Option<ReceivedPublication>,
    /// Completion tokens of finished publish flows.
    pub publish_completions: Vec<u64>,
    /// Completion tokens of acknowledged subscription intents.
    pub subscription_completions: Vec<u64>,
    /// For a consumed SUBACK, its per-filter return codes, verbatim.
    pub return_codes: Option<Vec<u8>>,
    /// The identifier pool ran dry; queued requests wait.
    pub exhausted: bool,
    /// The packet was one no machine may receive here; the driver must
    /// tear the connection down.
    pub violation: bool,
}

/// The client core, leaves and driver state together.
pub struct Session {
    pub connector: Connector,
    pub packet_identifiers: PacketIdentifiers,
    pub publish: publish::State,
    pub subscription: subscription::State,
    pub ping: PingState,
}

impl Session {
    /// The publish machine's view of the shared pool and its own state.
    pub open spec fn publish_model(self) -> publish::Model {
        self.publish.model(self.packet_identifiers)
    }

    /// The subscription machine's view of the same pool and its state.
    pub open spec fn subscription_model(self) -> subscription::SubModel {
        self.subscription.model(self.packet_identifiers)
    }

    /// The session invariant, kept by every step.
    pub open spec fn wf(self) -> bool {
        session_wf(self.publish_model(), self.subscription_model())
    }

    /// A fresh client: disconnected, no back-off, nothing in flight.
    /// `keep_alive` is in seconds, as CONNECT advertises it.
    pub fn new(
        client_id: Option<String>,
        username: Option<String>,
        password: Option<String>,
        will: Option<Publication>,
        max_reconnect_back_off: u64,
        keep_alive: u16,
    ) -> (r: Self)
        ensures
            r.wf(),
            r.connector == (Connector {
                client_id,
                username,
                password,
                will,
                keep_alive,
                max_reconnect_back_off,
                current_back_off: 0,
                state: ConnectionState::Disconnected,
                has_connected_before: false,
            }),
            r.ping == (PingState {
                last_write_instant: 0,
                last_pingreq_sent: 0,
                ping_in_flight: false,
                keep_alive: (keep_alive * 1000) as u64,
            }),
            r.publish_model().queue == Seq::<publish::PublishRequest>::empty(),
            r.subscription_model().queue == Seq::<subscription::SubscriptionRequest>::empty(),
            forall|id: int| 0 <= id < crate::id_pool::IDENTIFIER_SLOTS ==> !(#[trigger] r.publish_model().pool[id]),
    {
        let r = Session {
            connector: Connector::new(
                client_id,
                username,
                password,
                will,
                max_reconnect_back_off,
                keep_alive,
            ),
            packet_identifiers: PacketIdentifiers::new(),
            publish: publish::State::new(),
            subscription: subscription::State::new(),
            ping: PingState::new(keep_alive as u64 * 1000, 0),
        };
        proof {
            assert forall|id: int|
                0 <= id < crate::id_pool::IDENTIFIER_SLOTS implies !(
                r.packet_identifiers.in_use()[id]) by {
                assert(!r.packet_identifiers.holds(id));
            }
            assert(r.wf());
        }
        r
    }

    /// The driver dialled successfully; send the returned CONNECT — built
    /// from the configured credentials, with a clean session exactly when
    /// none can be resumed — and await the CONNACK (for at most the
    /// keep-alive interval).
    pub fn transport_connected(&mut self) -> (r: Packet)
        requires
            old(self).wf(),
            old(self).connector.state == ConnectionState::Disconnected,
        ensures
            final(self).wf(),
            final(self).connector == (Connector {
                state: ConnectionState::Handshaking,
                ..old(self).connector
            }),
            final(self).ping == old(self).ping,
            final(self).publish_model() == old(self).publish_model(),
            final(self).subscription_model() == old(self).subscription_model(),
            r@ == (crate::proto::PacketView::Connect {
                client_id: old(self).connector.client_id,
                username: old(self).connector.username,
                password: old(self).connector.password,
                will: match old(self).connector.will {
                    Some(w) => Some(w@),
                    None => None,
                },
                clean_session: old(self).connector.clean_session(),
                keep_alive: old(self).connector.keep_alive,
            }),
    {
        self.connector.transport_connected()
    }

    /// Dialling failed: how many seconds to wait before trying again. The
    /// wait is the current back-off; the next one doubles, capped at the
    /// configured maximum.
    pub fn connect_failed(&mut self) -> (wait: u64)
        requires
            old(self).wf(),
        ensures
            final(self).wf(),
            wait == old(self).connector.current_back_off,
            final(self).connector.current_back_off as int == crate::connect::next_back_off(
                old(self).connector.current_back_off as int,
                old(self).connector.max_reconnect_back_off as int,
            ),
            final(self).connector == (Connector {
                state: ConnectionState::Disconnected,
                current_back_off: final(self).connector.current_back_off,
                ..old(self).connector
            }),
            final(self).ping == old(self).ping,
            final(self).publish_model() == old(self).publish_model(),
            final(self).subscription_model() == old(self).subscription_model(),
    {
        self.connector.connect_failed()
    }

    /// The transport dropped, a packet failed to decode, the keep-alive
    /// lapsed, or the server broke protocol: back to dialling.
    pub fn connection_lost(&mut self)
        requires
            old(self).wf(),
        ensures
            final(self).wf(),
            final(self).connector == (Connector {
                state: ConnectionState::Disconnected,
                ..old(self).connector
            }),
            final(self).ping == old(self).ping,
            final(self).publish_model() == old(self).publish_model(),
            final(self).subscription_model() == old(self).subscription_model(),
    {
        self.connector.connection_lost()
    }

    /// The CONNACK arrived at instant `now` (milliseconds). A refusal
    /// stops the client. An acceptance resets the back-off and rebuilds
    /// the session: both machines are told whether the server kept it,
    /// unacknowledged intents requeue, and the returned packets replay
    /// every in-flight publish flow, each exactly once with `dup` set.
    /// The caller then surfaces one `NewConnection` event.
    pub fn connack(&mut self, session_present: bool, return_code: u8, now: u64) -> (r: Result<
        (bool, Vec<Packet>),
        ConnectionRefused,
    >)
        requires
            old(self).wf(),
            old(self).connector.state == ConnectionState::Handshaking,
        ensures
            final(self).wf(),
            ({
                let pm0 = old(self).publish_model();
                let sm0 = old(self).subscription_model();
                match r {
                    Ok((reset_session, replay)) => {
                        let pm1 = if reset_session {
                            publish::reset_model(pm0)
                        } else {
                            pm0
                        };
                        &&& return_code == 0
                        &&& reset_session == !session_present
                        &&& final(self).connector == (Connector {
                            state: ConnectionState::Connected,
                            current_back_off: 0,
                            has_connected_before: true,
                            ..old(self).connector
                        })
                        &&& packet_views(replay@) == publish::replay_packets(pm1)
                        &&& final(self).subscription_model() == subscription::sub_reset(
                            subscription::SubModel { pool: pm1.pool, cursor: pm1.cursor, ..sm0 },
                        )
                        &&& final(self).publish_model() == (publish::Model {
                            pool: final(self).subscription_model().pool,
                            cursor: final(self).subscription_model().cursor,
                            ..pm1
                        })
                        &&& final(self).ping == (PingState {
                            last_write_instant: now,
                            last_pingreq_sent: now,
                            ping_in_flight: false,
                            keep_alive: (old(self).connector.keep_alive * 1000) as u64,
                        })
                    },
                    Err(refused) => {
                        &&& return_code != 0
                        &&& refused == (ConnectionRefused { return_code })
                        &&& final(self).connector == (Connector {
                            state: ConnectionState::Closed,
                            ..old(self).connector
                        })
                        &&& final(self).ping == old(self).ping
                        &&& final(self).publish_model() == pm0
                        &&& final(self).subscription_model() == sm0
                    },
                }
            }),
    {
        match self.connector.handle_connack(session_present, return_code) {
            Err(refused) => Err(refused),
            Ok(reset_session) => {
                let ghost pm0 = self.publish_model();
                let ghost sm0 = self.subscription_model();
                let replay = self.publish.new_connection(
                    reset_session,
                    &mut self.packet_identifiers,
                );
                self.subscription.new_connection(&mut self.packet_identifiers);
                self.ping = PingState::new(self.connector.keep_alive as u64 * 1000, now);
                proof {
                    let pm1 = if reset_session {
                        publish::reset_model(pm0)
                    } else {
                        pm0
                    };
                    if reset_session {
                        crate::connect::lemma_reconnect_identifiers(pm0, sm0);
                    } else {
                        crate::connect::lemma_session_wf_sub_reset(pm0, sm0);
                    }
                    assert(self.publish_model() =~= (publish::Model {
                        pool: self.subscription_model().pool,
                        cursor: self.subscription_model().cursor,
                        ..pm1
                    }));
                }
                Ok((reset_session, replay))
            },
        }
    }

    /// Queues a publish request; it goes out on the next `send_pending`.
    pub fn enqueue_publish(&mut self, request: publish::PublishRequest)
        requires
            old(self).wf(),
        ensures
            final(self).wf(),
            final(self).publish_model() == (publish::Model {
                queue: old(self).publish_model().queue.push(request),
                ..old(self).publish_model()
            }),
            final(self).subscription_model() == old(self).subscription_model(),
            final(self).connector == old(self).connector,
            final(self).ping == old(self).ping,
    {
        self.publish.enqueue_publish(request);
        proof {
            assert(self.publish_model() =~= (publish::Model {
                queue: old(self).publish_model().queue.push(request),
                ..old(self).publish_model()
            }));
        }
    }

    /// Queues a subscribe or unsubscribe intent.
    pub fn enqueue_subscription_update(&mut self, request: subscription::SubscriptionRequest)
        requires
            old(self).wf(),
        ensures
            final(self).wf(),
            final(self).subscription_model() == (subscription::SubModel {
                queue: old(self).subscription_model().queue.push(request),
                ..old(self).subscription_model()
            }),
            final(self).publish_model() == old(self).publish_model(),
            final(self).connector == old(self).connector,
            final(self).ping == old(self).ping,
    {
        self.subscription.enqueue_update(request);
        proof {
            assert(self.subscription_model() =~= (subscription::SubModel {
                queue: old(self).subscription_model().queue.push(request),
                ..old(self).subscription_model()
            }));
        }
    }

    /// Routes one inbound packet to the machine it belongs to and hands
    /// back everything that machine answered; a packet no machine may
    /// receive is flagged as a violation and the driver reconnects.
    pub fn handle_packet(&mut self, packet: Packet) -> (r: SessionOutput)
        requires
            old(self).wf(),
        ensures
            final(self).wf(),
            final(self).connector == old(self).connector,
            final(self).ping == if route_spec(packet) == PacketRoute::ToPing {
                PingState { ping_in_flight: false, ..old(self).ping }
            } else {
                old(self).ping
            },
            ({
                let pm0 = old(self).publish_model();
                let sm0 = old(self).subscription_model();
                match route_spec(packet) {
                    PacketRoute::ToPublish => {
                        let out = publish::poll_spec(pm0, Some(packet));
                        &&& final(self).publish_model() == out.m
                        &&& final(self).subscription_model() == (subscription::SubModel {
                            pool: out.m.pool,
                            cursor: out.m.cursor,
                            ..sm0
                        })
                        &&& packet_views(r.packets@) == out.packets
                        &&& r.publication == out.publication
                        &&& r.publish_completions@ == out.completions
                        &&& r.subscription_completions@ == Seq::<u64>::empty()
                        &&& r.exhausted == out.exhausted
                        &&& !r.violation
                    },
                    PacketRoute::ToSubscription => {
                        let out = subscription::sub_poll_spec(sm0, Some(packet));
                        &&& final(self).subscription_model() == out.m
                        &&& final(self).publish_model() == (publish::Model {
                            pool: out.m.pool,
                            cursor: out.m.cursor,
                            ..pm0
                        })
                        &&& packet_views(r.packets@) == out.packets
                        &&& r.publication is None
                        &&& r.subscription_completions@ == out.completions
                        &&& r.publish_completions@ == Seq::<u64>::empty()
                        &&& r.return_codes == out.return_codes
                        &&& r.exhausted == out.exhausted
                        &&& !r.violation
                    },
                    PacketRoute::ToPing => {
                        &&& final(self).publish_model() == pm0
                        &&& final(self).subscription_model() == sm0
                        &&& r.packets@ == Seq::<Packet>::empty()
                        &&& r.publication is None
                        &&& r.publish_completions@ == Seq::<u64>::empty()
                        &&& r.subscription_completions@ == Seq::<u64>::empty()
                        &&& !r.exhausted
                        &&& !r.violation
                    },
                    PacketRoute::ProtocolViolation => {
                        &&& final(self).publish_model() == pm0
                        &&& final(self).subscription_model() == sm0
                        &&& r.packets@ == Seq::<Packet>::empty()
                        &&& r.publication is None
                        &&& r.publish_completions@ == Seq::<u64>::empty()
                        &&& r.subscription_completions@ == Seq::<u64>::empty()
                        &&& r.violation
                    },
                }
            }),
    {
        let ghost pm0 = self.publish_model();
        let ghost sm0 = self.subscription_model();
        let ghost pkt_g = packet;
        let kind = route(&packet);
        let mut slot = Some(packet);
        match kind {
            PacketRoute::ToPublish => {
                let out = self.publish.poll(&mut slot, &mut self.packet_identifiers);
                proof {
                    lemma_session_wf_publish_poll(pm0, sm0, Some(pkt_g));
                    assert(self.subscription_model() =~= (subscription::SubModel {
                        pool: self.publish_model().pool,
                        cursor: self.publish_model().cursor,
                        ..sm0
                    }));
                }
                SessionOutput {
                    packets: out.packets,
                    publication: out.publication,
                    publish_completions: out.completions,
                    subscription_completions: Vec::new(),
                    return_codes: None,
                    exhausted: out.exhausted,
                    violation: false,
                }
            },
            PacketRoute::ToSubscription => {
                let out = self.subscription.poll(&mut slot, &mut self.packet_identifiers);
                proof {
                    lemma_session_wf_subscription_poll(pm0, sm0, Some(pkt_g));
                    assert(self.publish_model() =~= (publish::Model {
                        pool: self.subscription_model().pool,
                        cursor: self.subscription_model().cursor,
                        ..pm0
                    }));
                }
                SessionOutput {
                    packets: out.packets,
                    publication: None,
                    publish_completions: Vec::new(),
                    subscription_completions: out.completions,
                    return_codes: out.return_codes,
                    exhausted: out.exhausted,
                    violation: false,
                }
            },
            PacketRoute::ToPing => {
                self.ping.pingresp();
                SessionOutput {
                    packets: Vec::new(),
                    publication: None,
                    publish_completions: Vec::new(),
                    subscription_completions: Vec::new(),
                    return_codes: None,
                    exhausted: false,
                    violation: false,
                }
            },
            PacketRoute::ProtocolViolation => SessionOutput {
                packets: Vec::new(),
                publication: None,
                publish_completions: Vec::new(),
                subscription_completions: Vec::new(),
                return_codes: None,
                exhausted: false,
                violation: true,
            },
        }
    }

    /// Sends everything newly queued: subscription intents first, then
    /// publish requests, the fair flush order of the event loop.
    pub fn send_pending(&mut self) -> (r: SessionOutput)
        requires
            old(self).wf(),
        ensures
            final(self).wf(),
            ({
                let pm0 = old(self).publish_model();
                let sm0 = old(self).subscription_model();
                let sub_out = subscription::sub_poll_spec(sm0, None);
                let pm1 = publish::Model { pool: sub_out.m.pool, cursor: sub_out.m.cursor, ..pm0 };
                let pub_out = publish::poll_spec(pm1, None);
                &&& final(self).subscription_model() == (subscription::SubModel {
                    pool: pub_out.m.pool,
                    cursor: pub_out.m.cursor,
                    ..sub_out.m
                })
                &&& final(self).publish_model() == pub_out.m
                &&& packet_views(r.packets@) == sub_out.packets + pub_out.packets
                &&& r.publication is None
                &&& r.publish_completions@ == pub_out.completions
                &&& r.subscription_completions@ == sub_out.completions
                &&& r.exhausted == (sub_out.exhausted || pub_out.exhausted)
                &&& !r.violation
            }),
            final(self).connector == old(self).connector,
            final(self).ping == old(self).ping,
    {
        let ghost pm0 = self.publish_model();
        let ghost sm0 = self.subscription_model();
        let mut none1: Option<Packet> = None;
        let sub_out = self.subscription.poll(&mut none1, &mut self.packet_identifiers);
        proof {
            lemma_session_wf_subscription_poll(pm0, sm0, None);
            assert(self.publish_model() =~= (publish::Model {
                pool: self.subscription_model().pool,
                cursor: self.subscription_model().cursor,
                ..pm0
            }));
        }
        let ghost pm1 = self.publish_model();
        let ghost sm1 = self.subscription_model();
        let mut none2: Option<Packet> = None;
        let mut pub_out = self.publish.poll(&mut none2, &mut self.packet_identifiers);
        proof {
            lemma_session_wf_publish_poll(pm1, sm1, None);
            assert(self.subscription_model() =~= (subscription::SubModel {
                pool: self.publish_model().pool,
                cursor: self.publish_model().cursor,
                ..sm1
            }));
        }
        let publish::PollOutput {
            packets: mut from_publish,
            publication: _,
            completions: publish_completions,
            exhausted: publish_exhausted,
        } = pub_out;
        let mut packets = sub_out.packets;
        let ghost sub_packets = packets@;
        let ghost pub_packets = from_publish@;
        while from_publish.len() > 0
            invariant
                packets@ + from_publish@ == sub_packets + pub_packets,
            decreases from_publish.len(),
        {
            let ghost a = packets@;
            let ghost b = from_publish@;
            let p = from_publish.remove(0);
            packets.push(p);
            proof {
                assert(packets@ + from_publish@ =~= a + b);
            }
        }
        proof {
            assert(packets@ =~= sub_packets + pub_packets);
            assert(packet_views(sub_packets + pub_packets) =~= packet_views(sub_packets)
                + packet_views(pub_packets));
        }
        SessionOutput {
            packets,
            publication: None,
            publish_completions,
            subscription_completions: sub_out.completions,
            return_codes: None,
            exhausted: sub_out.exhausted || publish_exhausted,
            violation: false,
        }
    }

    /// The user dropped the event stream: shut down for good. If a
    /// connection is up, a DISCONNECT is owed to the server before the
    /// driver closes the transport; otherwise nothing is.
    pub fn shutdown(&mut self) -> (r: Option<Packet>)
        requires
            old(self).wf(),
        ensures
            final(self).wf(),
            final(self).connector == (Connector {
                state: ConnectionState::Closed,
                ..old(self).connector
            }),
            final(self).ping == old(self).ping,
            r == if old(self).connector.state == ConnectionState::Connected {
                Some(Packet::Disconnect)
            } else {
                None::<Packet>
            },
            final(self).publish_model() == old(self).publish_model(),
            final(self).subscription_model() == old(self).subscription_model(),
    {
        let was_connected = match self.connector.state {
            ConnectionState::Connected => true,
            _ => false,
        };
        self.connector.state = ConnectionState::Closed;
        if was_connected {
            Some(Packet::Disconnect)
        } else {
            None
        }
    }

    /// Notes that something went out on the wire at instant `now`.
    pub fn record_write(&mut self, now: u64)
        requires
            old(self).wf(),
        ensures
            final(self).wf(),
            final(self).ping == (PingState { last_write_instant: now, ..old(self).ping }),
            final(self).connector == old(self).connector,
            final(self).publish_model() == old(self).publish_model(),
            final(self).subscription_model() == old(self).subscription_model(),
    {
        self.ping.record_write(now);
    }

    /// One keep-alive tick at instant `now`: a PINGRESP owed for more than
    /// the keep-alive interval is fatal to the connection; otherwise, if no
    /// ping is outstanding and nothing has been written for half the
    /// interval, a PINGREQ goes out; otherwise nothing happens.
    pub fn tick(&mut self, now: u64) -> (r: Result<Option<Packet>, PingTimedOut>)
        requires
            old(self).wf(),
            now >= old(self).ping.last_write_instant,
            now >= old(self).ping.last_pingreq_sent,
        ensures
            final(self).wf(),
            final(self).publish_model() == old(self).publish_model(),
            final(self).subscription_model() == old(self).subscription_model(),
            final(self).connector == old(self).connector,
            if old(self).ping.ping_in_flight && now - old(self).ping.last_pingreq_sent > old(
                self,
            ).ping.keep_alive {
                r == Err::<Option<Packet>, PingTimedOut>(PingTimedOut) && final(self).ping == old(
                    self,
                ).ping
            } else if !old(self).ping.ping_in_flight && now - old(self).ping.last_write_instant
                >= old(self).ping.keep_alive / 2 {
                r == Ok::<Option<Packet>, PingTimedOut>(Some(Packet::PingReq)) && final(self).ping
                    == (PingState {
                    ping_in_flight: true,
                    last_pingreq_sent: now,
                    ..old(self).ping
                })
            } else {
                r == Ok::<Option<Packet>, PingTimedOut>(None) && final(self).ping == old(
                    self,
                ).ping
            },
    {
        self.ping.tick(now)
    }
}

} // verus!
