use mqtt_core::connect::{route, ConnectionState, Connector, PacketRoute};
use mqtt_core::id_pool::PacketIdentifiers;
use mqtt_core::ping::PingState;
use mqtt_core::proto::{Packet, PacketIdentifierDupQoS, QoS};
use mqtt_core::publish;
use mqtt_core::publish::PublishRequest;
use mqtt_core::subscription;
use mqtt_core::subscription::{SubscribeTo, SubscriptionRequest, SubscriptionUpdate};
use mqtt_core::{Publication, PublishError};

fn publication(topic: &str, qos: QoS, payload: &str) -> Publication {
    Publication {
        topic_name: topic.to_owned(),
        qos,
        retain: false,
        payload: payload.as_bytes().to_vec(),
    }
}

#[test]
fn pool_reserves_lowest_free_in_order() {
    let mut pool = PacketIdentifiers::new();
    assert_eq!(pool.reserve(), Ok(1));
    assert_eq!(pool.reserve(), Ok(2));
    assert_eq!(pool.reserve(), Ok(3));
    pool.discard(2);
    assert!(!pool.is_reserved(2));
    // The cursor moved past 2, so the next grant continues upward...
    assert_eq!(pool.reserve(), Ok(4));
    pool.discard(1);
    pool.discard(3);
    pool.discard(4);
}

#[test]
fn pool_exhaustion_and_reuse_after_discard() {
    let mut pool = PacketIdentifiers::new();
    for expected in 1..=65535u16 {
        assert_eq!(pool.reserve(), Ok(expected));
    }
    assert!(pool.reserve().is_err());
    pool.discard(123);
    // ...and wraps around to the only free slot.
    assert_eq!(pool.reserve(), Ok(123));
    assert!(pool.reserve().is_err());
}

#[test]
fn pool_never_yields_outstanding_identifier() {
    let mut pool = PacketIdentifiers::new();
    let a = pool.reserve().unwrap();
    let b = pool.reserve().unwrap();
    assert_ne!(a, b);
    assert!(pool.is_reserved(a));
    assert!(pool.is_reserved(b));
}

#[test]
fn s1_qos0_round_trip() {
    let mut state = publish::State::new();
    let mut pool = PacketIdentifiers::new();
    state.enqueue_publish(PublishRequest {
        publication: publication("t", QoS::AtMostOnce, "hi"),
        ack_token: 1,
    });
    let mut packet = None;
    let out = state.poll(&mut packet, &mut pool);
    assert_eq!(out.packets.len(), 1);
    match &out.packets[0] {
        Packet::Publish { packet_identifier_dup_qos, topic_name, payload, .. } => {
            assert!(matches!(packet_identifier_dup_qos, PacketIdentifierDupQoS::AtMostOnce));
            assert_eq!(topic_name, "t");
            assert_eq!(payload, b"hi");
        }
        other => panic!("expected a PUBLISH, got {:?}", other),
    }
    // The future resolves immediately and nothing stays in flight.
    assert_eq!(out.completions, vec![1]);
    assert!(out.publication.is_none());
    assert!(!out.exhausted);
    assert!(!pool.is_reserved(1));
}

#[test]
fn s2_qos1_with_loss_replays_dup_and_frees_identifier() {
    let mut state = publish::State::new();
    let mut pool = PacketIdentifiers::new();
    state.enqueue_publish(PublishRequest {
        publication: publication("t", QoS::AtLeastOnce, "x"),
        ack_token: 7,
    });
    let mut packet = None;
    let out = state.poll(&mut packet, &mut pool);
    assert_eq!(out.packets.len(), 1);
    match &out.packets[0] {
        Packet::Publish { packet_identifier_dup_qos, .. } => {
            assert!(matches!(
                packet_identifier_dup_qos,
                PacketIdentifierDupQoS::AtLeastOnce(1, false)
            ));
        }
        other => panic!("expected a PUBLISH, got {:?}", other),
    }
    assert!(out.completions.is_empty());

    // The connection drops before PUBACK; the server kept the session.
    let replay = state.new_connection(false, &mut pool);
    assert_eq!(replay.len(), 1);
    match &replay[0] {
        Packet::Publish { packet_identifier_dup_qos, payload, .. } => {
            assert!(matches!(
                packet_identifier_dup_qos,
                PacketIdentifierDupQoS::AtLeastOnce(1, true)
            ));
            assert_eq!(payload, b"x");
        }
        other => panic!("expected a PUBLISH, got {:?}", other),
    }

    let mut ack = Some(Packet::PubAck { packet_identifier: 1 });
    let out = state.poll(&mut ack, &mut pool);
    assert!(ack.is_none());
    assert_eq!(out.completions, vec![7]);
    assert!(!pool.is_reserved(1));
}

#[test]
fn s3_qos2_with_reset_restarts_at_publish() {
    let mut state = publish::State::new();
    let mut pool = PacketIdentifiers::new();
    state.enqueue_publish(PublishRequest {
        publication: publication("t", QoS::ExactlyOnce, "y"),
        ack_token: 9,
    });
    let mut packet = None;
    let out = state.poll(&mut packet, &mut pool);
    match &out.packets[0] {
        Packet::Publish { packet_identifier_dup_qos, .. } => {
            assert!(matches!(
                packet_identifier_dup_qos,
                PacketIdentifierDupQoS::ExactlyOnce(1, false)
            ));
        }
        other => panic!("expected a PUBLISH, got {:?}", other),
    }

    let mut rec = Some(Packet::PubRec { packet_identifier: 1 });
    let out = state.poll(&mut rec, &mut pool);
    assert_eq!(out.packets.len(), 1);
    assert!(matches!(out.packets[0], Packet::PubRel { packet_identifier: 1 }));
    assert!(out.completions.is_empty());

    // Drop and reconnect with a reset session: the flow restarts at
    // PUBLISH (dup set), not at PUBREL.
    let replay = state.new_connection(true, &mut pool);
    assert_eq!(replay.len(), 1);
    match &replay[0] {
        Packet::Publish { packet_identifier_dup_qos, payload, .. } => {
            assert!(matches!(
                packet_identifier_dup_qos,
                PacketIdentifierDupQoS::ExactlyOnce(1, true)
            ));
            assert_eq!(payload, b"y");
        }
        other => panic!("expected a PUBLISH, got {:?}", other),
    }

    // Nothing awaits PUBCOMP any more: a PUBCOMP completes nothing.
    let mut comp = Some(Packet::PubComp { packet_identifier: 1 });
    let out = state.poll(&mut comp, &mut pool);
    assert!(out.completions.is_empty());

    // The restarted flow still finishes.
    let mut rec = Some(Packet::PubRec { packet_identifier: 1 });
    let out = state.poll(&mut rec, &mut pool);
    assert!(matches!(out.packets[0], Packet::PubRel { packet_identifier: 1 }));
    let mut comp = Some(Packet::PubComp { packet_identifier: 1 });
    let out = state.poll(&mut comp, &mut pool);
    assert_eq!(out.completions, vec![9]);
    assert!(!pool.is_reserved(1));
}

#[test]
fn s4_inbound_qos2_duplicate_surfaces_once() {
    let mut state = publish::State::new();
    let mut pool = PacketIdentifiers::new();

    let mut first = Some(Packet::Publish {
        packet_identifier_dup_qos: PacketIdentifierDupQoS::ExactlyOnce(7, false),
        retain: false,
        topic_name: "t".to_owned(),
        payload: b"a".to_vec(),
    });
    let out = state.poll(&mut first, &mut pool);
    let publication = out.publication.expect("first delivery must surface");
    assert_eq!(publication.payload, b"a");
    assert!(!publication.dup);
    assert_eq!(out.packets.len(), 1);
    assert!(matches!(out.packets[0], Packet::PubRec { packet_identifier: 7 }));

    let mut second = Some(Packet::Publish {
        packet_identifier_dup_qos: PacketIdentifierDupQoS::ExactlyOnce(7, true),
        retain: false,
        topic_name: "t".to_owned(),
        payload: b"a".to_vec(),
    });
    let out = state.poll(&mut second, &mut pool);
    assert!(out.publication.is_none(), "duplicate must not surface");
    assert!(matches!(out.packets[0], Packet::PubRec { packet_identifier: 7 }));

    let mut rel = Some(Packet::PubRel { packet_identifier: 7 });
    let out = state.poll(&mut rel, &mut pool);
    assert!(matches!(out.packets[0], Packet::PubComp { packet_identifier: 7 }));
    assert!(!pool.is_reserved(7));
}

#[test]
fn inbound_qos2_dedup_works_when_server_reuses_an_outbound_identifier() {
    let mut state = publish::State::new();
    let mut pool = PacketIdentifiers::new();
    // An outbound QoS 1 flow holds identifier 1 of this client's pool.
    state.enqueue_publish(PublishRequest {
        publication: publication("t", QoS::AtLeastOnce, "out"),
        ack_token: 6,
    });
    let mut packet = None;
    let _ = state.poll(&mut packet, &mut pool);
    assert!(pool.is_reserved(1));

    // The server independently picks 1 for its own QoS 2 PUBLISH; the two
    // identifier spaces are separate, so dedup still works.
    let mut first = Some(Packet::Publish {
        packet_identifier_dup_qos: PacketIdentifierDupQoS::ExactlyOnce(1, false),
        retain: false,
        topic_name: "t".to_owned(),
        payload: b"in".to_vec(),
    });
    let out = state.poll(&mut first, &mut pool);
    assert!(out.publication.is_some());
    let mut second = Some(Packet::Publish {
        packet_identifier_dup_qos: PacketIdentifierDupQoS::ExactlyOnce(1, true),
        retain: false,
        topic_name: "t".to_owned(),
        payload: b"in".to_vec(),
    });
    let out = state.poll(&mut second, &mut pool);
    assert!(out.publication.is_none(), "duplicate must not surface");

    // Releasing the server's identifier leaves the outbound flow's
    // reservation untouched; its own ack frees it.
    let mut rel = Some(Packet::PubRel { packet_identifier: 1 });
    let out = state.poll(&mut rel, &mut pool);
    assert!(matches!(out.packets[0], Packet::PubComp { packet_identifier: 1 }));
    assert!(pool.is_reserved(1));
    let mut ack = Some(Packet::PubAck { packet_identifier: 1 });
    let out = state.poll(&mut ack, &mut pool);
    assert_eq!(out.completions, vec![6]);
    assert!(!pool.is_reserved(1));
}

#[test]
fn inbound_qos1_surfaces_and_acks() {
    let mut state = publish::State::new();
    let mut pool = PacketIdentifiers::new();
    let mut packet = Some(Packet::Publish {
        packet_identifier_dup_qos: PacketIdentifierDupQoS::AtLeastOnce(3, false),
        retain: false,
        topic_name: "news".to_owned(),
        payload: b"v".to_vec(),
    });
    let out = state.poll(&mut packet, &mut pool);
    let publication = out.publication.expect("qos 1 always surfaces");
    assert_eq!(publication.topic_name, "news");
    assert!(matches!(publication.qos, QoS::AtLeastOnce));
    assert!(matches!(out.packets[0], Packet::PubAck { packet_identifier: 3 }));
}

#[test]
fn p1_no_completion_before_final_ack() {
    let mut state = publish::State::new();
    let mut pool = PacketIdentifiers::new();
    state.enqueue_publish(PublishRequest {
        publication: publication("t", QoS::ExactlyOnce, "z"),
        ack_token: 5,
    });
    let mut packet = None;
    let out = state.poll(&mut packet, &mut pool);
    assert!(out.completions.is_empty());
    let mut rec = Some(Packet::PubRec { packet_identifier: 1 });
    let out = state.poll(&mut rec, &mut pool);
    assert!(out.completions.is_empty(), "PUBREC is not the final ack");
    let mut comp = Some(Packet::PubComp { packet_identifier: 1 });
    let out = state.poll(&mut comp, &mut pool);
    assert_eq!(out.completions, vec![5]);
    // The same ack again completes nothing.
    let mut comp = Some(Packet::PubComp { packet_identifier: 1 });
    let out = state.poll(&mut comp, &mut pool);
    assert!(out.completions.is_empty());
}

#[test]
fn p6_unknown_puback_is_harmless() {
    let mut state = publish::State::new();
    let mut pool = PacketIdentifiers::new();
    state.enqueue_publish(PublishRequest {
        publication: publication("t", QoS::AtLeastOnce, "w"),
        ack_token: 11,
    });
    let mut packet = None;
    let _ = state.poll(&mut packet, &mut pool);

    let mut bogus = Some(Packet::PubAck { packet_identifier: 999 });
    let out = state.poll(&mut bogus, &mut pool);
    assert!(bogus.is_none(), "the machine still consumes the packet");
    assert!(out.packets.is_empty());
    assert!(out.completions.is_empty());
    assert!(out.publication.is_none());

    // The real flow is unaffected.
    let mut ack = Some(Packet::PubAck { packet_identifier: 1 });
    let out = state.poll(&mut ack, &mut pool);
    assert_eq!(out.completions, vec![11]);
}

#[test]
fn publish_backpressure_on_exhausted_pool() {
    let mut state = publish::State::new();
    let mut pool = PacketIdentifiers::new();
    for _ in 1..=65535u32 {
        pool.reserve().unwrap();
    }
    state.enqueue_publish(PublishRequest {
        publication: publication("t", QoS::AtLeastOnce, "q"),
        ack_token: 2,
    });
    let mut packet = None;
    let out = state.poll(&mut packet, &mut pool);
    assert!(out.exhausted);
    assert!(out.packets.is_empty());
    // Once an identifier frees, the queued request goes out.
    pool.discard(42);
    let mut packet = None;
    let out = state.poll(&mut packet, &mut pool);
    assert!(!out.exhausted);
    assert_eq!(out.packets.len(), 1);
    match &out.packets[0] {
        Packet::Publish { packet_identifier_dup_qos, .. } => {
            assert!(matches!(
                packet_identifier_dup_qos,
                PacketIdentifierDupQoS::AtLeastOnce(42, false)
            ));
        }
        other => panic!("expected a PUBLISH, got {:?}", other),
    }
}

#[test]
fn s5_keep_alive_pings_and_times_out() {
    // keep_alive = 10 s, in milliseconds.
    let mut ping = PingState::new(10_000, 0);
    match ping.tick(1_000) {
        Ok(None) => {}
        other => panic!("expected silence, got {:?}", other),
    }
    // Idle for half the interval: PINGREQ at t = 5 s.
    match ping.tick(5_000) {
        Ok(Some(Packet::PingReq)) => {}
        other => panic!("expected a PINGREQ, got {:?}", other),
    }
    ping.pingresp();
    // Still idle: another PINGREQ by t = 15 s.
    match ping.tick(15_000) {
        Ok(Some(Packet::PingReq)) => {}
        other => panic!("expected a PINGREQ, got {:?}", other),
    }
    // No PINGRESP for more than keep_alive: the connection is dead.
    match ping.tick(25_000) {
        Ok(None) => {}
        other => panic!("expected silence, got {:?}", other),
    }
    assert!(ping.tick(25_001).is_err());
}

#[test]
fn keep_alive_quiet_while_user_traffic_flows() {
    let mut ping = PingState::new(10_000, 0);
    ping.record_write(4_000);
    match ping.tick(5_000) {
        Ok(None) => {}
        other => panic!("expected silence, got {:?}", other),
    }
    match ping.tick(9_000) {
        Ok(Some(Packet::PingReq)) => {}
        other => panic!("expected a PINGREQ, got {:?}", other),
    }
}

#[test]
fn s6_subscription_replay_after_drop() {
    let mut state = subscription::State::new();
    let mut pool = PacketIdentifiers::new();
    state.enqueue_update(SubscriptionRequest {
        update: SubscriptionUpdate::Subscribe(SubscribeTo {
            topic_filter: "t".to_owned(),
            qos: QoS::AtLeastOnce,
        }),
        ack_token: 3,
    });
    let mut packet = None;
    let out = state.poll(&mut packet, &mut pool);
    assert_eq!(out.packets.len(), 1);
    match &out.packets[0] {
        Packet::Subscribe { packet_identifier, subscribe_to } => {
            assert_eq!(*packet_identifier, 1);
            assert_eq!(subscribe_to.len(), 1);
            assert_eq!(subscribe_to[0].topic_filter, "t");
            assert!(matches!(subscribe_to[0].qos, QoS::AtLeastOnce));
        }
        other => panic!("expected a SUBSCRIBE, got {:?}", other),
    }

    // Dropped before SUBACK: the intent is replayed on the new connection.
    state.new_connection(&mut pool);
    assert!(!pool.is_reserved(1));
    let mut packet = None;
    let out = state.poll(&mut packet, &mut pool);
    assert_eq!(out.packets.len(), 1);
    match &out.packets[0] {
        Packet::Subscribe { subscribe_to, .. } => {
            assert_eq!(subscribe_to[0].topic_filter, "t");
        }
        other => panic!("expected a SUBSCRIBE, got {:?}", other),
    }
}

#[test]
fn suback_completes_and_reports_codes_verbatim() {
    let mut state = subscription::State::new();
    let mut pool = PacketIdentifiers::new();
    state.enqueue_update(SubscriptionRequest {
        update: SubscriptionUpdate::Subscribe(SubscribeTo {
            topic_filter: "a/#".to_owned(),
            qos: QoS::AtLeastOnce,
        }),
        ack_token: 21,
    });
    let mut packet = None;
    let _ = state.poll(&mut packet, &mut pool);
    let mut ack = Some(Packet::SubAck { packet_identifier: 1, return_codes: vec![0x80] });
    let out = state.poll(&mut ack, &mut pool);
    assert_eq!(out.completions, vec![21]);
    assert_eq!(out.return_codes, Some(vec![0x80]));
    assert!(!pool.is_reserved(1));
}

#[test]
fn unsubscribe_flow_and_unsuback() {
    let mut state = subscription::State::new();
    let mut pool = PacketIdentifiers::new();
    state.enqueue_update(SubscriptionRequest {
        update: SubscriptionUpdate::Unsubscribe("t".to_owned()),
        ack_token: 8,
    });
    let mut packet = None;
    let out = state.poll(&mut packet, &mut pool);
    match &out.packets[0] {
        Packet::Unsubscribe { packet_identifier, unsubscribe_from } => {
            assert_eq!(*packet_identifier, 1);
            assert_eq!(unsubscribe_from, &vec!["t".to_owned()]);
        }
        other => panic!("expected an UNSUBSCRIBE, got {:?}", other),
    }
    let mut ack = Some(Packet::UnsubAck { packet_identifier: 1 });
    let out = state.poll(&mut ack, &mut pool);
    assert_eq!(out.completions, vec![8]);
}

#[test]
fn connector_handshake_backoff_and_refusal() {
    let mut connector = Connector::new(
        Some("client".to_owned()),
        None,
        None,
        None,
        60,
        10,
    );
    assert_eq!(connector.state, ConnectionState::Disconnected);

    let connect = connector.transport_connected();
    match connect {
        Packet::Connect { client_id, clean_session, keep_alive, .. } => {
            assert_eq!(client_id.as_deref(), Some("client"));
            assert!(clean_session, "first connect is clean");
            assert_eq!(keep_alive, 10);
        }
        other => panic!("expected a CONNECT, got {:?}", other),
    }
    assert_eq!(connector.state, ConnectionState::Handshaking);

    // Accepted: back-off resets, later connects resume the session.
    assert_eq!(connector.handle_connack(false, 0), Ok(true));
    assert_eq!(connector.state, ConnectionState::Connected);

    connector.connection_lost();
    assert_eq!(connector.state, ConnectionState::Disconnected);
    let connect = connector.transport_connected();
    match connect {
        Packet::Connect { clean_session, .. } => assert!(!clean_session),
        other => panic!("expected a CONNECT, got {:?}", other),
    }
    assert_eq!(connector.handle_connack(true, 0), Ok(false));

    // Failed dials: waits 0, 1, 2, 4, ... capped at the maximum.
    connector.connection_lost();
    assert_eq!(connector.connect_failed(), 0);
    assert_eq!(connector.connect_failed(), 1);
    assert_eq!(connector.connect_failed(), 2);
    assert_eq!(connector.connect_failed(), 4);
    for _ in 0..10 {
        connector.connect_failed();
    }
    assert_eq!(connector.connect_failed(), 60);

    // A refusing CONNACK is fatal.
    connector.transport_connected();
    assert!(connector.handle_connack(false, 5).is_err());
    assert_eq!(connector.state, ConnectionState::Closed);
}

#[test]
fn routing_sends_each_packet_to_its_machine() {
    assert_eq!(
        route(&Packet::PubAck { packet_identifier: 1 }),
        PacketRoute::ToPublish
    );
    assert_eq!(
        route(&Packet::SubAck { packet_identifier: 1, return_codes: vec![] }),
        PacketRoute::ToSubscription
    );
    assert_eq!(route(&Packet::PingResp), PacketRoute::ToPing);
    assert_eq!(
        route(&Packet::ConnAck { session_present: false, return_code: 0 }),
        PacketRoute::ProtocolViolation
    );
}

#[test]
fn publish_error_keeps_rejected_publication() {
    let rejected = PublishError::NotReady(publication("t", QoS::AtMostOnce, "p"));
    match rejected {
        PublishError::NotReady(p) => assert_eq!(p.payload, b"p"),
        PublishError::ClientDoesNotExist => panic!("wrong variant"),
    }
}
