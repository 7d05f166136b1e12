use mqtt_core::connect::ConnectionState;
use mqtt_core::proto::{Packet, PacketIdentifierDupQoS, QoS};
use mqtt_core::publish::PublishRequest;
use mqtt_core::session::Session;
use mqtt_core::subscription::{SubscribeTo, SubscriptionRequest, SubscriptionUpdate};
use mqtt_core::Publication;

fn new_session() -> Session {
    Session::new(Some("client".to_owned()), None, None, None, 60, 10)
}

#[test]
fn session_connects_and_carries_a_flow_end_to_end() {
    let mut session = new_session();

    let connect = session.transport_connected();
    match connect {
        Packet::Connect { clean_session, keep_alive, .. } => {
            assert!(clean_session);
            assert_eq!(keep_alive, 10);
        }
        other => panic!("expected a CONNECT, got {:?}", other),
    }
    let (reset_session, replay) = session.connack(false, 0, 0).expect("accepted");
    assert!(reset_session, "no session could be present on a clean connect");
    assert!(replay.is_empty());
    assert_eq!(session.connector.state, ConnectionState::Connected);

    // Subscribe and publish; the flush sends subscription packets first.
    session.enqueue_subscription_update(SubscriptionRequest {
        update: SubscriptionUpdate::Subscribe(SubscribeTo {
            topic_filter: "t".to_owned(),
            qos: QoS::AtLeastOnce,
        }),
        ack_token: 1,
    });
    session.enqueue_publish(PublishRequest {
        publication: Publication {
            topic_name: "t".to_owned(),
            qos: QoS::AtLeastOnce,
            retain: false,
            payload: b"x".to_vec(),
        },
        ack_token: 2,
    });
    let out = session.send_pending();
    assert_eq!(out.packets.len(), 2);
    assert!(matches!(out.packets[0], Packet::Subscribe { packet_identifier: 1, .. }));
    match &out.packets[1] {
        Packet::Publish { packet_identifier_dup_qos, .. } => {
            assert!(matches!(
                packet_identifier_dup_qos,
                PacketIdentifierDupQoS::AtLeastOnce(2, false)
            ));
        }
        other => panic!("expected a PUBLISH, got {:?}", other),
    }
    assert!(!out.exhausted);

    // Acks complete both flows and free both identifiers.
    let out = session.handle_packet(Packet::SubAck { packet_identifier: 1, return_codes: vec![1] });
    assert_eq!(out.subscription_completions, vec![1]);
    assert_eq!(out.return_codes, Some(vec![1]));
    let out = session.handle_packet(Packet::PubAck { packet_identifier: 2 });
    assert_eq!(out.publish_completions, vec![2]);
    assert!(!session.packet_identifiers.is_reserved(1));
    assert!(!session.packet_identifiers.is_reserved(2));
}

#[test]
fn session_replays_in_flight_publish_on_reconnect() {
    let mut session = new_session();
    session.transport_connected();
    session.connack(false, 0, 0).expect("accepted");

    session.enqueue_publish(PublishRequest {
        publication: Publication {
            topic_name: "t".to_owned(),
            qos: QoS::ExactlyOnce,
            retain: false,
            payload: b"y".to_vec(),
        },
        ack_token: 4,
    });
    let out = session.send_pending();
    assert_eq!(out.packets.len(), 1);

    // The connection drops before any ack; the server kept the session.
    session.connection_lost();
    session.transport_connected();
    let (reset_session, replay) = session.connack(true, 0, 1_000).expect("accepted");
    assert!(!reset_session);
    assert_eq!(replay.len(), 1);
    match &replay[0] {
        Packet::Publish { packet_identifier_dup_qos, payload, .. } => {
            assert!(matches!(
                packet_identifier_dup_qos,
                PacketIdentifierDupQoS::ExactlyOnce(1, true)
            ));
            assert_eq!(payload, b"y");
        }
        other => panic!("expected a PUBLISH, got {:?}", other),
    }
}

#[test]
fn session_tears_down_on_protocol_violation_and_refusal() {
    let mut session = new_session();
    session.transport_connected();
    session.connack(false, 0, 0).expect("accepted");

    let out = session.handle_packet(Packet::PingResp);
    assert!(!out.violation);

    let out = session.handle_packet(Packet::ConnAck { session_present: false, return_code: 0 });
    assert!(out.violation, "a second CONNACK while connected breaks protocol");
    session.connection_lost();

    // A refused CONNACK on the next dial stops the client for good.
    session.transport_connected();
    let refused = session.connack(false, 4, 0).unwrap_err();
    assert_eq!(refused.return_code, 4);
    assert_eq!(session.connector.state, ConnectionState::Closed);
}

#[test]
fn session_shutdown_sends_disconnect_only_while_connected() {
    let mut session = new_session();
    assert!(session.shutdown().is_none());

    let mut session = new_session();
    session.transport_connected();
    session.connack(false, 0, 0).expect("accepted");
    match session.shutdown() {
        Some(Packet::Disconnect) => {}
        other => panic!("expected a DISCONNECT, got {:?}", other),
    }
    assert_eq!(session.connector.state, ConnectionState::Closed);
}

#[test]
fn events_carry_what_the_user_sees() {
    let event = mqtt_core::Event::NewConnection { reset_session: true };
    match event {
        mqtt_core::Event::NewConnection { reset_session } => assert!(reset_session),
        mqtt_core::Event::Publication(_) => panic!("wrong event"),
    }
    let mut session = new_session();
    session.transport_connected();
    session.connack(false, 0, 0).expect("accepted");
    let out = session.handle_packet(Packet::Publish {
        packet_identifier_dup_qos: PacketIdentifierDupQoS::AtMostOnce,
        retain: false,
        topic_name: "t".to_owned(),
        payload: b"hi".to_vec(),
    });
    let event = mqtt_core::Event::Publication(out.publication.expect("surfaced"));
    match event {
        mqtt_core::Event::Publication(p) => {
            assert_eq!(p.topic_name, "t");
            assert_eq!(p.payload, b"hi");
            assert!(matches!(p.qos, QoS::AtMostOnce));
        }
        mqtt_core::Event::NewConnection { .. } => panic!("wrong event"),
    }
}

#[test]
fn session_keep_alive_pings_when_idle() {
    let mut session = new_session();
    session.transport_connected();
    session.connack(false, 0, 0).expect("accepted");

    // keep_alive is 10 s; half the interval idle brings a PINGREQ.
    match session.tick(4_999) {
        Ok(None) => {}
        other => panic!("expected silence, got {:?}", other),
    }
    match session.tick(5_000) {
        Ok(Some(Packet::PingReq)) => {}
        other => panic!("expected a PINGREQ, got {:?}", other),
    }
    session.record_write(6_000);
    // The answer never comes: after a full interval the connection is dead.
    assert!(session.tick(15_001).is_err());
}
