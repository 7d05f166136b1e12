//! The MQTT 3.1.1 packet kinds the client core consumes and produces.
//!
//! The wire codec that frames these packets onto a byte stream is injected
//! from outside; the core only routes and reacts to decoded packet values.

use vstd::prelude::*;

verus! {

/// A non-zero 16-bit packet identifier disambiguating concurrent
/// multi-step protocol flows. Zero is never a valid identifier.
pub type PacketIdentifier = u16;

/// MQTT delivery guarantee level.
#[derive(Clone, Copy, PartialEq, Eq, Structural, Debug)]
pub enum QoS {
    AtMostOnce,
    AtLeastOnce,
    ExactlyOnce,
}

/// The identifier-dup-QoS tag of a PUBLISH packet. QoS 0 packets carry no
/// identifier; QoS 1 and 2 packets carry an identifier and a `dup` flag
/// marking retransmissions.
#[derive(Clone, Copy, PartialEq, Eq, Structural, Debug)]
pub enum PacketIdentifierDupQoS {
    AtMostOnce,
    AtLeastOnce(PacketIdentifier, bool),
    ExactlyOnce(PacketIdentifier, bool),
}

/// A decoded MQTT packet, restricted to the kinds the core exchanges.
#[derive(Debug)]
pub enum Packet {
    Connect {
        client_id: Option<String>,
        username: Option<String>,
        password: Option<String>,
        will: Option<crate::Publication>,
        clean_session: bool,
        keep_alive: u16,
    },
    ConnAck {
        session_present: bool,
        return_code: u8,
    },
    Publish {
        packet_identifier_dup_qos: PacketIdentifierDupQoS,
        retain: bool,
        topic_name: String,
        payload: Vec<u8>,
    },
    PubAck {
        packet_identifier: PacketIdentifier,
    },
    PubRec {
        packet_identifier: PacketIdentifier,
    },
    PubRel {
        packet_identifier: PacketIdentifier,
    },
    PubComp {
        packet_identifier: PacketIdentifier,
    },
    Subscribe {
        packet_identifier: PacketIdentifier,
        subscribe_to: Vec<crate::subscription::SubscribeTo>,
    },
    SubAck {
        packet_identifier: PacketIdentifier,
        return_codes: Vec<u8>,
    },
    Unsubscribe {
        packet_identifier: PacketIdentifier,
        unsubscribe_from: Vec<String>,
    },
    UnsubAck {
        packet_identifier: PacketIdentifier,
    },
    PingReq,
    PingResp,
    Disconnect,
}

/// The mathematical value of a `Publication`: the payload as a byte
/// sequence, everything else as it stands.
#[verifier::ext_equal]
pub ghost struct PublicationView {
    pub topic_name: String,
    pub qos: QoS,
    pub retain: bool,
    pub payload: Seq<u8>,
}

impl View for crate::Publication {
    type V = PublicationView;

    open spec fn view(&self) -> PublicationView {
        PublicationView {
            topic_name: self.topic_name,
            qos: self.qos,
            retain: self.retain,
            payload: self.payload@,
        }
    }
}

/// The mathematical value of a `Packet`: payloads and filter lists as
/// sequences, so that two packets carrying the same bytes are the same
/// value even when their buffers were allocated separately.
#[verifier::ext_equal]
pub ghost enum PacketView {
    Connect {
        client_id: Option<String>,
        username: Option<String>,
        password: Option<String>,
        will: Option<PublicationView>,
        clean_session: bool,
        keep_alive: u16,
    },
    ConnAck { session_present: bool, return_code: u8 },
    Publish {
        packet_identifier_dup_qos: PacketIdentifierDupQoS,
        retain: bool,
        topic_name: String,
        payload: Seq<u8>,
    },
    PubAck { packet_identifier: PacketIdentifier },
    PubRec { packet_identifier: PacketIdentifier },
    PubRel { packet_identifier: PacketIdentifier },
    PubComp { packet_identifier: PacketIdentifier },
    Subscribe {
        packet_identifier: PacketIdentifier,
        subscribe_to: Seq<crate::subscription::SubscribeTo>,
    },
    SubAck { packet_identifier: PacketIdentifier, return_codes: Seq<u8> },
    Unsubscribe { packet_identifier: PacketIdentifier, unsubscribe_from: Seq<String> },
    UnsubAck { packet_identifier: PacketIdentifier },
    PingReq,
    PingResp,
    Disconnect,
}

impl View for Packet {
    type V = PacketView;

    open spec fn view(&self) -> PacketView {
        match *self {
            Packet::Connect {
                client_id,
                username,
                password,
                will,
                clean_session,
                keep_alive,
            } => PacketView::Connect {
                client_id,
                username,
                password,
                will: match will {
                    Some(w) => Some(w@),
                    None => None,
                },
                clean_session,
                keep_alive,
            },
            Packet::ConnAck { session_present, return_code } => PacketView::ConnAck {
                session_present,
                return_code,
            },
            Packet::Publish {
                packet_identifier_dup_qos,
                retain,
                topic_name,
                payload,
            } => PacketView::Publish {
                packet_identifier_dup_qos,
                retain,
                topic_name,
                payload: payload@,
            },
            Packet::PubAck { packet_identifier } => PacketView::PubAck { packet_identifier },
            Packet::PubRec { packet_identifier } => PacketView::PubRec { packet_identifier },
            Packet::PubRel { packet_identifier } => PacketView::PubRel { packet_identifier },
            Packet::PubComp { packet_identifier } => PacketView::PubComp { packet_identifier },
            Packet::Subscribe { packet_identifier, subscribe_to } => PacketView::Subscribe {
                packet_identifier,
                subscribe_to: subscribe_to@,
            },
            Packet::SubAck { packet_identifier, return_codes } => PacketView::SubAck {
                packet_identifier,
                return_codes: return_codes@,
            },
            Packet::Unsubscribe { packet_identifier, unsubscribe_from } => PacketView::Unsubscribe {
                packet_identifier,
                unsubscribe_from: unsubscribe_from@,
            },
            Packet::UnsubAck { packet_identifier } => PacketView::UnsubAck { packet_identifier },
            Packet::PingReq => PacketView::PingReq,
            Packet::PingResp => PacketView::PingResp,
            Packet::Disconnect => PacketView::Disconnect,
        }
    }
}

/// The views of a sequence of packets, in order.
pub open spec fn packet_views(s: Seq<Packet>) -> Seq<PacketView> {
    s.map_values(|p: Packet| p@)
}

/// Appending one packet appends its view.
pub proof fn lemma_packet_views_push(s: Seq<Packet>, p: Packet)
    ensures
        packet_views(s.push(p)) == packet_views(s).push(p@),
{
    assert(packet_views(s.push(p)) =~= packet_views(s).push(p@));
}

} // verus!
