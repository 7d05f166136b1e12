//! Core of an MQTT 3.1.1 client: the packet-identifier pool, the keep-alive
//! ping state, the publish state machine (QoS 0/1/2 in both directions), the
//! subscription state machine, and the connection orchestrator's decision
//! logic, each specified and verified as a pure state machine.
//!
//! Transport I/O, the wire codec and the async channel plumbing live outside
//! this crate; they hand these state machines plain packet values and carry
//! away the packets the machines ask to have written.

pub mod connect;
pub mod id_pool;
pub mod ping;
pub mod proto;
pub mod publish;
pub mod session;
pub mod subscription;

use vstd::prelude::*;

verus! {

/// A message that can be published to the server.
#[derive(Debug)]
pub struct Publication {
    pub topic_name: String,
    pub qos: proto::QoS,
    pub retain: bool,
    pub payload: Vec<u8>,
}

/// A message received from the server, handed to the user as an event.
/// `dup` marks a retransmission of a message the server may already have
/// delivered.
#[derive(Debug)]
pub struct ReceivedPublication {
    pub topic_name: String,
    pub dup: bool,
    pub qos: proto::QoS,
    pub payload: Vec<u8>,
}

/// An exact byte-for-byte copy of a payload, for storing a replay copy of a
/// packet while the original goes out on the wire.
pub fn clone_bytes(v: &Vec<u8>) -> (r: Vec<u8>)
    ensures
        r@ == v@,
{
    let mut r: Vec<u8> = Vec::new();
    let mut i: usize = 0;
    while i < v.len()
        invariant
            i == r.len() <= v.len(),
            forall|j: int| 0 <= j < i ==> r@[j] == v@[j],
        decreases v.len() - i,
    {
        r.push(v[i]);
        i = i + 1;
    }
    proof {
        assert(r@ =~= v@);
    }
    r
}

/// Concatenation of sequences is associative.
pub proof fn lemma_assoc<A>(a: Seq<A>, b: Seq<A>, c: Seq<A>)
    ensures
        a + (b + c) == (a + b) + c,
{
    assert(a + (b + c) =~= (a + b) + c);
}

/// Appending to a sequence leaves its prefix of length `base` alone and
/// extends what lies past it.
pub proof fn lemma_skip_append<A>(pre: Seq<A>, step: Seq<A>, base: int)
    requires
        0 <= base <= pre.len(),
    ensures
        (pre + step).skip(base) == pre.skip(base) + step,
        (pre + step).take(base) == pre.take(base),
{
    assert((pre + step).skip(base) =~= pre.skip(base) + step);
    assert((pre + step).take(base) =~= pre.take(base));
}

/// Why a publish request could not be taken.
#[derive(Debug)]
pub enum PublishError {
    /// The client has shut down; the request will never be sent.
    ClientDoesNotExist,
    /// The request queue is full; the publication is handed back untouched.
    NotReady(Publication),
}

/// Why a subscribe or unsubscribe request could not be taken.
#[derive(Clone, Copy, PartialEq, Eq, Structural, Debug)]
pub enum UpdateSubscriptionError {
    /// The client has shut down; the request will never be sent.
    ClientDoesNotExist,
}

/// What the client surfaces to its user: one `NewConnection` per accepted
/// CONNACK, and one `Publication` per received message. Transient
/// connection errors are never surfaced; reconnection is automatic.
#[derive(Debug)]
pub enum Event {
    /// A connection came up. `reset_session` says the server kept no
    /// session state, so subscriptions confirmed before must be renewed by
    /// the user if wanted.
    NewConnection { reset_session: bool },
    /// A message arrived on a subscribed topic.
    Publication(ReceivedPublication),
}

} // verus!
