//! Keep-alive tracking. The client promises the server some transmission at
//! least every `keep_alive` interval; when the user is idle, a PINGREQ is
//! sent after half the interval, and a PINGRESP owed for more than a full
//! interval tears the connection down.
//!
//! Instants are milliseconds on a caller-supplied monotonic clock.

use vstd::prelude::*;

use crate::proto::Packet;

verus! {

/// The server did not answer a PINGREQ within the keep-alive interval; the
/// connection must be torn down and redialled.
#[derive(Clone, Copy, PartialEq, Eq, Structural, Debug)]
pub struct PingTimedOut;

/// Tracks when the connection last carried traffic and whether a PINGREQ is
/// outstanding.
pub struct PingState {
    /// When anything was last written to the transport, in milliseconds.
    pub last_write_instant: u64,
    /// When the outstanding PINGREQ was sent; meaningful only while
    /// `ping_in_flight`.
    pub last_pingreq_sent: u64,
    /// A PINGREQ has been sent and its PINGRESP is still owed.
    pub ping_in_flight: bool,
    /// The keep-alive interval advertised in CONNECT, in milliseconds.
    pub keep_alive: u64,
}

impl PingState {
    /// A fresh tracker for a connection that just came up at `now`.
    pub fn new(keep_alive: u64, now: u64) -> (r: Self)
        ensures
            r == (PingState {
                last_write_instant: now,
                last_pingreq_sent: now,
                ping_in_flight: false,
                keep_alive,
            }),
    {
        PingState { last_write_instant: now, last_pingreq_sent: now, ping_in_flight: false, keep_alive }
    }

    /// Something was written to the transport at `now`, so the keep-alive
    /// clock restarts.
    pub fn record_write(&mut self, now: u64)
        ensures
            *final(self) == (PingState { last_write_instant: now, ..*old(self) }),
    {
        self.last_write_instant = now;
    }

    /// The server answered the outstanding PINGREQ.
    pub fn pingresp(&mut self)
        ensures
            *final(self) == (PingState { ping_in_flight: false, ..*old(self) }),
    {
        self.ping_in_flight = false;
    }

    /// One driver tick at `now`. A PINGRESP owed for more than the
    /// keep-alive interval is fatal to the connection; otherwise, if no
    /// ping is outstanding and nothing has been written for half the
    /// interval, a PINGREQ goes out (half to leave headroom for jitter);
    /// otherwise nothing happens.
    pub fn tick(&mut self, now: u64) -> (r: Result<Option<Packet>, PingTimedOut>)
        requires
            now >= old(self).last_write_instant,
            now >= old(self).last_pingreq_sent,
        ensures
            if old(self).ping_in_flight && now - old(self).last_pingreq_sent > old(
                self,
            ).keep_alive {
                r == Err::<Option<Packet>, PingTimedOut>(PingTimedOut) && *final(self) == *old(
                    self,
                )
            } else if !old(self).ping_in_flight && now - old(self).last_write_instant >= old(
                self,
            ).keep_alive / 2 {
                r == Ok::<Option<Packet>, PingTimedOut>(Some(Packet::PingReq)) && *final(self)
                    == (PingState { ping_in_flight: true, last_pingreq_sent: now, ..*old(self) })
            } else {
                r == Ok::<Option<Packet>, PingTimedOut>(None) && *final(self) == *old(self)
            },
    {
        if self.ping_in_flight && now - self.last_pingreq_sent > self.keep_alive {
            Err(PingTimedOut)
        } else if !self.ping_in_flight && now - self.last_write_instant >= self.keep_alive / 2 {
            self.ping_in_flight = true;
            self.last_pingreq_sent = now;
            Ok(Some(Packet::PingReq))
        } else {
            Ok(None)
        }
    }
}

} // verus!
