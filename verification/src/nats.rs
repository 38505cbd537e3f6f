//! The decisions of the NATS transport: its connection flag, the refusal of
//! operations while it is not connected, and how failed publications are
//! retried and reported. The NATS client itself is run by the caller.
use vstd::prelude::*;

use crate::logging::LogLevel;
use crate::message::Error;
use crate::text::{decimal, owned, push_decimal, push_str};

verus! {

/// The abstract state of a NATS transport.
pub struct NatsTransportView {
    pub address: Seq<char>,
    pub connected: bool,
}

/// A NATS transport: the server address and whether a client is connected.
pub struct NatsTransport {
    address: String,
    connected: bool,
}

impl View for NatsTransport {
    type V = NatsTransportView;

    closed spec fn view(&self) -> NatsTransportView {
        NatsTransportView { address: self.address@, connected: self.connected }
    }
}

impl NatsTransport {
    /// A transport for the server at `address`, not yet connected.
    pub fn new(address: String) -> (t: Self)
        ensures
            t@ == (NatsTransportView { address: address@, connected: false }),
    {
        NatsTransport { address, connected: false }
    }

    /// The server address.
    pub fn address(&self) -> (a: &str)
        ensures
            a@ == self@.address,
    {
        self.address.as_str()
    }

    /// A client is connected.
    pub fn is_connected(&self) -> (b: bool)
        ensures
            b == self@.connected,
    {
        self.connected
    }

    /// The transport's name: `nats`.
    pub fn name(&self) -> (n: &'static str)
        ensures
            n@ == seq!['n', 'a', 't', 's'],
    {
        proof {
            reveal_strlit("nats");
        }
        "nats"
    }

    /// Records the outcome of a connection attempt and hands it back; the client
    /// is kept once an attempt succeeds.
    pub fn finish_connect(&mut self, outcome: Result<(), Error>) -> (r: Result<(), Error>)
        ensures
            r == outcome,
            final(self)@ == (NatsTransportView {
                connected: old(self)@.connected || outcome is Ok,
                ..old(self)@
            }),
    {
        if outcome.is_ok() {
            self.connected = true;
        }
        outcome
    }

    /// Drops the client. The result says whether there was one.
    pub fn disconnect(&mut self) -> (was_connected: bool)
        ensures
            was_connected == old(self)@.connected,
            final(self)@ == (NatsTransportView { connected: false, ..old(self)@ }),
    {
        let was = self.connected;
        self.connected = false;
        was
    }

    /// Publishing, subscribing and requesting need a connected client.
    pub fn ensure_connected(&self) -> (r: Result<(), Error>)
        ensures
            r is Ok <==> self@.connected,
            r matches Err(e) ==> e is NotConnected,
    {
        if self.connected {
            Ok(())
        } else {
            Err(Error::NotConnected)
        }
    }
}

/// One more failed attempt to publish, after `retries` earlier ones: the new
/// count, the level it is reported at (a warning for the first four retries, an
/// error from the fifth on) and the report.
pub fn publish_retry(retries: i8) -> (r: (i8, LogLevel, String))
    requires
        0 <= retries < i8::MAX,
    ensures
        r.0 == retries + 1,
        r.1 == (if r.0 < 5 { LogLevel::Warn } else { LogLevel::Error }),
        r.2@ == "Failed to publish to NATS, retry "@ + decimal(r.0 as nat) + " times"@,
{
    let n: i8 = retries + 1;
    let level = if n < 5 {
        LogLevel::Warn
    } else {
        LogLevel::Error
    };
    let mut m = String::new();
    push_str(&mut m, "Failed to publish to NATS, retry ");
    push_decimal(&mut m, n as u64);
    push_str(&mut m, " times");
    (n, level, m)
}

/// The error a request gives when no answer came in time.
pub fn request_timeout_error() -> (e: Error)
    ensures
        e matches Error::Request(m) && m@ == "Request timeout"@,
{
    Error::Request(owned("Request timeout"))
}

} // verus!
