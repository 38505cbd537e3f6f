//! The decisions of the HTTP transport: which address it binds, whether it is
//! connected, which topics have subscribers, and what a published or posted
//! message is delivered as. The sockets, the HTTP server and the per-topic
//! channels are run by the caller, which performs what these functions decide.
use vstd::prelude::*;

use crate::address::{host_port, spec_parse_http_address};
use crate::message::{Error, HttpMessage, HttpResponse, NodeInfo, ReceivedMessage};
use crate::tts::{node_health, HealthResponse};
use crate::text::{owned, push_char, push_decimal, push_str};

verus! {

/// The abstract state of an HTTP transport.
pub struct HttpTransportView {
    pub address: Seq<char>,
    pub node_id: Seq<char>,
    pub bind_address: Seq<char>,
    pub port: u16,
    pub connected: bool,
    pub topics: Set<Seq<char>>,
}

/// The state a freshly created transport for `address` is in.
pub open spec fn initial_state(address: Seq<char>, node_id: Seq<char>) -> HttpTransportView {
    HttpTransportView {
        address,
        node_id,
        bind_address: spec_parse_http_address(address).0,
        port: spec_parse_http_address(address).1,
        connected: false,
        topics: Set::empty(),
    }
}

/// The state after a subscription to `topic`.
pub open spec fn after_subscribe(v: HttpTransportView, topic: Seq<char>) -> HttpTransportView {
    HttpTransportView { topics: v.topics.insert(topic), ..v }
}

/// The state after a disconnect.
pub open spec fn after_disconnect(v: HttpTransportView) -> HttpTransportView {
    HttpTransportView { connected: false, ..v }
}

/// The state after a connection attempt with the given outcome.
pub open spec fn after_connect(v: HttpTransportView, succeeded: bool) -> HttpTransportView {
    HttpTransportView { connected: v.connected || succeeded, ..v }
}

/// A message on `topic` reaches a subscriber.
pub open spec fn delivers(v: HttpTransportView, topic: Seq<char>) -> bool {
    v.topics.contains(topic)
}

/// An HTTP transport: the address it serves, its connection flag and the
/// topics that have subscribers.
pub struct HttpTransport {
    address: String,
    node_id: String,
    bind_address: String,
    port: u16,
    connected: bool,
    topics: Vec<String>,
}

impl View for HttpTransport {
    type V = HttpTransportView;

    closed spec fn view(&self) -> HttpTransportView {
        HttpTransportView {
            address: self.address@,
            node_id: self.node_id@,
            bind_address: self.bind_address@,
            port: self.port,
            connected: self.connected,
            topics: Set::new(|t: Seq<char>| exists|i: int| 0 <= i < self.topics@.len() && #[trigger] self.topics@[i]@ == t),
        }
    }
}

impl HttpTransport {
    /// No topic is registered twice.
    #[verifier::type_invariant]
    closed spec fn topics_distinct(self) -> bool {
        forall|i: int, j: int|
            0 <= i < self.topics@.len() && 0 <= j < self.topics@.len() && i != j
                ==> #[trigger] self.topics@[i]@ != #[trigger] self.topics@[j]@
    }

    /// A transport for `address` (see `parse_http_address`), not yet connected and
    /// without subscribers.
    pub fn new(address: String, node_id: String) -> (t: Self)
        ensures
            t@ == initial_state(address@, node_id@),
    {
        let (bind_address, port) = crate::address::parse_http_address(address.as_str());
        let t = HttpTransport { address, node_id, bind_address, port, connected: false, topics: Vec::new() };
        assert(t@.topics =~= Set::<Seq<char>>::empty());
        t
    }

    /// The transport is connected.
    pub fn is_connected(&self) -> (b: bool)
        ensures
            b == self@.connected,
    {
        self.connected
    }

    /// The transport's name: `http`.
    pub fn name(&self) -> (n: &'static str)
        ensures
            n@ == seq!['h', 't', 't', 'p'],
    {
        proof {
            reveal_strlit("http");
        }
        "http"
    }

    /// The address the transport was created with.
    pub fn node_address(&self) -> (a: Option<&str>)
        ensures
            a matches Some(s) && s@ == self@.address,
    {
        Some(self.address.as_str())
    }

    /// The node the transport belongs to.
    pub fn node_id(&self) -> (n: &str)
        ensures
            n@ == self@.node_id,
    {
        self.node_id.as_str()
    }

    /// The answer of the server's `/health` endpoint: this node is up.
    pub fn health(&self) -> (h: HealthResponse)
        ensures
            h.status@ == "ok"@,
            h.node_id@ == self@.node_id,
    {
        node_health(self.node_id.as_str())
    }

    /// The answer of the server's `/info` endpoint: this node, over `http`.
    pub fn info(&self) -> (i: NodeInfo)
        ensures
            i.node_id@ == self@.node_id,
            i.transport@ == "http"@,
    {
        NodeInfo { node_id: owned(self.node_id.as_str()), transport: owned("http") }
    }

    /// The host the server binds.
    pub fn bind_address(&self) -> (h: &str)
        ensures
            h@ == self@.bind_address,
    {
        self.bind_address.as_str()
    }

    /// The port the server listens on.
    pub fn port(&self) -> (p: u16)
        ensures
            p == self@.port,
    {
        self.port
    }

    /// The socket address the server binds: `bind_address:port`.
    pub fn server_address(&self) -> (s: String)
        ensures
            s@ == host_port(self@.bind_address, self@.port),
    {
        let mut s = String::new();
        push_str(&mut s, self.bind_address.as_str());
        push_char(&mut s, ':');
        push_decimal(&mut s, self.port as u64);
        assert(s@ =~= host_port(self@.bind_address, self@.port));
        s
    }

    /// What starting the server comes to. `address_error` is the reason
    /// `server_address` was not a socket address, if it was not; `bind_error`
    /// the reason the server could not bind it, if binding was tried and failed.
    /// An unusable address is reported first: the bind is only tried on a good one.
    pub fn server_start_result(address_error: Option<&str>, bind_error: Option<&str>) -> (r: Result<(), Error>)
        ensures
            r is Ok <==> address_error is None && bind_error is None,
            address_error matches Some(e) ==> r matches Err(Error::InvalidAddress(m))
                && m@ == "Invalid server address: "@ + e@,
            address_error is None ==> (bind_error matches Some(e) ==> r matches Err(Error::ServerError(m))
                && m@ == "Failed to bind server: "@ + e@),
    {
        match address_error {
            Some(e) => {
                let mut m = owned("Invalid server address: ");
                push_str(&mut m, e);
                Err(Error::InvalidAddress(m))
            },
            None => match bind_error {
                Some(e) => {
                    let mut m = owned("Failed to bind server: ");
                    push_str(&mut m, e);
                    Err(Error::ServerError(m))
                },
                None => Ok(()),
            },
        }
    }

    /// Records the outcome of a connection attempt (creating the client and
    /// starting the server) and hands it back: the transport is connected once an
    /// attempt succeeds.
    pub fn finish_connect(&mut self, outcome: Result<(), Error>) -> (r: Result<(), Error>)
        ensures
            r == outcome,
            final(self)@ == after_connect(old(self)@, outcome is Ok),
    {
        proof {
            use_type_invariant(&*self);
        }
        if outcome.is_ok() {
            self.connected = true;
        }
        outcome
    }

    /// Disconnects. The result says whether the transport was connected, that is,
    /// whether the server must be stopped and the client dropped.
    pub fn disconnect(&mut self) -> (was_connected: bool)
        ensures
            was_connected == old(self)@.connected,
            final(self)@ == after_disconnect(old(self)@),
    {
        proof {
            use_type_invariant(&*self);
        }
        let was = self.connected;
        self.connected = false;
        was
    }

    /// Position of `topic` among the registered topics, if it is there.
    fn find_topic(&self, topic: &String) -> (r: Option<usize>)
        ensures
            r matches Some(i) ==> i < self.topics@.len() && self.topics@[i as int]@ == topic@,
            r is None ==> !self@.topics.contains(topic@),
    {
        let mut i: usize = 0;
        while i < self.topics.len()
            invariant
                i <= self.topics@.len(),
                forall|j: int| 0 <= j < i ==> self.topics@[j]@ != topic@,
            decreases self.topics@.len() - i,
        {
            if self.topics[i] == *topic {
                return Some(i);
            }
            i = i + 1;
        }
        None
    }

    /// A message on `topic` reaches a subscriber.
    pub fn has_subscribers(&self, topic: &str) -> (b: bool)
        ensures
            b == delivers(self@, topic@),
    {
        let t = owned(topic);
        let found = self.find_topic(&t);
        if let Some(i) = found {
            assert(self@.topics.contains(topic@) ) by {
                assert(self.topics@[i as int]@ == topic@);
            }
        }
        found.is_some()
    }

    /// Registers a subscription to `topic`. The result says whether the topic is
    /// new, that is, whether a channel must be created for it.
    pub fn subscribe(&mut self, topic: &str) -> (created: bool)
        ensures
            created == !old(self)@.topics.contains(topic@),
            final(self)@ == after_subscribe(old(self)@, topic@),
    {
        proof {
            use_type_invariant(&*self);
        }
        let t = owned(topic);
        let found = self.find_topic(&t);
        match found {
            Some(i) => {
                assert(self@.topics.contains(topic@)) by {
                    assert(self.topics@[i as int]@ == topic@);
                }
                assert(self@.topics.insert(topic@) =~= self@.topics);
                false
            },
            None => {
                let ghost old_topics = self.topics@;
                let ghost old_set = self@.topics;
                let mut topics: Vec<String> = Vec::new();
                std::mem::swap(&mut topics, &mut self.topics);
                topics.push(t);
                assert forall|i: int, j: int|
                    0 <= i < topics@.len() && 0 <= j < topics@.len() && i != j
                        implies #[trigger] topics@[i]@ != #[trigger] topics@[j]@ by {
                    if i < old_topics.len() && j < old_topics.len() {
                        assert(topics@[i] == old_topics[i]);
                        assert(topics@[j] == old_topics[j]);
                    } else if i < old_topics.len() {
                        assert(topics@[i] == old_topics[i]);
                        assert(old_set.contains(old_topics[i]@));
                    } else {
                        assert(topics@[j] == old_topics[j]);
                        assert(old_set.contains(old_topics[j]@));
                    }
                }
                self.topics = topics;
                assert(self@.topics =~= old_set.insert(topic@)) by {
                    assert forall|s: Seq<char>| self@.topics.contains(s) implies old_set.insert(topic@).contains(s) by {
                        let i = choose|i: int| 0 <= i < self.topics@.len() && #[trigger] self.topics@[i]@ == s;
                        if i < old_topics.len() {
                            assert(self.topics@[i] == old_topics[i]);
                        }
                    }
                    assert forall|s: Seq<char>| old_set.insert(topic@).contains(s) implies self@.topics.contains(s) by {
                        if s == topic@ {
                            assert(self.topics@[old_topics.len() as int]@ == s);
                        } else {
                            let i = choose|i: int| 0 <= i < old_topics.len() && #[trigger] old_topics[i]@ == s;
                            assert(self.topics@[i] == old_topics[i]);
                        }
                    }
                }
                true
            },
        }
    }

    /// Publishes `message` on `topic` locally: the message a subscriber receives,
    /// or nothing when the topic has none.
    pub fn publish(&self, topic: &str, message: &[u8]) -> (d: Option<ReceivedMessage>)
        ensures
            d is Some == delivers(self@, topic@),
            d matches Some(m) ==> m.topic@ == topic@ && m.payload@ == message@ && m.reply_to is None,
    {
        if self.has_subscribers(topic) {
            Some(ReceivedMessage::new(owned(topic), vstd::slice::slice_to_vec(message)))
        } else {
            None
        }
    }

    /// A request on `topic`: it is delivered like a publication, and the reply
    /// handed back at this level is empty (replies travel as messages of their own).
    pub fn request(&self, topic: &str, message: &[u8], timeout_ms: u32) -> (r: (Option<ReceivedMessage>, Vec<u8>))
        ensures
            r.0 is Some == delivers(self@, topic@),
            r.0 matches Some(m) ==> m.topic@ == topic@ && m.payload@ == message@ && m.reply_to is None,
            r.1@.len() == 0,
    {
        (self.publish(topic, message), Vec::new())
    }

    /// A message posted to the server's `/publish` or `/request` endpoint: what a
    /// subscriber of its topic receives (with the reply-to address, empty when the
    /// message names none), and the acknowledgement sent back.
    pub fn accept(&self, msg: HttpMessage) -> (r: (Option<ReceivedMessage>, HttpResponse))
        ensures
            r.0 is Some == delivers(self@, msg.topic@),
            r.0 matches Some(m) ==> {
                &&& m.topic@ == msg.topic@
                &&& m.payload@ == msg.data@
                &&& m.reply_to matches Some(rt) && rt@ == (match msg.reply_to {
                    Some(s) => s@,
                    None => Seq::<char>::empty(),
                })
            },
            r.1.success,
            r.1.data@.len() == 0,
            r.1.error is None,
    {
        let delivered = self.has_subscribers(msg.topic.as_str());
        let ack = HttpResponse::ack();
        if delivered {
            let reply_to = match msg.reply_to {
                Some(s) => s,
                None => String::new(),
            };
            (Some(ReceivedMessage::with_reply(msg.topic, msg.data, reply_to)), ack)
        } else {
            (None, ack)
        }
    }
}

// ---------------------------------------------------------------------------
// Subscription streams
// ---------------------------------------------------------------------------

/// What an attempt to take the next message of a topic's channel found.
#[derive(Debug, Clone, Copy, PartialEq, Eq, Structural)]
pub enum ReceiveAttempt {
    /// A message was waiting.
    Message,
    /// No message is waiting yet.
    Empty,
    /// The channel is closed: no message will come.
    Closed,
    /// Messages were dropped because the subscriber fell behind.
    Lagged,
}

/// What a subscription stream answers when polled.
#[derive(Debug, Clone, Copy, PartialEq, Eq, Structural)]
pub enum StreamStep {
    /// Hand the message out.
    Yield,
    /// Ask to be polled again and report that nothing is ready.
    PollAgain,
    /// The stream has ended.
    End,
}

/// A subscription stream hands out a waiting message, ends when the channel is
/// closed, and otherwise (nothing waiting, or messages lost by lagging behind)
/// asks to be polled again.
pub fn stream_step(attempt: ReceiveAttempt) -> (s: StreamStep)
    ensures
        s == (match attempt {
            ReceiveAttempt::Message => StreamStep::Yield,
            ReceiveAttempt::Closed => StreamStep::End,
            _ => StreamStep::PollAgain,
        }),
{
    match attempt {
        ReceiveAttempt::Message => StreamStep::Yield,
        ReceiveAttempt::Empty => StreamStep::PollAgain,
        ReceiveAttempt::Closed => StreamStep::End,
        ReceiveAttempt::Lagged => StreamStep::PollAgain,
    }
}

// ---------------------------------------------------------------------------
// Laws
// ---------------------------------------------------------------------------

/// A new transport delivers nothing.
pub proof fn law_new_transport_delivers_nothing(address: Seq<char>, node_id: Seq<char>, topic: Seq<char>)
    ensures
        !delivers(initial_state(address, node_id), topic),
        !initial_state(address, node_id).connected,
{
}

/// After a subscription to a topic, messages on that topic are delivered, and
/// delivery on every other topic is as before.
pub proof fn law_subscribe_then_publish(v: HttpTransportView, topic: Seq<char>, other: Seq<char>)
    ensures
        delivers(after_subscribe(v, topic), topic),
        other != topic ==> delivers(after_subscribe(v, topic), other) == delivers(v, other),
{
}

/// Subscribing twice to a topic leaves the transport as subscribing once does.
pub proof fn law_subscribe_idempotent(v: HttpTransportView, topic: Seq<char>)
    ensures
        after_subscribe(after_subscribe(v, topic), topic) == after_subscribe(v, topic),
{
    assert(after_subscribe(after_subscribe(v, topic), topic).topics =~= after_subscribe(v, topic).topics);
}

/// Disconnecting twice leaves the transport as disconnecting once does, and the
/// second disconnect finds nothing to release; subscriptions survive it.
pub proof fn law_disconnect_idempotent(v: HttpTransportView)
    ensures
        after_disconnect(after_disconnect(v)) == after_disconnect(v),
        !after_disconnect(v).connected,
        after_disconnect(v).topics == v.topics,
{
}

/// A successful connection attempt leaves the transport connected; a failed one
/// leaves the flag as it was.
pub proof fn law_connect(v: HttpTransportView)
    ensures
        after_connect(v, true).connected,
        after_connect(v, false) == v,
{
}

} // verus!
