//! The values that travel over a transport: HTTP envelopes, acknowledgements,
//! received messages, HTTP configuration, transport errors and the choice of
//! transporter.
use vstd::prelude::*;

use crate::address::{host_port, http_scheme, law_parse_http_url, spec_parse_http_address};
use crate::text::{has_char, owned, push_char, push_decimal, push_str};

verus! {

/// A message as it is posted to a node's `/publish` or `/request` endpoint.
#[derive(Debug, Clone)]
pub struct HttpMessage {
    pub topic: String,
    pub data: Vec<u8>,
    pub sender: Option<String>,
    pub reply_to: Option<String>,
}

impl HttpMessage {
    /// A message with neither sender nor reply-to address.
    pub fn new(topic: String, data: Vec<u8>) -> (m: Self)
        ensures
            m.topic == topic,
            m.data == data,
            m.sender is None,
            m.reply_to is None,
    {
        HttpMessage { topic, data, sender: None, reply_to: None }
    }

    /// A message that names its sender.
    pub fn with_sender(topic: String, data: Vec<u8>, sender: String) -> (m: Self)
        ensures
            m.topic == topic,
            m.data == data,
            m.sender == Some(sender),
            m.reply_to is None,
    {
        HttpMessage { topic, data, sender: Some(sender), reply_to: None }
    }

    /// A message that names its sender and the topic to reply to.
    pub fn with_reply(topic: String, data: Vec<u8>, sender: String, reply_to: String) -> (m: Self)
        ensures
            m.topic == topic,
            m.data == data,
            m.sender == Some(sender),
            m.reply_to == Some(reply_to),
    {
        HttpMessage { topic, data, sender: Some(sender), reply_to: Some(reply_to) }
    }
}

/// The body a node answers an HTTP message with.
#[derive(Debug)]
pub struct HttpResponse {
    pub success: bool,
    pub data: Vec<u8>,
    pub error: Option<String>,
}

impl HttpResponse {
    /// The acknowledgement a node sends for every message it accepts.
    pub fn ack() -> (r: Self)
        ensures
            r.success,
            r.data@.len() == 0,
            r.error is None,
    {
        HttpResponse { success: true, data: Vec::new(), error: None }
    }
}

/// A message handed to a subscriber.
#[derive(Debug, Clone)]
pub struct ReceivedMessage {
    pub topic: String,
    pub payload: Vec<u8>,
    pub reply_to: Option<String>,
}

impl ReceivedMessage {
    /// A received message without reply-to address.
    pub fn new(topic: String, payload: Vec<u8>) -> (m: Self)
        ensures
            m.topic == topic,
            m.payload == payload,
            m.reply_to is None,
    {
        ReceivedMessage { topic, payload, reply_to: None }
    }

    /// A received message with a reply-to address.
    pub fn with_reply(topic: String, payload: Vec<u8>, reply_to: String) -> (m: Self)
        ensures
            m.topic == topic,
            m.payload == payload,
            m.reply_to == Some(reply_to),
    {
        ReceivedMessage { topic, payload, reply_to: Some(reply_to) }
    }
}

/// Where a node can be reached over HTTP.
#[derive(Clone, Debug)]
pub struct HttpConfig {
    pub address: String,
    pub port: u16,
    pub node_id: String,
}

impl HttpConfig {
    /// The URL of the node: `http://address:port`.
    pub open spec fn spec_base_url(&self) -> Seq<char> {
        http_scheme() + host_port(self.address@, self.port)
    }

    /// A configuration for the given address, port and node.
    pub fn new(address: &str, port: u16, node_id: &str) -> (c: Self)
        ensures
            c.address@ == address@,
            c.port == port,
            c.node_id@ == node_id@,
    {
        HttpConfig { address: owned(address), port, node_id: owned(node_id) }
    }

    /// The URL of the node: `http://address:port`.
    pub fn base_url(&self) -> (url: String)
        ensures
            url@ == self.spec_base_url(),
    {
        let mut url = String::new();
        push_str(&mut url, "http://");
        proof {
            reveal_strlit("http://");
        }
        push_str(&mut url, self.address.as_str());
        push_char(&mut url, ':');
        push_decimal(&mut url, self.port as u64);
        assert(url@ =~= self.spec_base_url());
        url
    }
}

/// The URL of a configuration, split again as a transport address, names the
/// configured host and port, as long as the host holds no `:`.
pub proof fn law_base_url_round_trip(config: HttpConfig)
    requires
        !has_char(config.address@, ':'),
    ensures
        spec_parse_http_address(config.spec_base_url()) == (config.address@, config.port),
{
    law_parse_http_url(config.address@, config.port);
}

/// The answer of a node's info endpoint: the node and the transport it serves.
#[derive(Debug, Clone)]
pub struct NodeInfo {
    pub node_id: String,
    pub transport: String,
}

/// What can go wrong on a transport.
#[derive(Debug, Clone)]
pub enum Error {
    Connection(String),
    Publish(String),
    Subscribe(String),
    Request(String),
    Serialization(String),
    NotConnected,
    InvalidAddress(String),
    ServerError(String),
    Http(String),
}

/// The transport a broker is configured with, by address.
#[derive(Debug, Clone)]
pub enum Transporter {
    Nats(String),
    Http(String),
}

impl Transporter {
    /// An HTTP transporter listening on `address`.
    pub fn http(address: &str) -> (t: Self)
        ensures
            t matches Transporter::Http(a) && a@ == address@,
    {
        Transporter::Http(owned(address))
    }

    /// A NATS transporter connecting to `address`.
    pub fn nats(address: &str) -> (t: Self)
        ensures
            t matches Transporter::Nats(a) && a@ == address@,
    {
        Transporter::Nats(owned(address))
    }
}

} // verus!
