//! The HTTP client side: which URL a message is posted to, what envelope it
//! travels in, and what the answer of the remote node means. The HTTP exchange
//! itself is run by the caller.
use vstd::prelude::*;

use crate::message::{Error, HttpMessage, HttpResponse};
use crate::text::{owned, push_str};

verus! {

/// An HTTP status code that `StatusCode::is_success` accepts: 200 to 299.
pub open spec fn spec_is_success(code: u16) -> bool {
    200 <= code <= 299
}

/// A status code in the 2xx range.
pub fn is_success_status(code: u16) -> (b: bool)
    ensures
        b == spec_is_success(code),
{
    200 <= code && code <= 299
}

/// A client that posts messages to other nodes on behalf of one node.
pub struct HttpClientTransport {
    node_id: String,
}

impl View for HttpClientTransport {
    type V = Seq<char>;

    /// The node the client speaks for.
    closed spec fn view(&self) -> Seq<char> {
        self.node_id@
    }
}

/// `node_url/publish`
pub open spec fn spec_publish_url(node_url: Seq<char>) -> Seq<char> {
    node_url + seq!['/', 'p', 'u', 'b', 'l', 'i', 's', 'h']
}

/// `node_url/request`
pub open spec fn spec_request_url(node_url: Seq<char>) -> Seq<char> {
    node_url + seq!['/', 'r', 'e', 'q', 'u', 'e', 's', 't']
}

impl HttpClientTransport {
    /// A client speaking for `node_id`.
    pub fn new(node_id: String) -> (c: Self)
        ensures
            c@ == node_id@,
    {
        HttpClientTransport { node_id }
    }

    /// The node the client speaks for.
    pub fn node_id(&self) -> (n: &str)
        ensures
            n@ == self@,
    {
        self.node_id.as_str()
    }

    /// The endpoint a message for `node_url` is posted to.
    pub fn publish_url(node_url: &str) -> (u: String)
        ensures
            u@ == spec_publish_url(node_url@),
    {
        let mut u = owned(node_url);
        push_str(&mut u, "/publish");
        proof {
            reveal_strlit("/publish");
        }
        assert(u@ =~= spec_publish_url(node_url@));
        u
    }

    /// The endpoint a request for `node_url` is posted to.
    pub fn request_url(node_url: &str) -> (u: String)
        ensures
            u@ == spec_request_url(node_url@),
    {
        let mut u = owned(node_url);
        push_str(&mut u, "/request");
        proof {
            reveal_strlit("/request");
        }
        assert(u@ =~= spec_request_url(node_url@));
        u
    }

    /// The envelope of a message sent to another node: it names this node as sender.
    pub fn publish_message(&self, topic: &str, data: Vec<u8>) -> (m: HttpMessage)
        ensures
            m.topic@ == topic@,
            m.data == data,
            m.sender matches Some(s) && s@ == self@,
            m.reply_to is None,
    {
        HttpMessage::with_sender(owned(topic), data, self.node_id.clone())
    }

    /// The envelope of a request to another node: it names this node as sender
    /// and the topic the answer goes to.
    pub fn request_message(&self, topic: &str, data: Vec<u8>, reply_to: String) -> (m: HttpMessage)
        ensures
            m.topic@ == topic@,
            m.data == data,
            m.sender matches Some(s) && s@ == self@,
            m.reply_to == Some(reply_to),
    {
        HttpMessage::with_reply(owned(topic), data, self.node_id.clone(), reply_to)
    }
}

/// The status of the answer to a sent message: fine in the 2xx range, an HTTP
/// error naming the status otherwise.
pub fn check_send_status(code: u16, status_text: &str) -> (r: Result<(), Error>)
    ensures
        r is Ok <==> spec_is_success(code),
        r matches Err(e) ==> e matches Error::Http(m) && m@ == "Failed to send message, status: "@
            + status_text@,
{
    if is_success_status(code) {
        Ok(())
    } else {
        let mut m = String::new();
        push_str(&mut m, "Failed to send message, status: ");
        push_str(&mut m, status_text);
        Err(Error::Http(m))
    }
}

/// The status of the answer to a request: fine in the 2xx range, an HTTP error
/// naming the status otherwise.
pub fn check_request_status(code: u16, status_text: &str) -> (r: Result<(), Error>)
    ensures
        r is Ok <==> spec_is_success(code),
        r matches Err(e) ==> e matches Error::Http(m) && m@ == "Failed to send request, status: "@
            + status_text@,
{
    if is_success_status(code) {
        Ok(())
    } else {
        let mut m = String::new();
        push_str(&mut m, "Failed to send request, status: ");
        push_str(&mut m, status_text);
        Err(Error::Http(m))
    }
}

/// What the answer body of a request means: its data when it reports success,
/// an HTTP error carrying its message (or `Unknown error`) otherwise.
pub fn interpret_reply(reply: HttpResponse) -> (r: Result<Vec<u8>, Error>)
    ensures
        r is Ok <==> reply.success,
        r matches Ok(d) ==> d == reply.data,
        r matches Err(e) ==> e matches Error::Http(m) && m@ == (match reply.error {
            Some(s) => s@,
            None => "Unknown error"@,
        }),
{
    if reply.success {
        Ok(reply.data)
    } else {
        match reply.error {
            Some(s) => Err(Error::Http(s)),
            None => Err(Error::Http(owned("Unknown error"))),
        }
    }
}

} // verus!
