//! What the broker's channel listeners do with an incoming packet, and the
//! registry of requests that wait for a response. Subscribing, decoding and
//! sending are done by the caller, which performs the decided action.
use vstd::prelude::*;

use crate::text::{push_char, push_str};

verus! {

/// The channels a broker listens on.
#[derive(Debug, Clone, Copy, PartialEq, Eq, Structural)]
pub enum ChannelKind {
    Disconnect,
    Discover,
    DiscoverTargeted,
    Event,
    Heartbeat,
    Info,
    InfoTargeted,
    Ping,
    PingTargeted,
    Pong,
    Request,
    Response,
}

/// The transport a packet arrived over.
#[derive(Debug, Clone, Copy, PartialEq, Eq, Structural)]
pub enum Carrier {
    Nats,
    Http,
}

/// What a listener does with a packet.
#[derive(Debug, Clone)]
pub enum ChannelAction {
    /// Hand the packet (decoded or not) to the broker's handler for the channel.
    ForwardToBroker,
    /// Publish this node's INFO on the given channel.
    PublishInfo(String),
    /// Publish a PONG on the given channel.
    PublishPong(String),
    /// Hand the response to the request that waits for it.
    ResolveResponse,
    /// Nothing to do.
    Ignore,
    /// The packet could not be decoded; it is reported and dropped.
    Reject,
}

/// `prefix.target`: the channel that reaches one node.
pub open spec fn spec_targeted_channel(prefix: Seq<char>, target: Seq<char>) -> Seq<char> {
    prefix + seq!['.'] + target
}

/// The channel that reaches node `target` among the channels named `prefix`.
pub fn targeted_channel(prefix: &str, target: &str) -> (c: String)
    ensures
        c@ == spec_targeted_channel(prefix@, target@),
{
    let mut c = String::new();
    push_str(&mut c, prefix);
    push_char(&mut c, '.');
    push_str(&mut c, target);
    assert(c@ =~= spec_targeted_channel(prefix@, target@));
    c
}

/// The action a listener takes. `sender` is the sender named by the decoded
/// packet, `None` when the packet could not be decoded. Events and requests
/// arriving over NATS go to the broker even undecoded; PONGs are ignored;
/// responses over HTTP are only reported.
pub open spec fn spec_channel_action(
    kind: ChannelKind,
    carrier: Carrier,
    sender: Option<Seq<char>>,
    info_prefix: Seq<char>,
    pong_prefix: Seq<char>,
) -> (ChannelActionView) {
    match kind {
        ChannelKind::Pong => ChannelActionView::Ignore,
        ChannelKind::Event | ChannelKind::Request => if carrier == Carrier::Nats || sender is Some {
            ChannelActionView::ForwardToBroker
        } else {
            ChannelActionView::Reject
        },
        _ => match sender {
            None => ChannelActionView::Reject,
            Some(s) => match kind {
                ChannelKind::Discover | ChannelKind::DiscoverTargeted => ChannelActionView::PublishInfo(
                    spec_targeted_channel(info_prefix, s),
                ),
                ChannelKind::Ping | ChannelKind::PingTargeted => ChannelActionView::PublishPong(
                    spec_targeted_channel(pong_prefix, s),
                ),
                ChannelKind::Response => if carrier == Carrier::Nats {
                    ChannelActionView::ResolveResponse
                } else {
                    ChannelActionView::Ignore
                },
                _ => ChannelActionView::ForwardToBroker,
            },
        },
    }
}

/// What each listener does with a packet, channel by channel: PONGs are ignored;
/// an event or a request that decoded goes to the broker over either transport,
/// and over NATS even undecoded, while an undecoded one over HTTP is rejected;
/// any other packet that did not decode is rejected; a DISCOVER is answered
/// with INFO and a PING with PONG, on the channel `prefix.sender`; a response is
/// resolved over NATS and ignored over HTTP; DISCONNECT, HEARTBEAT and INFO
/// packets go to the broker.
pub proof fn law_channel_actions(
    kind: ChannelKind,
    carrier: Carrier,
    sender: Option<Seq<char>>,
    info_prefix: Seq<char>,
    pong_prefix: Seq<char>,
)
    ensures
        ({
            let a = spec_channel_action(kind, carrier, sender, info_prefix, pong_prefix);
            &&& kind == ChannelKind::Pong ==> a == ChannelActionView::Ignore
            &&& (kind == ChannelKind::Event || kind == ChannelKind::Request) && sender is Some ==> a
                == ChannelActionView::ForwardToBroker
            &&& (kind == ChannelKind::Event || kind == ChannelKind::Request) && carrier == Carrier::Nats ==> a
                == ChannelActionView::ForwardToBroker
            &&& (kind == ChannelKind::Event || kind == ChannelKind::Request) && carrier == Carrier::Http
                && sender is None ==> a == ChannelActionView::Reject
            &&& kind != ChannelKind::Pong && kind != ChannelKind::Event && kind != ChannelKind::Request
                && sender is None ==> a == ChannelActionView::Reject
            &&& (kind == ChannelKind::Discover || kind == ChannelKind::DiscoverTargeted) ==> (sender matches Some(
                s,
            ) ==> a == ChannelActionView::PublishInfo(info_prefix + seq!['.'] + s))
            &&& (kind == ChannelKind::Ping || kind == ChannelKind::PingTargeted) ==> (sender matches Some(s)
                ==> a == ChannelActionView::PublishPong(pong_prefix + seq!['.'] + s))
            &&& kind == ChannelKind::Response && sender is Some && carrier == Carrier::Nats ==> a
                == ChannelActionView::ResolveResponse
            &&& kind == ChannelKind::Response && sender is Some && carrier == Carrier::Http ==> a
                == ChannelActionView::Ignore
            &&& (kind == ChannelKind::Disconnect || kind == ChannelKind::Heartbeat || kind == ChannelKind::Info
                || kind == ChannelKind::InfoTargeted) && sender is Some ==> a == ChannelActionView::ForwardToBroker
        }),
{
}

/// A listener's action, with channels as character sequences.
pub enum ChannelActionView {
    ForwardToBroker,
    PublishInfo(Seq<char>),
    PublishPong(Seq<char>),
    ResolveResponse,
    Ignore,
    Reject,
}

impl View for ChannelAction {
    type V = ChannelActionView;

    open spec fn view(&self) -> ChannelActionView {
        match self {
            ChannelAction::ForwardToBroker => ChannelActionView::ForwardToBroker,
            ChannelAction::PublishInfo(c) => ChannelActionView::PublishInfo(c@),
            ChannelAction::PublishPong(c) => ChannelActionView::PublishPong(c@),
            ChannelAction::ResolveResponse => ChannelActionView::ResolveResponse,
            ChannelAction::Ignore => ChannelActionView::Ignore,
            ChannelAction::Reject => ChannelActionView::Reject,
        }
    }
}

/// The action a listener on channel `kind` takes for a packet that arrived over
/// `carrier` and named `sender` (`None`: it could not be decoded).
pub fn channel_action(
    kind: ChannelKind,
    carrier: Carrier,
    sender: Option<&str>,
    info_prefix: &str,
    pong_prefix: &str,
) -> (a: ChannelAction)
    ensures
        a@ == spec_channel_action(
            kind,
            carrier,
            match sender {
                Some(s) => Some(s@),
                None => None,
            },
            info_prefix@,
            pong_prefix@,
        ),
{
    match kind {
        ChannelKind::Pong => ChannelAction::Ignore,
        ChannelKind::Event | ChannelKind::Request => {
            if carrier == Carrier::Nats || sender.is_some() {
                ChannelAction::ForwardToBroker
            } else {
                ChannelAction::Reject
            }
        },
        _ => match sender {
            None => ChannelAction::Reject,
            Some(s) => match kind {
                ChannelKind::Discover | ChannelKind::DiscoverTargeted => ChannelAction::PublishInfo(
                    targeted_channel(info_prefix, s),
                ),
                ChannelKind::Ping | ChannelKind::PingTargeted => ChannelAction::PublishPong(
                    targeted_channel(pong_prefix, s),
                ),
                ChannelKind::Response => {
                    if carrier == Carrier::Nats {
                        ChannelAction::ResolveResponse
                    } else {
                        ChannelAction::Ignore
                    }
                },
                _ => ChannelAction::ForwardToBroker,
            },
        },
    }
}

// ---------------------------------------------------------------------------
// Requests waiting for a response
// ---------------------------------------------------------------------------

/// The requests that wait for a response, by request id, each with the handle
/// of its waiter.
pub struct ResponseWaiters {
    entries: Vec<(String, u64)>,
}

impl View for ResponseWaiters {
    type V = Map<Seq<char>, u64>;

    closed spec fn view(&self) -> Map<Seq<char>, u64> {
        Map::new(
            |k: Seq<char>| exists|i: int| 0 <= i < self.entries@.len() && #[trigger] self.entries@[i].0@ == k,
            |k: Seq<char>| {
                let i = choose|i: int| 0 <= i < self.entries@.len() && #[trigger] self.entries@[i].0@ == k;
                self.entries@[i].1
            },
        )
    }
}

impl ResponseWaiters {
    /// No request id occurs twice.
    #[verifier::type_invariant]
    closed spec fn ids_distinct(self) -> bool {
        forall|i: int, j: int|
            0 <= i < self.entries@.len() && 0 <= j < self.entries@.len() && i != j
                ==> #[trigger] self.entries@[i].0@ != #[trigger] self.entries@[j].0@
    }

    proof fn lemma_view_at(&self, i: int)
        requires
            self.ids_distinct(),
            0 <= i < self.entries@.len(),
        ensures
            self@.contains_key(self.entries@[i].0@),
            self@[self.entries@[i].0@] == self.entries@[i].1,
    {
        let k = self.entries@[i].0@;
        assert(self@.dom().contains(k));
        let j = choose|j: int| 0 <= j < self.entries@.len() && #[trigger] self.entries@[j].0@ == k;
        assert(i == j);
    }

    /// No request waits.
    pub fn new() -> (w: Self)
        ensures
            w@ == Map::<Seq<char>, u64>::empty(),
    {
        let w = ResponseWaiters { entries: Vec::new() };
        assert(w@ =~= Map::<Seq<char>, u64>::empty());
        w
    }

    /// Number of waiting requests.
    pub fn len(&self) -> (n: usize)
        ensures
            n == self@.len(),
    {
        proof {
            use_type_invariant(self);
            self.lemma_len();
        }
        self.entries.len()
    }

    proof fn lemma_len(&self)
        requires
            self.ids_distinct(),
        ensures
            self@.len() == self.entries@.len(),
            self@.dom().finite(),
    {
        let keys = self.entries@.map_values(|e: (String, u64)| e.0@);
        assert(self@.dom() =~= keys.to_set()) by {
            assert forall|k: Seq<char>| self@.dom().contains(k) implies keys.to_set().contains(k) by {
                let i = choose|i: int| 0 <= i < self.entries@.len() && #[trigger] self.entries@[i].0@ == k;
                assert(keys[i] == k);
            }
            assert forall|k: Seq<char>| keys.to_set().contains(k) implies self@.dom().contains(k) by {
                let i = choose|i: int| 0 <= i < keys.len() && keys[i] == k;
                assert(self.entries@[i].0@ == k);
            }
        }
        assert(keys.no_duplicates()) by {
            assert forall|i: int, j: int| 0 <= i < keys.len() && 0 <= j < keys.len() && i != j implies keys[i] != keys[j] by {
                assert(self.entries@[i].0@ != self.entries@[j].0@);
            }
        }
        keys.unique_seq_to_set();
    }

    /// Position of `id`, if it waits.
    fn find(&self, id: &String) -> (r: Option<usize>)
        ensures
            r matches Some(i) ==> i < self.entries@.len() && self.entries@[i as int].0@ == id@,
            r is None ==> !self@.contains_key(id@),
    {
        let mut i: usize = 0;
        while i < self.entries.len()
            invariant
                i <= self.entries@.len(),
                forall|j: int| 0 <= j < i ==> self.entries@[j].0@ != id@,
            decreases self.entries@.len() - i,
        {
            if self.entries[i].0 == *id {
                return Some(i);
            }
            i = i + 1;
        }
        None
    }

    /// Removes the entry at `i` (its id is `id`).
    fn remove_at(&mut self, i: usize, Ghost(id): Ghost<Seq<char>>)
        requires
            i < old(self).entries@.len(),
            old(self).entries@[i as int].0@ == id,
        ensures
            final(self)@ == old(self)@.remove(id),
    {
        proof {
            use_type_invariant(&*self);
        }
        let ghost old_entries = self.entries@;
        let ghost old_map = self@;
        let mut entries: Vec<(String, u64)> = Vec::new();
        std::mem::swap(&mut entries, &mut self.entries);
        entries.remove(i);
        assert forall|a: int, b: int|
            0 <= a < entries@.len() && 0 <= b < entries@.len() && a != b
                implies #[trigger] entries@[a].0@ != #[trigger] entries@[b].0@ by {
            let oa = if a < i { a } else { a + 1 };
            let ob = if b < i { b } else { b + 1 };
            assert(entries@[a] == old_entries[oa]);
            assert(entries@[b] == old_entries[ob]);
        }
        self.entries = entries;
        assert forall|k: Seq<char>| #![trigger old_map.remove(id).contains_key(k)]
            self@.contains_key(k) == old_map.remove(id).contains_key(k) by {
            if self@.contains_key(k) {
                let a = choose|a: int| 0 <= a < self.entries@.len() && #[trigger] self.entries@[a].0@ == k;
                let oa = if a < i { a } else { a + 1 };
                assert(self.entries@[a] == old_entries[oa]);
                assert(old_entries[oa].0@ != old_entries[i as int].0@);
                assert(old_map.contains_key(k));
            }
            if old_map.remove(id).contains_key(k) {
                let oa = choose|oa: int| 0 <= oa < old_entries.len() && #[trigger] old_entries[oa].0@ == k;
                assert(oa != i);
                let a = if oa < i { oa } else { oa - 1 };
                assert(self.entries@[a] == old_entries[oa]);
            }
        }
        assert forall|k: Seq<char>| #[trigger] self@.contains_key(k) implies self@[k] == old_map[k] by {
            let a = choose|a: int| 0 <= a < self.entries@.len() && #[trigger] self.entries@[a].0@ == k;
            let oa = if a < i { a } else { a + 1 };
            assert(self.entries@[a] == old_entries[oa]);
            self.lemma_view_at(a);
            assert(old_entries[oa].0@ == k);
            assert(old_map.contains_key(k) && old_map[k] == old_entries[oa].1) by {
                let j = choose|j: int| 0 <= j < old_entries.len() && #[trigger] old_entries[j].0@ == k;
                if j != oa {
                    assert(old_entries[j].0@ != old_entries[oa].0@);
                }
            }
        }
        assert(self@ =~= old_map.remove(id));
    }

    /// Registers the waiter of a new request (replacing any waiter registered
    /// under the same id).
    pub fn start_waiter(&mut self, request_id: String, waiter: u64)
        ensures
            final(self)@ == old(self)@.insert(request_id@, waiter),
    {
        proof {
            use_type_invariant(&*self);
        }
        let ghost id = request_id@;
        let found = self.find(&request_id);
        if let Some(i) = found {
            self.remove_at(i, Ghost(id));
        }
        proof {
            use_type_invariant(&*self);
        }
        let ghost before = self@;
        assert(!before.contains_key(id));
        let ghost old_entries = self.entries@;
        let mut entries: Vec<(String, u64)> = Vec::new();
        std::mem::swap(&mut entries, &mut self.entries);
        entries.push((request_id, waiter));
        assert forall|a: int, b: int|
            0 <= a < entries@.len() && 0 <= b < entries@.len() && a != b
                implies #[trigger] entries@[a].0@ != #[trigger] entries@[b].0@ by {
            if a < old_entries.len() {
                assert(entries@[a] == old_entries[a]);
            }
            if b < old_entries.len() {
                assert(entries@[b] == old_entries[b]);
            }
            if a == old_entries.len() && b < old_entries.len() {
                assert(!(exists|j: int| 0 <= j < old_entries.len() && #[trigger] old_entries[j].0@ == id));
            }
            if b == old_entries.len() && a < old_entries.len() {
                assert(!(exists|j: int| 0 <= j < old_entries.len() && #[trigger] old_entries[j].0@ == id));
            }
        }
        self.entries = entries;
        let ghost n = old_entries.len() as int;
        assert forall|k: Seq<char>| #![trigger before.insert(id, waiter).contains_key(k)]
            self@.contains_key(k) == before.insert(id, waiter).contains_key(k) by {
            if self@.contains_key(k) {
                let a = choose|a: int| 0 <= a < self.entries@.len() && #[trigger] self.entries@[a].0@ == k;
                if a < n {
                    assert(self.entries@[a] == old_entries[a]);
                }
            }
            if before.insert(id, waiter).contains_key(k) {
                if k == id {
                    assert(self.entries@[n].0@ == k);
                } else {
                    let oa = choose|oa: int| 0 <= oa < n && #[trigger] old_entries[oa].0@ == k;
                    assert(self.entries@[oa] == old_entries[oa]);
                }
            }
        }
        assert forall|k: Seq<char>| #[trigger] self@.contains_key(k) implies self@[k] == before.insert(id, waiter)[k] by {
            let a = choose|a: int| 0 <= a < self.entries@.len() && #[trigger] self.entries@[a].0@ == k;
            self.lemma_view_at(a);
            if a < n {
                assert(self.entries@[a] == old_entries[a]);
                let j = choose|j: int| 0 <= j < n && #[trigger] old_entries[j].0@ == k;
                if j != a {
                    assert(old_entries[j].0@ != old_entries[a].0@) by {
                        assert(self.entries@[j] == old_entries[j]);
                    }
                }
            }
        }
        assert(self@ =~= before.insert(id, waiter));
    }

    /// A response arrived for `response_id`: the waiter it goes to, if any; that
    /// request no longer waits.
    pub fn take_waiter(&mut self, response_id: &str) -> (w: Option<u64>)
        ensures
            w == (if old(self)@.contains_key(response_id@) {
                Some(old(self)@[response_id@])
            } else {
                None
            }),
            final(self)@ == old(self)@.remove(response_id@),
    {
        proof {
            use_type_invariant(&*self);
        }
        let id = crate::text::owned(response_id);
        let found = self.find(&id);
        match found {
            Some(i) => {
                let w = self.entries[i].1;
                proof {
                    self.lemma_view_at(i as int);
                }
                self.remove_at(i, Ghost(id@));
                Some(w)
            },
            None => {
                assert(self@.remove(response_id@) =~= self@);
                None
            },
        }
    }

    /// The request `request_id` timed out: it no longer waits.
    pub fn timeout_reached(&mut self, request_id: &str)
        ensures
            final(self)@ == old(self)@.remove(request_id@),
    {
        let _ = self.take_waiter(request_id);
    }
}

/// A started waiter for a response: the request it belongs to, the node that
/// should answer, its timeout, and whether the response is still to be handed on.
pub struct ResponseWaiter {
    request_id: String,
    node_name: String,
    timeout: i32,
    pending: bool,
}

/// The abstract state of a waiter.
pub struct ResponseWaiterView {
    pub request_id: Seq<char>,
    pub node_name: Seq<char>,
    pub timeout: i32,
    pub pending: bool,
}

impl View for ResponseWaiter {
    type V = ResponseWaiterView;

    closed spec fn view(&self) -> ResponseWaiterView {
        ResponseWaiterView {
            request_id: self.request_id@,
            node_name: self.node_name@,
            timeout: self.timeout,
            pending: self.pending,
        }
    }
}

impl ResponseWaiter {
    /// A waiter for `request_id`, expecting the answer of `node_name`.
    pub fn new(timeout: i32, request_id: String, node_name: String) -> (w: Self)
        ensures
            w@ == (ResponseWaiterView {
                request_id: request_id@,
                node_name: node_name@,
                timeout,
                pending: true,
            }),
    {
        ResponseWaiter { request_id, node_name, timeout, pending: true }
    }

    /// The response is still to be handed on.
    pub fn is_pending(&self) -> (b: bool)
        ensures
            b == self@.pending,
    {
        self.pending
    }

    /// The request the waiter belongs to.
    pub fn request_id(&self) -> (r: &str)
        ensures
            r@ == self@.request_id,
    {
        self.request_id.as_str()
    }

    /// The timeout, in milliseconds.
    pub fn timeout(&self) -> (t: i32)
        ensures
            t == self@.timeout,
    {
        self.timeout
    }

    /// The response from `sender` is handed on (it is handed on even from another
    /// node); the result says whether `sender` is the expected node.
    pub fn send_response(&mut self, sender: &str) -> (expected: bool)
        requires
            old(self)@.pending,
        ensures
            expected == (old(self)@.node_name == sender@),
            final(self)@ == (ResponseWaiterView { pending: false, ..old(self)@ }),
    {
        self.pending = false;
        let s = crate::text::owned(sender);
        self.node_name == s
    }
}

// ---------------------------------------------------------------------------
// Laws
// ---------------------------------------------------------------------------

/// A response for a started request goes to its waiter, once: afterwards the
/// request no longer waits, and the other requests are untouched.
pub proof fn law_response_reaches_waiter(w: Map<Seq<char>, u64>, id: Seq<char>, waiter: u64, other: Seq<char>)
    ensures
        w.insert(id, waiter).contains_key(id),
        w.insert(id, waiter)[id] == waiter,
        !w.insert(id, waiter).remove(id).contains_key(id),
        other != id ==> w.insert(id, waiter).remove(id).contains_key(other) == w.contains_key(other),
        other != id && w.contains_key(other) ==> w.insert(id, waiter).remove(id)[other] == w[other],
{
}

/// A request that timed out gets no response any more.
pub proof fn law_timeout_forgets(w: Map<Seq<char>, u64>, id: Seq<char>)
    ensures
        !w.remove(id).contains_key(id),
{
}

} // verus!
