//! The connection's decisions: the handshake, the life cycle, and routing of
//! incoming messages to the requests that await them.
//!
//! The transport, the tasks and the channels live outside; they hand each
//! event to these functions and carry out the action they return.
use vstd::prelude::*;
use std::collections::HashMap;
use crate::buffers::{bytes_as_slice, bytes_from_vec, bytes_view, fields_view};
use crate::codec::{be_bytes, DecodedMessage};
use crate::de::bytes_eq;
use crate::messages::TWSIncommingMessageImpl;
use crate::requests::push_slice;

verus! {

broadcast use vstd::std_specs::hash::group_hash_axioms;

/// The magic that opens the handshake: `API` and a NUL byte.
pub open spec fn handshake_magic() -> Seq<u8> {
    seq![65u8, 80u8, 73u8, 0u8]
}

/// The supported protocol versions, as sent in the handshake: `v151..151`.
pub open spec fn client_version() -> Seq<u8> {
    seq![118u8, 49u8, 53u8, 49u8, 46u8, 46u8, 49u8, 53u8, 49u8]
}

/// The tag of the server's handshake acknowledgment: `151`.
pub open spec fn ack_tag() -> Seq<u8> {
    seq![49u8, 53u8, 49u8]
}

/// The bytes that open a connection: the magic, the version text's length
/// as four big-endian bytes, and the version text.
pub open spec fn handshake_preamble_spec() -> Seq<u8> {
    handshake_magic() + be_bytes(client_version().len() as u32) + client_version()
}

/// The activation message sent once the server acknowledged: tag `71`,
/// version `2`, client id `0`, and two reserved empty fields.
pub open spec fn start_api_fields() -> Seq<Seq<u8>> {
    seq![seq![55u8, 49u8], seq![50u8], seq![48u8], Seq::empty(), Seq::empty()]
}

/// The bytes that open a connection.
pub fn handshake_preamble() -> (r: Vec<u8>)
    ensures
        r@ == handshake_preamble_spec(),
{
    let mut version: Vec<u8> = Vec::new();
    version.push(118u8);
    version.push(49u8);
    version.push(53u8);
    version.push(49u8);
    version.push(46u8);
    version.push(46u8);
    version.push(49u8);
    version.push(53u8);
    version.push(49u8);
    let mut r: Vec<u8> = Vec::new();
    r.push(65u8);
    r.push(80u8);
    r.push(73u8);
    r.push(0u8);
    let n = version.len() as u32;
    r.push((n >> 24u32) as u8);
    r.push((n >> 16u32) as u8);
    r.push((n >> 8u32) as u8);
    r.push(n as u8);
    push_slice(&mut r, version.as_slice());
    proof {
        assert(version@ =~= client_version());
        assert(r@ =~= handshake_preamble_spec());
    }
    r
}

fn small_field(a: &[u8]) -> (r: bytes::Bytes)
    ensures
        bytes_view(r) == a@,
{
    let mut v: Vec<u8> = Vec::new();
    push_slice(&mut v, a);
    proof {
        assert(v@ =~= a@);
    }
    bytes_from_vec(v)
}

/// The activation message.
pub fn start_api_message() -> (r: DecodedMessage)
    ensures
        fields_view(r@) == start_api_fields(),
{
    let mut tag: Vec<u8> = Vec::new();
    tag.push(55u8);
    tag.push(49u8);
    let mut version: Vec<u8> = Vec::new();
    version.push(50u8);
    let mut client: Vec<u8> = Vec::new();
    client.push(48u8);
    proof {
        assert(tag@ =~= seq![55u8, 49u8]);
        assert(version@ =~= seq![50u8]);
        assert(client@ =~= seq![48u8]);
    }
    let mut r: Vec<bytes::Bytes> = Vec::new();
    r.push(bytes_from_vec(tag));
    r.push(bytes_from_vec(version));
    r.push(bytes_from_vec(client));
    let e1 = bytes_from_vec(Vec::new());
    let e2 = bytes_from_vec(Vec::new());
    proof {
        assert(bytes_view(e1) =~= Seq::<u8>::empty());
        assert(bytes_view(e2) =~= Seq::<u8>::empty());
    }
    r.push(e1);
    r.push(e2);
    proof {
        assert(fields_view(r@) =~= start_api_fields());
    }
    r
}

/// Whether a frame is the server's handshake acknowledgment: its first field is the tag.
pub open spec fn is_ack(fields: Seq<Seq<u8>>) -> bool {
    fields.len() > 0 && fields[0] == ack_tag()
}

/// Whether a frame is the server's handshake acknowledgment.
pub fn is_handshake_ack(fields: &DecodedMessage) -> (r: bool)
    ensures
        r == is_ack(fields_view(fields@)),
{
    if fields.len() == 0 {
        return false;
    }
    let mut ack: Vec<u8> = Vec::new();
    ack.push(49u8);
    ack.push(53u8);
    ack.push(49u8);
    proof {
        assert(ack@ =~= ack_tag());
    }
    bytes_eq(bytes_as_slice(&fields[0]), ack.as_slice())
}

/// Where the connection stands.
#[derive(Debug, Clone, Copy, PartialEq, Eq)]
pub enum ConnState {
    /// The transport is being opened.
    Connecting,
    /// The preamble is out; the acknowledgment has not arrived.
    Handshaking,
    /// Requests may be issued and responses are dispatched.
    Ready,
    /// The transport failed or ended; nothing more happens.
    Closed,
}

/// What the outside world reports.
#[derive(Debug, Clone, Copy, PartialEq, Eq)]
pub enum ConnEvent {
    /// The transport is open.
    Connected,
    /// A frame arrived; `ack` tells whether it is the handshake acknowledgment.
    Frame { ack: bool },
    /// A frame could not be decoded.
    DecodeFailed,
    /// Reading or writing the transport failed.
    TransportFailed,
    /// The peer closed the stream.
    StreamEnded,
}

/// What to do next.
#[derive(Debug, Clone, Copy, PartialEq, Eq)]
pub enum ConnAction {
    /// Write the handshake preamble.
    SendPreamble,
    /// Write the activation message.
    SendStart,
    /// Read the next frame.
    ReadNext,
    /// Decode the frame and route it.
    Dispatch,
    /// Log the undecodable frame and read the next one.
    SkipFrame,
    /// Abort: the handshake failed.
    FailHandshake,
    /// Stop: the connection is over.
    Stop,
}

/// The connection's transition for one event.
pub open spec fn conn_step(s: ConnState, e: ConnEvent) -> (ConnState, ConnAction) {
    match s {
        ConnState::Connecting => match e {
            ConnEvent::Connected => (ConnState::Handshaking, ConnAction::SendPreamble),
            _ => (ConnState::Closed, ConnAction::FailHandshake),
        },
        ConnState::Handshaking => match e {
            ConnEvent::Frame { ack } => if ack {
                (ConnState::Ready, ConnAction::SendStart)
            } else {
                (ConnState::Handshaking, ConnAction::ReadNext)
            },
            ConnEvent::Connected => (ConnState::Handshaking, ConnAction::ReadNext),
            _ => (ConnState::Closed, ConnAction::FailHandshake),
        },
        ConnState::Ready => match e {
            ConnEvent::Frame { .. } => (ConnState::Ready, ConnAction::Dispatch),
            ConnEvent::DecodeFailed => (ConnState::Ready, ConnAction::SkipFrame),
            ConnEvent::Connected => (ConnState::Ready, ConnAction::ReadNext),
            _ => (ConnState::Closed, ConnAction::Stop),
        },
        ConnState::Closed => (ConnState::Closed, ConnAction::Stop),
    }
}

/// Decides the connection's next state and action for one event: the
/// handshake waits for the acknowledgment, and any failure during it is
/// fatal; once ready, undecodable frames are skipped and only a transport
/// failure or the end of the stream closes the connection.
pub fn step(s: ConnState, e: ConnEvent) -> (r: (ConnState, ConnAction))
    ensures
        r == conn_step(s, e),
{
    match s {
        ConnState::Connecting => match e {
            ConnEvent::Connected => (ConnState::Handshaking, ConnAction::SendPreamble),
            _ => (ConnState::Closed, ConnAction::FailHandshake),
        },
        ConnState::Handshaking => match e {
            ConnEvent::Frame { ack } => if ack {
                (ConnState::Ready, ConnAction::SendStart)
            } else {
                (ConnState::Handshaking, ConnAction::ReadNext)
            },
            ConnEvent::Connected => (ConnState::Handshaking, ConnAction::ReadNext),
            _ => (ConnState::Closed, ConnAction::FailHandshake),
        },
        ConnState::Ready => match e {
            ConnEvent::Frame { .. } => (ConnState::Ready, ConnAction::Dispatch),
            ConnEvent::DecodeFailed => (ConnState::Ready, ConnAction::SkipFrame),
            ConnEvent::Connected => (ConnState::Ready, ConnAction::ReadNext),
            _ => (ConnState::Closed, ConnAction::Stop),
        },
        ConnState::Closed => (ConnState::Closed, ConnAction::Stop),
    }
}

/// Failures are isolated: a ready connection closes only when the transport
/// fails or the stream ends, never because a frame could not be decoded;
/// during the handshake every failure is fatal.
pub proof fn lemma_failure_isolation(e: ConnEvent)
    ensures
        (conn_step(ConnState::Ready, e).0 == ConnState::Closed) == (e is TransportFailed
            || e is StreamEnded),
        conn_step(ConnState::Ready, ConnEvent::DecodeFailed) == (
            ConnState::Ready,
            ConnAction::SkipFrame,
        ),
        (e is DecodeFailed || e is TransportFailed || e is StreamEnded) ==> conn_step(
            ConnState::Handshaking,
            e,
        ) == (ConnState::Closed, ConnAction::FailHandshake),
{
}

/// Where an incoming message goes.
#[derive(Debug)]
pub enum Dispatch<T> {
    /// To this request's channel.
    Deliver(T),
    /// It names a request that nobody awaits: log and drop.
    NoHandler(i32),
    /// It names no request: log and drop.
    NoId,
}

/// The request a message is delivered to under the routes `table`, if any.
pub open spec fn routed<S>(table: Map<i32, S>, m: TWSIncommingMessageImpl) -> Option<i32> {
    match m.req_id_spec() {
        Some(id) => if table.contains_key(id) {
            Some(id)
        } else {
            None
        },
        None => None,
    }
}

/// The messages delivered to request `id`, in arrival order, when `msgs`
/// arrive one after another under the routes `table`.
pub open spec fn delivered<S>(table: Map<i32, S>, msgs: Seq<TWSIncommingMessageImpl>, id: i32) -> Seq<
    TWSIncommingMessageImpl,
>
    decreases msgs.len(),
{
    if msgs.len() == 0 {
        Seq::empty()
    } else {
        let prev = delivered(table, msgs.drop_last(), id);
        if routed(table, msgs.last()) == Some(id) {
            prev.push(msgs.last())
        } else {
            prev
        }
    }
}

/// Routing keeps requests apart: a request that is awaited receives exactly
/// the arriving messages that carry its identifier, in the order they arrived.
pub proof fn lemma_routing_separates<S>(table: Map<i32, S>, msgs: Seq<TWSIncommingMessageImpl>, id: i32)
    requires
        table.contains_key(id),
    ensures
        delivered(table, msgs, id) == msgs.filter(
            |m: TWSIncommingMessageImpl| m.req_id_spec() == Some(id),
        ),
    decreases msgs.len(),
{
    reveal(Seq::filter);
    if msgs.len() > 0 {
        lemma_routing_separates(table, msgs.drop_last(), id);
    }
}

/// The routing table: which request identifiers are awaited, and by whom.
#[derive(Debug)]
pub struct Router<S> {
    next_id: i32,
    routes: HashMap<i32, S>,
}

impl<S> Router<S> {
    /// The identifier the next request receives.
    pub closed spec fn next(&self) -> int {
        self.next_id as int
    }

    /// The awaited requests and their channels.
    pub closed spec fn table(&self) -> Map<i32, S> {
        self.routes@
    }

    /// Every awaited identifier was handed out before.
    pub closed spec fn wf(&self) -> bool {
        &&& 0 <= self.next_id
        &&& forall|id: i32| #[trigger] self.routes@.contains_key(id) ==> 0 <= id < self.next_id
    }

    /// An empty table; identifiers start at 0.
    pub fn new() -> (r: Router<S>)
        ensures
            r.wf(),
            r.next() == 0,
            r.table() == Map::<i32, S>::empty(),
    {
        Router { next_id: 0, routes: HashMap::new() }
    }

    /// Hands out the next identifier and routes it to `sink`. Identifiers
    /// are never reused: once they are exhausted, `None` is returned and
    /// nothing changes.
    pub fn register(&mut self, sink: S) -> (r: Option<i32>)
        requires
            old(self).wf(),
        ensures
            final(self).wf(),
            old(self).next() < i32::MAX ==> {
                &&& r == Some(old(self).next() as i32)
                &&& final(self).next() == old(self).next() + 1
                &&& final(self).table() == old(self).table().insert(old(self).next() as i32, sink)
            },
            old(self).next() == i32::MAX ==> r is None && final(self).next() == old(self).next()
                && final(self).table() == old(self).table(),
            !old(self).table().contains_key(old(self).next() as i32),
    {
        let id = self.next_id;
        if id == i32::MAX {
            return None;
        }
        self.routes.insert(id, sink);
        self.next_id = id + 1;
        Some(id)
    }

    /// Stops routing `id`; returns its channel, if it was awaited.
    pub fn unregister(&mut self, id: i32) -> (r: Option<S>)
        requires
            old(self).wf(),
        ensures
            final(self).wf(),
            final(self).next() == old(self).next(),
            final(self).table() == old(self).table().remove(id),
            match r {
                Some(s) => old(self).table().contains_key(id) && s == old(self).table()[id],
                None => !old(self).table().contains_key(id),
            },
    {
        self.routes.remove(&id)
    }

    /// Whether `id` is awaited.
    pub fn is_routed(&self, id: i32) -> (r: bool)
        ensures
            r == self.table().contains_key(id),
    {
        self.routes.contains_key(&id)
    }

    /// Where an incoming message goes: to the channel of the request it
    /// names, if that request is awaited.
    pub fn dispatch(&self, msg: &TWSIncommingMessageImpl) -> (r: Dispatch<&S>)
        ensures
            match msg.req_id_spec() {
                None => r is NoId,
                Some(id) => if self.table().contains_key(id) {
                    r is Deliver && *r->Deliver_0 == self.table()[id] && routed(self.table(), *msg)
                        == Some(id)
                } else {
                    r == Dispatch::<&S>::NoHandler(id) && routed(self.table(), *msg) is None
                },
            },
    {
        match msg.get_req_id() {
            None => Dispatch::NoId,
            Some(id) => match self.routes.get(&id) {
                Some(s) => Dispatch::Deliver(s),
                None => Dispatch::NoHandler(id),
            },
        }
    }
}

} // verus!
