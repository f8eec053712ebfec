//! The wire envelope and the rule that ties a reply to its request.

use crate::error::NodeError;
use vstd::prelude::*;

verus! {

/// One directed message between two nodes.
#[derive(Debug, Clone)]
pub struct Message<Payload> {
    pub src: String,
    pub dst: String,
    pub body: Body<Payload>,
}

/// The part of a message that its sender fills in.
#[derive(Debug, Clone)]
pub struct Body<Payload> {
    /// Set by the sender on every message it originates.
    pub id: Option<usize>,
    /// Set on a reply: the `id` of the message being answered.
    pub in_reply_to: Option<usize>,
    pub payload: Payload,
}

/// The configuration that a node is given once, before anything else.
#[derive(Debug, Clone)]
pub struct Init {
    pub node_id: String,
    pub node_ids: Vec<String>,
}

/// The two payloads of the configuration handshake.
#[derive(Debug, Clone)]
pub enum InitPayload {
    Init(Init),
    InitOk,
}

/// What a node is asked to react to.
#[derive(Debug, Clone)]
pub enum Event<Payload, Injected> {
    /// A message arrived from the network.
    Message(Message<Payload>),
    /// The node's own runtime raised an event, such as a timer tick.
    Inject(Injected),
    /// The input has ended.
    EOF,
}

/// A message as contracts see it: names are character sequences and the
/// payload is taken by its view.
pub struct Envelope<P> {
    pub src: Seq<char>,
    pub dst: Seq<char>,
    pub id: Option<usize>,
    pub in_reply_to: Option<usize>,
    pub payload: P,
}

/// An event as contracts see it.
pub enum Incoming<P, I> {
    Message(Envelope<P>),
    Inject(I),
    EOF,
}

/// A node's configuration as contracts see it.
pub struct InitView {
    pub node_id: Seq<char>,
    pub node_ids: Seq<Seq<char>>,
}

/// A handshake payload as contracts see it.
pub enum InitPayloadView {
    Init(InitView),
    InitOk,
}

/// The character sequences of a list of names, in order.
pub open spec fn names(list: Seq<String>) -> Seq<Seq<char>> {
    Seq::new(list.len(), |i: int| list[i]@)
}

/// The envelopes of a list of messages, in order.
pub open spec fn envelopes<P: View>(list: Seq<Message<P>>) -> Seq<Envelope<P::V>> {
    Seq::new(list.len(), |i: int| list[i]@)
}

impl<P: View> View for Message<P> {
    type V = Envelope<P::V>;

    open spec fn view(&self) -> Envelope<P::V> {
        Envelope {
            src: self.src@,
            dst: self.dst@,
            id: self.body.id,
            in_reply_to: self.body.in_reply_to,
            payload: self.body.payload@,
        }
    }
}

impl<P: View, I> View for Event<P, I> {
    type V = Incoming<P::V, I>;

    open spec fn view(&self) -> Incoming<P::V, I> {
        match *self {
            Event::Message(message) => Incoming::Message(message@),
            Event::Inject(injected) => Incoming::Inject(injected),
            Event::EOF => Incoming::EOF,
        }
    }
}

impl View for Init {
    type V = InitView;

    open spec fn view(&self) -> InitView {
        InitView { node_id: self.node_id@, node_ids: names(self.node_ids@) }
    }
}

impl View for InitPayload {
    type V = InitPayloadView;

    open spec fn view(&self) -> InitPayloadView {
        match *self {
            InitPayload::Init(init) => InitPayloadView::Init(init@),
            InitPayload::InitOk => InitPayloadView::InitOk,
        }
    }
}

/// The result of a step with each message taken by its view.
pub open spec fn viewed<P: View>(res: Result<Seq<Message<P>>, NodeError>) -> Result<
    Seq<Envelope<P::V>>,
    NodeError,
> {
    match res {
        Ok(sent) => Ok(envelopes(sent)),
        Err(e) => Err(e),
    }
}

/// The first `i + 1` items of a list hold what the first `i` hold, and the
/// item at `i`.
pub proof fn lemma_one_more_taken<A>(list: Seq<A>, i: int)
    requires
        0 <= i < list.len(),
    ensures
        list.take(i + 1) == list.take(i).push(list[i]),
        list.take(i + 1).contains(list[i]),
        forall|item: A|
            #![trigger list.take(i + 1).contains(item)]
            #![trigger list.take(i).contains(item)]
            list.take(i + 1).contains(item) <==> list.take(i).contains(item) || item == list[i],
{
    let taken = list.take(i);
    let next = list.take(i + 1);
    assert(next =~= taken.push(list[i]));
    assert(next[i] == list[i]);
    assert forall|item: A| next.contains(item) <==> taken.contains(item) || item == list[i] by {
        if taken.contains(item) {
            let j = choose|j: int| 0 <= j < taken.len() && taken[j] == item;
            assert(next[j] == item);
        }
        if item == list[i] {
            assert(next[i] == item);
        }
    }
}

/// Whether `reply` answers `request`: it travels the other way and names the
/// request's id.
pub open spec fn answers<P, Q>(reply: Envelope<P>, request: Envelope<Q>) -> bool {
    &&& reply.src == request.dst
    &&& reply.dst == request.src
    &&& reply.in_reply_to == request.id
}

impl<Payload> Message<Payload> {
    /// Turns a received message into the reply to it: source and destination
    /// change places, `in_reply_to` takes the received `id`, and the payload
    /// stays for the caller to replace. With a counter the reply is stamped
    /// with the counter's value and the counter moves on by one; without one
    /// the reply carries no `id`.
    pub fn into_reply(self, id: Option<&mut usize>) -> (reply: Self)
        requires
            id matches Some(counter) ==> *counter < usize::MAX,
        ensures
            reply.src == self.dst,
            reply.dst == self.src,
            reply.body.in_reply_to == self.body.id,
            reply.body.payload == self.body.payload,
            match id {
                Some(counter) => reply.body.id == Some(*counter) && *final(counter) == *counter + 1,
                None => reply.body.id is None,
            },
    {
        let stamped = match id {
            Some(counter) => {
                let current: usize = *counter;
                *counter = current + 1;
                Some(current)
            },
            None => None,
        };
        Message {
            src: self.dst,
            dst: self.src,
            body: Body { id: stamped, in_reply_to: self.body.id, payload: self.body.payload },
        }
    }
}

} // verus!
