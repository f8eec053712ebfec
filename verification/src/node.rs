//! The contract between a node and the runtime that drives it, and the
//! lifecycle that takes a node through its configuration handshake.

use crate::error::NodeError;
use crate::message::{
    answers, Body, Envelope, Event, Init, InitPayload, InitPayloadView, Message,
};
use vstd::prelude::*;

verus! {

/// Whether every message of `sent` that names a request names `input`: it
/// carries `in_reply_to` only if `input` is a message, and then it answers
/// that message.
pub open spec fn correlated<P, I>(input: Event<P, I>, sent: Seq<Message<P>>) -> bool {
    forall|i: int|
        0 <= i < sent.len() && (#[trigger] sent[i]).body.in_reply_to is Some ==> match input {
            Event::Message(request) => {
                &&& sent[i].src@ == request.dst@
                &&& sent[i].dst@ == request.src@
                &&& sent[i].body.in_reply_to == request.body.id
            },
            _ => false,
        }
}

/// A single-threaded state machine that is built from a configuration and
/// then reacts to one event at a time. It performs no input or output: what
/// it wants sent, it returns.
pub trait Node<S, Payload, Injected>: Sized {
    /// The node's invariant.
    spec fn wf(&self) -> bool;

    /// The events that the node can take in its present state. An event that
    /// it cannot take must not be handed to `step`.
    spec fn accepts(&self, input: &Event<Payload, Injected>) -> bool;

    /// How the result of `from_init` relates to its arguments.
    spec fn initialized(state: &S, init: &Init, res: &Result<Self, NodeError>) -> bool;

    /// How the node after a `step`, and what the step returned, relate to the
    /// node before it and to the event.
    spec fn stepped(
        pre: &Self,
        input: &Event<Payload, Injected>,
        post: &Self,
        res: Result<Seq<Message<Payload>>, NodeError>,
    ) -> bool;

    /// Builds the node from the state it is started with and the
    /// configuration it was sent.
    fn from_init(state: S, init: Init) -> (res: Result<Self, NodeError>)
        ensures
            Self::initialized(&state, &init, &res),
            res matches Ok(node) ==> node.wf(),
    ;

    /// Tells whether `step` can be called with `input`.
    fn ready(&self, input: &Event<Payload, Injected>) -> (yes: bool)
        requires
            self.wf(),
        ensures
            yes == self.accepts(input),
    ;

    /// Reacts to one event and returns the messages to send, in order. An
    /// error is fatal to the node.
    fn step(&mut self, input: Event<Payload, Injected>) -> (res: Result<
        Vec<Message<Payload>>,
        NodeError,
    >)
        requires
            old(self).wf(),
            old(self).accepts(&input),
        ensures
            final(self).wf(),
            Self::stepped(old(self), &input, final(self), sequence_of(res)),
            res matches Ok(sent) ==> correlated(input, sent@),
    ;
}

/// The result of a step with the list of messages taken as a sequence.
pub open spec fn sequence_of<P>(res: Result<Vec<Message<P>>, NodeError>) -> Result<
    Seq<Message<P>>,
    NodeError,
> {
    match res {
        Ok(sent) => Ok(sent@),
        Err(e) => Err(e),
    }
}

/// Where a node process is in its life: waiting for its configuration, or
/// configured and running.
pub enum Lifecycle<S, N> {
    Uninitialized(S),
    Ready(N),
}

/// What the runtime hands to a lifecycle: what came in, or what became of
/// its last attempt to send.
pub enum Inbound<Payload, Injected> {
    /// A message of the configuration handshake arrived.
    Handshake(Message<InitPayload>),
    /// An event for the node occurred.
    App(Event<Payload, Injected>),
    /// A record arrived that could not be decoded into a message.
    Malformed,
    /// What the process had to send could not be written.
    WriteFailed,
}

/// What one input made of the process: what it has to send, and whether it
/// goes on.
pub struct Outbox<Payload> {
    /// The handshake's acknowledgment, if the input was the configuration. It
    /// is sent first.
    pub ack: Option<Message<InitPayload>>,
    /// The node's own messages, in the order in which they are sent.
    pub messages: Vec<Message<Payload>>,
    /// Whether the input was the end of the input: the process then sends
    /// what is here and stops.
    pub last: bool,
}

/// The acknowledgment of a configuration message: an `init_ok` that answers
/// it and carries the first message id of the process, 0.
pub open spec fn acknowledgment(request: Envelope<InitPayloadView>) -> Envelope<InitPayloadView> {
    Envelope {
        src: request.dst,
        dst: request.src,
        id: Some(0usize),
        in_reply_to: request.id,
        payload: InitPayloadView::InitOk,
    }
}

/// The acknowledgment answers the configuration message, and carries an id
/// that no node uses again: nodes count from 1.
pub proof fn lemma_acknowledgment_answers_the_configuration(request: Envelope<InitPayloadView>)
    ensures
        answers(acknowledgment(request), request),
        acknowledgment(request).id == Some(0usize),
        acknowledgment(request).payload is InitOk,
{
}

impl<S, N> Lifecycle<S, N> {
    /// Whether `deliver` can be called with `input`: a running node must be
    /// valid and able to take the event.
    pub open spec fn admits<P, I>(&self, input: &Inbound<P, I>) -> bool where N: Node<S, P, I> {
        match (*self, *input) {
            (Lifecycle::Ready(node), Inbound::App(event)) => node.wf() && node.accepts(&event),
            _ => true,
        }
    }

    /// Tells whether `deliver` can be called with `input`.
    pub fn can_take<P, I>(&self, input: &Inbound<P, I>) -> (yes: bool) where N: Node<S, P, I>
        requires
            self matches Lifecycle::Ready(node) ==> node.wf(),
        ensures
            yes == self.admits(input),
    {
        match self {
            Lifecycle::Ready(node) => match input {
                Inbound::App(event) => node.ready(event),
                _ => true,
            },
            Lifecycle::Uninitialized(_) => true,
        }
    }

    /// Takes one input through the lifecycle.
    ///
    /// Before the handshake only a configuration message is in order: it
    /// builds the node and is acknowledged. After it only events for the node
    /// are in order: each goes to the node's `step`, and the end of the input
    /// is the last of them. Anything else that was decoded breaks the
    /// protocol. A record that could not be decoded and a failed write end
    /// the process whenever they occur.
    pub fn deliver<P, I>(self, input: Inbound<P, I>) -> (res: Result<
        (Lifecycle<S, N>, Outbox<P>),
        NodeError,
    >) where N: Node<S, P, I>
        requires
            self.admits(&input),
        ensures
            match (self, input) {
                (_, Inbound::Malformed) => res matches Err(NodeError::MalformedEnvelope),
                (_, Inbound::WriteFailed) => res matches Err(NodeError::TransportWriteFailure),
                (Lifecycle::Uninitialized(state), Inbound::Handshake(first)) => match first.body.payload {
                    InitPayload::Init(init) => match res {
                        Ok((next, sent)) => {
                            &&& next matches Lifecycle::Ready(node) && node.wf() && N::initialized(
                                &state,
                                &init,
                                &Ok(node),
                            )
                            &&& sent.ack matches Some(ack) && ack@ == acknowledgment(first@)
                            &&& sent.messages@.len() == 0
                            &&& !sent.last
                        },
                        Err(e) => N::initialized(&state, &init, &Err(e)),
                    },
                    InitPayload::InitOk => res matches Err(NodeError::ProtocolViolation),
                },
                (Lifecycle::Uninitialized(_), Inbound::App(_)) => res matches Err(
                    NodeError::ProtocolViolation,
                ),
                (Lifecycle::Ready(_), Inbound::Handshake(_)) => res matches Err(
                    NodeError::ProtocolViolation,
                ),
                (Lifecycle::Ready(node), Inbound::App(event)) => match res {
                    Ok((next, sent)) => {
                        &&& next matches Lifecycle::Ready(after) && after.wf() && N::stepped(
                            &node,
                            &event,
                            &after,
                            Ok(sent.messages@),
                        )
                        &&& sent.ack is None
                        &&& sent.last == (event is EOF)
                        &&& correlated(event, sent.messages@)
                    },
                    Err(e) => exists|after: N| N::stepped(&node, &event, &after, Err(e)),
                },
            },
    {
        match self {
            Lifecycle::Uninitialized(state) => match input {
                Inbound::Malformed => Err(NodeError::MalformedEnvelope),
                Inbound::WriteFailed => Err(NodeError::TransportWriteFailure),
                Inbound::Handshake(first) => {
                    let Message { src, dst, body } = first;
                    match body.payload {
                        InitPayload::Init(init) => {
                            let node = N::from_init(state, init)?;
                            let ack = Message {
                                src: dst,
                                dst: src,
                                body: Body {
                                    id: Some(0),
                                    in_reply_to: body.id,
                                    payload: InitPayload::InitOk,
                                },
                            };
                            Ok(
                                (
                                    Lifecycle::Ready(node),
                                    Outbox { ack: Some(ack), messages: Vec::new(), last: false },
                                ),
                            )
                        },
                        InitPayload::InitOk => Err(NodeError::ProtocolViolation),
                    }
                },
                Inbound::App(_) => Err(NodeError::ProtocolViolation),
            },
            Lifecycle::Ready(node) => match input {
                Inbound::Malformed => Err(NodeError::MalformedEnvelope),
                Inbound::WriteFailed => Err(NodeError::TransportWriteFailure),
                Inbound::Handshake(_) => Err(NodeError::ProtocolViolation),
                Inbound::App(event) => {
                    let last = match event {
                        Event::EOF => true,
                        _ => false,
                    };
                    let mut node = node;
                    let messages = node.step(event)?;
                    Ok((Lifecycle::Ready(node), Outbox { ack: None, messages, last }))
                },
            },
        }
    }
}

/// Starts a node process: takes the first input through the handshake.
///
/// The first input must be the configuration message. The node is built from
/// `state` and the configuration, and the acknowledgment is returned for the
/// caller to send before it reads on. Any other first input ends the process:
/// one that was decoded breaks the protocol.
pub fn start_app<S, N, P, I>(state: S, first: Inbound<P, I>) -> (res: Result<
    (Lifecycle<S, N>, Outbox<P>),
    NodeError,
>) where N: Node<S, P, I>
    ensures
        match first {
            Inbound::Handshake(message) => match message.body.payload {
                InitPayload::Init(init) => match res {
                    Ok((next, sent)) => {
                        &&& next matches Lifecycle::Ready(node) && node.wf() && N::initialized(
                            &state,
                            &init,
                            &Ok(node),
                        )
                        &&& sent.ack matches Some(ack) && ack@ == acknowledgment(message@)
                        &&& sent.messages@.len() == 0
                        &&& !sent.last
                    },
                    Err(e) => N::initialized(&state, &init, &Err(e)),
                },
                InitPayload::InitOk => res matches Err(NodeError::ProtocolViolation),
            },
            Inbound::App(_) => res matches Err(NodeError::ProtocolViolation),
            Inbound::Malformed => res matches Err(NodeError::MalformedEnvelope),
            Inbound::WriteFailed => res matches Err(NodeError::TransportWriteFailure),
        },
{
    let lifecycle: Lifecycle<S, N> = Lifecycle::Uninitialized(state);
    lifecycle.deliver(first)
}

} // verus!
