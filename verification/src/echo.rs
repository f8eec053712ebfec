//! The echo node: it answers every `echo` with an `echo_ok` that carries the
//! same text.

use crate::error::NodeError;
use crate::message::{answers, envelopes, Envelope, Event, Init, Message};
use crate::json::{field, keys, lookup, put, reads, Json};
use crate::node::Node;
use crate::wire::{lemma_payload_members_decide, tag, tag_of, Wire};
use vstd::prelude::*;
use vstd::string::StringExecFns;

verus! {

/// What an echo node receives and sends.
#[derive(Debug, Clone)]
pub enum Payload {
    Echo { echo: String },
    EchoOk { echo: String },
}

/// An echo payload as contracts see it.
pub enum PayloadView {
    Echo { echo: Seq<char> },
    EchoOk { echo: Seq<char> },
}

impl View for Payload {
    type V = PayloadView;

    open spec fn view(&self) -> PayloadView {
        match *self {
            Payload::Echo { echo } => PayloadView::Echo { echo: echo@ },
            Payload::EchoOk { echo } => PayloadView::EchoOk { echo: echo@ },
        }
    }
}

impl Wire for Payload {
    /// `echo` and `echo_ok` both carry their text under `echo`.
    open spec fn payload_of(body: Seq<(String, Json)>) -> Option<PayloadView> {
        match (tag_of(body), field(body, "echo"@)) {
            (Some(tag), Some(Json::Text(echo))) => if tag == "echo"@ {
                Some(PayloadView::Echo { echo: echo@ })
            } else if tag == "echo_ok"@ {
                Some(PayloadView::EchoOk { echo: echo@ })
            } else {
                None
            },
            _ => None,
        }
    }

    open spec fn keys_of(payload: PayloadView) -> Seq<Seq<char>> {
        seq!["type"@, "echo"@]
    }

    fn decode_payload(body: &Vec<(String, Json)>) -> (found: Option<Self>) {
        let kind = match tag(body) {
            Some(kind) => kind,
            None => {
                return None;
            },
        };
        let echo = match lookup(body, "echo") {
            Some(Json::Text(echo)) => echo,
            _ => {
                return None;
            },
        };
        if reads(kind, "echo") {
            Some(Payload::Echo { echo: echo.clone() })
        } else if reads(kind, "echo_ok") {
            Some(Payload::EchoOk { echo: echo.clone() })
        } else {
            None
        }
    }

    fn encode_payload(&self) -> (members: Vec<(String, Json)>) {
        proof {
            reveal_strlit("type");
            reveal_strlit("echo");
            reveal_strlit("echo_ok");
            reveal_strlit("msg_id");
            reveal_strlit("in_reply_to");
            assert("type"@[0] == 't' && "echo"@[0] == 'e');
            assert("echo"@.len() == 4 && "echo_ok"@.len() == 7);
            assert("msg_id"@.len() == 6 && "in_reply_to"@.len() == 11);
        }
        let mut members: Vec<(String, Json)> = Vec::new();
        match self {
            Payload::Echo { echo } => {
                put(&mut members, "type", Json::Text(String::from_str("echo")));
                put(&mut members, "echo", Json::Text(echo.clone()));
            },
            Payload::EchoOk { echo } => {
                put(&mut members, "type", Json::Text(String::from_str("echo_ok")));
                put(&mut members, "echo", Json::Text(echo.clone()));
            },
        }
        proof {
            assert(keys(members@) =~= Self::keys_of(self@));
            assert forall|front: Seq<(String, Json)>| #[trigger]
                Self::payload_of(front + members@) == Some(self@) by {
                lemma_payload_members_decide(front, members@, "type"@);
                lemma_payload_members_decide(front, members@, "echo"@);
            }
        }
        members
    }
}

/// What an echo node sends on `request` when its next message id is `id`: to
/// an `echo` the one `echo_ok` with the same text, stamped with `id`; to an
/// `echo_ok` nothing.
pub open spec fn echo_replies(id: usize, request: Envelope<PayloadView>) -> Seq<
    Envelope<PayloadView>,
> {
    match request.payload {
        PayloadView::Echo { echo } => seq![
            Envelope {
                src: request.dst,
                dst: request.src,
                id: Some(id),
                in_reply_to: request.id,
                payload: PayloadView::EchoOk { echo },
            },
        ],
        PayloadView::EchoOk { .. } => Seq::empty(),
    }
}

/// An `echo` is always answered, with an `echo_ok` that carries the same text
/// and answers the request, whatever the state of the node.
pub proof fn lemma_echo_is_answered_verbatim(id: usize, request: Envelope<PayloadView>, text: Seq<char>)
    requires
        request.payload == (PayloadView::Echo { echo: text }),
    ensures
        echo_replies(id, request).len() == 1,
        echo_replies(id, request)[0].payload == (PayloadView::EchoOk { echo: text }),
        answers(echo_replies(id, request)[0], request),
        echo_replies(id, request)[0].id == Some(id),
{
}

/// A node that echoes. Its only state is the id of the next message it
/// sends.
pub struct EchoNode {
    id: usize,
}

impl EchoNode {
    /// The id that the next message of this node gets.
    pub closed spec fn next_id(&self) -> usize {
        self.id
    }
}

impl Node<(), Payload, ()> for EchoNode {
    open spec fn wf(&self) -> bool {
        true
    }

    /// An echo node takes messages only, and only while it has an id left.
    open spec fn accepts(&self, input: &Event<Payload, ()>) -> bool {
        input is Message && self.next_id() < usize::MAX
    }

    open spec fn initialized(state: &(), init: &Init, res: &Result<Self, NodeError>) -> bool {
        res matches Ok(node) && node.next_id() == 1
    }

    open spec fn stepped(
        pre: &Self,
        input: &Event<Payload, ()>,
        post: &Self,
        res: Result<Seq<Message<Payload>>, NodeError>,
    ) -> bool {
        &&& input matches Event::Message(request)
        &&& res matches Ok(sent)
        &&& envelopes(sent) == echo_replies(pre.next_id(), request@)
        &&& post.next_id() == pre.next_id() + 1
    }

    /// An echo node starts with message id 1, whatever its configuration.
    fn from_init(state: (), init: Init) -> (res: Result<Self, NodeError>) {
        Ok(EchoNode { id: 1 })
    }

    fn ready(&self, input: &Event<Payload, ()>) -> (yes: bool) {
        match input {
            Event::Message(_) => self.id < usize::MAX,
            _ => false,
        }
    }

    /// Answers an `echo` with the `echo_ok` of the same text and ignores an
    /// `echo_ok`. Either way the message uses up one id.
    fn step(&mut self, input: Event<Payload, ()>) -> (res: Result<Vec<Message<Payload>>, NodeError>)
    {
        let mut sent: Vec<Message<Payload>> = Vec::new();
        match input {
            Event::Message(request) => {
                let ghost asked = request@;
                let mut reply = request.into_reply(Some(&mut self.id));
                match reply.body.payload {
                    Payload::Echo { echo } => {
                        reply.body.payload = Payload::EchoOk { echo };
                        sent.push(reply);
                        assert(envelopes(sent@) =~= echo_replies(old(self).next_id(), asked));
                    },
                    Payload::EchoOk { .. } => {
                        assert(envelopes(sent@) =~= echo_replies(old(self).next_id(), asked));
                    },
                }
            },
            _ => {},
        }
        Ok(sent)
    }
}

} // verus!
