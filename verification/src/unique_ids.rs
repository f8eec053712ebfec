//! The unique-id node: it answers every `generate` with an identifier made of
//! its own name and a fresh ULID.

use crate::error::NodeError;
use crate::message::{answers, envelopes, Envelope, Event, Init, Message};
use crate::json::{field, keys, lookup, put, reads, Json};
use crate::node::Node;
use crate::wire::{lemma_payload_members_decide, tag, tag_of, Wire};
use vstd::prelude::*;
use vstd::string::StringExecFns;

verus! {

/// What a unique-id node receives and sends.
#[derive(Debug, Clone)]
pub enum Payload {
    Generate,
    GenerateOk { guid: String },
}

/// A unique-id payload as contracts see it.
pub enum PayloadView {
    Generate,
    GenerateOk { guid: Seq<char> },
}

impl View for Payload {
    type V = PayloadView;

    open spec fn view(&self) -> PayloadView {
        match *self {
            Payload::Generate => PayloadView::Generate,
            Payload::GenerateOk { guid } => PayloadView::GenerateOk { guid: guid@ },
        }
    }
}

impl Wire for Payload {
    /// `generate` carries nothing; `generate_ok` carries the identifier under
    /// `id`.
    open spec fn payload_of(body: Seq<(String, Json)>) -> Option<PayloadView> {
        match tag_of(body) {
            Some(tag) => if tag == "generate"@ {
                Some(PayloadView::Generate)
            } else if tag == "generate_ok"@ {
                match field(body, "id"@) {
                    Some(Json::Text(guid)) => Some(PayloadView::GenerateOk { guid: guid@ }),
                    _ => None,
                }
            } else {
                None
            },
            None => None,
        }
    }

    open spec fn keys_of(payload: PayloadView) -> Seq<Seq<char>> {
        match payload {
            PayloadView::Generate => seq!["type"@],
            PayloadView::GenerateOk { .. } => seq!["type"@, "id"@],
        }
    }

    fn decode_payload(body: &Vec<(String, Json)>) -> (found: Option<Self>) {
        let kind = match tag(body) {
            Some(kind) => kind,
            None => {
                return None;
            },
        };
        if reads(kind, "generate") {
            Some(Payload::Generate)
        } else if reads(kind, "generate_ok") {
            match lookup(body, "id") {
                Some(Json::Text(guid)) => Some(Payload::GenerateOk { guid: guid.clone() }),
                _ => None,
            }
        } else {
            None
        }
    }

    fn encode_payload(&self) -> (members: Vec<(String, Json)>) {
        proof {
            reveal_strlit("type");
            reveal_strlit("id");
            reveal_strlit("generate");
            reveal_strlit("generate_ok");
            reveal_strlit("msg_id");
            reveal_strlit("in_reply_to");
            assert("type"@.len() == 4 && "id"@.len() == 2);
            assert("generate"@.len() == 8 && "generate_ok"@.len() == 11);
            assert("msg_id"@.len() == 6 && "in_reply_to"@.len() == 11);
        }
        let mut members: Vec<(String, Json)> = Vec::new();
        match self {
            Payload::Generate => {
                put(&mut members, "type", Json::Text(String::from_str("generate")));
            },
            Payload::GenerateOk { guid } => {
                put(&mut members, "type", Json::Text(String::from_str("generate_ok")));
                put(&mut members, "id", Json::Text(guid.clone()));
            },
        }
        proof {
            assert(keys(members@) =~= Self::keys_of(self@));
            assert forall|front: Seq<(String, Json)>| #[trigger]
                Self::payload_of(front + members@) == Some(self@) by {
                lemma_payload_members_decide(front, members@, "type"@);
                if self is GenerateOk {
                    lemma_payload_members_decide(front, members@, "id"@);
                }
            }
        }
        members
    }
}

/// The 32 characters that the text of a ULID is written in.
pub open spec fn ulid_alphabet() -> Seq<char> {
    "0123456789ABCDEFGHJKMNPQRSTVWXYZ"@
}

/// Whether `text` has the shape of a ULID: 26 characters of the alphabet.
pub open spec fn is_ulid(text: Seq<char>) -> bool {
    &&& text.len() == 26
    &&& forall|i: int| 0 <= i < text.len() ==> ulid_alphabet().contains(#[trigger] text[i])
}

/// The identifier that a node named `node` makes of `ulid`: the name, a
/// hyphen, and the ULID.
pub open spec fn prefixed(node: Seq<char>, ulid: Seq<char>) -> Seq<char> {
    node + seq!['-'] + ulid
}

/// What a unique-id node named `node` sends on `request` when its next message
/// id is `id` and `ulid` is the ULID it drew: to a `generate` the one
/// `generate_ok` with the identifier made of `node` and `ulid`; to a
/// `generate_ok` nothing.
pub open spec fn generate_replies(
    node: Seq<char>,
    id: usize,
    request: Envelope<PayloadView>,
    ulid: Seq<char>,
) -> Seq<Envelope<PayloadView>> {
    match request.payload {
        PayloadView::Generate => seq![
            Envelope {
                src: request.dst,
                dst: request.src,
                id: Some(id),
                in_reply_to: request.id,
                payload: PayloadView::GenerateOk { guid: prefixed(node, ulid) },
            },
        ],
        PayloadView::GenerateOk { .. } => Seq::empty(),
    }
}

/// Every identifier of a node begins with the node's name and a hyphen.
pub proof fn lemma_identifier_starts_with_node(node: Seq<char>, ulid: Seq<char>)
    ensures
        (node + seq!['-']).is_prefix_of(prefixed(node, ulid)),
        prefixed(node, ulid).len() == node.len() + 1 + ulid.len(),
{
    assert(prefixed(node, ulid).subrange(0, node.len() as int + 1) =~= node + seq!['-']);
}

/// Identifiers that one node makes of different ULIDs are different.
pub proof fn lemma_distinct_ulids_give_distinct_identifiers(
    node: Seq<char>,
    first: Seq<char>,
    second: Seq<char>,
)
    requires
        first != second,
    ensures
        prefixed(node, first) != prefixed(node, second),
{
    let a = prefixed(node, first);
    let b = prefixed(node, second);
    if a == b {
        assert(a.subrange(node.len() as int + 1, a.len() as int) =~= first);
        assert(b.subrange(node.len() as int + 1, b.len() as int) =~= second);
    }
}

/// An identifier tells both the node that made it and the ULID it was made
/// of: two nodes never make the same identifier unless they share a name and
/// drew the same ULID.
pub proof fn lemma_identifier_determines_node_and_ulid(
    node: Seq<char>,
    ulid: Seq<char>,
    other_node: Seq<char>,
    other_ulid: Seq<char>,
)
    requires
        is_ulid(ulid),
        is_ulid(other_ulid),
        prefixed(node, ulid) == prefixed(other_node, other_ulid),
    ensures
        node == other_node,
        ulid == other_ulid,
{
    let a = prefixed(node, ulid);
    let b = prefixed(other_node, other_ulid);
    assert(a.len() == node.len() + 27);
    assert(b.len() == other_node.len() + 27);
    assert(a.subrange(0, node.len() as int) =~= node);
    assert(b.subrange(0, other_node.len() as int) =~= other_node);
    assert(a.subrange(node.len() as int + 1, a.len() as int) =~= ulid);
    assert(b.subrange(other_node.len() as int + 1, b.len() as int) =~= other_ulid);
}

/// A `generate` is always answered, with an identifier that begins with the
/// node's name and a hyphen, in a `generate_ok` that answers the request.
pub proof fn lemma_generate_is_answered_with_a_prefixed_identifier(
    node: Seq<char>,
    id: usize,
    request: Envelope<PayloadView>,
    ulid: Seq<char>,
)
    requires
        request.payload is Generate,
    ensures
        generate_replies(node, id, request, ulid).len() == 1,
        generate_replies(node, id, request, ulid)[0].payload matches PayloadView::GenerateOk { guid }
            && guid == prefixed(node, ulid) && (node + seq!['-']).is_prefix_of(guid),
        answers(generate_replies(node, id, request, ulid)[0], request),
{
    lemma_identifier_starts_with_node(node, ulid);
}

/// Calls `ulid::Ulid::new` and `ulid::Ulid::to_string`: draws a ULID from the
/// clock and the thread's random number generator and writes it out. The
/// contract claims the shape of the text only, 26 characters of the ULID
/// alphabet; which ULID comes is left open, and two calls may differ.
#[verifier::external_body]
fn fresh_ulid() -> (text: String)
    ensures
        is_ulid(text@),
{
    ulid::Ulid::new().to_string()
}

/// Builds the identifier that a node named `node` makes of `ulid`.
pub fn unique_id(node: &str, ulid: &str) -> (id: String)
    ensures
        id@ == prefixed(node@, ulid@),
{
    proof {
        reveal_strlit("-");
    }
    let mut id = String::from_str(node);
    id.append("-");
    id.append(ulid);
    assert(id@ =~= prefixed(node@, ulid@));
    id
}

/// A node that hands out identifiers. It keeps its name and the id of the
/// next message it sends.
pub struct UniqueNode {
    node: String,
    id: usize,
}

impl UniqueNode {
    /// The node's name.
    pub closed spec fn name(&self) -> Seq<char> {
        self.node@
    }

    /// The id that the next message of this node gets.
    pub closed spec fn next_id(&self) -> usize {
        self.id
    }

    /// Handles `request` with `ulid` as the ULID to use: answers a `generate`
    /// with the identifier made of the node's name and `ulid`, and ignores a
    /// `generate_ok`. Either way the message uses up one id.
    pub fn respond(&mut self, request: Message<Payload>, ulid: String) -> (sent: Vec<
        Message<Payload>,
    >)
        requires
            old(self).next_id() < usize::MAX,
        ensures
            envelopes(sent@) == generate_replies(
                old(self).name(),
                old(self).next_id(),
                request@,
                ulid@,
            ),
            final(self).name() == old(self).name(),
            final(self).next_id() == old(self).next_id() + 1,
            forall|i: int|
                0 <= i < sent@.len() ==> {
                    &&& (#[trigger] sent@[i]).src@ == request.dst@
                    &&& sent@[i].dst@ == request.src@
                    &&& sent@[i].body.in_reply_to == request.body.id
                },
    {
        let mut sent: Vec<Message<Payload>> = Vec::new();
        let mut reply = request.into_reply(Some(&mut self.id));
        match reply.body.payload {
            Payload::Generate => {
                let guid = unique_id(self.node.as_str(), ulid.as_str());
                reply.body.payload = Payload::GenerateOk { guid };
                sent.push(reply);
            },
            Payload::GenerateOk { .. } => {},
        }
        assert(envelopes(sent@) =~= generate_replies(
            old(self).name(),
            old(self).next_id(),
            request@,
            ulid@,
        ));
        sent
    }
}

impl Node<(), Payload, ()> for UniqueNode {
    open spec fn wf(&self) -> bool {
        true
    }

    /// A unique-id node takes messages only, and only while it has an id
    /// left.
    open spec fn accepts(&self, input: &Event<Payload, ()>) -> bool {
        input is Message && self.next_id() < usize::MAX
    }

    open spec fn initialized(state: &(), init: &Init, res: &Result<Self, NodeError>) -> bool {
        res matches Ok(node) && node.name() == init.node_id@ && node.next_id() == 1
    }

    open spec fn stepped(
        pre: &Self,
        input: &Event<Payload, ()>,
        post: &Self,
        res: Result<Seq<Message<Payload>>, NodeError>,
    ) -> bool {
        &&& input matches Event::Message(request)
        &&& res matches Ok(sent)
        &&& post.name() == pre.name()
        &&& post.next_id() == pre.next_id() + 1
        &&& exists|ulid: Seq<char>|
            {
                &&& request.body.payload is Generate ==> is_ulid(ulid)
                &&& envelopes(sent) == #[trigger] generate_replies(
                    pre.name(),
                    pre.next_id(),
                    request@,
                    ulid,
                )
            }
    }

    /// A unique-id node takes its name from its configuration and starts with
    /// message id 1.
    fn from_init(state: (), init: Init) -> (res: Result<Self, NodeError>) {
        Ok(UniqueNode { node: init.node_id, id: 1 })
    }

    fn ready(&self, input: &Event<Payload, ()>) -> (yes: bool) {
        match input {
            Event::Message(_) => self.id < usize::MAX,
            _ => false,
        }
    }

    /// Draws a fresh ULID for a `generate` and answers with the identifier
    /// made of it; ignores a `generate_ok`.
    fn step(&mut self, input: Event<Payload, ()>) -> (res: Result<Vec<Message<Payload>>, NodeError>)
    {
        match input {
            Event::Message(request) => {
                let ulid = match request.body.payload {
                    Payload::Generate => fresh_ulid(),
                    Payload::GenerateOk { .. } => String::new(),
                };
                let sent = self.respond(request, ulid);
                Ok(sent)
            },
            _ => Ok(Vec::new()),
        }
    }
}

} // verus!
