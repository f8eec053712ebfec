//! The wire form of a message: which JSON records stand for which messages,
//! and the functions that read and write them.
//!
//! A record is an object with the members `src`, `dest` and `body`. The body
//! is an object that holds `msg_id` and `in_reply_to`, each only where the
//! message has one, and beside them the members of the payload: `type`,
//! which tells the payload's kind, and the fields of that kind.

use crate::error::NodeError;
use crate::json::{
    field, keys, lemma_field_of_joined, lookup, put, reads, text_list, texts, texts_of, Json,
};
use crate::message::{Body, Envelope, Event, Init, InitPayload, InitPayloadView, InitView, Message};
use crate::node::{Inbound, Outbox};
use vstd::prelude::*;
use vstd::string::StringExecFns;

verus! {

/// What a member that may be missing says of an id: nothing if it is missing
/// or null, the id if it is an unsigned integer that fits the machine's
/// word. Anything else is no id at all.
pub open spec fn id_of(member: Option<Json>) -> Option<Option<usize>> {
    match member {
        None => Some(None),
        Some(Json::Null) => Some(None),
        Some(Json::Count(n)) => if n <= usize::MAX {
            Some(Some(n as usize))
        } else {
            None
        },
        _ => None,
    }
}

/// A payload that has a wire form.
pub trait Wire: View + Sized {
    /// The payload that the members of a body stand for, if they stand for
    /// one of this kind.
    spec fn payload_of(body: Seq<(String, Json)>) -> Option<Self::V>;

    /// Reads the payload from the members of a body.
    fn decode_payload(body: &Vec<(String, Json)>) -> (found: Option<Self>)
        ensures
            match found {
                Some(payload) => Self::payload_of(body@) == Some(payload@),
                None => Self::payload_of(body@) is None,
            },
    ;

    /// The keys under which a payload is written, in order: `type` and the
    /// names of the fields of its kind.
    spec fn keys_of(payload: Self::V) -> Seq<Seq<char>>;

    /// Writes the payload as members of a body: the tag and the fields, and
    /// nothing else. They stand for the payload whatever members come before
    /// them, and none of them is an id of the envelope.
    fn encode_payload(&self) -> (members: Vec<(String, Json)>)
        ensures
            keys(members@) == Self::keys_of(self@),
            forall|front: Seq<(String, Json)>| #[trigger]
                Self::payload_of(front + members@) == Some(self@),
            field(members@, "msg_id"@) is None,
            field(members@, "in_reply_to"@) is None,
    ;
}

/// The message that a record stands for, if it stands for one with a payload
/// of kind `P`.
pub open spec fn envelope_of<P: Wire>(record: Json) -> Option<Envelope<P::V>> {
    match record {
        Json::Object(members) => match (
            field(members@, "src"@),
            field(members@, "dest"@),
            field(members@, "body"@),
        ) {
            (Some(Json::Text(src)), Some(Json::Text(dst)), Some(Json::Object(body))) => match (
                id_of(field(body@, "msg_id"@)),
                id_of(field(body@, "in_reply_to"@)),
                P::payload_of(body@),
            ) {
                (Some(id), Some(in_reply_to), Some(payload)) => Some(
                    Envelope { src: src@, dst: dst@, id, in_reply_to, payload },
                ),
                _ => None,
            },
            _ => None,
        },
        _ => None,
    }
}

/// Reads an id that may be missing.
fn decode_id(member: Option<&Json>) -> (found: Option<Option<usize>>)
    ensures
        found == id_of(
            match member {
                Some(json) => Some(*json),
                None => None,
            },
        ),
{
    match member {
        None => Some(None),
        Some(Json::Null) => Some(None),
        Some(Json::Count(n)) => {
            if *n <= usize::MAX as u64 {
                Some(Some(*n as usize))
            } else {
                None
            }
        },
        Some(_) => None,
    }
}

/// Reads a message from a record. A record that stands for no message with a
/// payload of kind `P` is malformed.
pub fn decode<P: Wire>(record: &Json) -> (res: Result<Message<P>, NodeError>)
    ensures
        match res {
            Ok(message) => envelope_of::<P>(*record) == Some(message@),
            Err(e) => e == NodeError::MalformedEnvelope && envelope_of::<P>(*record) is None,
        },
{
    let members = match record {
        Json::Object(members) => members,
        _ => {
            return Err(NodeError::MalformedEnvelope);
        },
    };
    let src = match lookup(members, "src") {
        Some(Json::Text(src)) => src,
        _ => {
            return Err(NodeError::MalformedEnvelope);
        },
    };
    let dst = match lookup(members, "dest") {
        Some(Json::Text(dst)) => dst,
        _ => {
            return Err(NodeError::MalformedEnvelope);
        },
    };
    let body = match lookup(members, "body") {
        Some(Json::Object(body)) => body,
        _ => {
            return Err(NodeError::MalformedEnvelope);
        },
    };
    let id = match decode_id(lookup(body, "msg_id")) {
        Some(id) => id,
        None => {
            return Err(NodeError::MalformedEnvelope);
        },
    };
    let in_reply_to = match decode_id(lookup(body, "in_reply_to")) {
        Some(in_reply_to) => in_reply_to,
        None => {
            return Err(NodeError::MalformedEnvelope);
        },
    };
    let payload = match P::decode_payload(body) {
        Some(payload) => payload,
        None => {
            return Err(NodeError::MalformedEnvelope);
        },
    };
    Ok(Message { src: src.clone(), dst: dst.clone(), body: Body { id, in_reply_to, payload } })
}

/// The keys of a record and of the ids in its body are five different
/// texts.
proof fn lemma_envelope_keys_differ()
    ensures
        "src"@ != "dest"@,
        "src"@ != "body"@,
        "dest"@ != "body"@,
        "msg_id"@ != "in_reply_to"@,
{
    reveal_strlit("src");
    reveal_strlit("dest");
    reveal_strlit("body");
    reveal_strlit("msg_id");
    reveal_strlit("in_reply_to");
    assert("src"@.len() == 3 && "dest"@.len() == 4 && "body"@.len() == 4);
    assert("dest"@[0] == 'd' && "body"@[0] == 'b');
    assert("msg_id"@.len() == 6 && "in_reply_to"@.len() == 11);
}

/// The member that stands for an id: the id as an unsigned integer, or no
/// member where there is no id.
pub open spec fn id_member(id: Option<usize>) -> Option<Json> {
    match id {
        Some(id) => Some(Json::Count(id as u64)),
        None => None,
    }
}

/// The keys under which the ids of a message are written, in order: each
/// only where the message has that id.
pub open spec fn id_keys(id: Option<usize>, in_reply_to: Option<usize>) -> Seq<Seq<char>> {
    let first = if id is Some {
        seq!["msg_id"@]
    } else {
        Seq::empty()
    };
    if in_reply_to is Some {
        first.push("in_reply_to"@)
    } else {
        first
    }
}

/// Whether `record` has the layout in which `message` is written: an object
/// with the members `src`, `dest` and `body` and no other, and in the body
/// the ids that the message has, then the members of the payload, and
/// nothing else.
pub open spec fn laid_out<P: Wire>(record: Json, message: Envelope<P::V>) -> bool {
    match record {
        Json::Object(members) => {
            &&& keys(members@) == seq!["src"@, "dest"@, "body"@]
            &&& match members@[2].1 {
                Json::Object(body) => {
                    &&& keys(body@) == id_keys(message.id, message.in_reply_to) + P::keys_of(
                        message.payload,
                    )
                    &&& field(body@, "msg_id"@) == id_member(message.id)
                    &&& field(body@, "in_reply_to"@) == id_member(message.in_reply_to)
                },
                _ => false,
            }
        },
        _ => false,
    }
}

/// Writes a message as a record: `src`, `dest` and `body`, and in the body
/// the ids and then the payload. An id that the message lacks is left out of
/// the record; it is not written as null.
pub fn encode<P: Wire>(message: &Message<P>) -> (record: Json)
    ensures
        envelope_of::<P>(record) == Some(message@),
        laid_out::<P>(record, message@),
{
    proof {
        lemma_envelope_keys_differ();
    }
    let mut body: Vec<(String, Json)> = Vec::new();
    if let Some(id) = message.body.id {
        put(&mut body, "msg_id", Json::Count(id as u64));
    }
    if let Some(id) = message.body.in_reply_to {
        put(&mut body, "in_reply_to", Json::Count(id as u64));
    }
    let ghost ids = body@;
    let mut fields = message.body.payload.encode_payload();
    let ghost payload_members = fields@;
    body.append(&mut fields);
    proof {
        assert(body@ =~= ids + payload_members);
        assert(keys(ids) =~= id_keys(message.body.id, message.body.in_reply_to));
        assert(keys(body@) =~= keys(ids) + keys(payload_members));
        lemma_field_of_joined(ids, payload_members, "msg_id"@);
        lemma_field_of_joined(ids, payload_members, "in_reply_to"@);
    }
    let mut members: Vec<(String, Json)> = Vec::new();
    put(&mut members, "src", Json::Text(message.src.clone()));
    put(&mut members, "dest", Json::Text(message.dst.clone()));
    put(&mut members, "body", Json::Object(body));
    assert(keys(members@) =~= seq!["src"@, "dest"@, "body"@]);
    Json::Object(members)
}

/// The tag of a body: the text under `type`, if there is one.
pub open spec fn tag_of(body: Seq<(String, Json)>) -> Option<Seq<char>> {
    match field(body, "type"@) {
        Some(Json::Text(tag)) => Some(tag@),
        _ => None,
    }
}

/// Reads the tag of a body.
pub fn tag<'a>(body: &'a Vec<(String, Json)>) -> (found: Option<&'a String>)
    ensures
        match found {
            Some(text) => tag_of(body@) == Some(text@),
            None => tag_of(body@) is None,
        },
{
    match lookup(body, "type") {
        Some(Json::Text(text)) => Some(text),
        _ => None,
    }
}

/// The members of a payload stand for the same whatever comes before them,
/// as far as a key goes that they hold.
pub proof fn lemma_payload_members_decide(
    front: Seq<(String, Json)>,
    members: Seq<(String, Json)>,
    key: Seq<char>,
)
    requires
        field(members, key) is Some,
    ensures
        field(front + members, key) == field(members, key),
{
    lemma_field_of_joined(front, members, key);
}

impl Wire for InitPayload {
    /// `init` carries the node's name under `node_id` and the names of all
    /// nodes under `node_ids`; `init_ok` carries nothing.
    open spec fn payload_of(body: Seq<(String, Json)>) -> Option<InitPayloadView> {
        match tag_of(body) {
            Some(tag) => if tag == "init"@ {
                match (field(body, "node_id"@), field(body, "node_ids"@)) {
                    (Some(Json::Text(node_id)), Some(Json::List(items))) => match texts_of(items@) {
                        Some(node_ids) => Some(
                            InitPayloadView::Init(InitView { node_id: node_id@, node_ids }),
                        ),
                        None => None,
                    },
                    _ => None,
                }
            } else if tag == "init_ok"@ {
                Some(InitPayloadView::InitOk)
            } else {
                None
            },
            None => None,
        }
    }

    open spec fn keys_of(payload: InitPayloadView) -> Seq<Seq<char>> {
        match payload {
            InitPayloadView::Init(_) => seq!["type"@, "node_id"@, "node_ids"@],
            InitPayloadView::InitOk => seq!["type"@],
        }
    }

    fn decode_payload(body: &Vec<(String, Json)>) -> (found: Option<Self>) {
        let kind = match tag(body) {
            Some(kind) => kind,
            None => {
                return None;
            },
        };
        if reads(kind, "init") {
            let node_id = match lookup(body, "node_id") {
                Some(Json::Text(node_id)) => node_id,
                _ => {
                    return None;
                },
            };
            let node_ids = match lookup(body, "node_ids") {
                Some(Json::List(items)) => match texts(items) {
                    Some(node_ids) => node_ids,
                    None => {
                        return None;
                    },
                },
                _ => {
                    return None;
                },
            };
            Some(InitPayload::Init(Init { node_id: node_id.clone(), node_ids }))
        } else if reads(kind, "init_ok") {
            Some(InitPayload::InitOk)
        } else {
            None
        }
    }

    fn encode_payload(&self) -> (members: Vec<(String, Json)>) {
        proof {
            reveal_strlit("type");
            reveal_strlit("init");
            reveal_strlit("init_ok");
            reveal_strlit("node_id");
            reveal_strlit("node_ids");
            reveal_strlit("msg_id");
            reveal_strlit("in_reply_to");
            assert("type"@.len() == 4 && "node_id"@.len() == 7 && "node_ids"@.len() == 8);
            assert("init"@.len() == 4 && "init_ok"@.len() == 7);
            assert("msg_id"@.len() == 6 && "in_reply_to"@.len() == 11);
        }
        let mut members: Vec<(String, Json)> = Vec::new();
        match self {
            InitPayload::Init(init) => {
                put(&mut members, "type", Json::Text(String::from_str("init")));
                put(&mut members, "node_id", Json::Text(init.node_id.clone()));
                put(&mut members, "node_ids", text_list(&init.node_ids));
            },
            InitPayload::InitOk => {
                put(&mut members, "type", Json::Text(String::from_str("init_ok")));
            },
        }
        proof {
            assert(keys(members@) =~= Self::keys_of(self@));
            assert forall|front: Seq<(String, Json)>| #[trigger]
                Self::payload_of(front + members@) == Some(self@) by {
                lemma_payload_members_decide(front, members@, "type"@);
                if self is Init {
                    lemma_payload_members_decide(front, members@, "node_id"@);
                    lemma_payload_members_decide(front, members@, "node_ids"@);
                }
            }
        }
        members
    }
}

/// Reads a record as an input of the lifecycle: a handshake message if it
/// stands for one, else a message for the node if it stands for one, else a
/// malformed record.
pub fn receive<P: Wire, I>(record: &Json) -> (input: Inbound<P, I>)
    ensures
        match input {
            Inbound::Handshake(message) => envelope_of::<InitPayload>(*record) == Some(message@),
            Inbound::App(event) => {
                &&& envelope_of::<InitPayload>(*record) is None
                &&& event matches Event::Message(message)
                &&& envelope_of::<P>(*record) == Some(message@)
            },
            Inbound::Malformed => {
                &&& envelope_of::<InitPayload>(*record) is None
                &&& envelope_of::<P>(*record) is None
            },
            Inbound::WriteFailed => false,
        },
{
    match decode::<InitPayload>(record) {
        Ok(message) => Inbound::Handshake(message),
        Err(_) => match decode::<P>(record) {
            Ok(message) => Inbound::App(Event::Message(message)),
            Err(_) => Inbound::Malformed,
        },
    }
}

/// Writes what an input made the process send as records, in the order in
/// which they are to be sent: the acknowledgment first, if there is one, then
/// the node's messages.
pub fn transmit<P: Wire>(outbox: &Outbox<P>) -> (records: Vec<Json>)
    ensures
        match outbox.ack {
            Some(ack) => {
                &&& records@.len() == outbox.messages@.len() + 1
                &&& envelope_of::<InitPayload>(records@[0]) == Some(ack@)
                &&& forall|k: int|
                    1 <= k < records@.len() ==> envelope_of::<P>(#[trigger] records@[k]) == Some(
                        outbox.messages@[k - 1]@,
                    )
            },
            None => {
                &&& records@.len() == outbox.messages@.len()
                &&& forall|k: int|
                    0 <= k < outbox.messages@.len() ==> envelope_of::<P>(#[trigger] records@[k])
                        == Some(outbox.messages@[k]@)
            },
        },
{
    let mut records: Vec<Json> = Vec::new();
    if let Some(ack) = &outbox.ack {
        records.push(encode(ack));
    }
    let ghost offset = records@.len();
    let mut i: usize = 0;
    while i < outbox.messages.len()
        invariant
            i <= outbox.messages.len(),
            offset == if outbox.ack is Some { 1nat } else { 0nat },
            records@.len() == offset + i,
            outbox.ack matches Some(ack) ==> envelope_of::<InitPayload>(records@[0]) == Some(ack@),
            forall|k: int|
                offset <= k < records@.len() ==> envelope_of::<P>(#[trigger] records@[k]) == Some(
                    outbox.messages@[k - offset]@,
                ),
        decreases outbox.messages.len() - i,
    {
        records.push(encode(&outbox.messages[i]));
        i += 1;
    }
    records
}

} // verus!
