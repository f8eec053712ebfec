//! The wire form of the broadcast payloads.

use crate::broadcast::model::PayloadView;
use crate::broadcast::topology::{topology_of, Topology};
use crate::broadcast::Payload;
use crate::json::{count_list, counts, counts_of, field, keys, lookup, put, reads, Json};
use crate::wire::{lemma_payload_members_decide, tag, tag_of, Wire};
use vstd::prelude::*;
use vstd::string::StringExecFns;

verus! {

impl Wire for Payload {
    /// `broadcast` carries its value under `message`, `read_ok` the values
    /// under `messages`, `gossip` the values under `seen`, each as a list of
    /// unsigned integers; `topology` carries under `topology` an object with
    /// a list of neighbours for each node. The other kinds carry nothing.
    open spec fn payload_of(body: Seq<(String, Json)>) -> Option<PayloadView> {
        match tag_of(body) {
            Some(tag) => if tag == "broadcast"@ {
                match field(body, "message"@) {
                    Some(Json::Count(n)) => if n <= usize::MAX {
                        Some(PayloadView::Broadcast { message: n as usize })
                    } else {
                        None
                    },
                    _ => None,
                }
            } else if tag == "broadcast_ok"@ {
                Some(PayloadView::BroadcastOk)
            } else if tag == "read"@ {
                Some(PayloadView::Read)
            } else if tag == "read_ok"@ {
                match field(body, "messages"@) {
                    Some(Json::List(items)) => match counts_of(items@) {
                        Some(messages) => Some(PayloadView::ReadOk { messages }),
                        None => None,
                    },
                    _ => None,
                }
            } else if tag == "topology"@ {
                match field(body, "topology"@) {
                    Some(Json::Object(members)) => match topology_of(members@) {
                        Some(topology) => Some(PayloadView::Topology { topology }),
                        None => None,
                    },
                    _ => None,
                }
            } else if tag == "topology_ok"@ {
                Some(PayloadView::TopologyOk)
            } else if tag == "gossip"@ {
                match field(body, "seen"@) {
                    Some(Json::List(items)) => match counts_of(items@) {
                        Some(seen) => Some(PayloadView::Gossip { seen }),
                        None => None,
                    },
                    _ => None,
                }
            } else {
                None
            },
            None => None,
        }
    }

    open spec fn keys_of(payload: PayloadView) -> Seq<Seq<char>> {
        match payload {
            PayloadView::Broadcast { .. } => seq!["type"@, "message"@],
            PayloadView::ReadOk { .. } => seq!["type"@, "messages"@],
            PayloadView::Topology { .. } => seq!["type"@, "topology"@],
            PayloadView::Gossip { .. } => seq!["type"@, "seen"@],
            _ => seq!["type"@],
        }
    }

    fn decode_payload(body: &Vec<(String, Json)>) -> (found: Option<Self>) {
        let kind = match tag(body) {
            Some(kind) => kind,
            None => {
                return None;
            },
        };
        if reads(kind, "broadcast") {
            match lookup(body, "message") {
                Some(Json::Count(n)) => {
                    if *n <= usize::MAX as u64 {
                        Some(Payload::Broadcast { message: *n as usize })
                    } else {
                        None
                    }
                },
                _ => None,
            }
        } else if reads(kind, "broadcast_ok") {
            Some(Payload::BroadcastOk)
        } else if reads(kind, "read") {
            Some(Payload::Read)
        } else if reads(kind, "read_ok") {
            match lookup(body, "messages") {
                Some(Json::List(items)) => match counts(items) {
                    Some(messages) => Some(Payload::ReadOk { messages }),
                    None => None,
                },
                _ => None,
            }
        } else if reads(kind, "topology") {
            match lookup(body, "topology") {
                Some(Json::Object(members)) => match Topology::read(members) {
                    Some(topology) => Some(Payload::Topology { topology }),
                    None => None,
                },
                _ => None,
            }
        } else if reads(kind, "topology_ok") {
            Some(Payload::TopologyOk)
        } else if reads(kind, "gossip") {
            match lookup(body, "seen") {
                Some(Json::List(items)) => match counts(items) {
                    Some(seen) => Some(Payload::Gossip { seen }),
                    None => None,
                },
                _ => None,
            }
        } else {
            None
        }
    }

    fn encode_payload(&self) -> (members: Vec<(String, Json)>) {
        proof {
            lemma_broadcast_words_differ();
        }
        let mut members: Vec<(String, Json)> = Vec::new();
        match self {
            Payload::Broadcast { message } => {
                put(&mut members, "type", Json::Text(String::from_str("broadcast")));
                put(&mut members, "message", Json::Count(*message as u64));
            },
            Payload::BroadcastOk => {
                put(&mut members, "type", Json::Text(String::from_str("broadcast_ok")));
            },
            Payload::Read => {
                put(&mut members, "type", Json::Text(String::from_str("read")));
            },
            Payload::ReadOk { messages } => {
                put(&mut members, "type", Json::Text(String::from_str("read_ok")));
                put(&mut members, "messages", count_list(messages));
            },
            Payload::Topology { topology } => {
                put(&mut members, "type", Json::Text(String::from_str("topology")));
                put(&mut members, "topology", Json::Object(topology.write()));
            },
            Payload::TopologyOk => {
                put(&mut members, "type", Json::Text(String::from_str("topology_ok")));
            },
            Payload::Gossip { seen } => {
                put(&mut members, "type", Json::Text(String::from_str("gossip")));
                put(&mut members, "seen", count_list(seen));
            },
        }
        proof {
            assert(keys(members@) =~= Self::keys_of(self@));
            assert forall|front: Seq<(String, Json)>| #[trigger]
                Self::payload_of(front + members@) == Some(self@) by {
                lemma_payload_members_decide(front, members@, "type"@);
                match *self {
                    Payload::Broadcast { .. } => {
                        lemma_payload_members_decide(front, members@, "message"@);
                    },
                    Payload::ReadOk { .. } => {
                        lemma_payload_members_decide(front, members@, "messages"@);
                    },
                    Payload::Topology { .. } => {
                        lemma_payload_members_decide(front, members@, "topology"@);
                    },
                    Payload::Gossip { .. } => {
                        lemma_payload_members_decide(front, members@, "seen"@);
                    },
                    _ => {},
                }
            }
        }
        members
    }
}

/// The tags of the broadcast payloads are seven different texts, and no key
/// of a payload is `type` or the key of an id.
proof fn lemma_broadcast_words_differ()
    ensures
        "broadcast"@.len() == 9,
        "broadcast_ok"@.len() == 12,
        "read"@.len() == 4,
        "read_ok"@.len() == 7,
        "topology"@.len() == 8,
        "topology_ok"@.len() == 11,
        "gossip"@.len() == 6,
        "type"@.len() == 4,
        "message"@.len() == 7,
        "messages"@.len() == 8,
        "seen"@.len() == 4,
        "msg_id"@.len() == 6,
        "in_reply_to"@.len() == 11,
        "type"@ != "seen"@,
{
    reveal_strlit("broadcast");
    reveal_strlit("broadcast_ok");
    reveal_strlit("read");
    reveal_strlit("read_ok");
    reveal_strlit("topology");
    reveal_strlit("topology_ok");
    reveal_strlit("gossip");
    reveal_strlit("type");
    reveal_strlit("message");
    reveal_strlit("messages");
    reveal_strlit("seen");
    reveal_strlit("msg_id");
    reveal_strlit("in_reply_to");
    assert("type"@[0] == 't' && "seen"@[0] == 's');
}

} // verus!
