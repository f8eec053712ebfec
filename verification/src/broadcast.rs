//! The gossip broadcast node: it collects the values broadcast to it, hands
//! them out on request, and spreads them to its neighbours on every tick.

pub mod codec;
pub mod laws;
pub mod model;
pub mod topology;

use crate::broadcast::model::{InjectedPayload, NodeState, PayloadView};
use crate::broadcast::topology::Topology;
use crate::error::NodeError;
use crate::message::{envelopes, lemma_one_more_taken, names, viewed, Body, Event, Init, Message};
use crate::node::{sequence_of, Node};
use crate::sets::{difference, merge, snapshot};
use std::collections::HashSet;
use vstd::hash_map::StringHashMap;
use vstd::prelude::*;

verus! {

broadcast use vstd::std_specs::hash::group_hash_axioms;

/// What a broadcast node receives and sends.
#[derive(Debug)]
pub enum Payload {
    Broadcast { message: usize },
    BroadcastOk,
    Read,
    ReadOk { messages: HashSet<usize> },
    Topology { topology: Topology },
    TopologyOk,
    Gossip { seen: HashSet<usize> },
}

impl View for Payload {
    type V = PayloadView;

    open spec fn view(&self) -> PayloadView {
        match *self {
            Payload::Broadcast { message } => PayloadView::Broadcast { message },
            Payload::BroadcastOk => PayloadView::BroadcastOk,
            Payload::Read => PayloadView::Read,
            Payload::ReadOk { messages } => PayloadView::ReadOk { messages: messages@ },
            Payload::Topology { topology } => PayloadView::Topology { topology: topology@ },
            Payload::TopologyOk => PayloadView::TopologyOk,
            Payload::Gossip { seen } => PayloadView::Gossip { seen: seen@ },
        }
    }
}

/// The beliefs that a map of sets stands for.
pub open spec fn beliefs(known: Map<Seq<char>, HashSet<usize>>) -> Map<Seq<char>, Set<usize>> {
    known.map_values(|values: HashSet<usize>| values@)
}

/// A node of the broadcast cluster.
pub struct BroadcastNode {
    id: usize,
    node: String,
    messages: HashSet<usize>,
    known: StringHashMap<HashSet<usize>>,
    neighbours: Vec<String>,
}

impl View for BroadcastNode {
    type V = NodeState;

    closed spec fn view(&self) -> NodeState {
        NodeState {
            next_id: self.id,
            node: self.node@,
            messages: self.messages@,
            known: beliefs(self.known@),
            neighbours: names(self.neighbours@),
        }
    }
}

impl BroadcastNode {
    /// Makes `list` the neighbour list, and starts a belief for each
    /// neighbour that has none.
    fn adopt(&mut self, list: Vec<String>)
        requires
            old(self)@.wf(),
        ensures
            final(self)@ == (NodeState {
                neighbours: names(list@),
                known: old(self)@.beliefs_with(names(list@)),
                ..old(self)@
            }),
            final(self)@.wf(),
    {
        let mut i: usize = 0;
        while i < list.len()
            invariant
                i <= list.len(),
                self.id == old(self).id,
                self.node == old(self).node,
                self.messages == old(self).messages,
                self.neighbours == old(self).neighbours,
                beliefs(self.known@) == old(self)@.beliefs_with(names(list@).take(i as int)),
            decreases list.len() - i,
        {
            let ghost before = beliefs(self.known@);
            let ghost name = list@[i as int]@;
            if !self.known.contains_key(list[i].as_str()) {
                self.known.insert(list[i].clone(), HashSet::new());
            }
            proof {
                lemma_one_more_taken(names(list@), i as int);
                let now = beliefs(self.known@);
                assert(before.contains_key(name) ==> now == before);
                assert(!before.contains_key(name) ==> now =~= before.insert(name, Set::empty()));
                assert(now =~= old(self)@.beliefs_with(names(list@).take(i + 1)));
            }
            i += 1;
        }
        assert(names(list@).take(list@.len() as int) =~= names(list@));
        self.neighbours = list;
        assert forall|k: int| 0 <= k < self@.neighbours.len() implies self@.known.contains_key(
            #[trigger] self@.neighbours[k],
        ) by {
            assert(names(list@).contains(names(list@)[k]));
        }
    }

    /// Sends every neighbour what the node has learned and does not believe
    /// it to have, and from then on believes it to have everything.
    fn gossip_round(&mut self) -> (sent: Vec<Message<Payload>>)
        requires
            old(self)@.wf(),
            old(self)@.next_id + old(self)@.neighbours.len() <= usize::MAX,
        ensures
            final(self)@ == old(self)@.after_tick(),
            envelopes(sent@) == old(self)@.gossip(),
            forall|k: int| 0 <= k < sent@.len() ==> (#[trigger] sent@[k]).body.in_reply_to is None,
    {
        let ghost start = self@;
        let mut sent: Vec<Message<Payload>> = Vec::new();
        let mut i: usize = 0;
        while i < self.neighbours.len()
            invariant
                i <= self.neighbours.len(),
                start == old(self)@,
                start.wf(),
                start.next_id + start.neighbours.len() <= usize::MAX,
                self.id == start.next_id + i,
                self.node@ == start.node,
                self.messages@ == start.messages,
                names(self.neighbours@) == start.neighbours,
                beliefs(self.known@) == Map::new(
                    |name: Seq<char>| start.known.contains_key(name),
                    |name: Seq<char>|
                        if start.neighbours.take(i as int).contains(name) {
                            start.messages
                        } else {
                            start.known[name]
                        },
                ),
                sent@.len() == i,
                forall|k: int| 0 <= k < i ==> (#[trigger] sent@[k])@ == start.gossip_to(k),
                forall|k: int| 0 <= k < i ==> (#[trigger] sent@[k]).body.in_reply_to is None,
            decreases self.neighbours.len() - i,
        {
            let ghost name = self.neighbours@[i as int]@;
            let ghost before = beliefs(self.known@);
            assert(name == start.neighbours[i as int]);
            assert(before.contains_key(name));
            let seen = match self.known.get(self.neighbours[i].as_str()) {
                Some(known_to_neighbour) => {
                    assert(known_to_neighbour@ == before[name]);
                    difference(&self.messages, known_to_neighbour)
                },
                None => snapshot(&self.messages),
            };
            assert(seen@ =~= start.news_for(i as int));
            let message = Message {
                src: self.node.clone(),
                dst: self.neighbours[i].clone(),
                body: Body {
                    id: Some(self.id),
                    in_reply_to: None,
                    payload: Payload::Gossip { seen },
                },
            };
            let told = snapshot(&self.messages);
            self.known.insert(self.neighbours[i].clone(), told);
            self.id += 1;
            sent.push(message);
            proof {
                lemma_one_more_taken(start.neighbours, i as int);
                let next = start.neighbours.take(i + 1);
                assert(beliefs(self.known@) =~= before.insert(name, start.messages));
                assert(beliefs(self.known@) =~= Map::new(
                    |other: Seq<char>| start.known.contains_key(other),
                    |other: Seq<char>|
                        if next.contains(other) {
                            start.messages
                        } else {
                            start.known[other]
                        },
                ));
            }
            i += 1;
        }
        proof {
            assert(start.neighbours.take(start.neighbours.len() as int) =~= start.neighbours);
            assert(self@.known =~= start.after_tick().known);
            assert(envelopes(sent@) =~= start.gossip());
        }
        sent
    }

    /// Handles one message from the network.
    fn handle(&mut self, request: Message<Payload>) -> (res: Result<Vec<Message<Payload>>, NodeError>)
        requires
            old(self)@.wf(),
            old(self)@.next_id < usize::MAX,
        ensures
            final(self)@ == old(self)@.after_message(request@),
            final(self)@.wf(),
            viewed(sequence_of(res)) == old(self)@.replies(request@),
            res matches Ok(sent) ==> forall|k: int|
                0 <= k < sent@.len() ==> {
                    &&& (#[trigger] sent@[k]).src@ == request.dst@
                    &&& sent@[k].dst@ == request.src@
                    &&& sent@[k].body.in_reply_to == request.body.id
                },
    {
        let mut sent: Vec<Message<Payload>> = Vec::new();
        let mut reply = request.into_reply(Some(&mut self.id));
        assert(self@.known == old(self)@.known && self@.neighbours == old(self)@.neighbours);
        match reply.body.payload {
            Payload::Gossip { seen } => {
                merge(&mut self.messages, &seen);
            },
            Payload::Broadcast { message } => {
                self.messages.insert(message);
                reply.body.payload = Payload::BroadcastOk;
                sent.push(reply);
            },
            Payload::Read => {
                reply.body.payload = Payload::ReadOk { messages: snapshot(&self.messages) };
                sent.push(reply);
            },
            Payload::Topology { topology } => {
                let mut topology = topology;
                match topology.remove(self.node.as_str()) {
                    Some(list) => {
                        self.adopt(list);
                        reply.body.payload = Payload::TopologyOk;
                        sent.push(reply);
                    },
                    None => {
                        return Err(NodeError::MissingTopologyEntry);
                    },
                }
            },
            Payload::BroadcastOk | Payload::ReadOk { .. } | Payload::TopologyOk => {},
        }
        assert(envelopes(sent@) =~= old(self)@.replies(request@)->Ok_0);
        Ok(sent)
    }
}

impl Node<(), Payload, InjectedPayload> for BroadcastNode {
    open spec fn wf(&self) -> bool {
        self@.wf()
    }

    /// A broadcast node takes every event for which it has enough ids left:
    /// one for a message, one for each neighbour for a tick.
    open spec fn accepts(&self, input: &Event<Payload, InjectedPayload>) -> bool {
        self@.accepts(input@)
    }

    open spec fn initialized(state: &(), init: &Init, res: &Result<Self, NodeError>) -> bool {
        res matches Ok(node) && node@ == NodeState::initial(init@)
    }

    open spec fn stepped(
        pre: &Self,
        input: &Event<Payload, InjectedPayload>,
        post: &Self,
        res: Result<Seq<Message<Payload>>, NodeError>,
    ) -> bool {
        &&& post@ == pre@.after(input@)
        &&& viewed(res) == pre@.sends(input@)
    }

    /// A broadcast node takes its name from its configuration and starts a
    /// belief for every node of the cluster.
    fn from_init(state: (), init: Init) -> (res: Result<Self, NodeError>) {
        let mut known: StringHashMap<HashSet<usize>> = StringHashMap::new();
        let mut i: usize = 0;
        while i < init.node_ids.len()
            invariant
                i <= init.node_ids.len(),
                beliefs(known@) == Map::new(
                    |name: Seq<char>| names(init.node_ids@).take(i as int).contains(name),
                    |name: Seq<char>| Set::<usize>::empty(),
                ),
            decreases init.node_ids.len() - i,
        {
            let ghost name = init.node_ids@[i as int]@;
            let ghost before = beliefs(known@);
            known.insert(init.node_ids[i].clone(), HashSet::new());
            proof {
                lemma_one_more_taken(names(init.node_ids@), i as int);
                let next = names(init.node_ids@).take(i + 1);
                assert(names(init.node_ids@)[i as int] == name);
                assert(beliefs(known@) =~= before.insert(name, Set::empty()));
                assert(beliefs(known@) =~= Map::new(
                    |other: Seq<char>| next.contains(other),
                    |other: Seq<char>| Set::<usize>::empty(),
                ));
            }
            i += 1;
        }
        assert(names(init.node_ids@).take(init.node_ids@.len() as int) =~= names(init.node_ids@));
        let node = BroadcastNode {
            id: 1,
            node: init.node_id,
            messages: HashSet::new(),
            known,
            neighbours: Vec::new(),
        };
        assert(node@.neighbours =~= Seq::<Seq<char>>::empty());
        assert(node@.known =~= NodeState::initial(init@).known);
        Ok(node)
    }

    fn ready(&self, input: &Event<Payload, InjectedPayload>) -> (yes: bool) {
        match input {
            Event::Message(_) => self.id < usize::MAX,
            Event::Inject(InjectedPayload::Gossip) => self.neighbours.len() <= usize::MAX - self.id,
            Event::EOF => true,
        }
    }

    /// Handles a message, or gossips on a tick, or does nothing at the end of
    /// the input.
    fn step(&mut self, input: Event<Payload, InjectedPayload>) -> (res: Result<
        Vec<Message<Payload>>,
        NodeError,
    >) {
        match input {
            Event::EOF => {
                let sent: Vec<Message<Payload>> = Vec::new();
                assert(envelopes(sent@) =~= Seq::empty());
                Ok(sent)
            },
            Event::Inject(InjectedPayload::Gossip) => Ok(self.gossip_round()),
            Event::Message(request) => self.handle(request),
        }
    }
}

} // verus!
