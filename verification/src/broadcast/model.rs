//! The broadcast node as a state machine over mathematical values: what it
//! holds, and what each event makes of it.

use crate::error::NodeError;
use crate::message::{Envelope, Incoming, InitView};
use vstd::prelude::*;

verus! {

/// The time between two gossip ticks, in milliseconds.
pub const GOSSIP_INTERVAL_MILLIS: u64 = 300;

/// The one event that a broadcast node's runtime raises by itself.
#[derive(Debug, Clone, Copy)]
pub enum InjectedPayload {
    /// The gossip timer has fired.
    Gossip,
}

/// A broadcast payload as contracts see it.
pub enum PayloadView {
    Broadcast { message: usize },
    BroadcastOk,
    Read,
    ReadOk { messages: Set<usize> },
    Topology { topology: Map<Seq<char>, Seq<Seq<char>>> },
    TopologyOk,
    Gossip { seen: Set<usize> },
}

/// What a broadcast node holds.
pub struct NodeState {
    /// The id that the next message of this node gets.
    pub next_id: usize,
    /// The node's name.
    pub node: Seq<char>,
    /// Every value that the node has learned.
    pub messages: Set<usize>,
    /// For each node heard of, the values that this node believes it to have.
    pub known: Map<Seq<char>, Set<usize>>,
    /// The nodes that this node gossips to, in order.
    pub neighbours: Seq<Seq<char>>,
}

impl NodeState {
    /// The node's invariant: it believes no node to have a value that it has
    /// not learned itself, and it keeps a belief for every neighbour.
    pub open spec fn wf(self) -> bool {
        &&& forall|name: Seq<char>| #[trigger]
            self.known.contains_key(name) ==> self.known[name].subset_of(self.messages)
        &&& forall|i: int|
            0 <= i < self.neighbours.len() ==> self.known.contains_key(#[trigger] self.neighbours[i])
    }

    /// The state of a node that was just configured: it has learned nothing,
    /// has no neighbours, believes every node of the cluster to have nothing,
    /// and its next message id is 1.
    pub open spec fn initial(init: InitView) -> NodeState {
        NodeState {
            next_id: 1,
            node: init.node_id,
            messages: Set::empty(),
            known: Map::new(
                |name: Seq<char>| init.node_ids.contains(name),
                |name: Seq<char>| Set::empty(),
            ),
            neighbours: Seq::empty(),
        }
    }

    /// The reply to `request` with `payload`, stamped with the next id.
    pub open spec fn reply(self, request: Envelope<PayloadView>, payload: PayloadView) -> Envelope<
        PayloadView,
    > {
        Envelope {
            src: request.dst,
            dst: request.src,
            id: Some(self.next_id),
            in_reply_to: request.id,
            payload,
        }
    }

    /// The beliefs after `list` has become the neighbour list: those held
    /// before, and for each neighbour not heard of before the belief that it
    /// has nothing.
    pub open spec fn beliefs_with(self, list: Seq<Seq<char>>) -> Map<Seq<char>, Set<usize>> {
        Map::new(
            |name: Seq<char>| self.known.contains_key(name) || list.contains(name),
            |name: Seq<char>|
                if self.known.contains_key(name) {
                    self.known[name]
                } else {
                    Set::empty()
                },
        )
    }

    /// The state after `request` has been handled. Every message uses up one
    /// id, also one that gets no reply or that fails.
    pub open spec fn after_message(self, request: Envelope<PayloadView>) -> NodeState {
        let stamped = NodeState { next_id: (self.next_id + 1) as usize, ..self };
        match request.payload {
            PayloadView::Broadcast { message } => NodeState {
                messages: self.messages.insert(message),
                ..stamped
            },
            PayloadView::Gossip { seen } => NodeState {
                messages: self.messages.union(seen),
                ..stamped
            },
            PayloadView::Topology { topology } => if topology.contains_key(self.node) {
                NodeState {
                    neighbours: topology[self.node],
                    known: self.beliefs_with(topology[self.node]),
                    ..stamped
                }
            } else {
                stamped
            },
            _ => stamped,
        }
    }

    /// What handling `request` sends: the reply to a request, nothing for
    /// gossip or for a stray reply; or the error that ends the node.
    pub open spec fn replies(self, request: Envelope<PayloadView>) -> Result<
        Seq<Envelope<PayloadView>>,
        NodeError,
    > {
        match request.payload {
            PayloadView::Broadcast { .. } => Ok(seq![self.reply(request, PayloadView::BroadcastOk)]),
            PayloadView::Read => Ok(
                seq![self.reply(request, PayloadView::ReadOk { messages: self.messages })],
            ),
            PayloadView::Topology { topology } => if topology.contains_key(self.node) {
                Ok(seq![self.reply(request, PayloadView::TopologyOk)])
            } else {
                Err(NodeError::MissingTopologyEntry)
            },
            _ => Ok(Seq::empty()),
        }
    }

    /// The values that the gossip to the `k`-th neighbour carries: what the
    /// node has learned and does not believe that neighbour to have. A
    /// neighbour that stands earlier in the list too was told everything
    /// there, and is told nothing more.
    pub open spec fn news_for(self, k: int) -> Set<usize> {
        if self.neighbours.take(k).contains(self.neighbours[k]) {
            Set::empty()
        } else {
            self.messages.difference(self.known[self.neighbours[k]])
        }
    }

    /// The gossip that a tick sends to the `k`-th neighbour.
    pub open spec fn gossip_to(self, k: int) -> Envelope<PayloadView> {
        Envelope {
            src: self.node,
            dst: self.neighbours[k],
            id: Some((self.next_id + k) as usize),
            in_reply_to: None,
            payload: PayloadView::Gossip { seen: self.news_for(k) },
        }
    }

    /// What a tick sends: one gossip to each neighbour, in the order of the
    /// list, whether or not there is anything new to tell.
    pub open spec fn gossip(self) -> Seq<Envelope<PayloadView>> {
        Seq::new(self.neighbours.len(), |k: int| self.gossip_to(k))
    }

    /// The state after a tick: every gossip used up one id, and every
    /// neighbour is now believed to have all that the node has learned.
    pub open spec fn after_tick(self) -> NodeState {
        NodeState {
            next_id: (self.next_id + self.neighbours.len()) as usize,
            known: Map::new(
                |name: Seq<char>| self.known.contains_key(name),
                |name: Seq<char>|
                    if self.neighbours.contains(name) {
                        self.messages
                    } else {
                        self.known[name]
                    },
            ),
            ..self
        }
    }

    /// The events that the node can take: those for which it has enough ids
    /// left.
    pub open spec fn accepts(self, input: Incoming<PayloadView, InjectedPayload>) -> bool {
        match input {
            Incoming::Message(_) => self.next_id < usize::MAX,
            Incoming::Inject(InjectedPayload::Gossip) => self.next_id + self.neighbours.len()
                <= usize::MAX,
            Incoming::EOF => true,
        }
    }

    /// The state after `input` has been handled.
    pub open spec fn after(self, input: Incoming<PayloadView, InjectedPayload>) -> NodeState {
        match input {
            Incoming::Message(request) => self.after_message(request),
            Incoming::Inject(InjectedPayload::Gossip) => self.after_tick(),
            Incoming::EOF => self,
        }
    }

    /// What handling `input` sends, or the error that ends the node.
    pub open spec fn sends(self, input: Incoming<PayloadView, InjectedPayload>) -> Result<
        Seq<Envelope<PayloadView>>,
        NodeError,
    > {
        match input {
            Incoming::Message(request) => self.replies(request),
            Incoming::Inject(InjectedPayload::Gossip) => Ok(self.gossip()),
            Incoming::EOF => Ok(Seq::empty()),
        }
    }
}

} // verus!
