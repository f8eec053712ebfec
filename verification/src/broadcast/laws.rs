//! What holds of every broadcast node, proved of the state machine that the
//! node's `step` is held to.

use crate::broadcast::model::{InjectedPayload, NodeState, PayloadView};
use crate::error::NodeError;
use crate::message::{answers, Envelope, Incoming};
use vstd::prelude::*;

verus! {

/// The state after a sequence of events has been handled, in order.
pub open spec fn run(start: NodeState, inputs: Seq<Incoming<PayloadView, InjectedPayload>>) -> NodeState
    decreases inputs.len(),
{
    if inputs.len() == 0 {
        start
    } else {
        run(start, inputs.drop_last()).after(inputs.last())
    }
}

/// The values that an event brings to a node: the value of a `broadcast`, the
/// values of a `gossip`, and nothing otherwise.
pub open spec fn carried(input: Incoming<PayloadView, InjectedPayload>) -> Set<usize> {
    match input {
        Incoming::Message(request) => match request.payload {
            PayloadView::Broadcast { message } => set![message],
            PayloadView::Gossip { seen } => seen,
            _ => Set::empty(),
        },
        _ => Set::empty(),
    }
}

/// The values that a sequence of events brings to a node.
pub open spec fn delivered(inputs: Seq<Incoming<PayloadView, InjectedPayload>>) -> Set<usize>
    decreases inputs.len(),
{
    if inputs.len() == 0 {
        Set::empty()
    } else {
        delivered(inputs.drop_last()).union(carried(inputs.last()))
    }
}

/// A value is delivered by a sequence exactly if one of its events carries
/// it: neither the order of the events nor a repetition matters.
pub proof fn lemma_delivered_is_what_some_event_carries(
    inputs: Seq<Incoming<PayloadView, InjectedPayload>>,
    value: usize,
)
    ensures
        delivered(inputs).contains(value) <==> exists|i: int|
            0 <= i < inputs.len() && carried(#[trigger] inputs[i]).contains(value),
    decreases inputs.len(),
{
    if inputs.len() > 0 {
        let front = inputs.drop_last();
        lemma_delivered_is_what_some_event_carries(front, value);
        if delivered(front).contains(value) {
            let i = choose|i: int| 0 <= i < front.len() && carried(#[trigger] front[i]).contains(value);
            assert(inputs[i] == front[i]);
        }
        if carried(inputs.last()).contains(value) {
            assert(inputs[inputs.len() - 1] == inputs.last());
        }
        if exists|i: int| 0 <= i < inputs.len() && carried(#[trigger] inputs[i]).contains(value) {
            let i = choose|i: int|
                0 <= i < inputs.len() && carried(#[trigger] inputs[i]).contains(value);
            if i < front.len() {
                assert(front[i] == inputs[i]);
            }
        }
    }
}

/// An event adds to a node's values exactly what it carries.
pub proof fn lemma_event_adds_what_it_carries(
    state: NodeState,
    input: Incoming<PayloadView, InjectedPayload>,
)
    ensures
        state.after(input).messages == state.messages.union(carried(input)),
{
    assert(state.after(input).messages =~= state.messages.union(carried(input)));
}

/// After any sequence of events a node holds what it held before and what the
/// events delivered, and nothing else.
pub proof fn lemma_run_collects_what_was_delivered(
    start: NodeState,
    inputs: Seq<Incoming<PayloadView, InjectedPayload>>,
)
    ensures
        run(start, inputs).messages == start.messages.union(delivered(inputs)),
    decreases inputs.len(),
{
    if inputs.len() == 0 {
        assert(run(start, inputs).messages =~= start.messages.union(delivered(inputs)));
    } else {
        lemma_run_collects_what_was_delivered(start, inputs.drop_last());
        lemma_event_adds_what_it_carries(run(start, inputs.drop_last()), inputs.last());
        assert(run(start, inputs).messages =~= start.messages.union(delivered(inputs)));
    }
}

/// A `read` after any sequence of broadcasts and gossip, in any order and
/// with any repetition, is answered with exactly the values that the node
/// held at the start or that were broadcast or gossiped to it since.
pub proof fn lemma_read_returns_all_that_was_delivered(
    start: NodeState,
    inputs: Seq<Incoming<PayloadView, InjectedPayload>>,
    read: Envelope<PayloadView>,
)
    requires
        read.payload is Read,
    ensures
        run(start, inputs).replies(read) == Ok::<_, NodeError>(
            seq![
                run(start, inputs).reply(
                    read,
                    PayloadView::ReadOk { messages: start.messages.union(delivered(inputs)) },
                ),
            ],
        ),
{
    lemma_run_collects_what_was_delivered(start, inputs);
}

/// Every reply answers the request that produced it: it goes back to the
/// sender, and its `in_reply_to` is the request's id.
pub proof fn lemma_replies_answer_the_request(state: NodeState, request: Envelope<PayloadView>)
    ensures
        state.replies(request) matches Ok(sent) ==> forall|i: int|
            0 <= i < sent.len() ==> answers(#[trigger] sent[i], request),
{
}

/// Gossip answers nothing: no message of a tick carries `in_reply_to`.
pub proof fn lemma_gossip_answers_nothing(state: NodeState)
    ensures
        forall|k: int|
            0 <= k < state.gossip().len() ==> (#[trigger] state.gossip()[k]).in_reply_to is None,
{
}

/// A `gossip` without values changes nothing but the id counter, and is not
/// answered.
pub proof fn lemma_empty_gossip_is_a_no_op(state: NodeState, request: Envelope<PayloadView>)
    requires
        request.payload == (PayloadView::Gossip { seen: Set::empty() }),
    ensures
        state.after_message(request).messages == state.messages,
        state.after_message(request).known == state.known,
        state.after_message(request).neighbours == state.neighbours,
        state.after_message(request).node == state.node,
        state.replies(request) == Ok::<Seq<Envelope<PayloadView>>, NodeError>(
            Seq::empty(),
        ),
{
    assert(state.messages.union(Set::empty()) =~= state.messages);
}

/// No event takes a value away from a node.
pub proof fn lemma_messages_only_grow(
    state: NodeState,
    input: Incoming<PayloadView, InjectedPayload>,
)
    ensures
        state.messages.subset_of(state.after(input).messages),
{
    lemma_event_adds_what_it_carries(state, input);
}

/// No event breaks the node's invariant: after it the node still believes no
/// node to have a value that it has not learned itself, and still keeps a
/// belief for every neighbour.
pub proof fn lemma_events_keep_the_invariant(
    state: NodeState,
    input: Incoming<PayloadView, InjectedPayload>,
)
    requires
        state.wf(),
    ensures
        state.after(input).wf(),
{
    let next = state.after(input);
    lemma_messages_only_grow(state, input);
    match input {
        Incoming::Message(request) => {
            match request.payload {
                PayloadView::Topology { topology } => {
                    if topology.contains_key(state.node) {
                        let list = topology[state.node];
                        assert forall|i: int| 0 <= i < next.neighbours.len() implies next.known.contains_key(
                            #[trigger] next.neighbours[i],
                        ) by {
                            assert(list.contains(list[i]));
                        }
                    }
                },
                _ => {},
            }
        },
        Incoming::Inject(InjectedPayload::Gossip) => {},
        Incoming::EOF => {},
    }
}

/// The id counter never gives a value twice. An event that the node accepts
/// never moves the counter back, every message it sends is stamped with one
/// of the ids that the event used up, and no two of them with the same.
pub proof fn lemma_ids_are_never_reused(
    state: NodeState,
    input: Incoming<PayloadView, InjectedPayload>,
)
    requires
        state.accepts(input),
    ensures
        state.next_id <= state.after(input).next_id,
        state.sends(input) matches Ok(sent) ==> {
            &&& forall|i: int|
                0 <= i < sent.len() ==> ((#[trigger] sent[i]).id matches Some(id) && state.next_id
                    <= id < state.after(input).next_id)
            &&& forall|i: int, j: int|
                0 <= i < j < sent.len() ==> (#[trigger] sent[i]).id != (#[trigger] sent[j]).id
        },
{
}

/// A step fails on one kind of input only: a `topology` that has no entry for
/// this node. It then fails with `MissingTopologyEntry`.
pub proof fn lemma_only_a_topology_without_this_node_is_fatal(
    state: NodeState,
    input: Incoming<PayloadView, InjectedPayload>,
)
    ensures
        state.sends(input) is Err <==> (input matches Incoming::Message(request)
            && request.payload matches PayloadView::Topology { topology }
            && !topology.contains_key(state.node)),
        state.sends(input) matches Err(e) ==> e == NodeError::MissingTopologyEntry,
{
}

/// Whether a node that starts in `start` can take each event of `inputs` in
/// its turn.
pub open spec fn takes_all(
    start: NodeState,
    inputs: Seq<Incoming<PayloadView, InjectedPayload>>,
) -> bool {
    forall|i: int|
        0 <= i < inputs.len() ==> run(start, inputs.take(i)).accepts(#[trigger] inputs[i])
}

/// Along a run the id counter never moves back.
pub proof fn lemma_counter_never_moves_back(
    start: NodeState,
    inputs: Seq<Incoming<PayloadView, InjectedPayload>>,
    i: int,
    j: int,
)
    requires
        takes_all(start, inputs),
        0 <= i <= j <= inputs.len(),
    ensures
        run(start, inputs.take(i)).next_id <= run(start, inputs.take(j)).next_id,
    decreases j - i,
{
    if i < j {
        lemma_counter_never_moves_back(start, inputs, i, j - 1);
        assert(inputs.take(j).drop_last() =~= inputs.take(j - 1));
        assert(inputs.take(j).last() == inputs[j - 1]);
        lemma_ids_are_never_reused(run(start, inputs.take(j - 1)), inputs[j - 1]);
    }
}

/// No id is used twice in the life of a node: a message sent on a later
/// event carries a greater id than any message sent on an earlier one.
pub proof fn lemma_later_messages_carry_greater_ids(
    start: NodeState,
    inputs: Seq<Incoming<PayloadView, InjectedPayload>>,
    i: int,
    j: int,
    earlier: Seq<Envelope<PayloadView>>,
    later: Seq<Envelope<PayloadView>>,
)
    requires
        takes_all(start, inputs),
        0 <= i < j < inputs.len(),
        run(start, inputs.take(i)).sends(inputs[i]) == Ok::<_, NodeError>(earlier),
        run(start, inputs.take(j)).sends(inputs[j]) == Ok::<_, NodeError>(later),
    ensures
        forall|a: int, b: int|
            0 <= a < earlier.len() && 0 <= b < later.len() ==> ((#[trigger] earlier[a]).id matches Some(
                x,
            ) && (#[trigger] later[b]).id matches Some(y) && x < y),
{
    lemma_ids_are_never_reused(run(start, inputs.take(i)), inputs[i]);
    lemma_ids_are_never_reused(run(start, inputs.take(j)), inputs[j]);
    lemma_counter_never_moves_back(start, inputs, i + 1, j);
    assert(inputs.take(i + 1).drop_last() =~= inputs.take(i));
    assert(inputs.take(i + 1).last() == inputs[i]);
}

/// Whether what `sender` believes `receiver` to have, `receiver` does have.
pub open spec fn believes_rightly(sender: NodeState, receiver: NodeState) -> bool {
    sender.known.contains_key(receiver.node) ==> sender.known[receiver.node].subset_of(
        receiver.messages,
    )
}

/// A belief that is right stays right whatever the receiver handles: it
/// never loses a value.
pub proof fn lemma_belief_stays_right_as_the_receiver_goes_on(
    sender: NodeState,
    receiver: NodeState,
    input: Incoming<PayloadView, InjectedPayload>,
)
    requires
        believes_rightly(sender, receiver),
    ensures
        believes_rightly(sender, receiver.after(input)),
{
    lemma_messages_only_grow(receiver, input);
}

/// A belief that is right stays right whatever message the sender handles:
/// a message changes no belief, and starts a new one with nothing in it.
pub proof fn lemma_belief_stays_right_as_the_sender_handles_messages(
    sender: NodeState,
    receiver: NodeState,
    request: Envelope<PayloadView>,
)
    requires
        believes_rightly(sender, receiver),
    ensures
        believes_rightly(sender.after_message(request), receiver),
{
}

/// A belief that is right stays right over a tick, if the gossip that the
/// tick sends arrives: the sender then believes the receiver to have all that
/// it has learned itself, and the receiver has it.
pub proof fn lemma_belief_stays_right_over_a_tick(sender: NodeState, receiver: NodeState, k: int)
    requires
        sender.wf(),
        believes_rightly(sender, receiver),
        0 <= k < sender.neighbours.len(),
        sender.neighbours[k] == receiver.node,
        !sender.neighbours.take(k).contains(sender.neighbours[k]),
    ensures
        believes_rightly(sender.after_tick(), receiver.after_message(sender.gossip()[k])),
        sender.after_tick().known[receiver.node] == sender.messages,
        sender.messages.subset_of(receiver.after_message(sender.gossip()[k]).messages),
{
    assert(sender.neighbours.contains(sender.neighbours[k]));
}

/// One tick brings a neighbour up to date. If what the node believes its
/// `k`-th neighbour to have is right, the gossip that a tick sends to that
/// neighbour leaves it with every value that the node has learned.
pub proof fn lemma_gossip_brings_a_neighbour_up_to_date(
    sender: NodeState,
    receiver: NodeState,
    k: int,
)
    requires
        0 <= k < sender.neighbours.len(),
        !sender.neighbours.take(k).contains(sender.neighbours[k]),
        sender.known[sender.neighbours[k]].subset_of(receiver.messages),
    ensures
        sender.messages.subset_of(receiver.after_message(sender.gossip()[k]).messages),
{
}

} // verus!
