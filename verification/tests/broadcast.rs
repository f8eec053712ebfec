use std::collections::HashSet;

use thor::broadcast::model::InjectedPayload;
use thor::broadcast::topology::Topology;
use thor::broadcast::{BroadcastNode, Payload};
use thor::error::NodeError;
use thor::message::{Body, Event, Init, Message};
use thor::node::Node;

fn node(name: &str, cluster: &[&str]) -> BroadcastNode {
    let init = Init {
        node_id: name.to_string(),
        node_ids: cluster.iter().map(|n| n.to_string()).collect(),
    };
    match BroadcastNode::from_init((), init) {
        Ok(node) => node,
        Err(e) => panic!("a broadcast node is always built: {:?}", e),
    }
}

fn request(src: &str, dst: &str, id: usize, payload: Payload) -> Event<Payload, InjectedPayload> {
    Event::Message(Message {
        src: src.to_string(),
        dst: dst.to_string(),
        body: Body { id: Some(id), in_reply_to: None, payload },
    })
}

fn step(node: &mut BroadcastNode, input: Event<Payload, InjectedPayload>) -> Vec<Message<Payload>> {
    assert!(node.ready(&input));
    match node.step(input) {
        Ok(sent) => sent,
        Err(e) => panic!("the step failed: {:?}", e),
    }
}

fn set(values: &[usize]) -> HashSet<usize> {
    values.iter().copied().collect()
}

fn pair(a: &str, b: &str) -> Topology {
    let mut topology = Topology::new();
    topology.insert(a.to_string(), vec![b.to_string()]);
    topology.insert(b.to_string(), vec![a.to_string()]);
    topology
}

fn read(node: &mut BroadcastNode, name: &str) -> HashSet<usize> {
    let sent = step(node, request("c1", name, 99, Payload::Read));
    assert_eq!(sent.len(), 1);
    match &sent[0].body.payload {
        Payload::ReadOk { messages } => messages.clone(),
        _ => panic!("a read is answered with read_ok"),
    }
}

fn seen(message: &Message<Payload>) -> HashSet<usize> {
    match &message.body.payload {
        Payload::Gossip { seen } => seen.clone(),
        _ => panic!("a tick sends gossip only"),
    }
}

#[test]
fn a_new_node_has_learned_nothing() {
    let mut n1 = node("n1", &["n1", "n2"]);
    assert_eq!(read(&mut n1, "n1"), set(&[]));
}

#[test]
fn broadcast_is_acknowledged_and_remembered() {
    let mut n1 = node("n1", &["n1"]);
    let sent = step(&mut n1, request("c1", "n1", 7, Payload::Broadcast { message: 42 }));
    assert_eq!(sent.len(), 1);
    assert_eq!(sent[0].src, "n1");
    assert_eq!(sent[0].dst, "c1");
    assert_eq!(sent[0].body.id, Some(1));
    assert_eq!(sent[0].body.in_reply_to, Some(7));
    assert!(matches!(sent[0].body.payload, Payload::BroadcastOk));
    assert_eq!(read(&mut n1, "n1"), set(&[42]));
}

#[test]
fn read_returns_the_distinct_values_whatever_the_order_or_repetition() {
    let mut first = node("n1", &["n1"]);
    step(&mut first, request("c1", "n1", 1, Payload::Broadcast { message: 3 }));
    step(&mut first, request("c1", "n1", 2, Payload::Broadcast { message: 1 }));
    step(&mut first, request("n2", "n1", 3, Payload::Gossip { seen: set(&[1, 2]) }));
    step(&mut first, request("c1", "n1", 4, Payload::Broadcast { message: 3 }));

    let mut second = node("n1", &["n1"]);
    step(&mut second, request("n2", "n1", 1, Payload::Gossip { seen: set(&[2, 1]) }));
    step(&mut second, request("c1", "n1", 2, Payload::Broadcast { message: 1 }));
    step(&mut second, request("c1", "n1", 3, Payload::Broadcast { message: 3 }));

    assert_eq!(read(&mut first, "n1"), set(&[1, 2, 3]));
    assert_eq!(read(&mut second, "n1"), set(&[1, 2, 3]));
}

#[test]
fn every_reply_names_its_request() {
    let mut n1 = node("n1", &["n1", "n2"]);
    let broadcast = step(&mut n1, request("c1", "n1", 10, Payload::Broadcast { message: 5 }));
    let read = step(&mut n1, request("c2", "n1", 20, Payload::Read));
    let topology =
        step(&mut n1, request("c3", "n1", 30, Payload::Topology { topology: pair("n1", "n2") }));
    assert_eq!(broadcast[0].body.in_reply_to, Some(10));
    assert_eq!(read[0].body.in_reply_to, Some(20));
    assert_eq!(topology[0].body.in_reply_to, Some(30));
    assert_eq!(broadcast[0].dst, "c1");
    assert_eq!(read[0].dst, "c2");
    assert_eq!(topology[0].dst, "c3");
    assert_eq!(topology[0].src, "n1");
    assert!(matches!(topology[0].body.payload, Payload::TopologyOk));
}

#[test]
fn a_request_without_an_id_gets_a_reply_without_in_reply_to() {
    let mut n1 = node("n1", &["n1"]);
    let input = Event::Message(Message {
        src: "c1".to_string(),
        dst: "n1".to_string(),
        body: Body { id: None, in_reply_to: None, payload: Payload::Read },
    });
    let sent = step(&mut n1, input);
    assert_eq!(sent.len(), 1);
    assert_eq!(sent[0].body.in_reply_to, None);
    assert_eq!(sent[0].body.id, Some(1));
}

#[test]
fn two_nodes_converge_after_two_ticks() {
    let mut a = node("A", &["A", "B"]);
    let mut b = node("B", &["A", "B"]);
    step(&mut a, request("c1", "A", 1, Payload::Topology { topology: pair("A", "B") }));
    step(&mut b, request("c1", "B", 1, Payload::Topology { topology: pair("A", "B") }));
    step(&mut a, request("c1", "A", 2, Payload::Broadcast { message: 42 }));

    for _ in 0..2 {
        for message in step(&mut a, Event::Inject(InjectedPayload::Gossip)) {
            assert_eq!(message.dst, "B");
            step(&mut b, Event::Message(message));
        }
        for message in step(&mut b, Event::Inject(InjectedPayload::Gossip)) {
            assert_eq!(message.dst, "A");
            step(&mut a, Event::Message(message));
        }
    }

    assert_eq!(read(&mut b, "B"), set(&[42]));
    assert_eq!(read(&mut a, "A"), set(&[42]));
}

#[test]
fn a_topology_without_this_node_is_fatal() {
    let mut n3 = node("n3", &["n1", "n2", "n3"]);
    let input = request("c1", "n3", 1, Payload::Topology { topology: pair("n1", "n2") });
    assert!(n3.ready(&input));
    match n3.step(input) {
        Err(e) => assert_eq!(e, NodeError::MissingTopologyEntry),
        Ok(_) => panic!("the node has no entry in this topology"),
    }
}

#[test]
fn an_empty_topology_is_fatal() {
    let mut n1 = node("n1", &["n1"]);
    let input = request("c1", "n1", 1, Payload::Topology { topology: Topology::new() });
    match n1.step(input) {
        Err(e) => assert_eq!(e, NodeError::MissingTopologyEntry),
        Ok(_) => panic!("the node has no entry in this topology"),
    }
}

#[test]
fn empty_gossip_is_a_no_op() {
    let mut n1 = node("n1", &["n1", "n2"]);
    step(&mut n1, request("c1", "n1", 1, Payload::Broadcast { message: 8 }));
    let sent = step(&mut n1, request("n2", "n1", 2, Payload::Gossip { seen: set(&[]) }));
    assert!(sent.is_empty());
    assert_eq!(read(&mut n1, "n1"), set(&[8]));
}

#[test]
fn gossip_is_merged_and_not_answered() {
    let mut n1 = node("n1", &["n1", "n2"]);
    step(&mut n1, request("c1", "n1", 1, Payload::Broadcast { message: 1 }));
    let sent = step(&mut n1, request("n2", "n1", 2, Payload::Gossip { seen: set(&[1, 2, 3]) }));
    assert!(sent.is_empty());
    assert_eq!(read(&mut n1, "n1"), set(&[1, 2, 3]));
}

#[test]
fn stray_replies_are_ignored() {
    let mut n1 = node("n1", &["n1"]);
    step(&mut n1, request("c1", "n1", 1, Payload::Broadcast { message: 4 }));
    assert!(step(&mut n1, request("c1", "n1", 2, Payload::BroadcastOk)).is_empty());
    assert!(step(&mut n1, request("c1", "n1", 3, Payload::TopologyOk)).is_empty());
    let stray = Payload::ReadOk { messages: set(&[77]) };
    assert!(step(&mut n1, request("c1", "n1", 4, stray)).is_empty());
    assert_eq!(read(&mut n1, "n1"), set(&[4]));
}

#[test]
fn the_end_of_the_input_sends_nothing() {
    let mut n1 = node("n1", &["n1"]);
    step(&mut n1, request("c1", "n1", 1, Payload::Broadcast { message: 4 }));
    assert!(step(&mut n1, Event::EOF).is_empty());
    assert_eq!(read(&mut n1, "n1"), set(&[4]));
}

#[test]
fn a_tick_without_neighbours_sends_nothing() {
    let mut n1 = node("n1", &["n1", "n2"]);
    step(&mut n1, request("c1", "n1", 1, Payload::Broadcast { message: 4 }));
    assert!(step(&mut n1, Event::Inject(InjectedPayload::Gossip)).is_empty());
}

#[test]
fn a_tick_tells_each_neighbour_what_it_lacks_and_then_nothing_more() {
    let mut n1 = node("n1", &["n1", "n2", "n3"]);
    let mut topology = Topology::new();
    topology.insert("n1".to_string(), vec!["n2".to_string(), "n3".to_string()]);
    step(&mut n1, request("c1", "n1", 1, Payload::Topology { topology }));
    step(&mut n1, request("c1", "n1", 2, Payload::Broadcast { message: 10 }));
    step(&mut n1, request("c1", "n1", 3, Payload::Broadcast { message: 20 }));

    let first = step(&mut n1, Event::Inject(InjectedPayload::Gossip));
    assert_eq!(first.len(), 2);
    assert_eq!(first[0].src, "n1");
    assert_eq!(first[0].dst, "n2");
    assert_eq!(first[1].dst, "n3");
    assert_eq!(first[0].body.id, Some(4));
    assert_eq!(first[1].body.id, Some(5));
    assert_eq!(first[0].body.in_reply_to, None);
    assert_eq!(first[1].body.in_reply_to, None);
    assert_eq!(seen(&first[0]), set(&[10, 20]));
    assert_eq!(seen(&first[1]), set(&[10, 20]));

    let second = step(&mut n1, Event::Inject(InjectedPayload::Gossip));
    assert_eq!(second.len(), 2);
    assert_eq!(seen(&second[0]), set(&[]));
    assert_eq!(seen(&second[1]), set(&[]));
    assert_eq!(second[0].body.id, Some(6));
    assert_eq!(second[1].body.id, Some(7));

    step(&mut n1, request("c1", "n1", 4, Payload::Broadcast { message: 30 }));
    let third = step(&mut n1, Event::Inject(InjectedPayload::Gossip));
    assert_eq!(seen(&third[0]), set(&[30]));
    assert_eq!(seen(&third[1]), set(&[30]));
}

#[test]
fn a_neighbour_listed_twice_is_told_once() {
    let mut n1 = node("n1", &["n1", "n2"]);
    let mut topology = Topology::new();
    topology.insert("n1".to_string(), vec!["n2".to_string(), "n2".to_string()]);
    step(&mut n1, request("c1", "n1", 1, Payload::Topology { topology }));
    step(&mut n1, request("c1", "n1", 2, Payload::Broadcast { message: 5 }));
    let sent = step(&mut n1, Event::Inject(InjectedPayload::Gossip));
    assert_eq!(sent.len(), 2);
    assert_eq!(seen(&sent[0]), set(&[5]));
    assert_eq!(seen(&sent[1]), set(&[]));
}

#[test]
fn a_neighbour_outside_the_cluster_list_starts_with_nothing_known() {
    let mut n1 = node("n1", &["n1"]);
    step(&mut n1, request("c1", "n1", 1, Payload::Broadcast { message: 9 }));
    let mut topology = Topology::new();
    topology.insert("n1".to_string(), vec!["n7".to_string()]);
    step(&mut n1, request("c1", "n1", 2, Payload::Topology { topology }));
    let sent = step(&mut n1, Event::Inject(InjectedPayload::Gossip));
    assert_eq!(sent.len(), 1);
    assert_eq!(sent[0].dst, "n7");
    assert_eq!(seen(&sent[0]), set(&[9]));
}

#[test]
fn a_later_topology_replaces_the_neighbours() {
    let mut n1 = node("n1", &["n1", "n2", "n3"]);
    step(&mut n1, request("c1", "n1", 1, Payload::Topology { topology: pair("n1", "n2") }));
    step(&mut n1, request("c1", "n1", 2, Payload::Topology { topology: pair("n1", "n3") }));
    let sent = step(&mut n1, Event::Inject(InjectedPayload::Gossip));
    assert_eq!(sent.len(), 1);
    assert_eq!(sent[0].dst, "n3");
}

#[test]
fn message_ids_are_never_reused() {
    let mut n1 = node("n1", &["n1", "n2"]);
    let mut ids: Vec<usize> = Vec::new();
    let sent = step(&mut n1, request("c1", "n1", 1, Payload::Topology { topology: pair("n1", "n2") }));
    ids.extend(sent.iter().filter_map(|m| m.body.id));
    for value in 0..5 {
        let sent = step(&mut n1, request("c1", "n1", value, Payload::Broadcast { message: value }));
        ids.extend(sent.iter().filter_map(|m| m.body.id));
        let sent = step(&mut n1, Event::Inject(InjectedPayload::Gossip));
        ids.extend(sent.iter().filter_map(|m| m.body.id));
    }
    assert_eq!(ids.len(), 11);
    let distinct: HashSet<usize> = ids.iter().copied().collect();
    assert_eq!(distinct.len(), ids.len());
    assert!(ids.windows(2).all(|w| w[0] < w[1]));
}

#[test]
fn topology_entries_can_be_read_and_removed() {
    let mut topology = pair("n1", "n2");
    assert_eq!(topology.get("n1"), Some(&vec!["n2".to_string()]));
    assert_eq!(topology.get("n3"), None);
    assert_eq!(topology.remove("n1"), Some(vec!["n2".to_string()]));
    assert_eq!(topology.get("n1"), None);
    assert_eq!(topology.remove("n1"), None);
    assert_eq!(topology.get("n2"), Some(&vec!["n1".to_string()]));
}

#[test]
fn a_topology_entry_is_replaced_by_a_later_one() {
    let mut topology = Topology::new();
    topology.insert("n1".to_string(), vec!["n2".to_string()]);
    topology.insert("n1".to_string(), vec!["n3".to_string(), "n4".to_string()]);
    assert_eq!(topology.get("n1"), Some(&vec!["n3".to_string(), "n4".to_string()]));
}
