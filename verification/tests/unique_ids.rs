use std::collections::HashSet;

use thor::message::{Body, Event, Init, Message};
use thor::node::Node;
use thor::unique_ids::{unique_id, Payload, UniqueNode};

fn unique_node(name: &str) -> UniqueNode {
    let init = Init { node_id: name.to_string(), node_ids: vec![name.to_string()] };
    match UniqueNode::from_init((), init) {
        Ok(node) => node,
        Err(e) => panic!("a unique-id node is always built: {:?}", e),
    }
}

fn generate(id: usize, name: &str) -> Message<Payload> {
    Message {
        src: "c1".to_string(),
        dst: name.to_string(),
        body: Body { id: Some(id), in_reply_to: None, payload: Payload::Generate },
    }
}

fn guid(message: &Message<Payload>) -> String {
    match &message.body.payload {
        Payload::GenerateOk { guid } => guid.clone(),
        _ => panic!("a generate is answered with generate_ok"),
    }
}

#[test]
fn an_identifier_is_the_name_a_hyphen_and_the_ulid() {
    assert_eq!(unique_id("n1", "01D39ZY06FGSCTVN4T2V9PKHFZ"), "n1-01D39ZY06FGSCTVN4T2V9PKHFZ");
    assert_eq!(unique_id("", "X"), "-X");
    assert_eq!(unique_id("node", ""), "node-");
}

#[test]
fn respond_uses_the_ulid_it_is_given() {
    let mut node = unique_node("n2");
    let sent = node.respond(generate(3, "n2"), "01D39ZY06FGSCTVN4T2V9PKHFZ".to_string());
    assert_eq!(sent.len(), 1);
    assert_eq!(sent[0].src, "n2");
    assert_eq!(sent[0].dst, "c1");
    assert_eq!(sent[0].body.id, Some(1));
    assert_eq!(sent[0].body.in_reply_to, Some(3));
    assert_eq!(guid(&sent[0]), "n2-01D39ZY06FGSCTVN4T2V9PKHFZ");
}

#[test]
fn respond_ignores_generate_ok() {
    let mut node = unique_node("n2");
    let stray = Message {
        src: "c1".to_string(),
        dst: "n2".to_string(),
        body: Body {
            id: Some(1),
            in_reply_to: None,
            payload: Payload::GenerateOk { guid: "g".to_string() },
        },
    };
    assert!(node.respond(stray, "01D39ZY06FGSCTVN4T2V9PKHFZ".to_string()).is_empty());
    let sent = node.respond(generate(2, "n2"), "01D39ZY06FGSCTVN4T2V9PKHFZ".to_string());
    assert_eq!(sent[0].body.id, Some(2));
}

#[test]
fn generated_identifiers_are_distinct_and_carry_the_node_name() {
    let mut node = unique_node("n1");
    let mut ids: HashSet<String> = HashSet::new();
    for round in 0..200 {
        let input = Event::Message(generate(round, "n1"));
        assert!(node.ready(&input));
        let sent = node.step(input).unwrap();
        assert_eq!(sent.len(), 1);
        assert_eq!(sent[0].body.in_reply_to, Some(round));
        assert_eq!(sent[0].body.id, Some(round + 1));
        let id = guid(&sent[0]);
        assert!(id.starts_with("n1-"));
        assert_eq!(id.len(), 3 + 26);
        assert!(id[3..].chars().all(|c| "0123456789ABCDEFGHJKMNPQRSTVWXYZ".contains(c)));
        ids.insert(id);
    }
    assert_eq!(ids.len(), 200);
}

#[test]
fn a_unique_id_node_takes_messages_only() {
    let node = unique_node("n1");
    assert!(!node.ready(&Event::EOF));
    assert!(!node.ready(&Event::Inject(())));
    assert!(node.ready(&Event::Message(generate(1, "n1"))));
}
