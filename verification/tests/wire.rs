use std::collections::HashSet;

use serde_json::Value;
use thor::broadcast::model::InjectedPayload;
use thor::broadcast::topology::Topology;
use thor::broadcast::Payload as BroadcastPayload;
use thor::echo::Payload as EchoPayload;
use thor::error::NodeError;
use thor::json::{count_list, counts, lookup, put, reads, text_list, texts, Json};
use thor::message::{Body, Event, Init, InitPayload, Message};
use thor::node::{Inbound, Outbox};
use thor::unique_ids::Payload as UniquePayload;
use thor::wire::{decode, encode, receive, tag, transmit};

fn lift(value: Value) -> Json {
    match value {
        Value::Null => Json::Null,
        Value::Bool(flag) => Json::Bool(flag),
        Value::Number(number) => match number.as_u64() {
            Some(count) => Json::Count(count),
            None => Json::Number,
        },
        Value::String(text) => Json::Text(text),
        Value::Array(items) => Json::List(items.into_iter().map(lift).collect()),
        Value::Object(members) => {
            Json::Object(members.into_iter().map(|(key, value)| (key, lift(value))).collect())
        }
    }
}

fn lower(json: Json) -> Value {
    match json {
        Json::Null | Json::Number => Value::Null,
        Json::Bool(flag) => Value::Bool(flag),
        Json::Count(count) => Value::Number(count.into()),
        Json::Text(text) => Value::String(text),
        Json::List(items) => Value::Array(items.into_iter().map(lower).collect()),
        Json::Object(members) => {
            Value::Object(members.into_iter().map(|(key, value)| (key, lower(value))).collect())
        }
    }
}

fn record(text: &str) -> Json {
    match serde_json::from_str::<Value>(text) {
        Ok(value) => lift(value),
        Err(e) => panic!("the test record is JSON: {}", e),
    }
}

fn printed(json: Json) -> String {
    lower(json).to_string()
}

fn malformed<T>(res: Result<T, NodeError>) {
    match res {
        Err(e) => assert_eq!(e, NodeError::MalformedEnvelope),
        Ok(_) => panic!("the record stands for no message"),
    }
}

fn message<P>(id: Option<usize>, in_reply_to: Option<usize>, payload: P) -> Message<P> {
    Message {
        src: "n1".to_string(),
        dst: "c1".to_string(),
        body: Body { id, in_reply_to, payload },
    }
}

fn set(values: &[usize]) -> HashSet<usize> {
    values.iter().copied().collect()
}

#[test]
fn an_echo_record_is_decoded() {
    let json = record(r#"{"src":"c1","dest":"n1","body":{"type":"echo","msg_id":1,"echo":"hi"}}"#);
    let message = decode::<EchoPayload>(&json).unwrap();
    assert_eq!(message.src, "c1");
    assert_eq!(message.dst, "n1");
    assert_eq!(message.body.id, Some(1));
    assert_eq!(message.body.in_reply_to, None);
    assert!(matches!(message.body.payload, EchoPayload::Echo { ref echo } if echo == "hi"));
}

#[test]
fn an_echo_ok_is_encoded_with_its_wire_names() {
    let reply = message(Some(1), Some(5), EchoPayload::EchoOk { echo: "hi".to_string() });
    let text = printed(encode(&reply));
    let expected: Value = serde_json::from_str(
        r#"{"src":"n1","dest":"c1","body":{"type":"echo_ok","msg_id":1,"in_reply_to":5,"echo":"hi"}}"#,
    )
    .unwrap();
    assert_eq!(serde_json::from_str::<Value>(&text).unwrap(), expected);
}

#[test]
fn missing_ids_are_left_out_and_not_written_as_null() {
    let gossip = message(None, None, BroadcastPayload::Gossip { seen: set(&[]) });
    let text = printed(encode(&gossip));
    assert!(!text.contains("null"));
    assert!(!text.contains("msg_id"));
    assert!(!text.contains("in_reply_to"));
    let expected: Value =
        serde_json::from_str(r#"{"src":"n1","dest":"c1","body":{"type":"gossip","seen":[]}}"#)
            .unwrap();
    assert_eq!(serde_json::from_str::<Value>(&text).unwrap(), expected);
}

#[test]
fn null_ids_are_read_as_missing() {
    let json = record(
        r#"{"src":"c1","dest":"n1","body":{"type":"read","msg_id":null,"in_reply_to":null}}"#,
    );
    let message = decode::<BroadcastPayload>(&json).unwrap();
    assert_eq!(message.body.id, None);
    assert_eq!(message.body.in_reply_to, None);
    assert!(matches!(message.body.payload, BroadcastPayload::Read));
}

#[test]
fn a_record_without_a_required_member_is_malformed() {
    malformed(decode::<EchoPayload>(&record(r#"{"dest":"n1","body":{"type":"echo","echo":"x"}}"#)));
    malformed(decode::<EchoPayload>(&record(r#"{"src":"c1","body":{"type":"echo","echo":"x"}}"#)));
    malformed(decode::<EchoPayload>(&record(r#"{"src":"c1","dest":"n1"}"#)));
    malformed(decode::<EchoPayload>(&record(r#"{"src":"c1","dest":"n1","body":{"echo":"x"}}"#)));
    malformed(decode::<EchoPayload>(&record(r#"{"src":"c1","dest":"n1","body":{"type":"echo"}}"#)));
}

#[test]
fn a_record_of_the_wrong_shape_is_malformed() {
    malformed(decode::<EchoPayload>(&record(r#"[1,2,3]"#)));
    malformed(decode::<EchoPayload>(&record(r#""text""#)));
    malformed(decode::<EchoPayload>(&record(
        r#"{"src":7,"dest":"n1","body":{"type":"echo","echo":"x"}}"#,
    )));
    malformed(decode::<EchoPayload>(&record(
        r#"{"src":"c1","dest":"n1","body":{"type":"echo","echo":5}}"#,
    )));
    malformed(decode::<EchoPayload>(&record(
        r#"{"src":"c1","dest":"n1","body":{"type":"echo","echo":"x","msg_id":"one"}}"#,
    )));
    malformed(decode::<EchoPayload>(&record(
        r#"{"src":"c1","dest":"n1","body":{"type":"echo","echo":"x","msg_id":-1}}"#,
    )));
    malformed(decode::<EchoPayload>(&record(
        r#"{"src":"c1","dest":"n1","body":{"type":"echo","echo":"x","in_reply_to":1.5}}"#,
    )));
}

#[test]
fn an_unknown_tag_is_malformed() {
    malformed(decode::<EchoPayload>(&record(r#"{"src":"c1","dest":"n1","body":{"type":"shout","echo":"x"}}"#)));
    malformed(decode::<BroadcastPayload>(&record(r#"{"src":"c1","dest":"n1","body":{"type":"echo","echo":"x"}}"#)));
    malformed(decode::<UniquePayload>(&record(r#"{"src":"c1","dest":"n1","body":{"type":"read"}}"#)));
    malformed(decode::<InitPayload>(&record(r#"{"src":"c1","dest":"n1","body":{"type":"generate"}}"#)));
    malformed(decode::<EchoPayload>(&record(r#"{"src":"c1","dest":"n1","body":{"type":7,"echo":"x"}}"#)));
}

#[test]
fn members_that_the_format_does_not_name_are_ignored() {
    let json = record(
        r#"{"id":3,"src":"c1","dest":"n1","extra":[1],"body":{"type":"generate","msg_id":2,"more":{}}}"#,
    );
    let message = decode::<UniquePayload>(&json).unwrap();
    assert_eq!(message.body.id, Some(2));
    assert!(matches!(message.body.payload, UniquePayload::Generate));
}

#[test]
fn the_configuration_is_decoded_and_its_acknowledgment_encoded() {
    let json = record(
        r#"{"src":"c0","dest":"n1","body":{"type":"init","msg_id":1,"node_id":"n1","node_ids":["n1","n2"]}}"#,
    );
    let message = decode::<InitPayload>(&json).unwrap();
    match &message.body.payload {
        InitPayload::Init(init) => {
            assert_eq!(init.node_id, "n1");
            assert_eq!(init.node_ids, vec!["n1".to_string(), "n2".to_string()]);
        }
        InitPayload::InitOk => panic!("the record is an init"),
    }
    let ack = message.into_reply(Some(&mut 0));
    let ack = Message {
        src: ack.src,
        dst: ack.dst,
        body: Body { id: ack.body.id, in_reply_to: ack.body.in_reply_to, payload: InitPayload::InitOk },
    };
    let expected: Value = serde_json::from_str(
        r#"{"src":"n1","dest":"c0","body":{"type":"init_ok","msg_id":0,"in_reply_to":1}}"#,
    )
    .unwrap();
    assert_eq!(lower(encode(&ack)), expected);
}

#[test]
fn an_init_survives_the_wire() {
    let init = message(
        Some(4),
        None,
        InitPayload::Init(Init { node_id: "n9".to_string(), node_ids: vec!["n9".to_string()] }),
    );
    let back = decode::<InitPayload>(&encode(&init)).unwrap();
    assert_eq!(back.body.id, Some(4));
    match back.body.payload {
        InitPayload::Init(init) => {
            assert_eq!(init.node_id, "n9");
            assert_eq!(init.node_ids, vec!["n9".to_string()]);
        }
        InitPayload::InitOk => panic!("the record is an init"),
    }
}

#[test]
fn the_broadcast_payloads_are_decoded() {
    let decoded = |text: &str| decode::<BroadcastPayload>(&record(text)).unwrap().body.payload;
    assert!(matches!(
        decoded(r#"{"src":"c","dest":"n","body":{"type":"broadcast","message":1000}}"#),
        BroadcastPayload::Broadcast { message: 1000 }
    ));
    assert!(matches!(
        decoded(r#"{"src":"c","dest":"n","body":{"type":"broadcast_ok"}}"#),
        BroadcastPayload::BroadcastOk
    ));
    assert!(matches!(
        decoded(r#"{"src":"c","dest":"n","body":{"type":"read"}}"#),
        BroadcastPayload::Read
    ));
    assert!(matches!(
        decoded(r#"{"src":"c","dest":"n","body":{"type":"topology_ok"}}"#),
        BroadcastPayload::TopologyOk
    ));
    match decoded(r#"{"src":"c","dest":"n","body":{"type":"read_ok","messages":[3,1,3]}}"#) {
        BroadcastPayload::ReadOk { messages } => assert_eq!(messages, set(&[1, 3])),
        _ => panic!("the record is a read_ok"),
    }
    match decoded(r#"{"src":"c","dest":"n","body":{"type":"gossip","seen":[]}}"#) {
        BroadcastPayload::Gossip { seen } => assert_eq!(seen, set(&[])),
        _ => panic!("the record is a gossip"),
    }
    match decoded(
        r#"{"src":"c","dest":"n","body":{"type":"topology","topology":{"n1":["n2","n3"],"n2":[]}}}"#,
    ) {
        BroadcastPayload::Topology { topology } => {
            assert_eq!(topology.get("n1"), Some(&vec!["n2".to_string(), "n3".to_string()]));
            assert_eq!(topology.get("n2"), Some(&vec![]));
            assert_eq!(topology.get("n3"), None);
        }
        _ => panic!("the record is a topology"),
    }
}

#[test]
fn broadcast_payloads_with_wrong_fields_are_malformed() {
    let check = |text: &str| malformed(decode::<BroadcastPayload>(&record(text)));
    check(r#"{"src":"c","dest":"n","body":{"type":"broadcast"}}"#);
    check(r#"{"src":"c","dest":"n","body":{"type":"broadcast","message":"7"}}"#);
    check(r#"{"src":"c","dest":"n","body":{"type":"broadcast","message":-7}}"#);
    check(r#"{"src":"c","dest":"n","body":{"type":"read_ok","messages":[1,"2"]}}"#);
    check(r#"{"src":"c","dest":"n","body":{"type":"gossip","seen":7}}"#);
    check(r#"{"src":"c","dest":"n","body":{"type":"gossip"}}"#);
    check(r#"{"src":"c","dest":"n","body":{"type":"topology","topology":["n1"]}}"#);
    check(r#"{"src":"c","dest":"n","body":{"type":"topology","topology":{"n1":"n2"}}}"#);
    check(r#"{"src":"c","dest":"n","body":{"type":"topology","topology":{"n1":["n2",3]}}}"#);
}

#[test]
fn the_broadcast_payloads_survive_the_wire() {
    let mut topology = Topology::new();
    topology.insert("n1".to_string(), vec!["n2".to_string()]);
    topology.insert("n2".to_string(), vec!["n1".to_string(), "n3".to_string()]);
    let sent = message(Some(1), Some(2), BroadcastPayload::Topology { topology });
    match decode::<BroadcastPayload>(&encode(&sent)).unwrap().body.payload {
        BroadcastPayload::Topology { topology } => {
            assert_eq!(topology.get("n1"), Some(&vec!["n2".to_string()]));
            assert_eq!(topology.get("n2"), Some(&vec!["n1".to_string(), "n3".to_string()]));
        }
        _ => panic!("the record is a topology"),
    }
    let sent = message(None, Some(2), BroadcastPayload::ReadOk { messages: set(&[5, 6, 7]) });
    let back = decode::<BroadcastPayload>(&encode(&sent)).unwrap();
    assert_eq!(back.src, "n1");
    assert_eq!(back.dst, "c1");
    assert_eq!(back.body.id, None);
    assert_eq!(back.body.in_reply_to, Some(2));
    match back.body.payload {
        BroadcastPayload::ReadOk { messages } => assert_eq!(messages, set(&[5, 6, 7])),
        _ => panic!("the record is a read_ok"),
    }
    let sent = message(Some(9), None, BroadcastPayload::Broadcast { message: 42 });
    let text = printed(encode(&sent));
    let expected: Value = serde_json::from_str(
        r#"{"src":"n1","dest":"c1","body":{"type":"broadcast","msg_id":9,"message":42}}"#,
    )
    .unwrap();
    assert_eq!(serde_json::from_str::<Value>(&text).unwrap(), expected);
}

#[test]
fn a_generate_ok_carries_the_identifier_under_id() {
    let sent = message(Some(1), Some(1), UniquePayload::GenerateOk { guid: "n1-X".to_string() });
    let expected: Value = serde_json::from_str(
        r#"{"src":"n1","dest":"c1","body":{"type":"generate_ok","msg_id":1,"in_reply_to":1,"id":"n1-X"}}"#,
    )
    .unwrap();
    assert_eq!(lower(encode(&sent)), expected);
    let json = record(r#"{"src":"a","dest":"b","body":{"type":"generate_ok","id":"n1-X"}}"#);
    assert!(matches!(
        decode::<UniquePayload>(&json).unwrap().body.payload,
        UniquePayload::GenerateOk { ref guid } if guid == "n1-X"
    ));
    malformed(decode::<UniquePayload>(&record(
        r#"{"src":"a","dest":"b","body":{"type":"generate_ok","guid":"n1-X"}}"#,
    )));
}

#[test]
fn receive_tells_handshake_messages_from_the_nodes_own() {
    let init = record(
        r#"{"src":"c0","dest":"n1","body":{"type":"init","msg_id":1,"node_id":"n1","node_ids":["n1"]}}"#,
    );
    let input: Inbound<EchoPayload, ()> = receive(&init);
    assert!(matches!(input, Inbound::Handshake(_)));

    let echo = record(r#"{"src":"c1","dest":"n1","body":{"type":"echo","msg_id":2,"echo":"x"}}"#);
    let input: Inbound<EchoPayload, ()> = receive(&echo);
    assert!(matches!(input, Inbound::App(Event::Message(_))));

    let input: Inbound<BroadcastPayload, InjectedPayload> = receive(&echo);
    assert!(matches!(input, Inbound::Malformed));

    let input: Inbound<EchoPayload, ()> = receive(&record(r#"{"src":"c1"}"#));
    assert!(matches!(input, Inbound::Malformed));
}

#[test]
fn transmit_writes_the_acknowledgment_first() {
    let ack = Message {
        src: "n1".to_string(),
        dst: "c0".to_string(),
        body: Body { id: Some(0), in_reply_to: Some(1), payload: InitPayload::InitOk },
    };
    let outbox = Outbox {
        ack: Some(ack),
        messages: vec![
            message(Some(1), Some(7), EchoPayload::EchoOk { echo: "a".to_string() }),
            message(Some(2), Some(8), EchoPayload::EchoOk { echo: "b".to_string() }),
        ],
        last: false,
    };
    let records = transmit(&outbox);
    assert_eq!(records.len(), 3);
    let texts: Vec<Value> = records.into_iter().map(lower).collect();
    assert_eq!(texts[0]["body"]["type"], "init_ok");
    assert_eq!(texts[1]["body"]["echo"], "a");
    assert_eq!(texts[2]["body"]["echo"], "b");

    let outbox: Outbox<EchoPayload> = Outbox { ack: None, messages: vec![], last: false };
    assert!(transmit(&outbox).is_empty());
}

#[test]
fn the_last_member_under_a_key_counts() {
    let mut members: Vec<(String, Json)> = Vec::new();
    put(&mut members, "a", Json::Count(1));
    put(&mut members, "b", Json::Count(2));
    put(&mut members, "a", Json::Count(3));
    assert!(matches!(lookup(&members, "a"), Some(Json::Count(3))));
    assert!(matches!(lookup(&members, "b"), Some(Json::Count(2))));
    assert!(lookup(&members, "c").is_none());
    assert!(lookup(&Vec::new(), "a").is_none());
}

#[test]
fn the_tag_is_the_text_under_type() {
    let mut members: Vec<(String, Json)> = Vec::new();
    assert!(tag(&members).is_none());
    put(&mut members, "type", Json::Count(1));
    assert!(tag(&members).is_none());
    put(&mut members, "type", Json::Text("read".to_string()));
    assert_eq!(tag(&members), Some(&"read".to_string()));
    assert!(reads(&"read".to_string(), "read"));
    assert!(!reads(&"read".to_string(), "read_ok"));
}

#[test]
fn lists_of_texts_and_of_numbers_are_read_and_written() {
    let names = vec!["n1".to_string(), "n2".to_string()];
    match text_list(&names) {
        Json::List(items) => {
            assert_eq!(items.len(), 2);
            assert_eq!(texts(&items), Some(names.clone()));
        }
        _ => panic!("a list of texts is a list"),
    }
    assert_eq!(texts(&vec![Json::Text("a".to_string()), Json::Count(1)]), None);
    assert_eq!(texts(&vec![]), Some(vec![]));

    match count_list(&set(&[4, 5])) {
        Json::List(items) => {
            assert_eq!(items.len(), 2);
            assert_eq!(counts(&items), Some(set(&[4, 5])));
        }
        _ => panic!("a list of numbers is a list"),
    }
    assert_eq!(counts(&vec![Json::Count(1), Json::Count(1), Json::Count(2)]), Some(set(&[1, 2])));
    assert_eq!(counts(&vec![Json::Count(1), Json::Number]), None);
    assert_eq!(counts(&vec![Json::Count(1), Json::Null]), None);
}
