use holstatus::echo;
use holstatus::error::MalformedEnvelope;
use holstatus::generate_id;
use holstatus::init::InitPayload;
use holstatus::message::{decode, encode, from_value, to_value, Message, MessageBody};
use holstatus::single_broadcast;
use holstatus::topology::Topology;

fn envelope<P>(src: &str, dest: &str, msg_id: Option<usize>, in_reply_to: Option<usize>, payload: P) -> Message<P> {
    Message {
        src: src.to_string(),
        dest: dest.to_string(),
        body: MessageBody { msg_id, in_reply_to, payload },
    }
}

#[test]
fn encode_writes_compact_json_and_a_line_feed() {
    let m = envelope("n1", "c1", Some(2), Some(1), echo::Payload::EchoOk { echo: "hi".to_string() });
    let line = encode(&m).unwrap();
    assert_eq!(
        line,
        "{\"body\":{\"echo\":\"hi\",\"in_reply_to\":1,\"msg_id\":2,\"type\":\"echo_ok\"},\"dest\":\"c1\",\"src\":\"n1\"}\n"
    );
}

#[test]
fn encode_agrees_with_the_documented_wire_form() {
    let m = envelope("n1", "c1", Some(7), Some(1), echo::Payload::EchoOk { echo: "hi".to_string() });
    let written: serde_json::Value = serde_json::from_str(&encode(&m).unwrap()).unwrap();
    let expected: serde_json::Value = serde_json::from_str(
        "{\"src\":\"n1\",\"dest\":\"c1\",\"body\":{\"msg_id\":7,\"in_reply_to\":1,\"type\":\"echo_ok\",\"echo\":\"hi\"}}",
    ).unwrap();
    assert_eq!(written, expected);
}

#[test]
fn encode_writes_null_for_absent_identifiers() {
    let m = envelope("a", "b", None, None, generate_id::Payload::Generate);
    let line = encode(&m).unwrap();
    assert_eq!(
        line,
        "{\"body\":{\"in_reply_to\":null,\"msg_id\":null,\"type\":\"generate\"},\"dest\":\"b\",\"src\":\"a\"}\n"
    );
}

#[test]
fn encode_keeps_the_line_whole_when_the_text_has_line_breaks() {
    let m = envelope("n1", "c1", Some(1), None, echo::Payload::Echo { echo: "two\nlines\r\n".to_string() });
    let line = encode(&m).unwrap();
    assert!(line.ends_with('\n'));
    assert_eq!(line.matches('\n').count(), 1);
    let back = decode::<echo::Payload>(&line).unwrap();
    match back.body.payload {
        echo::Payload::Echo { echo } => assert_eq!(echo, "two\nlines\r\n"),
        other => panic!("unexpected payload {:?}", other),
    }
}

#[test]
fn decode_reads_the_documented_echo_request() {
    let m = decode::<echo::Payload>(
        "{\"src\":\"c1\",\"dest\":\"n1\",\"body\":{\"msg_id\":1,\"type\":\"echo\",\"echo\":\"hi\"}}",
    ).unwrap();
    assert_eq!(m.src, "c1");
    assert_eq!(m.dest, "n1");
    assert_eq!(m.body.msg_id, Some(1));
    assert_eq!(m.body.in_reply_to, None);
    match m.body.payload {
        echo::Payload::Echo { echo } => assert_eq!(echo, "hi"),
        other => panic!("unexpected payload {:?}", other),
    }
}

#[test]
fn decode_reads_the_documented_init_request() {
    let m = decode::<InitPayload>(
        "{\"src\":\"c0\",\"dest\":\"n3\",\"body\":{\"msg_id\":1,\"type\":\"init\",\"node_id\":\"n3\",\"node_ids\":[\"n1\",\"n2\",\"n3\"]}}\n",
    ).unwrap();
    assert_eq!(m.body.msg_id, Some(1));
    match m.body.payload {
        InitPayload::Init { node_id, node_ids } => {
            assert_eq!(node_id, "n3");
            assert_eq!(node_ids, vec!["n1".to_string(), "n2".to_string(), "n3".to_string()]);
        },
        other => panic!("unexpected payload {:?}", other),
    }
}

#[test]
fn decode_takes_null_identifiers_as_absent() {
    let m = decode::<generate_id::Payload>(
        "{\"src\":\"a\",\"dest\":\"b\",\"body\":{\"msg_id\":null,\"in_reply_to\":null,\"type\":\"generate\"}}",
    ).unwrap();
    assert_eq!(m.body.msg_id, None);
    assert_eq!(m.body.in_reply_to, None);
    assert!(matches!(m.body.payload, generate_id::Payload::Generate));
}

#[test]
fn decode_ignores_members_it_does_not_know() {
    let m = decode::<single_broadcast::Payload>(
        "{\"src\":\"a\",\"dest\":\"b\",\"extra\":[1,2],\"body\":{\"msg_id\":4,\"type\":\"read\",\"why\":\"because\"}}",
    ).unwrap();
    assert_eq!(m.body.msg_id, Some(4));
    assert!(matches!(m.body.payload, single_broadcast::Payload::Read));
}

#[test]
fn decode_reads_the_identifier_under_its_wire_name() {
    let m = decode::<generate_id::Payload>(
        "{\"src\":\"n1\",\"dest\":\"c1\",\"body\":{\"msg_id\":2,\"in_reply_to\":1,\"type\":\"generate_ok\",\"id\":\"n1-1\"}}",
    ).unwrap();
    assert_eq!(m.body.in_reply_to, Some(1));
    match m.body.payload {
        generate_id::Payload::GenerateOk { guid } => assert_eq!(guid, "n1-1"),
        other => panic!("unexpected payload {:?}", other),
    }
}

#[test]
fn decode_rejects_text_that_is_no_json() {
    assert_eq!(decode::<echo::Payload>("").err(), Some(MalformedEnvelope::Syntax));
    assert_eq!(decode::<echo::Payload>("{\"src\":").err(), Some(MalformedEnvelope::Syntax));
    assert_eq!(decode::<echo::Payload>("not json").err(), Some(MalformedEnvelope::Syntax));
}

#[test]
fn decode_rejects_a_document_that_is_no_object() {
    assert_eq!(decode::<echo::Payload>("[1,2,3]").err(), Some(MalformedEnvelope::TypeMismatch));
    assert_eq!(decode::<echo::Payload>("\"hello\"").err(), Some(MalformedEnvelope::TypeMismatch));
}

#[test]
fn decode_reports_a_missing_member() {
    assert_eq!(
        decode::<echo::Payload>("{\"src\":\"a\",\"body\":{\"type\":\"echo\",\"echo\":\"x\"}}").err(),
        Some(MalformedEnvelope::MissingField)
    );
    assert_eq!(
        decode::<echo::Payload>("{\"src\":\"a\",\"dest\":\"b\",\"body\":{\"type\":\"echo\"}}").err(),
        Some(MalformedEnvelope::MissingField)
    );
    assert_eq!(
        decode::<echo::Payload>("{\"src\":\"a\",\"dest\":\"b\",\"body\":{\"echo\":\"x\"}}").err(),
        Some(MalformedEnvelope::MissingField)
    );
    assert_eq!(
        decode::<InitPayload>("{\"src\":\"a\",\"dest\":\"b\",\"body\":{\"type\":\"init\",\"node_id\":\"n1\"}}").err(),
        Some(MalformedEnvelope::MissingField)
    );
}

#[test]
fn decode_reports_an_unknown_tag() {
    assert_eq!(
        decode::<echo::Payload>("{\"src\":\"a\",\"dest\":\"b\",\"body\":{\"type\":\"generate\"}}").err(),
        Some(MalformedEnvelope::UnknownTag)
    );
    assert_eq!(
        decode::<InitPayload>("{\"src\":\"a\",\"dest\":\"b\",\"body\":{\"type\":\"echo\",\"echo\":\"x\"}}").err(),
        Some(MalformedEnvelope::UnknownTag)
    );
}

#[test]
fn decode_reports_a_member_of_the_wrong_type() {
    assert_eq!(
        decode::<echo::Payload>("{\"src\":1,\"dest\":\"b\",\"body\":{\"type\":\"echo\",\"echo\":\"x\"}}").err(),
        Some(MalformedEnvelope::TypeMismatch)
    );
    assert_eq!(
        decode::<echo::Payload>("{\"src\":\"a\",\"dest\":\"b\",\"body\":{\"msg_id\":\"7\",\"type\":\"echo\",\"echo\":\"x\"}}").err(),
        Some(MalformedEnvelope::TypeMismatch)
    );
    assert_eq!(
        decode::<echo::Payload>("{\"src\":\"a\",\"dest\":\"b\",\"body\":{\"msg_id\":-1,\"type\":\"echo\",\"echo\":\"x\"}}").err(),
        Some(MalformedEnvelope::TypeMismatch)
    );
    assert_eq!(
        decode::<echo::Payload>("{\"src\":\"a\",\"dest\":\"b\",\"body\":{\"msg_id\":1.5,\"type\":\"echo\",\"echo\":\"x\"}}").err(),
        Some(MalformedEnvelope::TypeMismatch)
    );
    assert_eq!(
        decode::<echo::Payload>("{\"src\":\"a\",\"dest\":\"b\",\"body\":{\"type\":\"echo\",\"echo\":5}}").err(),
        Some(MalformedEnvelope::TypeMismatch)
    );
    assert_eq!(
        decode::<echo::Payload>("{\"src\":\"a\",\"dest\":\"b\",\"body\":{\"type\":7,\"echo\":\"x\"}}").err(),
        Some(MalformedEnvelope::TypeMismatch)
    );
    assert_eq!(
        decode::<single_broadcast::Payload>("{\"src\":\"a\",\"dest\":\"b\",\"body\":{\"type\":\"read_ok\",\"messages\":[1,\"2\"]}}").err(),
        Some(MalformedEnvelope::TypeMismatch)
    );
    assert_eq!(
        decode::<single_broadcast::Payload>("{\"src\":\"a\",\"dest\":\"b\",\"body\":{\"type\":\"topology\",\"topology\":{\"n1\":[\"n2\",3]}}}").err(),
        Some(MalformedEnvelope::TypeMismatch)
    );
    assert_eq!(
        decode::<echo::Payload>("{\"src\":\"a\",\"dest\":\"b\",\"body\":[]}").err(),
        Some(MalformedEnvelope::TypeMismatch)
    );
}

#[test]
fn round_trip_of_init_payloads() {
    let m = envelope("c0", "n1", Some(1), None, InitPayload::Init {
        node_id: "n1".to_string(),
        node_ids: vec!["n1".to_string(), "n2".to_string()],
    });
    let back = decode::<InitPayload>(&encode(&m).unwrap()).unwrap();
    assert_eq!((back.src.as_str(), back.dest.as_str()), ("c0", "n1"));
    assert_eq!((back.body.msg_id, back.body.in_reply_to), (Some(1), None));
    match back.body.payload {
        InitPayload::Init { node_id, node_ids } => {
            assert_eq!(node_id, "n1");
            assert_eq!(node_ids, vec!["n1".to_string(), "n2".to_string()]);
        },
        other => panic!("unexpected payload {:?}", other),
    }
    let ok = envelope("n1", "c0", Some(1), Some(1), InitPayload::InitOk);
    let back = decode::<InitPayload>(&encode(&ok).unwrap()).unwrap();
    assert_eq!((back.body.msg_id, back.body.in_reply_to), (Some(1), Some(1)));
    assert!(matches!(back.body.payload, InitPayload::InitOk));
}

#[test]
fn round_trip_of_echo_payloads() {
    let text = "quote \" backslash \\ tab \t snowman \u{2603}";
    let m = envelope("c1", "c1", Some(usize::MAX), Some(0), echo::Payload::Echo { echo: text.to_string() });
    let back = decode::<echo::Payload>(&encode(&m).unwrap()).unwrap();
    assert_eq!((back.src.as_str(), back.dest.as_str()), ("c1", "c1"));
    assert_eq!((back.body.msg_id, back.body.in_reply_to), (Some(usize::MAX), Some(0)));
    match back.body.payload {
        echo::Payload::Echo { echo } => assert_eq!(echo, text),
        other => panic!("unexpected payload {:?}", other),
    }
    let m = envelope("n1", "c1", None, Some(3), echo::Payload::EchoOk { echo: String::new() });
    let back = decode::<echo::Payload>(&encode(&m).unwrap()).unwrap();
    assert_eq!((back.body.msg_id, back.body.in_reply_to), (None, Some(3)));
    match back.body.payload {
        echo::Payload::EchoOk { echo } => assert_eq!(echo, ""),
        other => panic!("unexpected payload {:?}", other),
    }
}

#[test]
fn round_trip_of_generate_payloads() {
    let m = envelope("c1", "n1", Some(5), None, generate_id::Payload::Generate);
    let back = decode::<generate_id::Payload>(&encode(&m).unwrap()).unwrap();
    assert!(matches!(back.body.payload, generate_id::Payload::Generate));
    let m = envelope("n1", "c1", Some(6), Some(5), generate_id::Payload::GenerateOk { guid: "n1-5".to_string() });
    let line = encode(&m).unwrap();
    assert!(line.contains("\"id\":\"n1-5\""));
    let back = decode::<generate_id::Payload>(&line).unwrap();
    match back.body.payload {
        generate_id::Payload::GenerateOk { guid } => assert_eq!(guid, "n1-5"),
        other => panic!("unexpected payload {:?}", other),
    }
}

#[test]
fn round_trip_of_broadcast_payloads() {
    let m = envelope("c1", "n1", Some(1), None, single_broadcast::Payload::Broadcast { message: 1000 });
    let back = decode::<single_broadcast::Payload>(&encode(&m).unwrap()).unwrap();
    assert!(matches!(back.body.payload, single_broadcast::Payload::Broadcast { message: 1000 }));

    let m = envelope("n1", "c1", Some(2), Some(1), single_broadcast::Payload::ReadOk { messages: vec![5, 9, 5] });
    let back = decode::<single_broadcast::Payload>(&encode(&m).unwrap()).unwrap();
    match back.body.payload {
        single_broadcast::Payload::ReadOk { messages } => assert_eq!(messages, vec![5, 9, 5]),
        other => panic!("unexpected payload {:?}", other),
    }

    let mut topology = Topology::new();
    topology.insert("n2".to_string(), vec!["n1".to_string(), "n3".to_string()]);
    topology.insert("n1".to_string(), vec!["n2".to_string()]);
    topology.insert("n3".to_string(), vec![]);
    let m = envelope("c1", "n1", Some(3), None, single_broadcast::Payload::Topology { topology });
    let line = encode(&m).unwrap();
    assert!(line.contains("\"topology\":{\"n1\":[\"n2\"],\"n2\":[\"n1\",\"n3\"],\"n3\":[]}"));
    let back = decode::<single_broadcast::Payload>(&line).unwrap();
    match back.body.payload {
        single_broadcast::Payload::Topology { topology } => {
            assert_eq!(topology.len(), 3);
            assert_eq!(topology.get(&"n1".to_string()), Some(&vec!["n2".to_string()]));
            assert_eq!(topology.get(&"n2".to_string()), Some(&vec!["n1".to_string(), "n3".to_string()]));
            assert_eq!(topology.get(&"n3".to_string()), Some(&vec![]));
            assert_eq!(topology.get(&"n4".to_string()), None);
        },
        other => panic!("unexpected payload {:?}", other),
    }

    for payload in [
        single_broadcast::Payload::Read,
        single_broadcast::Payload::BroadcastOk,
        single_broadcast::Payload::TopologyOk,
    ] {
        let tag = format!("{:?}", payload);
        let m = envelope("a", "b", Some(1), Some(2), payload);
        let back = decode::<single_broadcast::Payload>(&encode(&m).unwrap()).unwrap();
        assert_eq!(format!("{:?}", back.body.payload), tag);
    }
}

#[test]
fn values_and_messages_convert_both_ways() {
    let m = envelope("c1", "n1", Some(1), None, single_broadcast::Payload::Broadcast { message: 8 });
    let v = to_value(&m);
    assert_eq!(v.get("src").and_then(|s| s.as_str()), Some("c1"));
    assert_eq!(v.get("body").and_then(|b| b.get("message")).and_then(|n| n.as_u64()), Some(8));
    assert_eq!(v.get("body").and_then(|b| b.get("type")).and_then(|t| t.as_str()), Some("broadcast"));
    assert!(v.get("body").and_then(|b| b.get("in_reply_to")).unwrap().is_null());
    let back = from_value::<single_broadcast::Payload>(&v).unwrap();
    assert_eq!(back.body.msg_id, Some(1));
    assert!(matches!(back.body.payload, single_broadcast::Payload::Broadcast { message: 8 }));
    assert_eq!(
        from_value::<single_broadcast::Payload>(&serde_json::Value::Null).err(),
        Some(MalformedEnvelope::TypeMismatch)
    );
}
