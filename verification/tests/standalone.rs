use holstatus::error::Fault;
use holstatus::message::{decode, Message, MessageBody};
use holstatus::standalone::{EchoNode, Payload};

fn message(src: &str, dest: &str, msg_id: Option<usize>, payload: Payload) -> Message<Payload> {
    Message {
        src: src.to_string(),
        dest: dest.to_string(),
        body: MessageBody { msg_id, in_reply_to: None, payload },
    }
}

fn init(node_id: &str) -> Payload {
    Payload::Init { node_id: node_id.to_string(), node_ids: vec![node_id.to_string()] }
}

#[test]
fn handle_acknowledges_init_from_the_assigned_name() {
    let mut node = EchoNode::default();
    let mut output = String::new();
    assert_eq!(node.handle(message("c0", "somewhere", Some(1), init("n1")), &mut output), Ok(()));
    assert_eq!(node.node_id(), "n1");
    assert_eq!(node.msg_id(), 1);
    assert_eq!(
        output,
        "{\"body\":{\"in_reply_to\":1,\"msg_id\":0,\"type\":\"init_ok\"},\"dest\":\"c0\",\"src\":\"n1\"}\n"
    );
}

#[test]
fn handle_keeps_the_first_name() {
    let mut node = EchoNode::default();
    let mut output = String::new();
    node.handle(message("c0", "n1", Some(1), init("n1")), &mut output).unwrap();
    let mut output = String::new();
    node.handle(message("c0", "n1", Some(2), init("n2")), &mut output).unwrap();
    assert_eq!(node.node_id(), "n1");
    let ack = decode::<Payload>(&output).unwrap();
    assert_eq!(ack.src, "n1");
    assert_eq!((ack.body.msg_id, ack.body.in_reply_to), (Some(1), Some(2)));
    assert!(matches!(ack.body.payload, Payload::InitOk));
}

#[test]
fn handle_echoes_from_the_address_it_was_sent_to() {
    let mut node = EchoNode::default();
    let mut output = String::new();
    node.handle(message("c1", "n9", Some(5), Payload::Echo { echo: "hi".to_string() }), &mut output).unwrap();
    node.handle(message("c2", "n9", None, Payload::Echo { echo: "ho".to_string() }), &mut output).unwrap();
    let replies: Vec<_> = output.lines().map(|l| decode::<Payload>(l).unwrap()).collect();
    assert_eq!(replies.len(), 2);
    assert_eq!((replies[0].src.as_str(), replies[0].dest.as_str()), ("n9", "c1"));
    assert_eq!((replies[0].body.msg_id, replies[0].body.in_reply_to), (Some(0), Some(5)));
    assert_eq!((replies[1].body.msg_id, replies[1].body.in_reply_to), (Some(1), None));
    match &replies[1].body.payload {
        Payload::EchoOk { echo } => assert_eq!(echo, "ho"),
        other => panic!("unexpected payload {:?}", other),
    }
    assert_eq!(node.msg_id(), 2);
    assert_eq!(node.node_id(), "");
}

#[test]
fn handle_accepts_echo_ok_in_silence() {
    let mut node = EchoNode::default();
    let mut output = String::new();
    assert_eq!(node.handle(message("c1", "n1", Some(1), Payload::EchoOk { echo: "x".to_string() }), &mut output), Ok(()));
    assert_eq!(output, "");
    assert_eq!(node.msg_id(), 0);
}

#[test]
fn handle_refuses_init_ok() {
    let mut node = EchoNode::default();
    let mut output = String::new();
    assert_eq!(
        node.handle(message("c1", "n1", Some(1), Payload::InitOk), &mut output),
        Err(Fault::UnexpectedInitOk)
    );
    assert_eq!(output, "");
    assert_eq!(node.msg_id(), 0);
}

#[test]
fn the_payload_set_holds_handshake_and_echo() {
    for (line, tag) in [
        ("{\"src\":\"a\",\"dest\":\"b\",\"body\":{\"type\":\"init\",\"node_id\":\"n\",\"node_ids\":[]}}", "Init"),
        ("{\"src\":\"a\",\"dest\":\"b\",\"body\":{\"type\":\"init_ok\"}}", "InitOk"),
        ("{\"src\":\"a\",\"dest\":\"b\",\"body\":{\"type\":\"echo\",\"echo\":\"e\"}}", "Echo "),
        ("{\"src\":\"a\",\"dest\":\"b\",\"body\":{\"type\":\"echo_ok\",\"echo\":\"e\"}}", "EchoOk "),
    ] {
        let m = decode::<Payload>(line).unwrap();
        assert!(format!("{:?} ", m.body.payload).starts_with(tag));
    }
}
