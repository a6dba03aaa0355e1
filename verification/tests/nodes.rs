use holstatus::echo::{self, EchoNode};
use holstatus::generate_id::{self, decimal_text, guid_text, GenerateNode};
use holstatus::message::{decode, Message, MessageBody};
use holstatus::node::Node;
use holstatus::single_broadcast::{self, BroadcastNode};
use holstatus::topology::Topology;

fn request<P>(msg_id: usize, payload: P) -> Message<P> {
    Message {
        src: "c1".to_string(),
        dest: "n1".to_string(),
        body: MessageBody { msg_id: Some(msg_id), in_reply_to: None, payload },
    }
}

#[test]
fn a_new_node_has_no_name_and_has_minted_nothing() {
    assert_eq!(EchoNode::default().node_id(), "");
    assert_eq!(EchoNode::default().msg_id(), 0);
    assert_eq!(GenerateNode::default().node_id(), "");
    assert_eq!(GenerateNode::default().msg_id(), 0);
    let node = BroadcastNode::default();
    assert_eq!(node.node_id(), "");
    assert_eq!(node.msg_id(), 0);
    assert!(node.messages().is_empty());
    assert_eq!(node.topology().len(), 0);
}

#[test]
fn identifiers_are_minted_one_by_one() {
    let mut node = EchoNode::default();
    assert_eq!(node.update_msg_id(), 1);
    assert_eq!(node.update_msg_id(), 2);
    assert_eq!(node.update_msg_id(), 3);
    assert_eq!(node.msg_id(), 3);
    node.set_node_id("n5".to_string());
    assert_eq!(node.node_id(), "n5");
    assert_eq!(node.msg_id(), 3);
}

#[test]
fn reply_swaps_the_addresses_and_refers_to_the_request() {
    let mut node = EchoNode::default();
    let mut output = String::new();
    let input = Message {
        src: "from".to_string(),
        dest: "to".to_string(),
        body: MessageBody {
            msg_id: Some(77),
            in_reply_to: Some(5),
            payload: echo::Payload::Echo { echo: "x".to_string() },
        },
    };
    node.reply(echo::Payload::EchoOk { echo: "y".to_string() }, &input, &mut output).unwrap();
    node.reply(echo::Payload::Echo { echo: "z".to_string() }, &input, &mut output).unwrap();
    let replies: Vec<&str> = output.lines().collect();
    assert_eq!(replies.len(), 2);
    let first = decode::<echo::Payload>(replies[0]).unwrap();
    assert_eq!((first.src.as_str(), first.dest.as_str()), ("to", "from"));
    assert_eq!((first.body.msg_id, first.body.in_reply_to), (Some(1), Some(77)));
    assert!(matches!(first.body.payload, echo::Payload::EchoOk { .. }));
    let second = decode::<echo::Payload>(replies[1]).unwrap();
    assert_eq!((second.body.msg_id, second.body.in_reply_to), (Some(2), Some(77)));
    assert_eq!(node.msg_id(), 2);
}

#[test]
fn reply_passes_on_an_absent_identifier() {
    let mut node = EchoNode::default();
    let mut output = String::new();
    let input = Message {
        src: "a".to_string(),
        dest: "b".to_string(),
        body: MessageBody { msg_id: None, in_reply_to: None, payload: echo::Payload::Echo { echo: String::new() } },
    };
    node.reply(echo::Payload::EchoOk { echo: String::new() }, &input, &mut output).unwrap();
    let reply = decode::<echo::Payload>(&output).unwrap();
    assert_eq!((reply.body.msg_id, reply.body.in_reply_to), (Some(1), None));
}

#[test]
fn echo_is_answered_with_the_same_text() {
    let mut node = EchoNode::default();
    node.set_node_id("n1".to_string());
    let mut output = String::new();
    node.process(request(1, echo::Payload::Echo { echo: "Please echo 35".to_string() }), &mut output).unwrap();
    let reply = decode::<echo::Payload>(&output).unwrap();
    assert_eq!((reply.src.as_str(), reply.dest.as_str()), ("n1", "c1"));
    assert_eq!((reply.body.msg_id, reply.body.in_reply_to), (Some(1), Some(1)));
    match reply.body.payload {
        echo::Payload::EchoOk { echo } => assert_eq!(echo, "Please echo 35"),
        other => panic!("unexpected payload {:?}", other),
    }
}

#[test]
fn echo_ok_is_accepted_in_silence() {
    let mut node = EchoNode::default();
    let mut output = String::new();
    assert_eq!(node.process(request(1, echo::Payload::EchoOk { echo: "x".to_string() }), &mut output), Ok(()));
    assert_eq!(output, "");
    assert_eq!(node.msg_id(), 0);
}

#[test]
fn decimal_text_writes_numbers_without_leading_zeros() {
    assert_eq!(decimal_text(0), "0");
    assert_eq!(decimal_text(7), "7");
    assert_eq!(decimal_text(10), "10");
    assert_eq!(decimal_text(109), "109");
    assert_eq!(decimal_text(1234567890), "1234567890");
    assert_eq!(decimal_text(usize::MAX), format!("{}", usize::MAX));
}

#[test]
fn guid_text_joins_name_and_counter_with_a_hyphen() {
    assert_eq!(guid_text(&"n1".to_string(), 0), "n1-0");
    assert_eq!(guid_text(&"n1".to_string(), 15), "n1-15");
    assert_eq!(guid_text(&"a-1".to_string(), 5), "a-1-5");
    assert_eq!(guid_text(&String::new(), 42), "-42");
    assert_ne!(guid_text(&"a".to_string(), 15), guid_text(&"a-1".to_string(), 5));
}

#[test]
fn successive_generates_give_distinct_identifiers() {
    let mut node = GenerateNode::default();
    node.set_node_id("n1".to_string());
    node.update_msg_id();
    let mut output = String::new();
    node.process(request(1, generate_id::Payload::Generate), &mut output).unwrap();
    node.process(request(2, generate_id::Payload::Generate), &mut output).unwrap();
    node.process(request(3, generate_id::Payload::GenerateOk { guid: "x".to_string() }), &mut output).unwrap();
    node.process(request(4, generate_id::Payload::Generate), &mut output).unwrap();
    let mut ids = Vec::new();
    let mut msg_ids = Vec::new();
    for line in output.lines() {
        let reply = decode::<generate_id::Payload>(line).unwrap();
        msg_ids.push(reply.body.msg_id);
        match reply.body.payload {
            generate_id::Payload::GenerateOk { guid } => ids.push(guid),
            other => panic!("unexpected payload {:?}", other),
        }
    }
    assert_eq!(ids, vec!["n1-1".to_string(), "n1-2".to_string(), "n1-3".to_string()]);
    assert_eq!(msg_ids, vec![Some(2), Some(3), Some(4)]);
}

#[test]
fn differently_named_nodes_never_give_the_same_identifier() {
    let mut seen = std::collections::HashSet::new();
    for name in ["n1", "n2", "n", "n1-1", ""] {
        let mut node = GenerateNode::default();
        node.set_node_id(name.to_string());
        let mut output = String::new();
        for i in 0..25 {
            node.process(request(i, generate_id::Payload::Generate), &mut output).unwrap();
        }
        for line in output.lines() {
            match decode::<generate_id::Payload>(line).unwrap().body.payload {
                generate_id::Payload::GenerateOk { guid } => assert!(seen.insert(guid)),
                other => panic!("unexpected payload {:?}", other),
            }
        }
    }
    assert_eq!(seen.len(), 125);
}

fn read_reply(node: &mut BroadcastNode, msg_id: usize) -> Vec<usize> {
    let mut output = String::new();
    node.process(request(msg_id, single_broadcast::Payload::Read), &mut output).unwrap();
    let reply = decode::<single_broadcast::Payload>(&output).unwrap();
    assert_eq!(reply.body.in_reply_to, Some(msg_id));
    match reply.body.payload {
        single_broadcast::Payload::ReadOk { messages } => messages,
        other => panic!("unexpected payload {:?}", other),
    }
}

#[test]
fn broadcasts_accumulate_in_the_order_of_arrival() {
    let mut node = BroadcastNode::default();
    let mut output = String::new();
    node.process(request(1, single_broadcast::Payload::Broadcast { message: 5 }), &mut output).unwrap();
    node.process(request(2, single_broadcast::Payload::Broadcast { message: 9 }), &mut output).unwrap();
    let acks: Vec<_> = output.lines().map(|l| decode::<single_broadcast::Payload>(l).unwrap()).collect();
    assert_eq!(acks.len(), 2);
    assert!(matches!(acks[0].body.payload, single_broadcast::Payload::BroadcastOk));
    assert!(matches!(acks[1].body.payload, single_broadcast::Payload::BroadcastOk));
    assert_eq!((acks[0].body.msg_id, acks[1].body.msg_id), (Some(1), Some(2)));
    assert_eq!(read_reply(&mut node, 3), vec![5, 9]);
    assert_eq!(node.messages(), &vec![5, 9]);
}

#[test]
fn a_message_told_twice_is_listed_twice() {
    let mut node = BroadcastNode::default();
    let mut output = String::new();
    for message in [3, 1, 3] {
        node.process(request(1, single_broadcast::Payload::Broadcast { message }), &mut output).unwrap();
    }
    assert_eq!(read_reply(&mut node, 9), vec![3, 1, 3]);
}

#[test]
fn reading_twice_gives_the_same_list() {
    let mut node = BroadcastNode::default();
    let mut output = String::new();
    assert_eq!(read_reply(&mut node, 1), Vec::<usize>::new());
    node.process(request(2, single_broadcast::Payload::Broadcast { message: 4 }), &mut output).unwrap();
    node.process(request(3, single_broadcast::Payload::Broadcast { message: 2 }), &mut output).unwrap();
    let first = read_reply(&mut node, 4);
    node.process(request(5, single_broadcast::Payload::ReadOk { messages: vec![1] }), &mut output).unwrap();
    node.process(request(6, single_broadcast::Payload::Topology { topology: Topology::new() }), &mut output).unwrap();
    let second = read_reply(&mut node, 7);
    assert_eq!(first, vec![4, 2]);
    assert_eq!(second, first);
}

#[test]
fn topology_replaces_what_was_stored() {
    let mut node = BroadcastNode::default();
    let mut output = String::new();
    let mut first = Topology::new();
    first.insert("n1".to_string(), vec!["n2".to_string()]);
    first.insert("n2".to_string(), vec!["n1".to_string()]);
    node.process(request(1, single_broadcast::Payload::Topology { topology: first }), &mut output).unwrap();
    assert_eq!(node.topology().len(), 2);
    let mut second = Topology::new();
    second.insert("n3".to_string(), vec![]);
    node.process(request(2, single_broadcast::Payload::Topology { topology: second }), &mut output).unwrap();
    assert_eq!(node.topology().len(), 1);
    assert_eq!(node.topology().get(&"n3".to_string()), Some(&vec![]));
    assert_eq!(node.topology().get(&"n1".to_string()), None);
    let acks: Vec<_> = output.lines().map(|l| decode::<single_broadcast::Payload>(l).unwrap()).collect();
    assert_eq!(acks.len(), 2);
    assert!(matches!(acks[0].body.payload, single_broadcast::Payload::TopologyOk));
    assert_eq!(acks[1].body.in_reply_to, Some(2));
}

#[test]
fn acknowledgements_are_not_answered() {
    let mut node = BroadcastNode::default();
    let mut output = String::new();
    node.process(request(1, single_broadcast::Payload::BroadcastOk), &mut output).unwrap();
    node.process(request(2, single_broadcast::Payload::TopologyOk), &mut output).unwrap();
    node.process(request(3, single_broadcast::Payload::ReadOk { messages: vec![1, 2] }), &mut output).unwrap();
    assert_eq!(output, "");
    assert_eq!(node.msg_id(), 0);
    assert!(node.messages().is_empty());
}
