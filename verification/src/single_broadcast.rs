//! The broadcast node: a local store of the messages it was told, and of the
//! topology it was given. It forwards nothing to its neighbours.
use crate::error::{Fault, MalformedEnvelope};
use crate::fields::{
    clone_unsigneds, lemma_unsigneds_round_trip, put_text, put_unsigned, put_unsigneds, read_text,
    read_unsigned, read_unsigneds, required, text_is, text_member, unsigned_member,
    unsigned_tree, unsigneds_member, unsigneds_tree,
};
use crate::json::{map_get, map_insert, map_new, JsonValue};
use crate::message::{Message, MessageView, WirePayload};
use crate::node::{react, state_after, Node, NodeState};
use crate::topology::{
    lemma_topology_round_trip, topology_from, topology_of, topology_tree, topology_value, Topology,
};
use vstd::prelude::*;

verus! {

/// What a broadcast node receives and sends.
#[derive(Debug, Clone)]
pub enum Payload {
    Broadcast { message: usize },
    Topology { topology: Topology },
    Read,
    ReadOk { messages: Vec<usize> },
    BroadcastOk,
    TopologyOk,
}

/// The value of a [`Payload`].
pub enum PayloadView {
    Broadcast { message: usize },
    Topology { topology: Map<Seq<char>, Seq<Seq<char>>> },
    Read,
    ReadOk { messages: Seq<usize> },
    BroadcastOk,
    TopologyOk,
}

impl View for Payload {
    type V = PayloadView;

    open spec fn view(&self) -> PayloadView {
        match self {
            Payload::Broadcast { message } => PayloadView::Broadcast { message: *message },
            Payload::Topology { topology } => PayloadView::Topology { topology: topology@ },
            Payload::Read => PayloadView::Read,
            Payload::ReadOk { messages } => PayloadView::ReadOk { messages: messages@ },
            Payload::BroadcastOk => PayloadView::BroadcastOk,
            Payload::TopologyOk => PayloadView::TopologyOk,
        }
    }
}

/// A required member that holds a mapping.
pub open spec fn topology_member(fields: Map<Seq<char>, JsonValue>, key: Seq<char>) -> Result<
    Map<Seq<char>, Seq<Seq<char>>>,
    MalformedEnvelope,
> {
    required(fields, key, |t: JsonValue| topology_of(t))
}

/// The tags of the broadcast payloads differ from one another.
pub proof fn lemma_broadcast_tags()
    ensures
        "broadcast"@ != "topology"@,
        "broadcast"@ != "read"@,
        "broadcast"@ != "read_ok"@,
        "broadcast"@ != "broadcast_ok"@,
        "broadcast"@ != "topology_ok"@,
        "topology"@ != "read"@,
        "topology"@ != "read_ok"@,
        "topology"@ != "broadcast_ok"@,
        "topology"@ != "topology_ok"@,
        "read"@ != "read_ok"@,
        "read"@ != "broadcast_ok"@,
        "read"@ != "topology_ok"@,
        "read_ok"@ != "broadcast_ok"@,
        "read_ok"@ != "topology_ok"@,
        "broadcast_ok"@ != "topology_ok"@,
{
    reveal_strlit("broadcast");
    reveal_strlit("topology");
    reveal_strlit("read");
    reveal_strlit("read_ok");
    reveal_strlit("broadcast_ok");
    reveal_strlit("topology_ok");
    assert("broadcast"@[0] != "topology"@[0]);
    assert("broadcast"@[0] != "read"@[0]);
    assert("broadcast"@[0] != "read_ok"@[0]);
    assert("broadcast"@.len() != "broadcast_ok"@.len());
    assert("broadcast"@[0] != "topology_ok"@[0]);
    assert("topology"@[0] != "read"@[0]);
    assert("topology"@[0] != "read_ok"@[0]);
    assert("topology"@[0] != "broadcast_ok"@[0]);
    assert("topology"@.len() != "topology_ok"@.len());
    assert("read"@.len() != "read_ok"@.len());
    assert("read"@[0] != "broadcast_ok"@[0]);
    assert("read"@[0] != "topology_ok"@[0]);
    assert("read_ok"@[0] != "broadcast_ok"@[0]);
    assert("read_ok"@[0] != "topology_ok"@[0]);
    assert("broadcast_ok"@[0] != "topology_ok"@[0]);
}

/// The member names of the broadcast payloads differ from one another and
/// from the correlation identifiers.
pub proof fn lemma_broadcast_names()
    ensures
        "type"@ != "message"@,
        "type"@ != "messages"@,
        "type"@ != "topology"@,
        "type"@ != "msg_id"@,
        "type"@ != "in_reply_to"@,
        "message"@ != "msg_id"@,
        "message"@ != "in_reply_to"@,
        "messages"@ != "msg_id"@,
        "messages"@ != "in_reply_to"@,
        "topology"@ != "msg_id"@,
        "topology"@ != "in_reply_to"@,
{
    reveal_strlit("type");
    reveal_strlit("message");
    reveal_strlit("messages");
    reveal_strlit("topology");
    reveal_strlit("msg_id");
    reveal_strlit("in_reply_to");
    assert("type"@.len() != "message"@.len());
    assert("type"@.len() != "messages"@.len());
    assert("type"@.len() != "topology"@.len());
    assert("type"@.len() != "msg_id"@.len());
    assert("type"@.len() != "in_reply_to"@.len());
    assert("message"@.len() != "msg_id"@.len());
    assert("message"@.len() != "in_reply_to"@.len());
    assert("messages"@.len() != "msg_id"@.len());
    assert("messages"@.len() != "in_reply_to"@.len());
    assert("topology"@.len() != "msg_id"@.len());
    assert("topology"@.len() != "in_reply_to"@.len());
}

/// The members of a payload that is its tag alone.
pub open spec fn tag_only(tag: Seq<char>) -> Map<Seq<char>, JsonValue> {
    Map::empty().insert("type"@, JsonValue::Text(tag))
}

impl WirePayload for Payload {
    open spec fn wire_fields(p: PayloadView) -> Map<Seq<char>, JsonValue> {
        match p {
            PayloadView::Broadcast { message } => tag_only("broadcast"@).insert(
                "message"@,
                unsigned_tree(message),
            ),
            PayloadView::Topology { topology } => tag_only("topology"@).insert(
                "topology"@,
                topology_tree(topology),
            ),
            PayloadView::Read => tag_only("read"@),
            PayloadView::ReadOk { messages } => tag_only("read_ok"@).insert(
                "messages"@,
                unsigneds_tree(messages),
            ),
            PayloadView::BroadcastOk => tag_only("broadcast_ok"@),
            PayloadView::TopologyOk => tag_only("topology_ok"@),
        }
    }

    open spec fn from_wire(fields: Map<Seq<char>, JsonValue>) -> Result<
        PayloadView,
        MalformedEnvelope,
    > {
        match text_member(fields, "type"@) {
            Err(e) => Err(e),
            Ok(tag) => if tag == "broadcast"@ {
                match unsigned_member(fields, "message"@) {
                    Ok(message) => Ok(PayloadView::Broadcast { message }),
                    Err(e) => Err(e),
                }
            } else if tag == "topology"@ {
                match topology_member(fields, "topology"@) {
                    Ok(topology) => Ok(PayloadView::Topology { topology }),
                    Err(e) => Err(e),
                }
            } else if tag == "read"@ {
                Ok(PayloadView::Read)
            } else if tag == "read_ok"@ {
                match unsigneds_member(fields, "messages"@) {
                    Ok(messages) => Ok(PayloadView::ReadOk { messages }),
                    Err(e) => Err(e),
                }
            } else if tag == "broadcast_ok"@ {
                Ok(PayloadView::BroadcastOk)
            } else if tag == "topology_ok"@ {
                Ok(PayloadView::TopologyOk)
            } else {
                Err(MalformedEnvelope::UnknownTag)
            },
        }
    }

    proof fn lemma_wire_round_trip(p: PayloadView, msg_id: JsonValue, in_reply_to: JsonValue) {
        lemma_broadcast_tags();
        lemma_broadcast_names();
        match p {
            PayloadView::Topology { topology } => {
                lemma_topology_round_trip(topology);
            },
            PayloadView::ReadOk { messages } => {
                lemma_unsigneds_round_trip(messages);
            },
            _ => {},
        }
    }

    fn to_fields(&self) -> (m: serde_json::Map<String, serde_json::Value>) {
        let mut m = map_new();
        match self {
            Payload::Broadcast { message } => {
                put_text(&mut m, "type", "broadcast");
                put_unsigned(&mut m, "message", *message);
            },
            Payload::Topology { topology } => {
                put_text(&mut m, "type", "topology");
                map_insert(&mut m, "topology".to_owned(), topology_value(topology));
            },
            Payload::Read => {
                put_text(&mut m, "type", "read");
            },
            Payload::ReadOk { messages } => {
                put_text(&mut m, "type", "read_ok");
                put_unsigneds(&mut m, "messages", messages);
            },
            Payload::BroadcastOk => {
                put_text(&mut m, "type", "broadcast_ok");
            },
            Payload::TopologyOk => {
                put_text(&mut m, "type", "topology_ok");
            },
        }
        m
    }

    fn from_fields(m: &serde_json::Map<String, serde_json::Value>) -> (r: Result<
        Self,
        MalformedEnvelope,
    >) {
        let tag = match read_text(m, "type") {
            Ok(tag) => tag,
            Err(e) => { return Err(e); },
        };
        if text_is(&tag, "broadcast") {
            match read_unsigned(m, "message") {
                Ok(message) => Ok(Payload::Broadcast { message }),
                Err(e) => Err(e),
            }
        } else if text_is(&tag, "topology") {
            match map_get(m, "topology") {
                None => Err(MalformedEnvelope::MissingField),
                Some(v) => match topology_from(v) {
                    Some(topology) => Ok(Payload::Topology { topology }),
                    None => Err(MalformedEnvelope::TypeMismatch),
                },
            }
        } else if text_is(&tag, "read") {
            Ok(Payload::Read)
        } else if text_is(&tag, "read_ok") {
            match read_unsigneds(m, "messages") {
                Ok(messages) => Ok(Payload::ReadOk { messages }),
                Err(e) => Err(e),
            }
        } else if text_is(&tag, "broadcast_ok") {
            Ok(Payload::BroadcastOk)
        } else if text_is(&tag, "topology_ok") {
            Ok(Payload::TopologyOk)
        } else {
            Err(MalformedEnvelope::UnknownTag)
        }
    }
}

/// What a broadcast node remembers.
pub struct BroadcastMemory {
    /// The participating nodes, as far as the node was told of them.
    pub node_ids: Seq<Seq<char>>,
    /// The messages received, in the order of their arrival.
    pub messages: Seq<usize>,
    /// The topology given last.
    pub topology: Map<Seq<char>, Seq<Seq<char>>>,
}

/// A broadcast node.
pub struct BroadcastNode {
    id: usize,
    node_id: String,
    node_ids: Vec<String>,
    messages: Vec<usize>,
    topology: Topology,
}

impl Default for BroadcastNode {
    /// A node that has no name yet, has minted no identifier and remembers
    /// nothing.
    fn default() -> (node: Self)
        ensures
            node.state().counter == 0,
            node.state().name == Seq::<char>::empty(),
            node.state().memory.node_ids == Seq::<Seq<char>>::empty(),
            node.state().memory.messages == Seq::<usize>::empty(),
            node.state().memory.topology == Map::<Seq<char>, Seq<Seq<char>>>::empty(),
    {
        BroadcastNode {
            id: 0,
            node_id: String::new(),
            node_ids: Vec::new(),
            messages: Vec::new(),
            topology: Topology::new(),
        }
    }
}

impl BroadcastNode {
    /// The name assigned at the handshake; empty before it.
    pub fn node_id(&self) -> (name: &String)
        ensures
            name@ == self.state().name,
    {
        &self.node_id
    }

    /// The messages received so far, in the order of their arrival.
    pub fn messages(&self) -> (messages: &Vec<usize>)
        ensures
            messages@ == self.state().memory.messages,
    {
        &self.messages
    }

    /// The topology given last.
    pub fn topology(&self) -> (topology: &Topology)
        ensures
            topology@ == self.state().memory.topology,
    {
        &self.topology
    }
}

impl Node<Payload> for BroadcastNode {
    type Memory = BroadcastMemory;

    closed spec fn state(&self) -> NodeState<BroadcastMemory> {
        NodeState {
            counter: self.id,
            name: self.node_id@,
            memory: BroadcastMemory {
                node_ids: self.node_ids@.map_values(|s: String| s@),
                messages: self.messages@,
                topology: self.topology@,
            },
        }
    }

    /// A `broadcast` appends its message to the list; a `topology` replaces
    /// the stored mapping as a whole; nothing else changes the memory.
    open spec fn learn(
        s: NodeState<BroadcastMemory>,
        input: MessageView<PayloadView>,
    ) -> BroadcastMemory {
        match input.body.payload {
            PayloadView::Broadcast { message } => BroadcastMemory {
                node_ids: s.memory.node_ids,
                messages: s.memory.messages.push(message),
                topology: s.memory.topology,
            },
            PayloadView::Topology { topology } => BroadcastMemory {
                node_ids: s.memory.node_ids,
                messages: s.memory.messages,
                topology,
            },
            _ => s.memory,
        }
    }

    /// Each request is acknowledged; a `read` is answered with the whole
    /// list, in the order of arrival. Acknowledgements are not answered.
    open spec fn answer(
        s: NodeState<BroadcastMemory>,
        input: MessageView<PayloadView>,
    ) -> Option<PayloadView> {
        match input.body.payload {
            PayloadView::Broadcast { .. } => Some(PayloadView::BroadcastOk),
            PayloadView::Topology { .. } => Some(PayloadView::TopologyOk),
            PayloadView::Read => Some(PayloadView::ReadOk { messages: s.memory.messages }),
            PayloadView::ReadOk { .. } => None,
            PayloadView::BroadcastOk => None,
            PayloadView::TopologyOk => None,
        }
    }

    fn process(&mut self, input: Message<Payload>, output: &mut String) -> (r: Result<(), Fault>) {
        match &input.body.payload {
            Payload::Broadcast { message } => {
                self.messages.push(*message);
                self.reply(Payload::BroadcastOk, &input, output)
            },
            Payload::Topology { topology } => {
                self.topology = topology.clone();
                self.reply(Payload::TopologyOk, &input, output)
            },
            Payload::Read => {
                let payload = Payload::ReadOk { messages: clone_unsigneds(&self.messages) };
                self.reply(payload, &input, output)
            },
            Payload::BroadcastOk => Ok(()),
            Payload::TopologyOk => Ok(()),
            Payload::ReadOk { .. } => Ok(()),
        }
    }

    fn msg_id(&self) -> (id: usize) {
        self.id
    }

    fn set_node_id(&mut self, node_id: String) {
        self.node_id = node_id;
    }

    fn update_msg_id(&mut self) -> (id: usize) {
        self.id += 1;
        self.id
    }
}

/// A `broadcast` puts its message at the end of the list.
pub proof fn lemma_broadcast_appends(
    s: NodeState<BroadcastMemory>,
    input: MessageView<PayloadView>,
)
    requires
        input.body.payload is Broadcast,
    ensures
        react::<BroadcastNode, Payload>(s, input).0.memory.messages == s.memory.messages.push(
            input.body.payload->message,
        ),
{
}

/// Nothing but a `broadcast` changes the list of messages.
pub proof fn lemma_messages_kept(s: NodeState<BroadcastMemory>, input: MessageView<PayloadView>)
    requires
        !(input.body.payload is Broadcast),
    ensures
        react::<BroadcastNode, Payload>(s, input).0.memory.messages == s.memory.messages,
{
}

/// Reading twice, with no `broadcast` in between, gives the same list both
/// times, in the same order.
pub proof fn lemma_read_idempotent(
    s: NodeState<BroadcastMemory>,
    first: MessageView<PayloadView>,
    second: MessageView<PayloadView>,
)
    requires
        first.body.payload is Read,
        second.body.payload is Read,
    ensures
        BroadcastNode::answer(s, first) == Some(
            PayloadView::ReadOk { messages: s.memory.messages },
        ),
        BroadcastNode::answer(react::<BroadcastNode, Payload>(s, first).0, second)
            == BroadcastNode::answer(s, first),
{
}

/// Messages among which there is no `broadcast` leave the list as it is.
pub proof fn lemma_messages_kept_throughout(
    s: NodeState<BroadcastMemory>,
    inputs: Seq<MessageView<PayloadView>>,
)
    requires
        forall|k: int|
            0 <= k < inputs.len() ==> !((#[trigger] inputs[k]).body.payload is Broadcast),
    ensures
        state_after::<BroadcastNode, Payload>(s, inputs).memory.messages == s.memory.messages,
    decreases inputs.len(),
{
    if inputs.len() > 0 {
        lemma_messages_kept(s, inputs[0]);
        let rest = inputs.drop_first();
        assert forall|k: int| 0 <= k < rest.len() implies !((#[trigger] rest[k]).body.payload
            is Broadcast) by {
            assert(rest[k] == inputs[k + 1]);
        }
        lemma_messages_kept_throughout(react::<BroadcastNode, Payload>(s, inputs[0]).0, rest);
    }
}

/// Two reads give the same list, in the same order, whatever arrives
/// between them, as long as no `broadcast` does.
pub proof fn lemma_reads_agree(
    s: NodeState<BroadcastMemory>,
    first: MessageView<PayloadView>,
    between: Seq<MessageView<PayloadView>>,
    second: MessageView<PayloadView>,
)
    requires
        first.body.payload is Read,
        second.body.payload is Read,
        forall|k: int|
            0 <= k < between.len() ==> !((#[trigger] between[k]).body.payload is Broadcast),
    ensures
        BroadcastNode::answer(
            state_after::<BroadcastNode, Payload>(
                react::<BroadcastNode, Payload>(s, first).0,
                between,
            ),
            second,
        ) == BroadcastNode::answer(s, first),
{
    lemma_messages_kept(s, first);
    lemma_messages_kept_throughout(react::<BroadcastNode, Payload>(s, first).0, between);
}

} // verus!
