//! The echo node: it answers every `echo` with the same text.
use crate::error::{Fault, MalformedEnvelope};
use crate::fields::{put_text, read_text, text_is, text_member};
use crate::json::{map_new, JsonValue};
use crate::message::{Message, MessageView, WirePayload};
use crate::node::{Node, NodeState};
use vstd::prelude::*;

verus! {

/// What an echo node receives and sends.
#[derive(Debug, Clone)]
pub enum Payload {
    Echo { echo: String },
    EchoOk { echo: String },
}

/// The value of a [`Payload`].
pub enum PayloadView {
    Echo { echo: Seq<char> },
    EchoOk { echo: Seq<char> },
}

impl View for Payload {
    type V = PayloadView;

    open spec fn view(&self) -> PayloadView {
        match self {
            Payload::Echo { echo } => PayloadView::Echo { echo: echo@ },
            Payload::EchoOk { echo } => PayloadView::EchoOk { echo: echo@ },
        }
    }
}

/// The member names and tags of the echo payloads differ from one another
/// and from the correlation identifiers.
pub proof fn lemma_echo_names()
    ensures
        "echo"@ != "echo_ok"@,
        "type"@ != "echo"@,
        "type"@ != "msg_id"@,
        "type"@ != "in_reply_to"@,
        "echo"@ != "msg_id"@,
        "echo"@ != "in_reply_to"@,
{
    reveal_strlit("echo");
    reveal_strlit("echo_ok");
    reveal_strlit("type");
    reveal_strlit("msg_id");
    reveal_strlit("in_reply_to");
    assert("echo"@.len() != "echo_ok"@.len());
    assert("type"@[0] != "echo"@[0]);
    assert("type"@.len() != "msg_id"@.len());
    assert("type"@.len() != "in_reply_to"@.len());
    assert("echo"@.len() != "msg_id"@.len());
    assert("echo"@.len() != "in_reply_to"@.len());
}

impl WirePayload for Payload {
    open spec fn wire_fields(p: PayloadView) -> Map<Seq<char>, JsonValue> {
        match p {
            PayloadView::Echo { echo } => Map::empty().insert(
                "type"@,
                JsonValue::Text("echo"@),
            ).insert("echo"@, JsonValue::Text(echo)),
            PayloadView::EchoOk { echo } => Map::empty().insert(
                "type"@,
                JsonValue::Text("echo_ok"@),
            ).insert("echo"@, JsonValue::Text(echo)),
        }
    }

    open spec fn from_wire(fields: Map<Seq<char>, JsonValue>) -> Result<
        PayloadView,
        MalformedEnvelope,
    > {
        match text_member(fields, "type"@) {
            Err(e) => Err(e),
            Ok(tag) => if tag == "echo"@ {
                match text_member(fields, "echo"@) {
                    Ok(echo) => Ok(PayloadView::Echo { echo }),
                    Err(e) => Err(e),
                }
            } else if tag == "echo_ok"@ {
                match text_member(fields, "echo"@) {
                    Ok(echo) => Ok(PayloadView::EchoOk { echo }),
                    Err(e) => Err(e),
                }
            } else {
                Err(MalformedEnvelope::UnknownTag)
            },
        }
    }

    proof fn lemma_wire_round_trip(p: PayloadView, msg_id: JsonValue, in_reply_to: JsonValue) {
        lemma_echo_names();
    }

    fn to_fields(&self) -> (m: serde_json::Map<String, serde_json::Value>) {
        let mut m = map_new();
        match self {
            Payload::Echo { echo } => {
                put_text(&mut m, "type", "echo");
                put_text(&mut m, "echo", echo.as_str());
            },
            Payload::EchoOk { echo } => {
                put_text(&mut m, "type", "echo_ok");
                put_text(&mut m, "echo", echo.as_str());
            },
        }
        m
    }

    fn from_fields(m: &serde_json::Map<String, serde_json::Value>) -> (r: Result<
        Self,
        MalformedEnvelope,
    >) {
        let tag = match read_text(m, "type") {
            Ok(tag) => tag,
            Err(e) => { return Err(e); },
        };
        if text_is(&tag, "echo") {
            match read_text(m, "echo") {
                Ok(echo) => Ok(Payload::Echo { echo }),
                Err(e) => Err(e),
            }
        } else if text_is(&tag, "echo_ok") {
            match read_text(m, "echo") {
                Ok(echo) => Ok(Payload::EchoOk { echo }),
                Err(e) => Err(e),
            }
        } else {
            Err(MalformedEnvelope::UnknownTag)
        }
    }
}

/// An echo node.
pub struct EchoNode {
    id: usize,
    node_id: String,
}

impl Default for EchoNode {
    /// A node that has no name yet and has minted no identifier.
    fn default() -> (node: Self)
        ensures
            node.state() == (NodeState { counter: 0, name: Seq::<char>::empty(), memory: () }),
    {
        EchoNode { id: 0, node_id: String::new() }
    }
}

impl EchoNode {
    /// The name assigned at the handshake; empty before it.
    pub fn node_id(&self) -> (name: &String)
        ensures
            name@ == self.state().name,
    {
        &self.node_id
    }
}

impl Node<Payload> for EchoNode {
    type Memory = ();

    closed spec fn state(&self) -> NodeState<()> {
        NodeState { counter: self.id, name: self.node_id@, memory: () }
    }

    open spec fn learn(s: NodeState<()>, input: MessageView<PayloadView>) -> () {
        ()
    }

    /// An `echo` is answered with the same text; an `echo_ok` is not answered.
    open spec fn answer(s: NodeState<()>, input: MessageView<PayloadView>) -> Option<PayloadView> {
        match input.body.payload {
            PayloadView::Echo { echo } => Some(PayloadView::EchoOk { echo }),
            PayloadView::EchoOk { .. } => None,
        }
    }

    fn process(&mut self, input: Message<Payload>, output: &mut String) -> (r: Result<(), Fault>) {
        match &input.body.payload {
            Payload::Echo { echo } => {
                let payload = Payload::EchoOk { echo: echo.clone() };
                self.reply(payload, &input, output)
            },
            Payload::EchoOk { .. } => Ok(()),
        }
    }

    fn msg_id(&self) -> (id: usize) {
        self.id
    }

    fn set_node_id(&mut self, node_id: String) {
        self.node_id = node_id;
    }

    fn update_msg_id(&mut self) -> (id: usize) {
        self.id += 1;
        self.id
    }
}

} // verus!
