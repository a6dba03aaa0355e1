//! A self-contained echo node that handles its own initialization: one
//! payload set holds the handshake and the echo exchange, and identifiers
//! are counted from zero.
use crate::error::{Fault, MalformedEnvelope};
use crate::fields::{
    lemma_texts_round_trip, put_text, put_texts, read_text, read_texts, text_is, text_member,
    text_views, texts_member, texts_tree,
};
use crate::json::{map_new, JsonValue};
use crate::message::{
    encode, wire_line, BodyView, Message, MessageBody, MessageView, WirePayload,
};
use crate::node::{wrote, NodeState};
use vstd::prelude::*;
use vstd::string::StringExecFns;

verus! {

/// What the node receives and sends.
#[derive(Debug, Clone)]
pub enum Payload {
    Echo { echo: String },
    EchoOk { echo: String },
    Init { node_id: String, node_ids: Vec<String> },
    InitOk,
}

/// The value of a [`Payload`].
pub enum PayloadView {
    Echo { echo: Seq<char> },
    EchoOk { echo: Seq<char> },
    Init { node_id: Seq<char>, node_ids: Seq<Seq<char>> },
    InitOk,
}

impl View for Payload {
    type V = PayloadView;

    open spec fn view(&self) -> PayloadView {
        match self {
            Payload::Echo { echo } => PayloadView::Echo { echo: echo@ },
            Payload::EchoOk { echo } => PayloadView::EchoOk { echo: echo@ },
            Payload::Init { node_id, node_ids } => PayloadView::Init {
                node_id: node_id@,
                node_ids: text_views(node_ids@),
            },
            Payload::InitOk => PayloadView::InitOk,
        }
    }
}

/// The tags of the payloads differ from one another.
pub proof fn lemma_standalone_tags()
    ensures
        "echo"@ != "echo_ok"@,
        "echo"@ != "init"@,
        "echo"@ != "init_ok"@,
        "echo_ok"@ != "init"@,
        "echo_ok"@ != "init_ok"@,
        "init"@ != "init_ok"@,
{
    reveal_strlit("echo");
    reveal_strlit("echo_ok");
    reveal_strlit("init");
    reveal_strlit("init_ok");
    assert("echo"@.len() != "echo_ok"@.len());
    assert("echo"@[0] != "init"@[0]);
    assert("echo"@[0] != "init_ok"@[0]);
    assert("echo_ok"@[0] != "init"@[0]);
    assert("echo_ok"@[0] != "init_ok"@[0]);
    assert("init"@.len() != "init_ok"@.len());
}

/// The member names of the payloads differ from one another and from the
/// correlation identifiers.
pub proof fn lemma_standalone_names()
    ensures
        "type"@ != "echo"@,
        "type"@ != "node_id"@,
        "type"@ != "node_ids"@,
        "type"@ != "msg_id"@,
        "type"@ != "in_reply_to"@,
        "echo"@ != "msg_id"@,
        "echo"@ != "in_reply_to"@,
        "node_id"@ != "node_ids"@,
        "node_id"@ != "msg_id"@,
        "node_id"@ != "in_reply_to"@,
        "node_ids"@ != "msg_id"@,
        "node_ids"@ != "in_reply_to"@,
{
    reveal_strlit("type");
    reveal_strlit("echo");
    reveal_strlit("node_id");
    reveal_strlit("node_ids");
    reveal_strlit("msg_id");
    reveal_strlit("in_reply_to");
    assert("type"@[0] != "echo"@[0]);
    assert("type"@.len() != "node_id"@.len());
    assert("type"@.len() != "node_ids"@.len());
    assert("type"@.len() != "msg_id"@.len());
    assert("type"@.len() != "in_reply_to"@.len());
    assert("echo"@.len() != "msg_id"@.len());
    assert("echo"@.len() != "in_reply_to"@.len());
    assert("node_id"@.len() != "node_ids"@.len());
    assert("node_id"@.len() != "msg_id"@.len());
    assert("node_id"@.len() != "in_reply_to"@.len());
    assert("node_ids"@.len() != "msg_id"@.len());
    assert("node_ids"@.len() != "in_reply_to"@.len());
}

impl WirePayload for Payload {
    open spec fn wire_fields(p: PayloadView) -> Map<Seq<char>, JsonValue> {
        match p {
            PayloadView::Echo { echo } => Map::empty().insert(
                "type"@,
                JsonValue::Text("echo"@),
            ).insert("echo"@, JsonValue::Text(echo)),
            PayloadView::EchoOk { echo } => Map::empty().insert(
                "type"@,
                JsonValue::Text("echo_ok"@),
            ).insert("echo"@, JsonValue::Text(echo)),
            PayloadView::Init { node_id, node_ids } => Map::empty().insert(
                "type"@,
                JsonValue::Text("init"@),
            ).insert("node_id"@, JsonValue::Text(node_id)).insert(
                "node_ids"@,
                texts_tree(node_ids),
            ),
            PayloadView::InitOk => Map::empty().insert("type"@, JsonValue::Text("init_ok"@)),
        }
    }

    open spec fn from_wire(fields: Map<Seq<char>, JsonValue>) -> Result<
        PayloadView,
        MalformedEnvelope,
    > {
        match text_member(fields, "type"@) {
            Err(e) => Err(e),
            Ok(tag) => if tag == "echo"@ {
                match text_member(fields, "echo"@) {
                    Ok(echo) => Ok(PayloadView::Echo { echo }),
                    Err(e) => Err(e),
                }
            } else if tag == "echo_ok"@ {
                match text_member(fields, "echo"@) {
                    Ok(echo) => Ok(PayloadView::EchoOk { echo }),
                    Err(e) => Err(e),
                }
            } else if tag == "init"@ {
                match (text_member(fields, "node_id"@), texts_member(fields, "node_ids"@)) {
                    (Ok(node_id), Ok(node_ids)) => Ok(PayloadView::Init { node_id, node_ids }),
                    (Err(e), _) => Err(e),
                    (_, Err(e)) => Err(e),
                }
            } else if tag == "init_ok"@ {
                Ok(PayloadView::InitOk)
            } else {
                Err(MalformedEnvelope::UnknownTag)
            },
        }
    }

    proof fn lemma_wire_round_trip(p: PayloadView, msg_id: JsonValue, in_reply_to: JsonValue) {
        lemma_standalone_tags();
        lemma_standalone_names();
        match p {
            PayloadView::Init { node_ids, .. } => {
                lemma_texts_round_trip(node_ids);
            },
            _ => {},
        }
    }

    fn to_fields(&self) -> (m: serde_json::Map<String, serde_json::Value>) {
        let mut m = map_new();
        match self {
            Payload::Echo { echo } => {
                put_text(&mut m, "type", "echo");
                put_text(&mut m, "echo", echo.as_str());
            },
            Payload::EchoOk { echo } => {
                put_text(&mut m, "type", "echo_ok");
                put_text(&mut m, "echo", echo.as_str());
            },
            Payload::Init { node_id, node_ids } => {
                put_text(&mut m, "type", "init");
                put_text(&mut m, "node_id", node_id.as_str());
                put_texts(&mut m, "node_ids", node_ids);
            },
            Payload::InitOk => {
                put_text(&mut m, "type", "init_ok");
            },
        }
        m
    }

    fn from_fields(m: &serde_json::Map<String, serde_json::Value>) -> (r: Result<
        Self,
        MalformedEnvelope,
    >) {
        let tag = match read_text(m, "type") {
            Ok(tag) => tag,
            Err(e) => { return Err(e); },
        };
        if text_is(&tag, "echo") {
            match read_text(m, "echo") {
                Ok(echo) => Ok(Payload::Echo { echo }),
                Err(e) => Err(e),
            }
        } else if text_is(&tag, "echo_ok") {
            match read_text(m, "echo") {
                Ok(echo) => Ok(Payload::EchoOk { echo }),
                Err(e) => Err(e),
            }
        } else if text_is(&tag, "init") {
            let node_id = match read_text(m, "node_id") {
                Ok(node_id) => node_id,
                Err(e) => { return Err(e); },
            };
            match read_texts(m, "node_ids") {
                Ok(node_ids) => Ok(Payload::Init { node_id, node_ids }),
                Err(e) => Err(e),
            }
        } else if text_is(&tag, "init_ok") {
            Ok(Payload::InitOk)
        } else {
            Err(MalformedEnvelope::UnknownTag)
        }
    }
}

/// What the node does with one message.
pub enum Handling {
    /// Nothing is sent.
    Silent,
    /// One message is sent.
    Send(MessageView<PayloadView>),
    /// The message is refused.
    Refuse(Fault),
}

/// The state the node moves to on a message. The first `init` names the
/// node; a later one leaves the name alone. Every `init` and every `echo`
/// uses up one identifier.
pub open spec fn handled_state(s: NodeState<()>, input: MessageView<PayloadView>) -> NodeState<
    (),
> {
    match input.body.payload {
        PayloadView::Init { node_id, .. } => NodeState {
            counter: (s.counter + 1) as usize,
            name: if s.name.len() == 0 {
                node_id
            } else {
                s.name
            },
            memory: (),
        },
        PayloadView::Echo { .. } => NodeState {
            counter: (s.counter + 1) as usize,
            name: s.name,
            memory: (),
        },
        _ => s,
    }
}

/// What the node does with a message. An `init` is acknowledged from the
/// node's own name; an `echo` is answered, from the address it was sent to,
/// with the same text. Both carry the counter's value as it was, and refer
/// to the message's own identifier. An `echo_ok` is accepted in silence; an
/// `init_ok` is refused.
pub open spec fn handling(s: NodeState<()>, input: MessageView<PayloadView>) -> Handling {
    match input.body.payload {
        PayloadView::Init { .. } => Handling::Send(
            MessageView {
                src: handled_state(s, input).name,
                dest: input.src,
                body: BodyView {
                    msg_id: Some(s.counter),
                    in_reply_to: input.body.msg_id,
                    payload: PayloadView::InitOk,
                },
            },
        ),
        PayloadView::Echo { echo } => Handling::Send(
            MessageView {
                src: input.dest,
                dest: input.src,
                body: BodyView {
                    msg_id: Some(s.counter),
                    in_reply_to: input.body.msg_id,
                    payload: PayloadView::EchoOk { echo },
                },
            },
        ),
        PayloadView::EchoOk { .. } => Handling::Silent,
        PayloadView::InitOk => Handling::Refuse(Fault::UnexpectedInitOk),
    }
}

/// What carrying out a handling amounts to, on the sink and in the result.
pub open spec fn carried_out(
    before: Seq<char>,
    after: Seq<char>,
    r: Result<(), Fault>,
    h: Handling,
) -> bool {
    match h {
        Handling::Silent => r is Ok && after == before,
        Handling::Send(m) => wrote(before, after, r, wire_line::<Payload>(m)),
        Handling::Refuse(fault) => r === Err(fault) && after == before,
    }
}

/// The self-contained echo node.
pub struct EchoNode {
    id: usize,
    node_id: String,
}

impl Default for EchoNode {
    /// A node without a name, whose first identifier will be zero.
    fn default() -> (node: Self)
        ensures
            node.state() == (NodeState { counter: 0, name: Seq::<char>::empty(), memory: () }),
    {
        EchoNode { id: 0, node_id: String::new() }
    }
}

impl EchoNode {
    /// The value of the node: the identifier it will use next, and its name.
    pub closed spec fn state(&self) -> NodeState<()> {
        NodeState { counter: self.id, name: self.node_id@, memory: () }
    }

    /// The identifier the node will use next.
    pub fn msg_id(&self) -> (id: usize)
        ensures
            id == self.state().counter,
    {
        self.id
    }

    /// The node's name; empty before the first `init`.
    pub fn node_id(&self) -> (name: &String)
        ensures
            name@ == self.state().name,
    {
        &self.node_id
    }

    /// Handles one message.
    pub fn handle(&mut self, input: Message<Payload>, output: &mut String) -> (r: Result<(), Fault>)
        requires
            old(self).state().counter < usize::MAX,
        ensures
            final(self).state() == handled_state(old(self).state(), input@),
            carried_out(old(output)@, final(output)@, r, handling(old(self).state(), input@)),
    {
        match input.body.payload {
            Payload::Init { node_id, node_ids: _ } => {
                if self.node_id.as_str().is_empty() {
                    self.node_id = node_id;
                }
                let reply = Message {
                    src: self.node_id.clone(),
                    dest: input.src,
                    body: MessageBody {
                        msg_id: Some(self.id),
                        in_reply_to: input.body.msg_id,
                        payload: Payload::InitOk,
                    },
                };
                self.id += 1;
                let line = encode(&reply)?;
                output.append(line.as_str());
            },
            Payload::Echo { echo } => {
                let reply = Message {
                    src: input.dest,
                    dest: input.src,
                    body: MessageBody {
                        msg_id: Some(self.id),
                        in_reply_to: input.body.msg_id,
                        payload: Payload::EchoOk { echo },
                    },
                };
                self.id += 1;
                let line = encode(&reply)?;
                output.append(line.as_str());
            },
            Payload::EchoOk { .. } => {},
            Payload::InitOk => {
                return Err(Fault::UnexpectedInitOk);
            },
        }
        Ok(())
    }
}

} // verus!
