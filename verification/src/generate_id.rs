//! The unique-identifier node: it answers every `generate` with an
//! identifier that no other request, on this node or another, is answered
//! with.
use crate::error::{Fault, MalformedEnvelope};
use crate::fields::{put_text, read_text, text_is, text_member};
use crate::json::{map_new, JsonValue};
use crate::message::{Message, MessageView, WirePayload};
use crate::node::{id_of, lemma_reply_ids_increase, react, replies, Node, NodeState};
use vstd::prelude::*;
use vstd::string::StringExecFns;

verus! {

/// The decimal digit for a number below ten.
pub open spec fn digit(d: nat) -> char {
    if d == 0 {
        '0'
    } else if d == 1 {
        '1'
    } else if d == 2 {
        '2'
    } else if d == 3 {
        '3'
    } else if d == 4 {
        '4'
    } else if d == 5 {
        '5'
    } else if d == 6 {
        '6'
    } else if d == 7 {
        '7'
    } else if d == 8 {
        '8'
    } else {
        '9'
    }
}

/// The number that a decimal digit stands for.
pub open spec fn digit_value(c: char) -> nat {
    if c == '0' {
        0
    } else if c == '1' {
        1
    } else if c == '2' {
        2
    } else if c == '3' {
        3
    } else if c == '4' {
        4
    } else if c == '5' {
        5
    } else if c == '6' {
        6
    } else if c == '7' {
        7
    } else if c == '8' {
        8
    } else {
        9
    }
}

/// The decimal numeral of a number, without leading zeros.
pub open spec fn decimal(n: nat) -> Seq<char>
    decreases n,
{
    if n < 10 {
        seq![digit(n)]
    } else {
        decimal(n / 10).push(digit(n % 10))
    }
}

/// The number that a decimal numeral stands for.
pub open spec fn decimal_value(s: Seq<char>) -> nat
    decreases s.len(),
{
    if s.len() == 0 {
        0
    } else {
        decimal_value(s.drop_last()) * 10 + digit_value(s.last())
    }
}

/// The identifier that a node of the given name derives from a counter
/// value: the name, a hyphen, and the counter in decimal.
pub open spec fn guid(name: Seq<char>, counter: nat) -> Seq<char> {
    name + seq!['-'] + decimal(counter)
}

/// A numeral is not empty and holds no hyphen.
pub proof fn lemma_decimal_shape(n: nat)
    ensures
        decimal(n).len() >= 1,
        forall|i: int| 0 <= i < decimal(n).len() ==> #[trigger] decimal(n)[i] != '-',
    decreases n,
{
    if n >= 10 {
        lemma_decimal_shape(n / 10);
    }
}

/// A numeral stands for the number it was written for.
pub proof fn lemma_decimal_value(n: nat)
    ensures
        decimal_value(decimal(n)) == n,
    decreases n,
{
    if n < 10 {
        assert(decimal(n).drop_last() =~= Seq::<char>::empty());
        assert(decimal_value(decimal(n).drop_last()) == 0);
    } else {
        lemma_decimal_value(n / 10);
        assert(decimal(n).drop_last() =~= decimal(n / 10));
        assert(decimal(n).last() == digit(n % 10));
    }
}

/// Different identifiers for different origins: an identifier determines
/// both the name and the counter value it was derived from.
pub proof fn lemma_guid_injective(name1: Seq<char>, counter1: nat, name2: Seq<char>, counter2: nat)
    requires
        guid(name1, counter1) == guid(name2, counter2),
    ensures
        name1 == name2,
        counter1 == counter2,
{
    let d1 = decimal(counter1);
    let d2 = decimal(counter2);
    let g1 = guid(name1, counter1);
    let g2 = guid(name2, counter2);
    lemma_decimal_shape(counter1);
    lemma_decimal_shape(counter2);
    assert(g1.len() == name1.len() + 1 + d1.len());
    assert(g2.len() == name2.len() + 1 + d2.len());
    if d1.len() < d2.len() {
        let p = name1.len() as int;
        assert(g1[p] == '-');
        assert(g2[p] == d2[p - name2.len() - 1]);
        assert(false);
    }
    if d2.len() < d1.len() {
        let p = name2.len() as int;
        assert(g2[p] == '-');
        assert(g1[p] == d1[p - name1.len() - 1]);
        assert(false);
    }
    assert(name1.len() == name2.len());
    assert(name1 =~= g1.subrange(0, name1.len() as int));
    assert(name2 =~= g2.subrange(0, name2.len() as int));
    assert(d1 =~= g1.subrange(name1.len() as int + 1, g1.len() as int));
    assert(d2 =~= g2.subrange(name2.len() as int + 1, g2.len() as int));
    lemma_decimal_value(counter1);
    lemma_decimal_value(counter2);
}

fn digit_text(d: usize) -> (s: &'static str)
    requires
        d < 10,
    ensures
        s@ == seq![digit(d as nat)],
{
    proof {
        reveal_strlit("0");
        reveal_strlit("1");
        reveal_strlit("2");
        reveal_strlit("3");
        reveal_strlit("4");
        reveal_strlit("5");
        reveal_strlit("6");
        reveal_strlit("7");
        reveal_strlit("8");
        reveal_strlit("9");
    }
    let s = if d == 0 {
        "0"
    } else if d == 1 {
        "1"
    } else if d == 2 {
        "2"
    } else if d == 3 {
        "3"
    } else if d == 4 {
        "4"
    } else if d == 5 {
        "5"
    } else if d == 6 {
        "6"
    } else if d == 7 {
        "7"
    } else if d == 8 {
        "8"
    } else {
        "9"
    };
    s
}

/// Writes a number in decimal.
pub fn decimal_text(n: usize) -> (s: String)
    ensures
        s@ == decimal(n as nat),
    decreases n,
{
    if n < 10 {
        String::from_str(digit_text(n))
    } else {
        let mut s = decimal_text(n / 10);
        s.append(digit_text(n % 10));
        s
    }
}

/// Derives an identifier from a node's name and a counter value.
pub fn guid_text(name: &String, counter: usize) -> (s: String)
    ensures
        s@ == guid(name@, counter as nat),
{
    let mut s = name.clone();
    s.append("-");
    s.append(decimal_text(counter).as_str());
    proof {
        reveal_strlit("-");
    }
    s
}

/// What an identifier node receives and sends. On the wire the identifier is
/// the member `id`.
#[derive(Debug, Clone)]
pub enum Payload {
    Generate,
    GenerateOk { guid: String },
}

/// The value of a [`Payload`].
pub enum PayloadView {
    Generate,
    GenerateOk { guid: Seq<char> },
}

impl View for Payload {
    type V = PayloadView;

    open spec fn view(&self) -> PayloadView {
        match self {
            Payload::Generate => PayloadView::Generate,
            Payload::GenerateOk { guid } => PayloadView::GenerateOk { guid: guid@ },
        }
    }
}

/// The member names and tags of the identifier payloads differ from one
/// another and from the correlation identifiers.
pub proof fn lemma_generate_names()
    ensures
        "generate"@ != "generate_ok"@,
        "type"@ != "id"@,
        "type"@ != "msg_id"@,
        "type"@ != "in_reply_to"@,
        "id"@ != "msg_id"@,
        "id"@ != "in_reply_to"@,
{
    reveal_strlit("generate");
    reveal_strlit("generate_ok");
    reveal_strlit("type");
    reveal_strlit("id");
    reveal_strlit("msg_id");
    reveal_strlit("in_reply_to");
    assert("generate"@.len() != "generate_ok"@.len());
    assert("type"@.len() != "id"@.len());
    assert("type"@.len() != "msg_id"@.len());
    assert("type"@.len() != "in_reply_to"@.len());
    assert("id"@.len() != "msg_id"@.len());
    assert("id"@.len() != "in_reply_to"@.len());
}

impl WirePayload for Payload {
    open spec fn wire_fields(p: PayloadView) -> Map<Seq<char>, JsonValue> {
        match p {
            PayloadView::Generate => Map::empty().insert("type"@, JsonValue::Text("generate"@)),
            PayloadView::GenerateOk { guid } => Map::empty().insert(
                "type"@,
                JsonValue::Text("generate_ok"@),
            ).insert("id"@, JsonValue::Text(guid)),
        }
    }

    open spec fn from_wire(fields: Map<Seq<char>, JsonValue>) -> Result<
        PayloadView,
        MalformedEnvelope,
    > {
        match text_member(fields, "type"@) {
            Err(e) => Err(e),
            Ok(tag) => if tag == "generate"@ {
                Ok(PayloadView::Generate)
            } else if tag == "generate_ok"@ {
                match text_member(fields, "id"@) {
                    Ok(guid) => Ok(PayloadView::GenerateOk { guid }),
                    Err(e) => Err(e),
                }
            } else {
                Err(MalformedEnvelope::UnknownTag)
            },
        }
    }

    proof fn lemma_wire_round_trip(p: PayloadView, msg_id: JsonValue, in_reply_to: JsonValue) {
        lemma_generate_names();
    }

    fn to_fields(&self) -> (m: serde_json::Map<String, serde_json::Value>) {
        let mut m = map_new();
        match self {
            Payload::Generate => {
                put_text(&mut m, "type", "generate");
            },
            Payload::GenerateOk { guid } => {
                put_text(&mut m, "type", "generate_ok");
                put_text(&mut m, "id", guid.as_str());
            },
        }
        m
    }

    fn from_fields(m: &serde_json::Map<String, serde_json::Value>) -> (r: Result<
        Self,
        MalformedEnvelope,
    >) {
        let tag = match read_text(m, "type") {
            Ok(tag) => tag,
            Err(e) => { return Err(e); },
        };
        if text_is(&tag, "generate") {
            Ok(Payload::Generate)
        } else if text_is(&tag, "generate_ok") {
            match read_text(m, "id") {
                Ok(guid) => Ok(Payload::GenerateOk { guid }),
                Err(e) => Err(e),
            }
        } else {
            Err(MalformedEnvelope::UnknownTag)
        }
    }
}

/// A unique-identifier node.
pub struct GenerateNode {
    id: usize,
    node_id: String,
}

impl Default for GenerateNode {
    /// A node that has no name yet and has minted no identifier.
    fn default() -> (node: Self)
        ensures
            node.state() == (NodeState { counter: 0, name: Seq::<char>::empty(), memory: () }),
    {
        GenerateNode { id: 0, node_id: String::new() }
    }
}

impl GenerateNode {
    /// The name assigned at the handshake; empty before it.
    pub fn node_id(&self) -> (name: &String)
        ensures
            name@ == self.state().name,
    {
        &self.node_id
    }
}

impl Node<Payload> for GenerateNode {
    type Memory = ();

    closed spec fn state(&self) -> NodeState<()> {
        NodeState { counter: self.id, name: self.node_id@, memory: () }
    }

    open spec fn learn(s: NodeState<()>, input: MessageView<PayloadView>) -> () {
        ()
    }

    /// A `generate` is answered with the identifier derived from the node's
    /// name and its counter as the request finds it; a `generate_ok` is not
    /// answered.
    open spec fn answer(s: NodeState<()>, input: MessageView<PayloadView>) -> Option<PayloadView> {
        match input.body.payload {
            PayloadView::Generate => Some(
                PayloadView::GenerateOk { guid: guid(s.name, s.counter as nat) },
            ),
            PayloadView::GenerateOk { .. } => None,
        }
    }

    fn process(&mut self, input: Message<Payload>, output: &mut String) -> (r: Result<(), Fault>) {
        match input.body.payload {
            Payload::Generate => {
                let payload = Payload::GenerateOk { guid: guid_text(&self.node_id, self.id) };
                self.reply(payload, &input, output)
            },
            Payload::GenerateOk { .. } => Ok(()),
        }
    }

    fn msg_id(&self) -> (id: usize) {
        self.id
    }

    fn set_node_id(&mut self, node_id: String) {
        self.node_id = node_id;
    }

    fn update_msg_id(&mut self) -> (id: usize) {
        self.id += 1;
        self.id
    }
}

/// Two requests in a row, on one node, are answered with different
/// identifiers.
pub proof fn lemma_successive_identifiers_differ(
    s: NodeState<()>,
    first: MessageView<PayloadView>,
    second: MessageView<PayloadView>,
)
    requires
        first.body.payload is Generate,
        second.body.payload is Generate,
        s.counter < usize::MAX,
    ensures
        GenerateNode::answer(s, first) is Some,
        GenerateNode::answer(react::<GenerateNode, Payload>(s, first).0, second) is Some,
        GenerateNode::answer(s, first) != GenerateNode::answer(
            react::<GenerateNode, Payload>(s, first).0,
            second,
        ),
{
    let next = react::<GenerateNode, Payload>(s, first).0;
    assert(next.counter == s.counter + 1);
    if guid(s.name, s.counter as nat) == guid(next.name, next.counter as nat) {
        lemma_guid_injective(s.name, s.counter as nat, next.name, next.counter as nat);
    }
}

/// Nodes of different names never answer with the same identifier, whatever
/// their counters.
pub proof fn lemma_identifiers_differ_across_nodes(
    s1: NodeState<()>,
    s2: NodeState<()>,
    m1: MessageView<PayloadView>,
    m2: MessageView<PayloadView>,
)
    requires
        m1.body.payload is Generate,
        m2.body.payload is Generate,
        s1.name != s2.name,
    ensures
        GenerateNode::answer(s1, m1) is Some,
        GenerateNode::answer(s2, m2) is Some,
        GenerateNode::answer(s1, m1) != GenerateNode::answer(s2, m2),
{
    if guid(s1.name, s1.counter as nat) == guid(s2.name, s2.counter as nat) {
        lemma_guid_injective(s1.name, s1.counter as nat, s2.name, s2.counter as nat);
    }
}

/// Every reply of a node carries the identifier derived from the node's name
/// and the counter value that the reply's own identifier follows.
pub proof fn lemma_reply_identifiers(
    s: NodeState<()>,
    inputs: Seq<MessageView<PayloadView>>,
    i: int,
)
    requires
        s.counter + inputs.len() <= usize::MAX,
        0 <= i < replies::<GenerateNode, Payload>(s, inputs).len(),
    ensures
        id_of(replies::<GenerateNode, Payload>(s, inputs)[i]) >= 1,
        replies::<GenerateNode, Payload>(s, inputs)[i].body.payload == (PayloadView::GenerateOk {
            guid: guid(
                s.name,
                (id_of(replies::<GenerateNode, Payload>(s, inputs)[i]) - 1) as nat,
            ),
        }),
    decreases inputs.len(),
{
    let (next, reply) = react::<GenerateNode, Payload>(s, inputs[0]);
    let rest = replies::<GenerateNode, Payload>(next, inputs.drop_first());
    let all = replies::<GenerateNode, Payload>(s, inputs);
    lemma_reply_ids_increase::<GenerateNode, Payload>(next, inputs.drop_first());
    match reply {
        Some(m) => {
            assert(all =~= seq![m] + rest);
            if i > 0 {
                assert(all[i] == rest[i - 1]);
                lemma_reply_identifiers(next, inputs.drop_first(), i - 1);
            }
        },
        None => {
            assert(all =~= rest);
            lemma_reply_identifiers(next, inputs.drop_first(), i);
        },
    }
}

/// However many requests a node answers, it never gives the same identifier
/// twice.
pub proof fn lemma_identifiers_never_repeat(
    s: NodeState<()>,
    inputs: Seq<MessageView<PayloadView>>,
    i: int,
    j: int,
)
    requires
        s.counter + inputs.len() <= usize::MAX,
        0 <= i < j < replies::<GenerateNode, Payload>(s, inputs).len(),
    ensures
        replies::<GenerateNode, Payload>(s, inputs)[i].body.payload != replies::<
            GenerateNode,
            Payload,
        >(s, inputs)[j].body.payload,
{
    let all = replies::<GenerateNode, Payload>(s, inputs);
    lemma_reply_ids_increase::<GenerateNode, Payload>(s, inputs);
    lemma_reply_identifiers(s, inputs, i);
    lemma_reply_identifiers(s, inputs, j);
    let a = (id_of(all[i]) - 1) as nat;
    let b = (id_of(all[j]) - 1) as nat;
    assert(a != b);
    if guid(s.name, a) == guid(s.name, b) {
        lemma_guid_injective(s.name, a, s.name, b);
    }
}

/// However many requests two nodes of different names answer, no
/// identifier of the one is an identifier of the other.
pub proof fn lemma_identifiers_never_collide(
    s1: NodeState<()>,
    inputs1: Seq<MessageView<PayloadView>>,
    i: int,
    s2: NodeState<()>,
    inputs2: Seq<MessageView<PayloadView>>,
    j: int,
)
    requires
        s1.name != s2.name,
        s1.counter + inputs1.len() <= usize::MAX,
        s2.counter + inputs2.len() <= usize::MAX,
        0 <= i < replies::<GenerateNode, Payload>(s1, inputs1).len(),
        0 <= j < replies::<GenerateNode, Payload>(s2, inputs2).len(),
    ensures
        replies::<GenerateNode, Payload>(s1, inputs1)[i].body.payload != replies::<
            GenerateNode,
            Payload,
        >(s2, inputs2)[j].body.payload,
{
    let r1 = replies::<GenerateNode, Payload>(s1, inputs1)[i];
    let r2 = replies::<GenerateNode, Payload>(s2, inputs2)[j];
    lemma_reply_identifiers(s1, inputs1, i);
    lemma_reply_identifiers(s2, inputs2, j);
    let a = (id_of(r1) - 1) as nat;
    let b = (id_of(r2) - 1) as nat;
    if guid(s1.name, a) == guid(s2.name, b) {
        lemma_guid_injective(s1.name, a, s2.name, b);
    }
}

} // verus!
