//! The envelope: one directed message between two node identities, and its
//! wire form as a JSON object.
use crate::error::{Fault, MalformedEnvelope};
use crate::fields::{
    optional_unsigned_member, optional_unsigned_tree, optional_unsigned_value,
    read_optional_unsigned, text_from,
};
use crate::json::{
    fields_of, map_get, map_insert, map_new, parse_text, parsed, print_text, printed, tree_of,
    value_as_object, value_from_map, value_from_str, JsonValue,
};
use vstd::prelude::*;
use vstd::string::StringExecFns;

verus! {

/// One directed message.
#[derive(Debug, Clone)]
pub struct Message<Payload> {
    pub src: String,
    pub dest: String,
    pub body: MessageBody<Payload>,
}

/// What a message carries: its correlation identifiers and its payload.
#[derive(Debug, Clone)]
pub struct MessageBody<Payload> {
    pub msg_id: Option<usize>,
    pub in_reply_to: Option<usize>,
    pub payload: Payload,
}

/// The value of a [`Message`].
pub struct MessageView<P> {
    pub src: Seq<char>,
    pub dest: Seq<char>,
    pub body: BodyView<P>,
}

/// The value of a [`MessageBody`].
pub struct BodyView<P> {
    pub msg_id: Option<usize>,
    pub in_reply_to: Option<usize>,
    pub payload: P,
}

impl<Payload: View> View for MessageBody<Payload> {
    type V = BodyView<Payload::V>;

    open spec fn view(&self) -> Self::V {
        BodyView { msg_id: self.msg_id, in_reply_to: self.in_reply_to, payload: self.payload@ }
    }
}

impl<Payload: View> View for Message<Payload> {
    type V = MessageView<Payload::V>;

    open spec fn view(&self) -> Self::V {
        MessageView { src: self.src@, dest: self.dest@, body: self.body@ }
    }
}

/// A payload set that can travel in a body. The payload's members lie flat in
/// the body object, beside `msg_id` and `in_reply_to`; the member `type` tells
/// the variants apart.
pub trait WirePayload: View + Sized {
    /// The members that a payload contributes to a body: its tag and its own
    /// fields.
    spec fn wire_fields(p: Self::V) -> Map<Seq<char>, JsonValue>;

    /// The payload that the members of a body spell, or why they spell none.
    spec fn from_wire(fields: Map<Seq<char>, JsonValue>) -> Result<Self::V, MalformedEnvelope>;

    /// A payload is read back from its own members, whatever the body holds
    /// as correlation identifiers.
    proof fn lemma_wire_round_trip(p: Self::V, msg_id: JsonValue, in_reply_to: JsonValue)
        ensures
            Self::from_wire(
                Self::wire_fields(p).insert("msg_id"@, msg_id).insert("in_reply_to"@, in_reply_to),
            ) === Ok(p),
    ;

    /// Writes the payload's members.
    fn to_fields(&self) -> (m: serde_json::Map<String, serde_json::Value>)
        ensures
            fields_of(m) == Self::wire_fields(self@),
    ;

    /// Reads a payload from the members of a body.
    fn from_fields(m: &serde_json::Map<String, serde_json::Value>) -> (r: Result<
        Self,
        MalformedEnvelope,
    >)
        ensures
            r matches Ok(p) ==> Self::from_wire(fields_of(*m)) === Ok(p@),
            r matches Err(e) ==> Self::from_wire(fields_of(*m)) === Err(e),
    ;
}

/// The JSON object for a body.
pub open spec fn body_tree<P: WirePayload>(b: BodyView<P::V>) -> JsonValue {
    JsonValue::Object(
        P::wire_fields(b.payload).insert("msg_id"@, optional_unsigned_tree(b.msg_id)).insert(
            "in_reply_to"@,
            optional_unsigned_tree(b.in_reply_to),
        ),
    )
}

/// The JSON object for a message.
pub open spec fn encode_tree<P: WirePayload>(m: MessageView<P::V>) -> JsonValue {
    JsonValue::Object(
        Map::empty().insert("src"@, JsonValue::Text(m.src)).insert(
            "dest"@,
            JsonValue::Text(m.dest),
        ).insert("body"@, body_tree::<P>(m.body)),
    )
}

/// The body that the members of a JSON object spell.
pub open spec fn decode_body<P: WirePayload>(fields: Map<Seq<char>, JsonValue>) -> Result<
    BodyView<P::V>,
    MalformedEnvelope,
> {
    match (
        optional_unsigned_member(fields, "msg_id"@),
        optional_unsigned_member(fields, "in_reply_to"@),
    ) {
        (Ok(msg_id), Ok(in_reply_to)) => match P::from_wire(fields) {
            Ok(payload) => Ok(BodyView { msg_id, in_reply_to, payload }),
            Err(e) => Err(e),
        },
        _ => Err(MalformedEnvelope::TypeMismatch),
    }
}

/// The message that a JSON document spells, or why it spells none: the
/// document must be an object with the members `src`, `dest` and `body`, the
/// first two strings and the third an object that spells a body.
pub open spec fn decode_tree<P: WirePayload>(t: JsonValue) -> Result<
    MessageView<P::V>,
    MalformedEnvelope,
> {
    match t {
        JsonValue::Object(top) => if top.contains_key("src"@) && top.contains_key("dest"@)
            && top.contains_key("body"@) {
            match (top["src"@], top["dest"@], top["body"@]) {
                (
                    JsonValue::Text(src),
                    JsonValue::Text(dest),
                    JsonValue::Object(fields),
                ) => match decode_body::<P>(fields) {
                    Ok(body) => Ok(MessageView { src, dest, body }),
                    Err(e) => Err(e),
                },
                _ => Err(MalformedEnvelope::TypeMismatch),
            }
        } else {
            Err(MalformedEnvelope::MissingField)
        },
        _ => Err(MalformedEnvelope::TypeMismatch),
    }
}

/// The message that a line of text spells.
pub open spec fn decode_text<P: WirePayload>(text: Seq<char>) -> Result<
    MessageView<P::V>,
    MalformedEnvelope,
> {
    match parsed(text) {
        Some(t) => decode_tree::<P>(t),
        None => Err(MalformedEnvelope::Syntax),
    }
}

/// The line that carries a message: its compact JSON text and a line feed.
pub open spec fn wire_line<P: WirePayload>(m: MessageView<P::V>) -> Option<Seq<char>> {
    match printed(encode_tree::<P>(m)) {
        Some(text) => Some(text.push('\n')),
        None => None,
    }
}

/// A text that ends in a line feed and holds no other.
pub open spec fn is_single_line(s: Seq<char>) -> bool {
    &&& s.len() > 0
    &&& s.last() == '\n'
    &&& !s.drop_last().contains('\n')
}

/// The member names of an envelope differ from one another.
pub proof fn lemma_envelope_names()
    ensures
        "src"@ != "dest"@,
        "src"@ != "body"@,
        "dest"@ != "body"@,
        "msg_id"@ != "in_reply_to"@,
{
    reveal_strlit("src");
    reveal_strlit("dest");
    reveal_strlit("body");
    reveal_strlit("msg_id");
    reveal_strlit("in_reply_to");
    assert("src"@.len() != "dest"@.len());
    assert("src"@.len() != "body"@.len());
    assert("dest"@[0] != "body"@[0]);
    assert("msg_id"@.len() != "in_reply_to"@.len());
}

/// Decoding the document of a message gives the message back.
pub proof fn lemma_tree_round_trip<P: WirePayload>(m: MessageView<P::V>)
    ensures
        decode_tree::<P>(encode_tree::<P>(m)) === Ok(m),
{
    lemma_envelope_names();
    let id = optional_unsigned_tree(m.body.msg_id);
    let re = optional_unsigned_tree(m.body.in_reply_to);
    P::lemma_wire_round_trip(m.body.payload, id, re);
}

/// A line is read back as the message it was written for, wherever the
/// reader finds in the line the document that the writer was given.
pub proof fn lemma_line_round_trip<P: WirePayload>(m: MessageView<P::V>, line: Seq<char>)
    requires
        wire_line::<P>(m) == Some(line),
        parsed(line) == Some(encode_tree::<P>(m)),
    ensures
        decode_text::<P>(line) === Ok(m),
{
    lemma_tree_round_trip::<P>(m);
}

/// Builds the JSON value for a message.
pub fn to_value<P: WirePayload>(m: &Message<P>) -> (v: serde_json::Value)
    ensures
        tree_of(v) == encode_tree::<P>(m@),
{
    let mut body = m.body.payload.to_fields();
    map_insert(&mut body, "msg_id".to_owned(), optional_unsigned_value(m.body.msg_id));
    map_insert(&mut body, "in_reply_to".to_owned(), optional_unsigned_value(m.body.in_reply_to));
    let mut top = map_new();
    map_insert(&mut top, "src".to_owned(), value_from_str(m.src.as_str()));
    map_insert(&mut top, "dest".to_owned(), value_from_str(m.dest.as_str()));
    map_insert(&mut top, "body".to_owned(), value_from_map(body));
    value_from_map(top)
}

/// Reads a message from a JSON value.
pub fn from_value<P: WirePayload>(v: &serde_json::Value) -> (r: Result<
    Message<P>,
    MalformedEnvelope,
>)
    ensures
        r matches Ok(m) ==> decode_tree::<P>(tree_of(*v)) === Ok(m@),
        r matches Err(e) ==> decode_tree::<P>(tree_of(*v)) === Err(e),
{
    let top = match value_as_object(v) {
        Some(top) => top,
        None => { return Err(MalformedEnvelope::TypeMismatch); },
    };
    match (map_get(top, "src"), map_get(top, "dest"), map_get(top, "body")) {
        (Some(src), Some(dest), Some(body)) => {
            match (text_from(src), text_from(dest), value_as_object(body)) {
                (Some(src), Some(dest), Some(fields)) => {
                    let msg_id = read_optional_unsigned(fields, "msg_id");
                    let in_reply_to = read_optional_unsigned(fields, "in_reply_to");
                    match (msg_id, in_reply_to) {
                        (Ok(msg_id), Ok(in_reply_to)) => match P::from_fields(fields) {
                            Ok(payload) => Ok(
                                Message {
                                    src,
                                    dest,
                                    body: MessageBody { msg_id, in_reply_to, payload },
                                },
                            ),
                            Err(e) => Err(e),
                        },
                        _ => Err(MalformedEnvelope::TypeMismatch),
                    }
                },
                _ => Err(MalformedEnvelope::TypeMismatch),
            }
        },
        _ => Err(MalformedEnvelope::MissingField),
    }
}

/// Reads a message of the payload set `P` from one line of text.
pub fn decode<P: WirePayload>(line: &str) -> (r: Result<Message<P>, MalformedEnvelope>)
    ensures
        r matches Ok(m) ==> decode_text::<P>(line@) === Ok(m@),
        r matches Err(e) ==> decode_text::<P>(line@) === Err(e),
{
    match parse_text(line) {
        Ok(v) => from_value(&v),
        Err(_) => Err(MalformedEnvelope::Syntax),
    }
}

/// Writes a message as one line of text, line feed included.
pub fn encode<P: WirePayload>(m: &Message<P>) -> (r: Result<String, Fault>)
    ensures
        r matches Ok(s) ==> wire_line::<P>(m@) == Some(s@) && is_single_line(s@),
        r matches Err(e) ==> wire_line::<P>(m@) is None && e == Fault::Write,
{
    let v = to_value(m);
    match print_text(&v) {
        Ok(mut s) => {
            s.append("\n");
            proof {
                reveal_strlit("\n");
            }
            Ok(s)
        },
        Err(_) => Err(Fault::Write),
    }
}

} // verus!
