//! The payloads of the initialization handshake.
use crate::error::MalformedEnvelope;
use crate::fields::{
    lemma_texts_round_trip, put_text, put_texts, read_text, read_texts, text_is, text_member,
    text_views, texts_member, texts_tree,
};
use crate::json::{map_new, JsonValue};
use crate::message::WirePayload;
use vstd::prelude::*;

verus! {

/// What the handshake exchanges: the request that assigns a node its
/// identity, and its acknowledgement.
#[derive(Debug, Clone)]
pub enum InitPayload {
    Init { node_id: String, node_ids: Vec<String> },
    InitOk,
}

/// The value of an [`InitPayload`].
pub enum InitPayloadView {
    Init { node_id: Seq<char>, node_ids: Seq<Seq<char>> },
    InitOk,
}

impl View for InitPayload {
    type V = InitPayloadView;

    open spec fn view(&self) -> InitPayloadView {
        match self {
            InitPayload::Init { node_id, node_ids } => InitPayloadView::Init {
                node_id: node_id@,
                node_ids: text_views(node_ids@),
            },
            InitPayload::InitOk => InitPayloadView::InitOk,
        }
    }
}

/// The member names and tags of the handshake differ from one another and
/// from the correlation identifiers.
pub proof fn lemma_init_names()
    ensures
        "init"@ != "init_ok"@,
        "type"@ != "node_id"@,
        "type"@ != "node_ids"@,
        "node_id"@ != "node_ids"@,
        "type"@ != "msg_id"@,
        "type"@ != "in_reply_to"@,
        "node_id"@ != "msg_id"@,
        "node_id"@ != "in_reply_to"@,
        "node_ids"@ != "msg_id"@,
        "node_ids"@ != "in_reply_to"@,
{
    reveal_strlit("init");
    reveal_strlit("init_ok");
    reveal_strlit("type");
    reveal_strlit("node_id");
    reveal_strlit("node_ids");
    reveal_strlit("msg_id");
    reveal_strlit("in_reply_to");
    assert("init"@.len() != "init_ok"@.len());
    assert("type"@.len() != "node_id"@.len());
    assert("type"@.len() != "node_ids"@.len());
    assert("node_id"@.len() != "node_ids"@.len());
    assert("type"@.len() != "msg_id"@.len());
    assert("type"@.len() != "in_reply_to"@.len());
    assert("node_id"@.len() != "msg_id"@.len());
    assert("node_id"@.len() != "in_reply_to"@.len());
    assert("node_ids"@.len() != "msg_id"@.len());
    assert("node_ids"@.len() != "in_reply_to"@.len());
}

impl WirePayload for InitPayload {
    open spec fn wire_fields(p: InitPayloadView) -> Map<Seq<char>, JsonValue> {
        match p {
            InitPayloadView::Init { node_id, node_ids } => Map::empty().insert(
                "type"@,
                JsonValue::Text("init"@),
            ).insert("node_id"@, JsonValue::Text(node_id)).insert(
                "node_ids"@,
                texts_tree(node_ids),
            ),
            InitPayloadView::InitOk => Map::empty().insert("type"@, JsonValue::Text("init_ok"@)),
        }
    }

    open spec fn from_wire(fields: Map<Seq<char>, JsonValue>) -> Result<
        InitPayloadView,
        MalformedEnvelope,
    > {
        match text_member(fields, "type"@) {
            Err(e) => Err(e),
            Ok(tag) => if tag == "init"@ {
                match (text_member(fields, "node_id"@), texts_member(fields, "node_ids"@)) {
                    (Ok(node_id), Ok(node_ids)) => Ok(InitPayloadView::Init { node_id, node_ids }),
                    (Err(e), _) => Err(e),
                    (_, Err(e)) => Err(e),
                }
            } else if tag == "init_ok"@ {
                Ok(InitPayloadView::InitOk)
            } else {
                Err(MalformedEnvelope::UnknownTag)
            },
        }
    }

    proof fn lemma_wire_round_trip(p: InitPayloadView, msg_id: JsonValue, in_reply_to: JsonValue) {
        lemma_init_names();
        match p {
            InitPayloadView::Init { node_ids, .. } => {
                lemma_texts_round_trip(node_ids);
            },
            InitPayloadView::InitOk => {},
        }
    }

    fn to_fields(&self) -> (m: serde_json::Map<String, serde_json::Value>) {
        let mut m = map_new();
        match self {
            InitPayload::Init { node_id, node_ids } => {
                put_text(&mut m, "type", "init");
                put_text(&mut m, "node_id", node_id.as_str());
                put_texts(&mut m, "node_ids", node_ids);
            },
            InitPayload::InitOk => {
                put_text(&mut m, "type", "init_ok");
            },
        }
        m
    }

    fn from_fields(m: &serde_json::Map<String, serde_json::Value>) -> (r: Result<
        Self,
        MalformedEnvelope,
    >) {
        let tag = match read_text(m, "type") {
            Ok(tag) => tag,
            Err(e) => { return Err(e); },
        };
        if text_is(&tag, "init") {
            let node_id = match read_text(m, "node_id") {
                Ok(node_id) => node_id,
                Err(e) => { return Err(e); },
            };
            match read_texts(m, "node_ids") {
                Ok(node_ids) => Ok(InitPayload::Init { node_id, node_ids }),
                Err(e) => Err(e),
            }
        } else if text_is(&tag, "init_ok") {
            Ok(InitPayload::InitOk)
        } else {
            Err(MalformedEnvelope::UnknownTag)
        }
    }
}

} // verus!
