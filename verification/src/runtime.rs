//! The life of a node process: one handshake, then one reaction per line of
//! input, until the input ends or an error ends the process.
use crate::error::{Fatal, Fault, HandshakeError, MalformedEnvelope};
use crate::init::{InitPayload, InitPayloadView};
use crate::json::{parse_text, tree_of, JsonValue};
use crate::message::{
    decode_text, decode_tree, encode, from_value, wire_line, Message, MessageBody, MessageView,
    WirePayload,
};
use crate::node::{
    advanced, id_of, lemma_reply_ids_increase, named, react, replies, reply_message, Node,
    NodeState,
};
use vstd::prelude::*;
use vstd::string::StringExecFns;

verus! {

/// Where a process stands in its life.
#[derive(Debug, Clone, Copy, PartialEq, Eq, Structural)]
pub enum Stage {
    /// No initialization request has been accepted yet.
    AwaitingInit,
    /// The node has its identity and handles application traffic.
    Ready,
}

/// A node process: the node and the stage it is in.
pub struct Process<S> {
    pub stage: Stage,
    pub node: S,
}

/// Where a process stands after some of its input: the node's state, all it
/// has written, and whether it goes on.
pub struct Progress<M> {
    pub state: NodeState<M>,
    pub output: Seq<char>,
    pub result: Result<(), Fatal>,
}

/// The node once an initialization request has named it and its
/// acknowledgement has taken the next identifier.
pub open spec fn after_handshake<M>(
    s: NodeState<M>,
    init: MessageView<InitPayloadView>,
) -> NodeState<M> {
    match init.body.payload {
        InitPayloadView::Init { node_id, .. } => advanced(named(s, node_id)),
        InitPayloadView::InitOk => s,
    }
}

/// The acknowledgement of an initialization request.
pub open spec fn handshake_ack<M>(
    s: NodeState<M>,
    init: MessageView<InitPayloadView>,
) -> MessageView<InitPayloadView> {
    reply_message(init, after_handshake(s, init).counter, InitPayloadView::InitOk)
}

/// The handshake on a first message. An acknowledgement ends the process
/// with nothing written and the node untouched. A request names the node and
/// is acknowledged under the node's next identifier, in reply to the
/// request's own.
pub open spec fn shake_message<M>(
    s: NodeState<M>,
    output: Seq<char>,
    first: MessageView<InitPayloadView>,
) -> Progress<M> {
    match first.body.payload {
        InitPayloadView::InitOk => Progress {
            state: s,
            output,
            result: Err(Fatal::Handshake(HandshakeError::UnexpectedInitOk)),
        },
        InitPayloadView::Init { .. } => {
            let state = after_handshake(s, first);
            match wire_line::<InitPayload>(handshake_ack(s, first)) {
                Some(text) => Progress { state, output: output + text, result: Ok(()) },
                None => Progress {
                    state,
                    output,
                    result: Err(Fatal::Handshake(HandshakeError::Write)),
                },
            }
        },
    }
}

/// The handshake on a first JSON document. A document that spells no
/// envelope of the initialization set ends the process with nothing written
/// and the node untouched.
pub open spec fn shake_tree<M>(s: NodeState<M>, output: Seq<char>, tree: JsonValue) -> Progress<M> {
    match decode_tree::<InitPayload>(tree) {
        Err(e) => Progress {
            state: s,
            output,
            result: Err(Fatal::Handshake(HandshakeError::Malformed(e))),
        },
        Ok(first) => shake_message(s, output, first),
    }
}

/// The handshake on the first line of input.
pub open spec fn shake<M>(s: NodeState<M>, output: Seq<char>, line: Seq<char>) -> Progress<M> {
    match decode_text::<InitPayload>(line) {
        Err(e) => Progress {
            state: s,
            output,
            result: Err(Fatal::Handshake(HandshakeError::Malformed(e))),
        },
        Ok(first) => shake_message(s, output, first),
    }
}

/// One message after the handshake: the node reacts, and its reply, if any,
/// is written.
pub open spec fn step_message<S: Node<P>, P: WirePayload>(
    s: NodeState<S::Memory>,
    output: Seq<char>,
    input: MessageView<P::V>,
) -> Progress<S::Memory> {
    let (state, reply) = react::<S, P>(s, input);
    match reply {
        None => Progress { state, output, result: Ok(()) },
        Some(m) => match wire_line::<P>(m) {
            Some(text) => Progress { state, output: output + text, result: Ok(()) },
            None => Progress { state, output, result: Err(Fatal::Dispatch(Fault::Write)) },
        },
    }
}

/// One JSON document after the handshake: it is decoded as a message of the
/// node's payload set and handled. A document that spells no such message
/// ends the process with nothing written and the node untouched.
pub open spec fn step_tree<S: Node<P>, P: WirePayload>(
    s: NodeState<S::Memory>,
    output: Seq<char>,
    tree: JsonValue,
) -> Progress<S::Memory> {
    match decode_tree::<P>(tree) {
        Err(e) => Progress { state: s, output, result: Err(Fatal::Decode(e)) },
        Ok(input) => step_message::<S, P>(s, output, input),
    }
}

/// One line of input after the handshake: the line is decoded as a message
/// of the node's payload set and handled.
pub open spec fn step_line<S: Node<P>, P: WirePayload>(
    s: NodeState<S::Memory>,
    output: Seq<char>,
    line: Seq<char>,
) -> Progress<S::Memory> {
    match decode_text::<P>(line) {
        Err(e) => Progress { state: s, output, result: Err(Fatal::Decode(e)) },
        Ok(input) => step_message::<S, P>(s, output, input),
    }
}

/// What a process in a given stage does with one JSON document: while it
/// awaits its initialization the document is the handshake; once it is ready
/// the document is application traffic.
pub open spec fn fed_tree<S: Node<P>, P: WirePayload>(
    stage: Stage,
    s: NodeState<S::Memory>,
    output: Seq<char>,
    tree: JsonValue,
) -> Progress<S::Memory> {
    match stage {
        Stage::AwaitingInit => shake_tree(s, output, tree),
        Stage::Ready => step_tree::<S, P>(s, output, tree),
    }
}

/// What a process in a given stage does with one line of input.
pub open spec fn fed_line<S: Node<P>, P: WirePayload>(
    stage: Stage,
    s: NodeState<S::Memory>,
    output: Seq<char>,
    line: Seq<char>,
) -> Progress<S::Memory> {
    match stage {
        Stage::AwaitingInit => shake(s, output, line),
        Stage::Ready => step_line::<S, P>(s, output, line),
    }
}

/// The stage after an input: an input that was handled leaves the process
/// ready, so the handshake happens once and never again; one that failed
/// leaves the stage as it was.
pub open spec fn next_stage(stage: Stage, result: Result<(), Fatal>) -> Stage {
    if result is Ok {
        Stage::Ready
    } else {
        stage
    }
}

/// The lines after the handshake, in order, up to the first that fails.
pub open spec fn run_lines<S: Node<P>, P: WirePayload>(
    s: NodeState<S::Memory>,
    output: Seq<char>,
    lines: Seq<Seq<char>>,
) -> Progress<S::Memory>
    decreases lines.len(),
{
    if lines.len() == 0 {
        Progress { state: s, output, result: Ok(()) }
    } else {
        let first = step_line::<S, P>(s, output, lines[0]);
        if first.result is Err {
            first
        } else {
            run_lines::<S, P>(first.state, first.output, lines.drop_first())
        }
    }
}

/// A whole process: the handshake on the first line, then every other line
/// in turn. Input without a first line is a failed handshake.
pub open spec fn session<S: Node<P>, P: WirePayload>(
    s: NodeState<S::Memory>,
    output: Seq<char>,
    lines: Seq<Seq<char>>,
) -> Progress<S::Memory> {
    if lines.len() == 0 {
        Progress { state: s, output, result: Err(Fatal::Handshake(HandshakeError::Missing)) }
    } else {
        let first = shake(s, output, lines[0]);
        if first.result is Err {
            first
        } else {
            run_lines::<S, P>(first.state, first.output, lines.drop_first())
        }
    }
}

/// A valid initialization request names the node and is acknowledged once:
/// the acknowledgement goes back to the sender, carries the node's next
/// identifier, and refers to the identifier of the request.
pub proof fn lemma_handshake_acknowledges<M>(
    s: NodeState<M>,
    output: Seq<char>,
    line: Seq<char>,
    init: MessageView<InitPayloadView>,
)
    requires
        decode_text::<InitPayload>(line) === Ok(init),
        init.body.payload is Init,
        s.counter < usize::MAX,
    ensures
        shake(s, output, line).state.name == init.body.payload->node_id,
        shake(s, output, line).state.counter == s.counter + 1,
        shake(s, output, line).state.memory == s.memory,
        handshake_ack(s, init).src == init.dest,
        handshake_ack(s, init).dest == init.src,
        handshake_ack(s, init).body.msg_id == Some((s.counter + 1) as usize),
        handshake_ack(s, init).body.in_reply_to == init.body.msg_id,
        handshake_ack(s, init).body.payload is InitOk,
        wire_line::<InitPayload>(handshake_ack(s, init)) matches Some(text) ==> shake(
            s,
            output,
            line,
        ).result is Ok && shake(s, output, line).output == output + text,
        wire_line::<InitPayload>(handshake_ack(s, init)) is None ==> shake(
            s,
            output,
            line,
        ).result is Err && shake(s, output, line).output == output,
{
}

/// An acknowledgement in place of the request ends the process with no
/// reply written.
pub proof fn lemma_handshake_refuses_init_ok<M>(
    s: NodeState<M>,
    output: Seq<char>,
    line: Seq<char>,
    first: MessageView<InitPayloadView>,
)
    requires
        decode_text::<InitPayload>(line) === Ok(first),
        first.body.payload is InitOk,
    ensures
        shake(s, output, line).result === Err(Fatal::Handshake(HandshakeError::UnexpectedInitOk)),
        shake(s, output, line).output == output,
        shake(s, output, line).state == s,
{
}

/// Every reply after the handshake carries an identifier above that of the
/// acknowledgement, and above that of every reply before it.
pub proof fn lemma_ids_after_handshake<S: Node<P>, P: WirePayload>(
    s: NodeState<S::Memory>,
    init: MessageView<InitPayloadView>,
    inputs: Seq<MessageView<P::V>>,
)
    requires
        init.body.payload is Init,
        s.counter + 1 + inputs.len() <= usize::MAX,
    ensures
        id_of(handshake_ack(s, init)) == s.counter + 1,
        forall|i: int|
            0 <= i < replies::<S, P>(after_handshake(s, init), inputs).len() ==> id_of(
                handshake_ack(s, init),
            ) < id_of(#[trigger] replies::<S, P>(after_handshake(s, init), inputs)[i]),
        forall|i: int, j: int|
            0 <= i < j < replies::<S, P>(after_handshake(s, init), inputs).len() ==> id_of(
                #[trigger] replies::<S, P>(after_handshake(s, init), inputs)[i],
            ) < id_of(#[trigger] replies::<S, P>(after_handshake(s, init), inputs)[j]),
{
    lemma_reply_ids_increase::<S, P>(after_handshake(s, init), inputs);
}

/// The text of a sequence of messages on the wire: their lines, in order.
pub open spec fn wire_text<P: WirePayload>(ms: Seq<MessageView<P::V>>) -> Option<Seq<char>>
    decreases ms.len(),
{
    if ms.len() == 0 {
        Some(Seq::empty())
    } else {
        match (wire_line::<P>(ms[0]), wire_text::<P>(ms.drop_first())) {
            (Some(line), Some(rest)) => Some(line + rest),
            _ => None,
        }
    }
}

/// Where every line spells a message and every reply has a wire form, the
/// process writes exactly the node's replies, in order, and goes on.
pub proof fn lemma_run_writes_replies<S: Node<P>, P: WirePayload>(
    s: NodeState<S::Memory>,
    output: Seq<char>,
    lines: Seq<Seq<char>>,
    inputs: Seq<MessageView<P::V>>,
)
    requires
        lines.len() == inputs.len(),
        forall|i: int|
            0 <= i < lines.len() ==> decode_text::<P>(#[trigger] lines[i]) === Ok(inputs[i]),
        wire_text::<P>(replies::<S, P>(s, inputs)) is Some,
    ensures
        run_lines::<S, P>(s, output, lines).result is Ok,
        run_lines::<S, P>(s, output, lines).output == output + wire_text::<P>(
            replies::<S, P>(s, inputs),
        )->Some_0,
    decreases lines.len(),
{
    if lines.len() == 0 {
        assert(output + Seq::<char>::empty() =~= output);
    } else {
        let (next, reply) = react::<S, P>(s, inputs[0]);
        let rest = replies::<S, P>(next, inputs.drop_first());
        let first = step_line::<S, P>(s, output, lines[0]);
        assert(decode_text::<P>(lines[0]) === Ok(inputs[0]));
        assert forall|i: int| 0 <= i < lines.drop_first().len() implies decode_text::<P>(
            #[trigger] lines.drop_first()[i],
        ) === Ok(inputs.drop_first()[i]) by {
            assert(lines.drop_first()[i] == lines[i + 1]);
        }
        match reply {
            Some(m) => {
                let all = seq![m] + rest;
                assert(all[0] == m);
                assert(all.drop_first() =~= rest);
                lemma_run_writes_replies::<S, P>(
                    next,
                    first.output,
                    lines.drop_first(),
                    inputs.drop_first(),
                );
                let line = wire_line::<P>(m)->Some_0;
                let tail = wire_text::<P>(rest)->Some_0;
                assert((output + line) + tail =~= output + (line + tail));
            },
            None => {
                lemma_run_writes_replies::<S, P>(
                    next,
                    first.output,
                    lines.drop_first(),
                    inputs.drop_first(),
                );
            },
        }
    }
}

/// The views of a list of lines.
pub open spec fn line_views(lines: Seq<String>) -> Seq<Seq<char>> {
    lines.map_values(|s: String| s@)
}

/// Performs the handshake on the first JSON document of the input.
pub fn handshake_value<S: Node<P>, P: WirePayload>(
    state: &mut S,
    value: &serde_json::Value,
    output: &mut String,
) -> (r: Result<(), Fatal>)
    requires
        old(state).state().counter < usize::MAX,
    ensures
        shake_tree(old(state).state(), old(output)@, tree_of(*value)) == (Progress {
            state: final(state).state(),
            output: final(output)@,
            result: r,
        }),
{
    let init = match from_value::<InitPayload>(value) {
        Ok(init) => init,
        Err(e) => { return Err(Fatal::Handshake(HandshakeError::Malformed(e))); },
    };
    match init.body.payload {
        InitPayload::InitOk => Err(Fatal::Handshake(HandshakeError::UnexpectedInitOk)),
        InitPayload::Init { node_id, node_ids: _ } => {
            state.set_node_id(node_id);
            let ack = Message {
                src: init.dest,
                dest: init.src,
                body: MessageBody {
                    msg_id: Some(state.update_msg_id()),
                    in_reply_to: init.body.msg_id,
                    payload: InitPayload::InitOk,
                },
            };
            match encode(&ack) {
                Ok(text) => {
                    output.append(text.as_str());
                    Ok(())
                },
                Err(_) => Err(Fatal::Handshake(HandshakeError::Write)),
            }
        },
    }
}

/// Performs the handshake on the first line of input.
pub fn handshake<S: Node<P>, P: WirePayload>(state: &mut S, line: &str, output: &mut String) -> (r:
    Result<(), Fatal>)
    requires
        old(state).state().counter < usize::MAX,
    ensures
        shake(old(state).state(), old(output)@, line@) == (Progress {
            state: final(state).state(),
            output: final(output)@,
            result: r,
        }),
{
    match parse_text(line) {
        Ok(value) => handshake_value::<S, P>(state, &value, output),
        Err(_) => Err(Fatal::Handshake(HandshakeError::Malformed(MalformedEnvelope::Syntax))),
    }
}

/// Handles one JSON document of the input after the handshake.
pub fn dispatch_value<S: Node<P>, P: WirePayload>(
    state: &mut S,
    value: &serde_json::Value,
    output: &mut String,
) -> (r: Result<(), Fatal>)
    requires
        old(state).state().counter < usize::MAX,
    ensures
        step_tree::<S, P>(old(state).state(), old(output)@, tree_of(*value)) == (Progress {
            state: final(state).state(),
            output: final(output)@,
            result: r,
        }),
{
    let input = match from_value::<P>(value) {
        Ok(input) => input,
        Err(e) => { return Err(Fatal::Decode(e)); },
    };
    match state.process(input, output) {
        Ok(()) => Ok(()),
        Err(e) => Err(Fatal::Dispatch(e)),
    }
}

/// Handles one line of input after the handshake.
pub fn dispatch<S: Node<P>, P: WirePayload>(state: &mut S, line: &str, output: &mut String) -> (r:
    Result<(), Fatal>)
    requires
        old(state).state().counter < usize::MAX,
    ensures
        step_line::<S, P>(old(state).state(), old(output)@, line@) == (Progress {
            state: final(state).state(),
            output: final(output)@,
            result: r,
        }),
{
    match parse_text(line) {
        Ok(value) => dispatch_value::<S, P>(state, &value, output),
        Err(_) => Err(Fatal::Decode(MalformedEnvelope::Syntax)),
    }
}

impl<S> Process<S> {
    /// A process that awaits its initialization.
    pub fn new(node: S) -> (p: Self)
        ensures
            p.stage == Stage::AwaitingInit,
            p.node == node,
    {
        Process { stage: Stage::AwaitingInit, node }
    }

    /// Takes in the next JSON document of the input.
    pub fn feed_value<P: WirePayload>(
        &mut self,
        value: &serde_json::Value,
        output: &mut String,
    ) -> (r: Result<(), Fatal>) where S: Node<P>
        requires
            old(self).node.state().counter < usize::MAX,
        ensures
            fed_tree::<S, P>(
                old(self).stage,
                old(self).node.state(),
                old(output)@,
                tree_of(*value),
            ) == (Progress { state: final(self).node.state(), output: final(output)@, result: r }),
            final(self).stage == next_stage(old(self).stage, r),
    {
        match self.stage {
            Stage::AwaitingInit => {
                let r = handshake_value::<S, P>(&mut self.node, value, output);
                if r.is_ok() {
                    self.stage = Stage::Ready;
                }
                r
            },
            Stage::Ready => dispatch_value::<S, P>(&mut self.node, value, output),
        }
    }

    /// Takes in the next line of input.
    pub fn feed<P: WirePayload>(&mut self, line: &str, output: &mut String) -> (r: Result<
        (),
        Fatal,
    >) where S: Node<P>
        requires
            old(self).node.state().counter < usize::MAX,
        ensures
            fed_line::<S, P>(old(self).stage, old(self).node.state(), old(output)@, line@) == (
            Progress { state: final(self).node.state(), output: final(output)@, result: r }),
            final(self).stage == next_stage(old(self).stage, r),
    {
        match self.stage {
            Stage::AwaitingInit => {
                let r = handshake::<S, P>(&mut self.node, line, output);
                if r.is_ok() {
                    self.stage = Stage::Ready;
                }
                r
            },
            Stage::Ready => dispatch::<S, P>(&mut self.node, line, output),
        }
    }
}

/// Runs a whole process over its lines of input, writing every reply to
/// `output`.
pub fn main_loop<S, Payload>(state: S, lines: &Vec<String>, output: &mut String) -> (r: Result<
    (),
    Fatal,
>) where Payload: WirePayload, S: Node<Payload>
    requires
        state.state().counter + lines@.len() <= usize::MAX,
    ensures
        final(output)@ == session::<S, Payload>(
            state.state(),
            old(output)@,
            line_views(lines@),
        ).output,
        r == session::<S, Payload>(state.state(), old(output)@, line_views(lines@)).result,
{
    let ghost all = line_views(lines@);
    let ghost whole = session::<S, Payload>(state.state(), output@, all);
    let ghost start = state.state().counter;
    let mut process = Process::new(state);
    if lines.len() == 0 {
        return Err(Fatal::Handshake(HandshakeError::Missing));
    }
    match process.feed::<Payload>(lines[0].as_str(), output) {
        Ok(()) => {},
        Err(e) => { return Err(e); },
    }
    let mut i: usize = 1;
    proof {
        assert(all.drop_first() =~= all.skip(1));
    }
    while i < lines.len()
        invariant
            1 <= i <= lines.len(),
            all == line_views(lines@),
            start + lines@.len() <= usize::MAX,
            process.stage == Stage::Ready,
            process.node.state().counter <= start + i,
            whole == session::<S, Payload>(state.state(), old(output)@, all),
            whole == run_lines::<S, Payload>(process.node.state(), output@, all.skip(i as int)),
        decreases lines.len() - i,
    {
        proof {
            assert(all.skip(i as int)[0] == lines@[i as int]@);
            assert(all.skip(i as int).drop_first() =~= all.skip(i + 1));
        }
        match process.feed::<Payload>(lines[i].as_str(), output) {
            Ok(()) => {},
            Err(e) => { return Err(e); },
        }
        i += 1;
    }
    Ok(())
}

} // verus!
