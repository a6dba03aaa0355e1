//! The node abstraction: an identity, a memory, and a reaction to each
//! message.
use crate::error::Fault;
use crate::message::{encode, wire_line, BodyView, Message, MessageBody, MessageView, WirePayload};
use vstd::prelude::*;
use vstd::string::StringExecFns;

verus! {

/// The value of a node: its identity and what its behaviour remembers.
pub struct NodeState<M> {
    /// The last message identifier minted; 0 before the first.
    pub counter: usize,
    /// The name assigned at the handshake; empty before it.
    pub name: Seq<char>,
    pub memory: M,
}

/// The state after one more identifier has been minted.
pub open spec fn advanced<M>(s: NodeState<M>) -> NodeState<M> {
    NodeState { counter: (s.counter + 1) as usize, name: s.name, memory: s.memory }
}

/// The state after the node has been given a name.
pub open spec fn named<M>(s: NodeState<M>, name: Seq<char>) -> NodeState<M> {
    NodeState { counter: s.counter, name, memory: s.memory }
}

/// The reply to `input` that carries `payload` under the identifier `id`:
/// source and destination are exchanged, and the reply refers to the input's
/// own identifier.
pub open spec fn reply_message<P>(input: MessageView<P>, id: usize, payload: P) -> MessageView<P> {
    MessageView {
        src: input.dest,
        dest: input.src,
        body: BodyView { msg_id: Some(id), in_reply_to: input.body.msg_id, payload },
    }
}

/// What writing a line to a sink amounts to: the line is appended, or, where
/// the message has no wire form, the sink is left alone and the write fails.
pub open spec fn wrote(
    before: Seq<char>,
    after: Seq<char>,
    r: Result<(), Fault>,
    line: Option<Seq<char>>,
) -> bool {
    match line {
        Some(line) => r is Ok && after == before + line,
        None => r === Err(Fault::Write) && after == before,
    }
}

/// What sending an optional message to a sink amounts to.
pub open spec fn sent<P: WirePayload>(
    before: Seq<char>,
    after: Seq<char>,
    r: Result<(), Fault>,
    message: Option<MessageView<P::V>>,
) -> bool {
    match message {
        Some(m) => wrote(before, after, r, wire_line::<P>(m)),
        None => r is Ok && after == before,
    }
}

/// The reaction of a node that remembers `memory` after `input` and answers
/// it with `answer`: an answer costs one identifier and travels as a reply; a
/// node that does not answer keeps its counter.
pub open spec fn reaction<M, P>(
    s: NodeState<M>,
    input: MessageView<P>,
    memory: M,
    answer: Option<P>,
) -> (NodeState<M>, Option<MessageView<P>>) {
    let taken = NodeState { counter: s.counter, name: s.name, memory };
    match answer {
        Some(payload) => (
            advanced(taken),
            Some(reply_message(input, (s.counter + 1) as usize, payload)),
        ),
        None => (taken, None),
    }
}

/// A node kind. The sink receives every line the node sends, in order.
pub trait Node<Payload: WirePayload>: Sized {
    /// What the behaviour remembers between messages.
    type Memory;

    /// The value of the node.
    spec fn state(&self) -> NodeState<Self::Memory>;

    /// What the node remembers once it has taken `input` in.
    spec fn learn(s: NodeState<Self::Memory>, input: MessageView<Payload::V>) -> Self::Memory;

    /// The payload the node answers `input` with, if it answers.
    spec fn answer(s: NodeState<Self::Memory>, input: MessageView<Payload::V>) -> Option<
        Payload::V,
    >;

    /// Reacts to one message: takes it in and sends the answer, if any, as a
    /// reply.
    fn process(&mut self, input: Message<Payload>, output: &mut String) -> (r: Result<(), Fault>)
        requires
            old(self).state().counter < usize::MAX,
        ensures
            final(self).state() == reaction(
                old(self).state(),
                input@,
                Self::learn(old(self).state(), input@),
                Self::answer(old(self).state(), input@),
            ).0,
            sent::<Payload>(
                old(output)@,
                final(output)@,
                r,
                reaction(
                    old(self).state(),
                    input@,
                    Self::learn(old(self).state(), input@),
                    Self::answer(old(self).state(), input@),
                ).1,
            ),
    ;

    /// Sends `reply` in answer to `input`, under a fresh identifier.
    fn reply(&mut self, reply: Payload, input: &Message<Payload>, output: &mut String) -> (r:
        Result<(), Fault>)
        requires
            old(self).state().counter < usize::MAX,
        ensures
            final(self).state() == advanced(old(self).state()),
            wrote(
                old(output)@,
                final(output)@,
                r,
                wire_line::<Payload>(
                    reply_message(input@, (old(self).state().counter + 1) as usize, reply@),
                ),
            ),
    {
        let reply = Message {
            src: input.dest.clone(),
            dest: input.src.clone(),
            body: MessageBody {
                msg_id: Some(self.update_msg_id()),
                in_reply_to: input.body.msg_id,
                payload: reply,
            },
        };
        match encode(&reply) {
            Ok(line) => {
                output.append(line.as_str());
                Ok(())
            },
            Err(e) => Err(e),
        }
    }

    /// The last message identifier minted; 0 before the first.
    fn msg_id(&self) -> (id: usize)
        ensures
            id == self.state().counter,
    ;

    /// Assigns the node its name.
    fn set_node_id(&mut self, node_id: String)
        ensures
            final(self).state() == named(old(self).state(), node_id@),
    ;

    /// Mints the next message identifier.
    fn update_msg_id(&mut self) -> (id: usize)
        requires
            old(self).state().counter < usize::MAX,
        ensures
            id == old(self).state().counter + 1,
            final(self).state() == advanced(old(self).state()),
    ;
}

/// A node's reaction to one message: the state it moves to, and the reply it
/// sends, if any.
pub open spec fn react<S: Node<P>, P: WirePayload>(
    s: NodeState<S::Memory>,
    input: MessageView<P::V>,
) -> (NodeState<S::Memory>, Option<MessageView<P::V>>) {
    reaction(s, input, S::learn(s, input), S::answer(s, input))
}

/// A reaction leaves the node its name, and moves the counter up by one or
/// not at all: the counter never goes back.
pub proof fn lemma_identity_kept<S: Node<P>, P: WirePayload>(
    s: NodeState<S::Memory>,
    input: MessageView<P::V>,
)
    requires
        s.counter < usize::MAX,
    ensures
        react::<S, P>(s, input).0.name == s.name,
        s.counter <= react::<S, P>(s, input).0.counter <= s.counter + 1,
        react::<S, P>(s, input).1 is Some <==> react::<S, P>(s, input).0.counter == s.counter + 1,
{
}

/// The state of a node after a sequence of messages.
pub open spec fn state_after<S: Node<P>, P: WirePayload>(
    s: NodeState<S::Memory>,
    inputs: Seq<MessageView<P::V>>,
) -> NodeState<S::Memory>
    decreases inputs.len(),
{
    if inputs.len() == 0 {
        s
    } else {
        state_after::<S, P>(react::<S, P>(s, inputs[0]).0, inputs.drop_first())
    }
}

/// The replies that a node sends to a sequence of messages, in order.
pub open spec fn replies<S: Node<P>, P: WirePayload>(
    s: NodeState<S::Memory>,
    inputs: Seq<MessageView<P::V>>,
) -> Seq<MessageView<P::V>>
    decreases inputs.len(),
{
    if inputs.len() == 0 {
        Seq::empty()
    } else {
        let (next, reply) = react::<S, P>(s, inputs[0]);
        let rest = replies::<S, P>(next, inputs.drop_first());
        match reply {
            Some(m) => seq![m] + rest,
            None => rest,
        }
    }
}

/// The identifier that a reply carries.
pub open spec fn id_of<P>(m: MessageView<P>) -> int {
    match m.body.msg_id {
        Some(id) => id as int,
        None => -1,
    }
}

/// Every reply carries an identifier above the counter the node started
/// from, and each reply's identifier is above that of every earlier reply:
/// within a process no identifier is used twice. This holds as long as the
/// counter does not run out of `usize`.
pub proof fn lemma_reply_ids_increase<S: Node<P>, P: WirePayload>(
    s: NodeState<S::Memory>,
    inputs: Seq<MessageView<P::V>>,
)
    requires
        s.counter + inputs.len() <= usize::MAX,
    ensures
        replies::<S, P>(s, inputs).len() <= inputs.len(),
        forall|i: int|
            0 <= i < replies::<S, P>(s, inputs).len() ==> s.counter < id_of(
                #[trigger] replies::<S, P>(s, inputs)[i],
            ) <= s.counter + inputs.len(),
        forall|i: int, j: int|
            0 <= i < j < replies::<S, P>(s, inputs).len() ==> id_of(
                #[trigger] replies::<S, P>(s, inputs)[i],
            ) < id_of(#[trigger] replies::<S, P>(s, inputs)[j]),
    decreases inputs.len(),
{
    if inputs.len() > 0 {
        let (next, reply) = react::<S, P>(s, inputs[0]);
        let rest = replies::<S, P>(next, inputs.drop_first());
        lemma_reply_ids_increase::<S, P>(next, inputs.drop_first());
        let all = replies::<S, P>(s, inputs);
        match reply {
            Some(m) => {
                assert(all =~= seq![m] + rest);
                assert(id_of(m) == s.counter + 1);
                assert(next.counter == s.counter + 1);
                assert forall|i: int| 0 <= i < all.len() implies s.counter < id_of(
                    #[trigger] all[i],
                ) <= s.counter + inputs.len() by {
                    if i > 0 {
                        assert(all[i] == rest[i - 1]);
                    }
                }
                assert forall|i: int, j: int| 0 <= i < j < all.len() implies id_of(
                    #[trigger] all[i],
                ) < id_of(#[trigger] all[j]) by {
                    assert(all[j] == rest[j - 1]);
                    if i > 0 {
                        assert(all[i] == rest[i - 1]);
                    }
                }
            },
            None => {
                assert(all =~= rest);
                assert(next.counter == s.counter);
            },
        }
    }
}

} // verus!
