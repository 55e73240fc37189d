//! What holds of agents, whatever happens to them.

use vstd::prelude::*;

use crate::actors::{extends, AgentOp, AgentSnapshot, AgentView, HandleError};
use crate::callbacks::{is_resolution, ResponseView};
use crate::conversation::{history_of, EntryView};
use crate::dispatch::{InvocationView, ProgressView};
use crate::messages::MsgView;
use crate::role::Role;

verus! {

/// One thing that happens to an agent drops, changes and moves nothing in
/// its conversations, and never lowers the count of responses.
pub proof fn lemma_step_is_append_only<RoleType: Role, Callback, Addr>(
    agent: AgentView<RoleType, Callback, Addr>,
    op: AgentOp<RoleType, Callback, Addr>,
)
    ensures
        extends(agent.apply(op).conversations, agent.conversations),
        agent.apply(op).response_count >= agent.response_count,
{
    let after = agent.apply(op);
    assert forall|id: usize|
        history_of(agent.conversations, id).is_prefix_of(
            #[trigger] history_of(after.conversations, id),
        ) by {
        let before = agent.history(id);
        assert(before =~= before.subrange(0, before.len() as int));
        assert forall|entry: EntryView<RoleType>|
            before.is_prefix_of(#[trigger] before.push(entry)) by {
            assert(before =~= before.push(entry).subrange(0, before.len() as int));
        }
    }
}

/// Conversations are append-only: after any series of registrations,
/// directory updates, arrivals and responses, every conversation that the
/// agent had is still there, and every conversation is at least as long as
/// it was and begins with exactly the entries it had. The count of responses
/// has not gone down.
pub proof fn lemma_history_is_append_only<RoleType: Role, Callback, Addr>(
    agent: AgentView<RoleType, Callback, Addr>,
    ops: Seq<AgentOp<RoleType, Callback, Addr>>,
)
    ensures
        extends(agent.apply_all(ops).conversations, agent.conversations),
        forall|id: usize|
            agent.history(id).len() <= (#[trigger] agent.apply_all(ops).history(id)).len(),
        forall|id: usize, place: int|
            0 <= place < agent.history(id).len() ==> (#[trigger] agent.apply_all(ops).history(
                id,
            )[place]) == agent.history(id)[place],
        agent.apply_all(ops).response_count >= agent.response_count,
    decreases ops.len(),
{
    let after = agent.apply_all(ops);
    if ops.len() == 0 {
        assert forall|id: usize|
            history_of(agent.conversations, id).is_prefix_of(
                #[trigger] history_of(after.conversations, id),
            ) by {
            let before = agent.history(id);
            assert(before =~= before.subrange(0, before.len() as int));
        }
    } else {
        let middle = agent.apply_all(ops.drop_last());
        lemma_history_is_append_only(agent, ops.drop_last());
        lemma_step_is_append_only(middle, ops.last());
        assert forall|id: usize|
            history_of(agent.conversations, id).is_prefix_of(
                #[trigger] history_of(after.conversations, id),
            ) by {
            let first = agent.history(id);
            let second = middle.history(id);
            let third = after.history(id);
            assert(first.is_prefix_of(second));
            assert(second.is_prefix_of(third));
            assert(first =~= third.subrange(0, first.len() as int)) by {
                assert(first =~= second.subrange(0, first.len() as int));
                assert(second =~= third.subrange(0, second.len() as int));
            }
        }
    }
    assert forall|id: usize, place: int| 0 <= place < agent.history(id).len() implies (
    #[trigger] after.history(id)[place]) == agent.history(id)[place] by {
        let first = agent.history(id);
        assert(first.is_prefix_of(after.history(id)));
        assert(first[place] == after.history(id).subrange(0, first.len() as int)[place]);
    }
}

/// The execution order of the handlers of a role is unique: two lists that
/// both hold all handlers of the role by ascending priority are the same list.
pub proof fn lemma_resolution_is_unique<RoleType, Callback>(
    callbacks: Map<(usize, RoleType), Callback>,
    role: RoleType,
    first: Seq<(usize, Callback)>,
    second: Seq<(usize, Callback)>,
)
    requires
        is_resolution(callbacks, role, first),
        is_resolution(callbacks, role, second),
    ensures
        first == second,
    decreases first.len(),
{
    if first.len() == 0 {
        if second.len() > 0 {
            assert(callbacks.contains_key((second[0].0, role)));
        }
        assert(first =~= second);
    } else if second.len() == 0 {
        assert(callbacks.contains_key((first[0].0, role)));
    } else {
        // Both lists end with the handler of the highest priority.
        let a = first.last();
        let b = second.last();
        assert(callbacks.contains_key((a.0, role)));
        assert(callbacks.contains_key((b.0, role)));
        let i = choose|i: int| 0 <= i < second.len() && (#[trigger] second[i]).0 == a.0;
        let j = choose|j: int| 0 <= j < first.len() && (#[trigger] first[j]).0 == b.0;
        assert(a.0 == b.0) by {
            if i < second.len() - 1 {
                assert(second[i].0 < second[second.len() - 1].0);
            }
            if j < first.len() - 1 {
                assert(first[j].0 < first[first.len() - 1].0);
            }
        }
        assert(a == b);
        let rest = callbacks.remove((a.0, role));
        lemma_resolution_without_last(callbacks, role, first);
        lemma_resolution_without_last(callbacks, role, second);
        lemma_resolution_is_unique(rest, role, first.drop_last(), second.drop_last());
        assert(first =~= first.drop_last().push(a));
        assert(second =~= second.drop_last().push(b));
    }
}

/// Taking the handler of the highest priority out of the registry and off the
/// end of the list leaves an execution order.
proof fn lemma_resolution_without_last<RoleType, Callback>(
    callbacks: Map<(usize, RoleType), Callback>,
    role: RoleType,
    handlers: Seq<(usize, Callback)>,
)
    requires
        is_resolution(callbacks, role, handlers),
        handlers.len() > 0,
    ensures
        is_resolution(callbacks.remove((handlers.last().0, role)), role, handlers.drop_last()),
{
    let top = handlers.last().0;
    let rest = callbacks.remove((top, role));
    let shorter = handlers.drop_last();
    assert forall|i: int| 0 <= i < shorter.len() implies rest.contains_key(
        ((#[trigger] shorter[i]).0, role),
    ) && rest[(shorter[i].0, role)] == shorter[i].1 by {
        assert(shorter[i] == handlers[i]);
        assert(handlers[i].0 < handlers[handlers.len() - 1].0);
    }
    assert forall|priority: usize| #[trigger] rest.contains_key((priority, role)) implies exists|
        i: int,
    | 0 <= i < shorter.len() && (#[trigger] shorter[i]).0 == priority by {
        assert(callbacks.contains_key((priority, role)));
        let i = choose|i: int| 0 <= i < handlers.len() && (#[trigger] handlers[i]).0 == priority;
        assert(i < handlers.len() - 1);
        assert(shorter[i] == handlers[i]);
    }
    assert forall|i: int, j: int| 0 <= i < j < shorter.len() implies (#[trigger] shorter[i]).0 < (
    #[trigger] shorter[j]).0 by {
        assert(shorter[i] == handlers[i] && shorter[j] == handlers[j]);
    }
}

/// Of two handlers that the same role triggers, the one with the lower
/// priority runs first, and both run.
pub proof fn lemma_lower_priority_runs_first<RoleType, Callback>(
    callbacks: Map<(usize, RoleType), Callback>,
    role: RoleType,
    handlers: Seq<(usize, Callback)>,
    low: usize,
    high: usize,
)
    requires
        is_resolution(callbacks, role, handlers),
        callbacks.contains_key((low, role)),
        callbacks.contains_key((high, role)),
        low < high,
    ensures
        exists|i: int, j: int|
            0 <= i < j < handlers.len() && #[trigger] handlers[i] == (low, callbacks[(low, role)])
                && #[trigger] handlers[j] == (high, callbacks[(high, role)]),
{
    let i = choose|i: int| 0 <= i < handlers.len() && (#[trigger] handlers[i]).0 == low;
    let j = choose|j: int| 0 <= j < handlers.len() && (#[trigger] handlers[j]).0 == high;
    if j < i {
        assert(handlers[j].0 < handlers[i].0);
    }
    assert(i < j);
    assert(handlers[i] == (low, callbacks[(low, role)]));
    assert(handlers[j] == (high, callbacks[(high, role)]));
}

/// A run asks the handlers in their order and ends with the answer of the
/// last one. After fewer answers than handlers are left, the handler that
/// is due is the one that many places further on. After as many answers as
/// handlers are left, the run is over, and what it has come to is the last
/// answer alone, whatever the handlers before it answered.
pub proof fn lemma_last_answer_wins<RoleType, Callback>(
    invocation: InvocationView<RoleType, Callback>,
    results: Seq<Option<ResponseView<RoleType>>>,
)
    requires
        invocation.wf(),
        results.len() <= invocation.handlers.len() - invocation.cursor,
    ensures
        results.len() < invocation.handlers.len() - invocation.cursor ==> ProgressView::Invoke(
            invocation,
        ).run(results) == ProgressView::Invoke(
            InvocationView { cursor: invocation.cursor + results.len(), ..invocation },
        ),
        results.len() == invocation.handlers.len() - invocation.cursor ==> ProgressView::Invoke(
            invocation,
        ).run(results) == (ProgressView::<RoleType, Callback>::Done {
            message: invocation.message,
            candidate: results.last(),
        }),
    decreases results.len(),
{
    let begin = ProgressView::Invoke(invocation);
    if results.len() == 0 {
        assert(InvocationView { cursor: invocation.cursor + 0, ..invocation } == invocation);
    } else {
        let next = invocation.advance(results[0]);
        let rest = results.skip(1);
        assert(begin.run(results) == next.run(rest));
        if invocation.cursor + 1 < invocation.handlers.len() {
            let moved = InvocationView { cursor: invocation.cursor + 1, ..invocation };
            lemma_last_answer_wins(moved, rest);
            if rest.len() > 0 {
                assert(rest.last() == results.last());
            }
            assert(InvocationView { cursor: moved.cursor + rest.len(), ..moved }
                == InvocationView { cursor: invocation.cursor + results.len(), ..invocation });
        } else {
            assert(rest.len() == 0);
            assert(results.last() == results[0]);
        }
    }
}

/// Two handlers bound to the same role under different priorities, and no
/// other for that role: a message from the role has the one of lower priority
/// run first and the other second. If the first answers and the second does
/// not, the run comes to no response: the later answer replaces the earlier.
pub proof fn lemma_later_handler_overrides<RoleType: Role, Callback>(
    callbacks: Map<(usize, RoleType), Callback>,
    handlers: Seq<(usize, Callback)>,
    message: MsgView<RoleType>,
    role: RoleType,
    conversation: Seq<EntryView<RoleType>>,
    system_prompt: Seq<char>,
    low: usize,
    high: usize,
    answer: ResponseView<RoleType>,
)
    requires
        low < high,
        callbacks.contains_key((low, message.from)),
        callbacks.contains_key((high, message.from)),
        forall|priority: usize| #[trigger]
            callbacks.contains_key((priority, message.from)) ==> priority == low || priority
                == high,
        is_resolution(callbacks, message.from, handlers),
    ensures
        handlers == seq![
            (low, callbacks[(low, message.from)]),
            (high, callbacks[(high, message.from)]),
        ],
        ProgressView::start(message, role, conversation, system_prompt, handlers).run(
            seq![Some(answer), None],
        ) == (ProgressView::<RoleType, Callback>::Done { message, candidate: None }),
{
    let expected = seq![
        (low, callbacks[(low, message.from)]),
        (high, callbacks[(high, message.from)]),
    ];
    assert(is_resolution(callbacks, message.from, expected)) by {
        assert(expected[0].0 == low && expected[1].0 == high);
    }
    lemma_resolution_is_unique(callbacks, message.from, handlers, expected);
    let invocation = InvocationView {
        message,
        role,
        conversation,
        system_prompt,
        handlers,
        cursor: 0,
    };
    let results = seq![Some(answer), None];
    lemma_last_answer_wins(invocation, results);
    assert(results.last() == None::<ResponseView<RoleType>>);
}

/// A message and its answer. Agent `b` takes `message` in, its only handler
/// for the sender answers with a response for the sender `a`, and `b` can
/// reach `a`. Then the run comes to that response; the message that leaves
/// goes from `b` to `a` in the same conversation with the response's text;
/// the conversation of `b` has grown by exactly two entries, the message as
/// received and then the answer as sent; no other conversation of `b` has
/// changed; and once the answer arrives at `a`, the conversation of `a` ends
/// with it as received.
pub proof fn lemma_round_trip<RoleType: Role, Callback, Addr>(
    a: AgentView<RoleType, Callback, Addr>,
    b: AgentView<RoleType, Callback, Addr>,
    message: MsgView<RoleType>,
    handlers: Seq<(usize, Callback)>,
    response: ResponseView<RoleType>,
)
    requires
        message.from == a.role,
        is_resolution(b.callbacks, message.from, handlers),
        handlers.len() == 1,
        response.to == a.role,
        b.routes(a.role),
    ensures
        ({
            let id = message.conv_id;
            let taken = b.receive(message);
            let answer = MsgView { from: b.role, to: a.role, msg: response.msg, conv_id: id };
            let done = taken.respond(message, Some(response));
            &&& ProgressView::start(message, b.role, taken.history(id), b.prompt(), handlers).run(
                seq![Some(response)],
            ) == (ProgressView::<RoleType, Callback>::Done { message, candidate: Some(response) })
            &&& taken.verdict(message, Some(response)) == Ok::<MsgView<RoleType>, HandleError>(
                answer,
            )
            &&& done.history(id) == b.history(id) + seq![
                EntryView::Received(message),
                EntryView::Sent(answer),
            ]
            &&& forall|other: usize|
                other != id ==> done.conversations.contains_key(other)
                    == b.conversations.contains_key(other) && done.history(other) == b.history(
                    other,
                )
            &&& done.response_count == b.response_count + 1
            &&& a.receive(answer).history(id) == a.history(id).push(EntryView::Received(answer))
        }),
{
    let id = message.conv_id;
    let taken = b.receive(message);
    let answer = MsgView { from: b.role, to: a.role, msg: response.msg, conv_id: id };
    let done = taken.respond(message, Some(response));
    let invocation = InvocationView {
        message,
        role: b.role,
        conversation: taken.history(id),
        system_prompt: b.prompt(),
        handlers,
        cursor: 0,
    };
    let results = seq![Some(response)];
    lemma_last_answer_wins(invocation, results);
    assert(results.last() == Some(response));
    assert(done.history(id) =~= b.history(id) + seq![
        EntryView::Received(message),
        EntryView::Sent(answer),
    ]);
}

/// The word to stop is given exactly when the count of responses reaches the
/// limit: an agent that has given fewer responses than its limit allows is
/// told to stop by the response that takes the count from one below the
/// limit to the limit, and by no response before it.
pub proof fn lemma_stop_at_limit<RoleType: Role, Callback, Addr>(
    agent: AgentView<RoleType, Callback, Addr>,
    limit: usize,
    outgoing: MsgView<RoleType>,
)
    requires
        agent.max_auto_responses == Some(limit),
        agent.response_count < limit,
    ensures
        !agent.exhausted(),
        agent.send(outgoing).exhausted() <==> agent.response_count == limit - 1,
        agent.send(outgoing).response_count == agent.response_count + 1,
{
}

/// The word to stop is given once. Of a series of responses that does not go
/// on beyond the limit, only the one that reaches the limit brings the word
/// to stop; so it can only be the last of them.
pub proof fn lemma_stop_is_given_once<RoleType: Role, Callback, Addr>(
    agent: AgentView<RoleType, Callback, Addr>,
    limit: usize,
    outgoing: Seq<MsgView<RoleType>>,
)
    requires
        agent.max_auto_responses == Some(limit),
        agent.response_count + outgoing.len() <= limit,
    ensures
        agent.send_all(outgoing).max_auto_responses == Some(limit),
        agent.send_all(outgoing).response_count == agent.response_count + outgoing.len(),
        forall|sent: int|
            #![trigger outgoing.take(sent)]
            1 <= sent <= outgoing.len() ==> (agent.send_all(
                outgoing.take(sent),
            ).exhausted() <==> sent == outgoing.len() && agent.response_count + sent == limit),
    decreases outgoing.len(),
{
    lemma_send_all_counts(agent, outgoing);
    assert forall|sent: int|
        #![trigger outgoing.take(sent)]
        1 <= sent <= outgoing.len() implies (agent.send_all(
        outgoing.take(sent),
    ).exhausted() <==> sent == outgoing.len() && agent.response_count + sent == limit) by {
        lemma_send_all_counts(agent, outgoing.take(sent));
    }
}

/// Sending counts every message and leaves the limit alone.
proof fn lemma_send_all_counts<RoleType: Role, Callback, Addr>(
    agent: AgentView<RoleType, Callback, Addr>,
    outgoing: Seq<MsgView<RoleType>>,
)
    ensures
        agent.send_all(outgoing).max_auto_responses == agent.max_auto_responses,
        agent.send_all(outgoing).response_count == agent.response_count + outgoing.len(),
    decreases outgoing.len(),
{
    if outgoing.len() > 0 {
        lemma_send_all_counts(agent, outgoing.drop_last());
    }
}

/// Handing an agent the same directory a second time changes nothing: the
/// agent is as it was after the first time, it reaches the same roles, and
/// the handling of any message ends as it would have.
pub proof fn lemma_directory_update_is_idempotent<RoleType: Role, Callback, Addr>(
    agent: AgentView<RoleType, Callback, Addr>,
    directory: Map<RoleType, (AgentSnapshot<RoleType>, Addr)>,
)
    ensures
        agent.update_peers(directory).update_peers(directory) == agent.update_peers(directory),
        forall|role: RoleType|
            agent.update_peers(directory).update_peers(directory).routes(role)
                == #[trigger] agent.update_peers(directory).routes(role),
        forall|role: RoleType| #[trigger]
            agent.update_peers(directory).routes(role) == directory.contains_key(role),
        forall|message: MsgView<RoleType>, candidate: Option<ResponseView<RoleType>>|
            agent.update_peers(directory).update_peers(directory).verdict(message, candidate)
                == #[trigger] agent.update_peers(directory).verdict(message, candidate),
{
}

} // verus!
