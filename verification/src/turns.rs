//! What a turn asks for, effect by effect.
//!
//! The laws here say what each handler of the message loop does with what it
//! is given: which entries the journal gets, what the model is shown, and what
//! the tools are handed. They speak of the event, of the state before it and of
//! the effects asked for.

use vstd::prelude::*;

use crate::agent_model::{
    first_text, joined, no_failure_from, refusal_note, refusal_rationale, tool_use_blocks, without,
    Activity, AgentView, CostScope, EffectView, FinishReason, InboundView, OutcomeView,
    ResponseView, ScriptView, ToolCallView, Turn,
};
use crate::audit::{AuditView, AuthorityDisposition};
use crate::conversation::{ContentView, EntryView, MessageView, Role};
use crate::identity::Timestamp;
use crate::seen_ids::remembered;

verus! {

// ── What is asked for ────────────────────────────────────────────────────────

/// Every effect still to be asked for succeeds, and reaches no limit.
pub open spec fn unhindered(script: ScriptView) -> bool {
    forall|k: int|
        script.effects.len() <= k < script.outcomes.len() ==> #[trigger] script.outcomes[k]
            == OutcomeView::Done
}

/// From `before` to `after` exactly these effects were asked for, in order, and
/// none of them stopped the agent.
pub open spec fn asks_for(before: Turn, after: Turn, effects: Seq<EffectView>) -> bool {
    after.script == (ScriptView { effects: before.script.effects + effects, ..before.script })
}

/// The model is called with these messages: both cost limits are looked at with
/// what the agent has cost, then the messages go out with the agent's prompt and
/// tools.
pub open spec fn question(agent: AgentView, messages: Seq<MessageView>) -> Seq<EffectView> {
    seq![
        EffectView::CheckCost { scope: CostScope::Agent, microdollars: agent.total_cost },
        EffectView::CheckCost { scope: CostScope::Session, microdollars: agent.total_cost },
        EffectView::CallAdapter {
            messages,
            tools: agent.tools,
            system_prompt: agent.config.system_prompt,
            max_tokens: 4096,
        },
    ]
}

/// What the model is shown of a message: who sent it, and what it says.
pub open spec fn shown_as(msg: InboundView) -> Seq<char> {
    "[from "@ + msg.sender_id + "]\n"@ + msg.payload
}

/// The journal entry of a message.
pub open spec fn received(msg: InboundView, now: Timestamp) -> EffectView {
    EffectView::Append(
        EntryView::Inbound {
            message_id: msg.message_id,
            sender_id: Some(msg.sender_id),
            payload: msg.payload,
            timestamp_utc: now,
        },
    )
}

/// A message of the user's that is one text.
pub open spec fn user_text(text: Seq<char>) -> MessageView {
    MessageView { role: Role::User, content: seq![ContentView::Text(text)] }
}

/// The text of a reply is its first text block, and no text where it has none.
pub open spec fn opens_with(content: Seq<ContentView>, text: Seq<char>) -> bool {
    ||| exists|i: int| #[trigger] first_text_at(content, text, i)
    ||| text.len() == 0 && forall|i: int|
        0 <= i < content.len() ==> !(#[trigger] content[i] is Text)
}

/// The first text block is the `i`-th block, and says `text`.
pub open spec fn first_text_at(content: Seq<ContentView>, text: Seq<char>, i: int) -> bool {
    &&& 0 <= i < content.len()
    &&& content[i] == ContentView::Text(text)
    &&& forall|j: int| 0 <= j < i ==> !(#[trigger] content[j] is Text)
}

/// A reply as it stands in the history: what was said, then the calls with
/// their ids, names and arguments.
pub open spec fn reply_message(response: ResponseView) -> MessageView {
    MessageView {
        role: Role::Assistant,
        content: response.content + Seq::new(
            response.tool_calls.len(),
            |i: int|
                ContentView::ToolUse {
                    id: response.tool_calls[i].id,
                    name: response.tool_calls[i].name,
                    input: response.tool_calls[i].arguments,
                },
        ),
    }
}

/// A reply is put down: its text where it has one, the tokens it took of the
/// agent's model, and what the agent has cost with it.
pub open spec fn put_down(
    agent: AgentView,
    response: ResponseView,
    text: Seq<char>,
    now: Timestamp,
) -> Seq<EffectView> {
    let spoken = if text.len() == 0 {
        Seq::empty()
    } else {
        seq![EffectView::Append(EntryView::Outbound { payload: text, timestamp_utc: now })]
    };
    spoken + seq![
        EffectView::Append(
            EntryView::ModelCall {
                input_tokens: response.input_tokens,
                output_tokens: response.output_tokens,
                model: agent.config.model,
                timestamp_utc: now,
            },
        ),
        EffectView::WriteCost { microdollars: (agent.total_cost + response.microdollars) as u64 },
    ]
}

/// The journal entry of a tool call.
pub open spec fn call_entry(call: ToolCallView, now: Timestamp) -> EffectView {
    EffectView::Append(
        EntryView::ToolUse {
            tool_use_id: call.id,
            name: call.name,
            input: call.arguments,
            timestamp_utc: now,
        },
    )
}

/// A tool is handed a call of this agent's.
pub open spec fn invocation(call: ToolCallView, agent: AgentView) -> EffectView {
    EffectView::InvokeTool {
        tool_use_id: call.id,
        name: call.name,
        input: call.arguments,
        sender_id: agent.config.agent_id,
    }
}

/// The journal entry of a tool's answer.
pub open spec fn answer_entry(
    tool_use_id: Seq<char>,
    content: Seq<char>,
    is_error: bool,
    now: Timestamp,
) -> EffectView {
    EffectView::Append(EntryView::ToolResult { tool_use_id, content, is_error, timestamp_utc: now })
}

/// The journal entry of a note of the runtime's.
pub open spec fn note_entry(message: Seq<char>, now: Timestamp) -> EffectView {
    EffectView::Append(EntryView::System { message, timestamp_utc: now })
}

/// The calls of a reply are handed on, in order: each is journaled; one for a
/// tool of the agent's goes to that tool, and any other is answered with an
/// error that names the tool.
pub open spec fn handed_on(
    agent: AgentView,
    calls: Seq<ToolCallView>,
    now: Timestamp,
) -> Seq<EffectView>
    decreases calls.len(),
{
    if calls.len() == 0 {
        Seq::empty()
    } else {
        let call = calls.last();
        handed_on(agent, calls.drop_last(), now) + seq![
            call_entry(call, now),
            if agent.tools.contains(call.name) {
                invocation(call, agent)
            } else {
                answer_entry(call.id, "unknown tool: "@ + call.name, true, now)
            },
        ]
    }
}

/// The effects that hand a call to a tool, in order.
pub open spec fn invocations(effects: Seq<EffectView>) -> Seq<EffectView> {
    effects.filter(|e: EffectView| e is InvokeTool)
}

/// The calls for tools that the agent has, in order.
pub open spec fn known_calls(calls: Seq<ToolCallView>, agent: AgentView) -> Seq<ToolCallView> {
    calls.filter(|c: ToolCallView| agent.tools.contains(c.name))
}

/// Texts with a blank line between each two.
pub open spec fn paragraphs(parts: Seq<Seq<char>>) -> Seq<char>
    decreases parts.len(),
{
    if parts.len() == 0 {
        Seq::empty()
    } else if parts.len() == 1 {
        parts[0]
    } else {
        paragraphs(parts.drop_last()) + "\n\n"@ + parts.last()
    }
}

/// What the model is shown of messages that waited: each that has text, in
/// order.
pub open spec fn shown_together(queue: Seq<InboundView>) -> Seq<char> {
    paragraphs(
        queue.filter(|m: InboundView| m.payload.len() > 0).map_values(|m: InboundView| shown_as(m)),
    )
}

// ── Steps ────────────────────────────────────────────────────────────────────

proof fn lemma_asked(script: ScriptView, effect: EffectView)
    requires
        no_failure_from(script),
    ensures
        script.attempt(effect) == script.perform(effect),
        no_failure_from(script.perform(effect)),
        !script.perform(effect).failed(),
        unhindered(script) ==> script.perform(effect).last_outcome() == OutcomeView::Done,
        unhindered(script) ==> unhindered(script.perform(effect)),
{
    let asked = script.perform(effect);
    if 0 < asked.effects.len() <= asked.outcomes.len() {
        assert(!(script.outcomes[script.effects.len() as int] is Failed));
    }
}

proof fn lemma_asks_trans(a: Turn, b: Turn, c: Turn, first: Seq<EffectView>, then: Seq<EffectView>)
    requires
        asks_for(a, b, first),
        asks_for(b, c, then),
    ensures
        asks_for(a, c, first + then),
{
    assert(a.script.effects + first + then =~= a.script.effects + (first + then));
}

proof fn lemma_spawn(t: Turn, now: Timestamp)
    requires
        unhindered(t.script),
        t.agent.tool_iteration < 16,
    ensures
        asks_for(t, t.spawn_adapter_call(now), question(t.agent, t.agent.history)),
        t.spawn_adapter_call(now).agent == (AgentView {
            tool_iteration: (t.agent.tool_iteration + 1) as u32,
            ..t.agent
        }),
{
    let own = EffectView::CheckCost {
        scope: CostScope::Agent,
        microdollars: t.agent.total_cost,
    };
    let shared = EffectView::CheckCost {
        scope: CostScope::Session,
        microdollars: t.agent.total_cost,
    };
    lemma_asked(t.script, own);
    lemma_asked(t.script.perform(own), shared);
    assert(t.spawn_adapter_call(now).script.effects =~= t.script.effects + question(
        t.agent,
        t.agent.history,
    ));
}

proof fn lemma_first_text(content: Seq<ContentView>, text: Seq<char>, i: int)
    requires
        0 <= i <= content.len(),
        opens_with(content, text),
        forall|j: int| 0 <= j < i ==> !(#[trigger] content[j] is Text),
    ensures
        first_text(content, i) == text,
    decreases content.len() - i,
{
    if i < content.len() {
        if content[i] is Text {
            assert(exists|k: int| #[trigger] first_text_at(content, text, k));
            let k = choose|k: int| #[trigger] first_text_at(content, text, k);
            if k < i {
                assert(content[k] is Text);
            }
            assert(k == i);
        } else {
            lemma_first_text(content, text, i + 1);
        }
    } else {
        if exists|k: int| #[trigger] first_text_at(content, text, k) {
            let k = choose|k: int| #[trigger] first_text_at(content, text, k);
            assert(content[k] is Text);
        }
        assert(first_text(content, i) =~= text);
    }
}

/// The point after a reply was put down.
spec fn after_reply(t: Turn, response: ResponseView, text: Seq<char>, now: Timestamp) -> Turn {
    Turn {
        agent: AgentView {
            history: t.agent.history.push(reply_message(response)),
            total_cost: (t.agent.total_cost + response.microdollars) as u64,
            ..t.agent
        },
        script: ScriptView {
            effects: t.script.effects + put_down(t.agent, response, text, now),
            ..t.script
        },
    }
}

proof fn lemma_reply(t: Turn, response: ResponseView, text: Seq<char>, now: Timestamp)
    requires
        no_failure_from(t.script),
        opens_with(response.content, text),
    ensures
        ({
            let paid = after_reply(t, response, text, now);
            let after = t.handle_response(response, now);
            &&& no_failure_from(paid.script)
            &&& unhindered(t.script) ==> unhindered(paid.script)
            &&& asks_for(t, paid, put_down(t.agent, response, text, now))
            &&& response.finish_reason == FinishReason::ToolUse ==> after
                == paid.dispatch_tool_calls(response.tool_calls, now)
            &&& response.finish_reason != FinishReason::ToolUse && t.agent.queue.len() == 0 ==> after
                == paid.end_turn()
            &&& response.finish_reason != FinishReason::ToolUse && t.agent.queue.len() > 0 ==> after
                == (Turn {
                agent: AgentView { tool_iteration: 0, ..paid.agent },
                ..paid
            }).drain_pending_into_turn(now)
        }),
{
    lemma_first_text(response.content, text, 0);
    let blocks = response.content + tool_use_blocks(response.tool_calls);
    assert(blocks =~= reply_message(response).content);
    let said = t.say(Role::Assistant, blocks);
    let out = EffectView::Append(EntryView::Outbound { payload: text, timestamp_utc: now });
    let outbound = if text.len() == 0 {
        said
    } else {
        said.attempt(out)
    };
    lemma_asked(said.script, out);
    let call = EffectView::Append(
        EntryView::ModelCall {
            input_tokens: response.input_tokens,
            output_tokens: response.output_tokens,
            model: t.agent.config.model,
            timestamp_utc: now,
        },
    );
    lemma_asked(outbound.script, call);
    let called = outbound.attempt(call);
    let total = (t.agent.total_cost + response.microdollars) as u64;
    let cost = EffectView::WriteCost { microdollars: total };
    lemma_asked(called.script, cost);
    let paid = (Turn {
        agent: AgentView { total_cost: total, ..called.agent },
        ..called
    }).attempt(cost);
    assert(paid.script.effects =~= after_reply(t, response, text, now).script.effects);
    assert(paid == after_reply(t, response, text, now));
}

proof fn lemma_one_handed_on(t: Turn, call: ToolCallView, now: Timestamp)
    requires
        no_failure_from(t.script),
    ensures
        ({
            let after = t.dispatch_one(call, now);
            &&& !t.cannot_journal(call, now)
            &&& no_failure_from(after.script)
            &&& unhindered(t.script) ==> unhindered(after.script)
            &&& asks_for(
                t,
                after,
                seq![
                    call_entry(call, now),
                    if t.agent.tools.contains(call.name) {
                        invocation(call, t.agent)
                    } else {
                        answer_entry(call.id, "unknown tool: "@ + call.name, true, now)
                    },
                ],
            )
            &&& after.agent == (AgentView {
                pending_ids: after.agent.pending_ids,
                pending_results: after.agent.pending_results,
                ..t.agent
            })
            &&& t.agent.tools.contains(call.name) ==> after.agent.pending_results
                == t.agent.pending_results && after.agent.pending_ids.to_set()
                == t.agent.pending_ids.to_set().insert(call.id)
            &&& !t.agent.tools.contains(call.name) ==> after.agent.pending_ids
                == t.agent.pending_ids && after.agent.pending_results
                == t.agent.pending_results.push(
                ContentView::ToolResult {
                    tool_use_id: call.id,
                    content: "unknown tool: "@ + call.name,
                    is_error: true,
                },
            )
        }),
{
    lemma_asked(t.script, call_entry(call, now));
    let journaled = t.attempt(call_entry(call, now));
    let second = if t.agent.tools.contains(call.name) {
        invocation(call, t.agent)
    } else {
        answer_entry(call.id, "unknown tool: "@ + call.name, true, now)
    };
    lemma_asked(journaled.script, second);
    let after = t.dispatch_one(call, now);
    assert(after.script.effects =~= t.script.effects + seq![call_entry(call, now), second]);
    let ids = t.agent.pending_ids;
    if t.agent.tools.contains(call.name) {
        let more = after.agent.pending_ids;
        assert forall|id: Seq<char>| more.contains(id) <==> ids.contains(id) || id == call.id by {
            if more.contains(id) && !ids.contains(call.id) {
                let k = choose|k: int| 0 <= k < more.len() && more[k] == id;
                if k < ids.len() {
                    assert(ids[k] == id);
                }
            }
            if ids.contains(id) && !ids.contains(call.id) {
                let k = choose|k: int| 0 <= k < ids.len() && ids[k] == id;
                assert(more[k] == id);
            }
            if id == call.id && !ids.contains(call.id) {
                assert(more[ids.len() as int] == id);
            }
        }
        assert(more.to_set() =~= ids.to_set().insert(call.id));
    }
}

/// The ids of calls.
pub open spec fn call_ids(calls: Seq<ToolCallView>) -> Set<Seq<char>> {
    calls.map_values(|c: ToolCallView| c.id).to_set()
}

/// The errors that stand for calls of tools that are not there.
pub open spec fn unknown_answers(
    calls: Seq<ToolCallView>,
    agent: AgentView,
) -> Seq<ContentView> {
    calls.filter(|c: ToolCallView| !agent.tools.contains(c.name)).map_values(
        |c: ToolCallView|
            ContentView::ToolResult {
                tool_use_id: c.id,
                content: "unknown tool: "@ + c.name,
                is_error: true,
            },
    )
}

proof fn lemma_filter_last<A>(s: Seq<A>, p: spec_fn(A) -> bool)
    requires
        s.len() > 0,
    ensures
        s.filter(p) == if p(s.last()) {
            s.drop_last().filter(p).push(s.last())
        } else {
            s.drop_last().filter(p)
        },
{
    reveal(Seq::filter);
}

proof fn lemma_handed_on(t: Turn, calls: Seq<ToolCallView>, n: int, now: Timestamp)
    requires
        no_failure_from(t.script),
        0 <= n <= calls.len(),
    ensures
        ({
            let (after, all) = t.dispatch_upto(calls, n, now);
            let some = calls.take(n);
            &&& all
            &&& no_failure_from(after.script)
            &&& unhindered(t.script) ==> unhindered(after.script)
            &&& asks_for(t, after, handed_on(t.agent, some, now))
            &&& after.agent == (AgentView {
                pending_ids: after.agent.pending_ids,
                pending_results: after.agent.pending_results,
                ..t.agent
            })
            &&& after.agent.pending_ids.to_set() == t.agent.pending_ids.to_set() + call_ids(
                known_calls(some, t.agent),
            )
            &&& after.agent.pending_results == t.agent.pending_results + unknown_answers(
                some,
                t.agent,
            )
        }),
    decreases n,
{
    let some = calls.take(n);
    if n > 0 {
        lemma_handed_on(t, calls, n - 1, now);
        let before = t.dispatch_upto(calls, n - 1, now).0;
        let call = calls[n - 1];
        assert(some.drop_last() =~= calls.take(n - 1));
        assert(some.last() == call);
        lemma_one_handed_on(before, call, now);
        let after = before.dispatch_one(call, now);
        lemma_asks_trans(
            t,
            before,
            after,
            handed_on(t.agent, calls.take(n - 1), now),
            seq![
                call_entry(call, now),
                if t.agent.tools.contains(call.name) {
                    invocation(call, t.agent)
                } else {
                    answer_entry(call.id, "unknown tool: "@ + call.name, true, now)
                },
            ],
        );
        let known = |c: ToolCallView| t.agent.tools.contains(c.name);
        let unknown = |c: ToolCallView| !t.agent.tools.contains(c.name);
        lemma_filter_last(some, known);
        lemma_filter_last(some, unknown);
        let few = known_calls(calls.take(n - 1), t.agent);
        let many = known_calls(some, t.agent);
        if known(call) {
            let id_of = |c: ToolCallView| c.id;
            assert(many == few.push(call));
            assert(many.map_values(id_of) =~= few.map_values(id_of).push(call.id));
            lemma_push_to_set(few.map_values(id_of), call.id);
            assert(call_ids(many) =~= call_ids(few).insert(call.id));
            assert(t.agent.pending_ids.to_set() + call_ids(many) =~= (t.agent.pending_ids.to_set()
                + call_ids(few)).insert(call.id));
        } else {
            assert(t.agent.pending_results + unknown_answers(some, t.agent) =~= (
            t.agent.pending_results + unknown_answers(calls.take(n - 1), t.agent)).push(
                ContentView::ToolResult {
                    tool_use_id: call.id,
                    content: "unknown tool: "@ + call.name,
                    is_error: true,
                },
            ));
        }
    } else {
        reveal(Seq::filter);
        assert(t.script.effects + handed_on(t.agent, some, now) =~= t.script.effects);
        assert(call_ids(known_calls(some, t.agent)) =~= Set::empty());
        assert(t.agent.pending_ids.to_set() + call_ids(known_calls(some, t.agent))
            =~= t.agent.pending_ids.to_set());
        assert(t.agent.pending_results + unknown_answers(some, t.agent)
            =~= t.agent.pending_results);
    }
}

proof fn lemma_push_to_set(s: Seq<Seq<char>>, x: Seq<char>)
    ensures
        s.push(x).to_set() == s.to_set().insert(x),
{
    let more = s.push(x);
    assert forall|y: Seq<char>| more.to_set().contains(y) <==> s.to_set().insert(x).contains(y) by {
        if more.contains(y) {
            let k = choose|k: int| 0 <= k < more.len() && more[k] == y;
            if k < s.len() {
                assert(s[k] == y);
            }
        }
        if s.contains(y) {
            let k = choose|k: int| 0 <= k < s.len() && s[k] == y;
            assert(more[k] == y);
        }
        assert(more[s.len() as int] == x);
    }
    assert(more.to_set() =~= s.to_set().insert(x));
}

proof fn lemma_append_filter(a: Seq<EffectView>, b: Seq<EffectView>)
    ensures
        invocations(a + b) == invocations(a) + invocations(b),
    decreases b.len(),
{
    let p = |e: EffectView| e is InvokeTool;
    if b.len() == 0 {
        reveal(Seq::filter);
        assert(a + b =~= a);
        assert(invocations(a) + invocations(b) =~= invocations(a));
    } else {
        lemma_append_filter(a, b.drop_last());
        lemma_filter_last(a + b, p);
        lemma_filter_last(b, p);
        assert((a + b).drop_last() =~= a + b.drop_last());
        assert(invocations(a + b) =~= invocations(a) + invocations(b));
    }
}

proof fn lemma_none_invoked(effects: Seq<EffectView>)
    requires
        forall|i: int| 0 <= i < effects.len() ==> !(#[trigger] effects[i] is InvokeTool),
    ensures
        invocations(effects) == Seq::<EffectView>::empty(),
    decreases effects.len(),
{
    reveal(Seq::filter);
    if effects.len() > 0 {
        lemma_none_invoked(effects.drop_last());
    }
}

proof fn lemma_handed_on_invocations(agent: AgentView, calls: Seq<ToolCallView>, now: Timestamp)
    ensures
        invocations(handed_on(agent, calls, now)) == known_calls(calls, agent).map_values(
            |c: ToolCallView| invocation(c, agent),
        ),
        forall|i: int|
            0 <= i < handed_on(agent, calls, now).len() && #[trigger] handed_on(
                agent,
                calls,
                now,
            )[i] is InvokeTool ==> i > 0 && journaled_before(
                handed_on(agent, calls, now),
                i,
                now,
            ),
    decreases calls.len(),
{
    let to = |c: ToolCallView| invocation(c, agent);
    if calls.len() == 0 {
        reveal(Seq::filter);
        assert(invocations(handed_on(agent, calls, now)) =~= known_calls(calls, agent).map_values(
            to,
        ));
    } else {
        let call = calls.last();
        let before = handed_on(agent, calls.drop_last(), now);
        let second = if agent.tools.contains(call.name) {
            invocation(call, agent)
        } else {
            answer_entry(call.id, "unknown tool: "@ + call.name, true, now)
        };
        let two = seq![call_entry(call, now), second];
        let all = handed_on(agent, calls, now);
        lemma_handed_on_invocations(agent, calls.drop_last(), now);
        lemma_append_filter(before, two);
        lemma_filter_last(calls, |c: ToolCallView| agent.tools.contains(c.name));
        let p = |e: EffectView| e is InvokeTool;
        lemma_filter_last(two, p);
        lemma_filter_last(two.drop_last(), p);
        lemma_none_invoked(two.drop_last().drop_last());
        if agent.tools.contains(call.name) {
            assert(invocations(two) =~= seq![second]);
        } else {
            assert(invocations(two) =~= Seq::empty());
        }
        assert(invocations(all) =~= known_calls(calls, agent).map_values(to));
        assert forall|i: int| 0 <= i < all.len() && #[trigger] all[i] is InvokeTool implies i > 0
            && journaled_before(all, i, now) by {
            if i < before.len() {
                assert(before[i] is InvokeTool);
                assert(all[i - 1] == before[i - 1]);
            } else {
                assert(i == before.len() + 1);
                assert(all[i - 1] == call_entry(call, now));
            }
        }
    }
}

/// The effect before the `i`-th puts down in the journal the call that the
/// `i`-th hands to a tool: same id, same name, same arguments.
pub open spec fn journaled_before(effects: Seq<EffectView>, i: int, now: Timestamp) -> bool {
    effects[i] matches EffectView::InvokeTool { tool_use_id, name, input, .. } && effects[i - 1]
        == EffectView::Append(EntryView::ToolUse { tool_use_id, name, input, timestamp_utc: now })
}

// ── Laws ─────────────────────────────────────────────────────────────────────

/// A new message begins a turn: the status says so, the message is journaled as
/// it came, and the model is shown everything said before and the message, with
/// its sender in front.
pub proof fn law_message_reaches_the_model(t: Turn, msg: InboundView, now: Timestamp)
    requires
        t.agent.wf(),
        !t.agent.in_flight,
        !t.agent.seen.contains(msg.message_id),
        unhindered(t.script),
    ensures
        ({
            let after = t.process_inbound(msg, now);
            let history = t.agent.history.push(user_text(shown_as(msg)));
            &&& asks_for(
                t,
                after,
                seq![EffectView::WriteStatus(Activity::Working), received(msg, now)] + question(
                    t.agent,
                    history,
                ),
            )
            &&& after.agent == (AgentView {
                in_flight: true,
                history,
                tool_iteration: 1,
                seen: remembered(t.agent.seen, msg.message_id),
                ..t.agent
            })
        }),
{
    let begun = Turn {
        agent: AgentView {
            in_flight: true,
            seen: remembered(t.agent.seen, msg.message_id),
            ..t.agent
        },
        ..t
    };
    let status = EffectView::WriteStatus(Activity::Working);
    lemma_asked(begun.script, status);
    let working = begun.attempt(status);
    lemma_asked(working.script, received(msg, now));
    let journaled = working.attempt(received(msg, now));
    let asked = journaled.say(Role::User, seq![ContentView::Text(shown_as(msg))]);
    lemma_spawn(asked, now);
    assert(asked.script.effects =~= t.script.effects + seq![status, received(msg, now)]);
    lemma_asks_trans(
        t,
        asked,
        asked.spawn_adapter_call(now),
        seq![status, received(msg, now)],
        question(t.agent, asked.agent.history),
    );
}

/// A message that was taken before does nothing.
pub proof fn law_known_message_is_dropped(t: Turn, msg: InboundView, now: Timestamp)
    requires
        t.agent.seen.contains(msg.message_id),
    ensures
        t.process_inbound(msg, now) == t,
{
}

/// A message that cannot be journaled goes no further: the model does not see
/// it, and the agent is stopped.
pub proof fn law_message_is_journaled_or_stops(t: Turn, msg: InboundView, now: Timestamp)
    requires
        !t.agent.in_flight,
        !t.agent.seen.contains(msg.message_id),
        t.script.effects.len() + 1 < t.script.outcomes.len(),
    ensures
        ({
            let after = t.process_inbound(msg, now);
            let first = t.script.effects.len() as int;
            let status = EffectView::WriteStatus(Activity::Working);
            &&& t.script.outcomes[first] is Failed ==> after.script.effects
                == t.script.effects.push(status) && after.script.stopped && after.agent.history
                == t.agent.history
            &&& t.script.outcomes[first] == OutcomeView::Done && t.script.outcomes[first
                + 1] is Failed ==> after.script.effects == t.script.effects.push(status).push(
                received(msg, now),
            ) && after.script.stopped && after.agent.history == t.agent.history
        }),
{
}

proof fn lemma_advance_invokes_nothing(t: Turn, now: Timestamp)
    ensures
        ({
            let after = t.advance_after_tools(now);
            &&& t.script.effects.is_prefix_of(after.script.effects)
            &&& forall|i: int|
                t.script.effects.len() <= i < after.script.effects.len() ==> !(
                #[trigger] after.script.effects[i] is InvokeTool)
        }),
{
    let after = t.advance_after_tools(now);
    assert(t.script.effects =~= after.script.effects.subrange(0, t.script.effects.len() as int));
}

/// The tools are handed what the model asked of them: of a reply that asks for
/// tools, each call for a tool of the agent's goes to that tool, in order, with
/// the call's own id and arguments and with the agent as sender; nothing else is
/// handed to any tool. What a tool is handed is what the journal was given just
/// before.
pub proof fn law_tools_get_what_the_model_asked(t: Turn, response: ResponseView, now: Timestamp)
    requires
        response.finish_reason == FinishReason::ToolUse,
        no_failure_from(t.script),
    ensures
        ({
            let after = t.handle_response(response, now);
            let first = t.script.effects.len() as int;
            &&& invocations(after.script.effects) == invocations(t.script.effects)
                + response.tool_calls.filter(
                |c: ToolCallView| t.agent.tools.contains(c.name),
            ).map_values(
                |c: ToolCallView|
                    EffectView::InvokeTool {
                        tool_use_id: c.id,
                        name: c.name,
                        input: c.arguments,
                        sender_id: t.agent.config.agent_id,
                    },
            )
            &&& forall|i: int|
                first <= i < after.script.effects.len()
                    && #[trigger] after.script.effects[i] is InvokeTool ==> i > first
                    && journaled_before(after.script.effects, i, now)
        }),
{
    let text = lemma_opens(response.content);
    lemma_reply(t, response, text, now);
    let agent = t.agent;
    let calls = response.tool_calls;
    let paid = after_reply(t, response, text, now);
    lemma_handed_on(paid, calls, calls.len() as int, now);
    assert(calls.take(calls.len() as int) =~= calls);
    lemma_handed_on_same(agent, paid.agent, calls, now);
    let dispatched = paid.dispatch_upto(calls, calls.len() as int, now).0;
    let after = t.handle_response(response, now);
    let head = put_down(agent, response, text, now);
    let handed = handed_on(agent, calls, now);
    let first = t.script.effects.len() as int;
    let early = dispatched.script.effects;
    lemma_advance_invokes_nothing(dispatched, now);
    let tail = after.script.effects.skip(early.len() as int);
    assert(after.script.effects =~= early + tail) by {
        assert forall|i: int| 0 <= i < early.len() implies early[i] == after.script.effects[i] by {
            if dispatched.agent.pending_ids.len() == 0 {
                assert(early[i] == after.script.effects.subrange(0, early.len() as int)[i]);
            }
        }
    }
    assert forall|i: int| 0 <= i < tail.len() implies !(#[trigger] tail[i] is InvokeTool) by {
        assert(tail[i] == after.script.effects[early.len() + i]);
    }
    lemma_none_invoked(head);
    lemma_none_invoked(tail);
    lemma_handed_on_invocations(agent, calls, now);
    assert(early =~= t.script.effects + head + handed);
    lemma_append_filter(early, tail);
    lemma_append_filter(t.script.effects + head, handed);
    lemma_append_filter(t.script.effects, head);
    let to = |c: ToolCallView| invocation(c, agent);
    let spelled = |c: ToolCallView|
        EffectView::InvokeTool {
            tool_use_id: c.id,
            name: c.name,
            input: c.arguments,
            sender_id: t.agent.config.agent_id,
        };
    let known = calls.filter(|c: ToolCallView| t.agent.tools.contains(c.name));
    assert(known.map_values(to) =~= known.map_values(spelled));
    assert(invocations(after.script.effects) =~= invocations(t.script.effects) + known.map_values(
        spelled,
    ));
    assert forall|i: int|
        first <= i < after.script.effects.len()
            && #[trigger] after.script.effects[i] is InvokeTool implies i > first
        && journaled_before(after.script.effects, i, now) by {
        let x = i - first - head.len();
        if x < 0 {
            assert(after.script.effects[i] == head[i - first]);
        } else if x < handed.len() {
            assert(after.script.effects[i] == handed[x]);
            assert(after.script.effects[i - 1] == handed[x - 1]);
        } else {
            assert(after.script.effects[i] == tail[x - handed.len()]);
        }
    }
}

proof fn lemma_opens(content: Seq<ContentView>) -> (text: Seq<char>)
    ensures
        opens_with(content, text),
    decreases content.len(),
{
    if content.len() == 0 {
        Seq::empty()
    } else {
        let before = content.drop_last();
        let text = lemma_opens(before);
        if exists|i: int| #[trigger] first_text_at(before, text, i) {
            let i = choose|i: int| #[trigger] first_text_at(before, text, i);
            assert forall|j: int| 0 <= j < i implies !(#[trigger] content[j] is Text) by {
                assert(content[j] == before[j]);
            }
            assert(first_text_at(content, text, i));
            text
        } else {
            assert forall|j: int| 0 <= j < content.len() - 1 implies !(
            #[trigger] content[j] is Text) by {
                assert(content[j] == before[j]);
            }
            match content.last() {
                ContentView::Text(last) => {
                    assert(first_text_at(content, last, content.len() - 1));
                    last
                },
                _ => text,
            }
        }
    }
}

/// What is handed on depends on the agent's tools and id alone.
proof fn lemma_handed_on_same(a: AgentView, b: AgentView, calls: Seq<ToolCallView>, now: Timestamp)
    requires
        a.tools == b.tools,
        a.config == b.config,
    ensures
        handed_on(a, calls, now) == handed_on(b, calls, now),
        known_calls(calls, a) == known_calls(calls, b),
        unknown_answers(calls, a) == unknown_answers(calls, b),
    decreases calls.len(),
{
    if calls.len() > 0 {
        lemma_handed_on_same(a, b, calls.drop_last(), now);
    }
    assert(known_calls(calls, a) == known_calls(calls, b));
    assert(unknown_answers(calls, a) == unknown_answers(calls, b));
}

/// A reply joins the history as it was given, and is put down: where nothing
/// fails, the first effects are its text, its tokens and the agent's cost with
/// it, whatever comes after them.
pub proof fn law_reply_is_put_down(
    t: Turn,
    response: ResponseView,
    text: Seq<char>,
    now: Timestamp,
)
    requires
        t.agent.wf(),
        t.agent.awaits_model(),
        opens_with(response.content, text),
        no_failure_from(t.script),
        t.agent.total_cost + response.microdollars <= u64::MAX,
    ensures
        ({
            let after = t.handle_response(response, now);
            let first = put_down(t.agent, response, text, now);
            &&& (t.script.effects + first).is_prefix_of(after.script.effects)
            &&& after.agent.total_cost == t.agent.total_cost + response.microdollars
            &&& after.agent.history.len() > t.agent.history.len()
            &&& after.agent.history.take(t.agent.history.len() as int + 1)
                == t.agent.history.push(reply_message(response))
        }),
{
    lemma_reply(t, response, text, now);
    let paid = after_reply(t, response, text, now);
    let after = t.handle_response(response, now);
    let calls = response.tool_calls;
    if response.finish_reason == FinishReason::ToolUse {
        lemma_handed_on(paid, calls, calls.len() as int, now);
        let dispatched = paid.dispatch_upto(calls, calls.len() as int, now).0;
        lemma_advance_keeps(dispatched, now);
    } else if t.agent.queue.len() > 0 {
        lemma_drain_keeps(
            Turn { agent: AgentView { tool_iteration: 0, ..paid.agent }, ..paid },
            Seq::empty(),
            now,
        );
        let reset = Turn { agent: AgentView { tool_iteration: 0, ..paid.agent }, ..paid };
        match reset.drain(Seq::empty(), now) {
            (drained, None) => {},
            (drained, Some(combined)) => {
                lemma_spawn_keeps(
                    drained.say(Role::User, seq![ContentView::Text(combined)]),
                    now,
                );
            },
        }
    }
    assert(kept(paid, after));
    let early = t.script.effects + put_down(t.agent, response, text, now);
    assert(early =~= after.script.effects.subrange(0, early.len() as int));
    assert(after.agent.history.take(t.agent.history.len() as int + 1) =~= t.agent.history.push(
        reply_message(response),
    ));
}

/// What was asked for, said and spent stays, and more may be.
spec fn kept(before: Turn, after: Turn) -> bool {
    &&& before.script.effects.len() <= after.script.effects.len()
    &&& forall|i: int|
        0 <= i < before.script.effects.len() ==> #[trigger] after.script.effects[i]
            == before.script.effects[i]
    &&& before.agent.history.len() <= after.agent.history.len()
    &&& forall|i: int|
        0 <= i < before.agent.history.len() ==> #[trigger] after.agent.history[i]
            == before.agent.history[i]
    &&& after.agent.total_cost == before.agent.total_cost
}

proof fn lemma_spawn_keeps(t: Turn, now: Timestamp)
    ensures
        kept(t, t.spawn_adapter_call(now)),
{
}

proof fn lemma_advance_keeps(t: Turn, now: Timestamp)
    ensures
        kept(t, t.advance_after_tools(now)),
{
    let results = t.agent.pending_results;
    let taken = Turn { agent: AgentView { pending_results: Seq::empty(), ..t.agent }, ..t };
    lemma_spawn_keeps(taken, now);
    lemma_spawn_keeps(taken.say(Role::User, results), now);
}

proof fn lemma_drain_keeps(t: Turn, combined: Seq<char>, now: Timestamp)
    ensures
        kept(t, t.drain(combined, now).0),
    decreases t.agent.queue.len(),
{
    if t.agent.queue.len() > 0 {
        let msg = t.agent.queue[0];
        let taken = Turn {
            agent: AgentView { queue: t.agent.queue.drop_first(), ..t.agent },
            ..t
        };
        let journaled = taken.append_inbound(msg, now);
        lemma_drain_keeps(journaled, joined(combined, msg), now);
        assert(kept(t, journaled));
        let after = journaled.drain(joined(combined, msg), now).0;
        if !journaled.script.failed() {
            assert forall|i: int| 0 <= i < t.script.effects.len() implies
                #[trigger] after.script.effects[i] == t.script.effects[i] by {
                assert(after.script.effects[i] == journaled.script.effects[i]);
            }
            assert forall|i: int| 0 <= i < t.agent.history.len() implies
                #[trigger] after.agent.history[i] == t.agent.history[i] by {
                assert(after.agent.history[i] == journaled.agent.history[i]);
            }
        }
    }
}

/// A reply that asks for tools of the agent's: it is put down, its calls are
/// handed on, and the agent waits half a minute for exactly the tools it asked.
pub proof fn law_asked_tools_are_awaited(
    t: Turn,
    response: ResponseView,
    text: Seq<char>,
    now: Timestamp,
)
    requires
        t.agent.wf(),
        t.agent.awaits_model(),
        response.finish_reason == FinishReason::ToolUse,
        opens_with(response.content, text),
        known_calls(response.tool_calls, t.agent).len() > 0,
        no_failure_from(t.script),
    ensures
        ({
            let after = t.handle_response(response, now);
            let calls = response.tool_calls;
            &&& asks_for(
                t,
                after,
                put_down(t.agent, response, text, now) + handed_on(t.agent, calls, now) + seq![
                    EffectView::ArmToolTimeout { seconds: 30 },
                ],
            )
            &&& after.agent.pending_ids.to_set() == call_ids(known_calls(calls, t.agent))
            &&& after.agent == (AgentView {
                history: t.agent.history.push(reply_message(response)),
                total_cost: (t.agent.total_cost + response.microdollars) as u64,
                pending_ids: after.agent.pending_ids,
                pending_results: unknown_answers(calls, t.agent),
                ..t.agent
            })
        }),
{
    lemma_reply(t, response, text, now);
    let calls = response.tool_calls;
    let paid = after_reply(t, response, text, now);
    lemma_handed_on(paid, calls, calls.len() as int, now);
    assert(calls.take(calls.len() as int) =~= calls);
    lemma_handed_on_same(t.agent, paid.agent, calls, now);
    let dispatched = paid.dispatch_upto(calls, calls.len() as int, now).0;
    let known = known_calls(calls, t.agent);
    assert(t.agent.pending_ids.to_set() =~= Set::empty());
    assert(dispatched.agent.pending_ids.to_set() =~= call_ids(known));
    assert(dispatched.agent.pending_ids.len() > 0) by {
        let ids = known.map_values(|c: ToolCallView| c.id);
        assert(ids.contains(ids[0]));
        assert(dispatched.agent.pending_ids.to_set().contains(ids[0]));
    }
    let after = t.handle_response(response, now);
    assert(t.agent.pending_results + unknown_answers(calls, t.agent) =~= unknown_answers(
        calls,
        t.agent,
    ));
    assert(after.script.effects =~= t.script.effects + (put_down(t.agent, response, text, now)
        + handed_on(t.agent, calls, now) + seq![EffectView::ArmToolTimeout { seconds: 30 }]));
}

/// A reply that asks only for tools that are not there: each call is journaled
/// and answered with an error, and the model is shown the errors at once.
pub proof fn law_unknown_tools_are_answered(
    t: Turn,
    response: ResponseView,
    text: Seq<char>,
    now: Timestamp,
)
    requires
        t.agent.wf(),
        t.agent.awaits_model(),
        t.agent.tool_iteration < 16,
        response.finish_reason == FinishReason::ToolUse,
        opens_with(response.content, text),
        response.tool_calls.len() > 0,
        known_calls(response.tool_calls, t.agent).len() == 0,
        unhindered(t.script),
    ensures
        ({
            let after = t.handle_response(response, now);
            let calls = response.tool_calls;
            let history = t.agent.history.push(reply_message(response)).push(
                MessageView { role: Role::User, content: unknown_answers(calls, t.agent) },
            );
            let total_cost = (t.agent.total_cost + response.microdollars) as u64;
            &&& asks_for(
                t,
                after,
                put_down(t.agent, response, text, now) + handed_on(t.agent, calls, now) + question(
                    AgentView { total_cost, ..t.agent },
                    history,
                ),
            )
            &&& after.agent == (AgentView {
                history,
                total_cost,
                tool_iteration: (t.agent.tool_iteration + 1) as u32,
                ..t.agent
            })
        }),
{
    lemma_reply(t, response, text, now);
    let calls = response.tool_calls;
    let paid = after_reply(t, response, text, now);
    lemma_handed_on(paid, calls, calls.len() as int, now);
    assert(calls.take(calls.len() as int) =~= calls);
    lemma_handed_on_same(t.agent, paid.agent, calls, now);
    let dispatched = paid.dispatch_upto(calls, calls.len() as int, now).0;
    assert(dispatched.agent.pending_ids =~= Seq::empty()) by {
        let ids = dispatched.agent.pending_ids;
        assert(call_ids(known_calls(calls, t.agent)) =~= Set::empty());
        if ids.len() > 0 {
            assert(ids.contains(ids[0]));
            assert(ids.to_set().contains(ids[0]));
            assert(t.agent.pending_ids.to_set().contains(ids[0]));
        }
    }
    assert(t.agent.pending_ids =~= Seq::empty());
    assert(t.agent.pending_results =~= Seq::empty());
    let answers = unknown_answers(calls, t.agent);
    assert(dispatched.agent.pending_results =~= answers);
    assert(answers.len() > 0) by {
        lemma_known_or_not(calls, t.agent);
    }
    let taken = Turn {
        agent: AgentView { pending_results: Seq::empty(), ..dispatched.agent },
        ..dispatched
    };
    let said = taken.say(Role::User, answers);
    lemma_spawn(said, now);
    let after = t.handle_response(response, now);
    assert(after == said.spawn_adapter_call(now));
    assert(after.script.effects =~= t.script.effects + (put_down(t.agent, response, text, now)
        + handed_on(t.agent, calls, now) + question(said.agent, said.agent.history)));
}

proof fn lemma_known_or_not(calls: Seq<ToolCallView>, agent: AgentView)
    ensures
        known_calls(calls, agent).len() + unknown_answers(calls, agent).len() == calls.len(),
    decreases calls.len(),
{
    let known = |c: ToolCallView| agent.tools.contains(c.name);
    let unknown = |c: ToolCallView| !agent.tools.contains(c.name);
    if calls.len() > 0 {
        lemma_known_or_not(calls.drop_last(), agent);
        lemma_filter_last(calls, known);
        lemma_filter_last(calls, unknown);
    } else {
        reveal(Seq::filter);
    }
}

/// A reply that ends the turn, with no message waiting: it is put down, and the
/// agent is idle.
pub proof fn law_final_reply_ends_the_turn(
    t: Turn,
    response: ResponseView,
    text: Seq<char>,
    now: Timestamp,
)
    requires
        t.agent.wf(),
        t.agent.awaits_model(),
        t.agent.queue.len() == 0,
        response.finish_reason != FinishReason::ToolUse,
        opens_with(response.content, text),
        no_failure_from(t.script),
    ensures
        ({
            let after = t.handle_response(response, now);
            &&& asks_for(
                t,
                after,
                put_down(t.agent, response, text, now) + seq![
                    EffectView::WriteStatus(Activity::Idle),
                ],
            )
            &&& after.agent == (AgentView {
                in_flight: false,
                tool_iteration: 0,
                history: t.agent.history.push(reply_message(response)),
                total_cost: (t.agent.total_cost + response.microdollars) as u64,
                ..t.agent
            })
        }),
{
    lemma_reply(t, response, text, now);
    let paid = after_reply(t, response, text, now);
    let idle = EffectView::WriteStatus(Activity::Idle);
    lemma_asked(paid.script, idle);
    let after = t.handle_response(response, now);
    assert(after.script.effects =~= t.script.effects + (put_down(t.agent, response, text, now)
        + seq![idle]));
}

proof fn lemma_paragraphs_push(parts: Seq<Seq<char>>, more: Seq<char>)
    ensures
        paragraphs(parts.push(more)) == if parts.len() == 0 {
            more
        } else {
            paragraphs(parts) + "\n\n"@ + more
        },
{
    assert(parts.push(more).drop_last() =~= parts);
}

proof fn lemma_shown_some(parts: Seq<Seq<char>>)
    requires
        parts.len() > 0,
        forall|i: int| 0 <= i < parts.len() ==> (#[trigger] parts[i]).len() > 0,
    ensures
        paragraphs(parts).len() > 0,
    decreases parts.len(),
{
    if parts.len() > 1 {
        let before = parts.drop_last();
        assert forall|i: int| 0 <= i < before.len() implies (#[trigger] before[i]).len() > 0 by {
            assert(before[i] == parts[i]);
        }
        lemma_shown_some(before);
    }
}

/// What the model is shown of the messages so far, message by message.
spec fn shown_parts(queue: Seq<InboundView>) -> Seq<Seq<char>> {
    queue.filter(|m: InboundView| m.payload.len() > 0).map_values(|m: InboundView| shown_as(m))
}

proof fn lemma_shown_parts(queue: Seq<InboundView>)
    ensures
        forall|i: int|
            0 <= i < shown_parts(queue).len() ==> (#[trigger] shown_parts(queue)[i]).len() > 0,
        shown_parts(queue).len() == 0 <==> forall|i: int|
            0 <= i < queue.len() ==> (#[trigger] queue[i]).payload.len() == 0,
    decreases queue.len(),
{
    let p = |m: InboundView| m.payload.len() > 0;
    if queue.len() > 0 {
        let before = queue.drop_last();
        lemma_shown_parts(before);
        lemma_filter_last(queue, p);
        let msg = queue.last();
        reveal_strlit("[from ");
        if p(msg) {
            assert(shown_parts(queue) =~= shown_parts(before).push(shown_as(msg)));
            assert(queue[queue.len() - 1].payload.len() > 0);
        } else {
            assert(shown_parts(queue) == shown_parts(before));
            assert forall|i: int| 0 <= i < before.len() implies #[trigger] before[i] == queue[i] by {}
            if shown_parts(before).len() == 0 {
                assert forall|i: int| 0 <= i < queue.len() implies (
                #[trigger] queue[i]).payload.len() == 0 by {
                    if i < before.len() {
                        assert(before[i].payload.len() == 0);
                    }
                }
            }
            if forall|i: int| 0 <= i < queue.len() ==> (#[trigger] queue[i]).payload.len() == 0 {
                assert forall|i: int| 0 <= i < before.len() implies (
                #[trigger] before[i]).payload.len() == 0 by {
                    assert(queue[i].payload.len() == 0);
                }
            }
        }
    } else {
        reveal(Seq::filter);
    }
}

/// The journal entries of messages, in order.
pub open spec fn all_received(queue: Seq<InboundView>, now: Timestamp) -> Seq<EffectView> {
    queue.map_values(|m: InboundView| received(m, now))
}

/// Draining from the `k`-th message of a queue on.
proof fn lemma_drain(
    start: Turn,
    t: Turn,
    queue: Seq<InboundView>,
    k: int,
    now: Timestamp,
)
    requires
        0 <= k <= queue.len(),
        no_failure_from(t.script),
        unhindered(start.script) ==> unhindered(t.script),
        asks_for(start, t, all_received(queue.take(k), now)),
        t.agent == (AgentView { queue: queue.skip(k), ..start.agent }),
    ensures
        ({
            let (after, text) = t.drain(paragraphs(shown_parts(queue.take(k))), now);
            &&& text == Some(paragraphs(shown_parts(queue)))
            &&& no_failure_from(after.script)
            &&& unhindered(start.script) ==> unhindered(after.script)
            &&& asks_for(start, after, all_received(queue, now))
            &&& after.agent == (AgentView { queue: Seq::empty(), ..start.agent })
        }),
    decreases queue.len() - k,
{
    let so_far = queue.take(k);
    if k < queue.len() {
        let msg = queue[k];
        assert(t.agent.queue[0] == msg);
        assert(queue.skip(k).drop_first() =~= queue.skip(k + 1));
        lemma_asked(t.script, received(msg, now));
        let taken = Turn {
            agent: AgentView { queue: t.agent.queue.drop_first(), ..t.agent },
            ..t
        };
        let journaled = taken.append_inbound(msg, now);
        let next = queue.take(k + 1);
        assert(next.drop_last() =~= so_far);
        assert(next.last() == msg);
        assert(all_received(next, now) =~= all_received(so_far, now).push(received(msg, now)));
        assert(journaled.script.effects =~= start.script.effects + all_received(next, now));
        lemma_filter_last(next, |m: InboundView| m.payload.len() > 0);
        lemma_shown_parts(so_far);
        if msg.payload.len() > 0 {
            assert(shown_parts(next) =~= shown_parts(so_far).push(shown_as(msg)));
            lemma_paragraphs_push(shown_parts(so_far), shown_as(msg));
            if shown_parts(so_far).len() > 0 {
                lemma_shown_some(shown_parts(so_far));
            }
        }
        assert(joined(paragraphs(shown_parts(so_far)), msg) == paragraphs(shown_parts(next)));
        lemma_drain(start, journaled, queue, k + 1, now);
    } else {
        assert(so_far =~= queue);
        assert(queue.skip(k) =~= Seq::empty());
    }
}

/// Messages that waited for the end of a turn begin the next: each is journaled
/// as it came, in order, and the model is shown those with text together, each
/// with its sender in front. Where none has text, the agent is idle instead. No
/// message waits any longer.
pub proof fn law_waiting_messages_are_taken_up(
    t: Turn,
    response: ResponseView,
    text: Seq<char>,
    now: Timestamp,
)
    requires
        t.agent.wf(),
        t.agent.awaits_model(),
        t.agent.queue.len() > 0,
        response.finish_reason != FinishReason::ToolUse,
        opens_with(response.content, text),
        unhindered(t.script),
    ensures
        ({
            let after = t.handle_response(response, now);
            let total_cost = (t.agent.total_cost + response.microdollars) as u64;
            let said = t.agent.history.push(reply_message(response));
            let first = put_down(t.agent, response, text, now) + all_received(t.agent.queue, now);
            let silent = forall|i: int|
                0 <= i < t.agent.queue.len() ==> (#[trigger] t.agent.queue[i]).payload.len() == 0;
            if silent {
                &&& asks_for(t, after, first + seq![EffectView::WriteStatus(Activity::Idle)])
                &&& after.agent == (AgentView {
                    in_flight: false,
                    tool_iteration: 0,
                    history: said,
                    total_cost,
                    queue: Seq::empty(),
                    ..t.agent
                })
            } else {
                let history = said.push(user_text(shown_together(t.agent.queue)));
                &&& asks_for(
                    t,
                    after,
                    first + question(AgentView { total_cost, ..t.agent }, history),
                )
                &&& after.agent == (AgentView {
                    tool_iteration: 1,
                    history,
                    total_cost,
                    queue: Seq::empty(),
                    ..t.agent
                })
            }
        }),
{
    lemma_reply(t, response, text, now);
    let paid = after_reply(t, response, text, now);
    let queue = t.agent.queue;
    let reset = Turn { agent: AgentView { tool_iteration: 0, ..paid.agent }, ..paid };
    reveal(Seq::filter);
    assert(queue.skip(0) =~= queue);
    assert(all_received(queue.take(0), now) =~= Seq::empty());
    assert(reset.script.effects + all_received(queue.take(0), now) =~= reset.script.effects);
    assert(shown_parts(queue.take(0)) =~= Seq::empty());
    lemma_drain(reset, reset, queue, 0, now);
    lemma_shown_parts(queue);
    let combined = paragraphs(shown_parts(queue));
    let drained = reset.drain(Seq::empty(), now).0;
    let after = t.handle_response(response, now);
    let first = put_down(t.agent, response, text, now) + all_received(queue, now);
    assert(drained.script.effects =~= t.script.effects + first);
    if shown_parts(queue).len() == 0 {
        let idle = EffectView::WriteStatus(Activity::Idle);
        lemma_asked(drained.script, idle);
        assert(after.script.effects =~= t.script.effects + (first + seq![idle]));
    } else {
        lemma_shown_some(shown_parts(queue));
        let said = drained.say(Role::User, seq![ContentView::Text(combined)]);
        lemma_spawn(said, now);
        assert(after == said.spawn_adapter_call(now));
        assert(after.script.effects =~= t.script.effects + (first + question(
            said.agent,
            said.agent.history,
        )));
    }
}

/// The answer of a tool that is awaited is journaled as it came and kept; with
/// the last one, the model is shown all of them as one message. An answer that
/// is not awaited does nothing.
pub proof fn law_answers_reach_the_model(
    t: Turn,
    id: Seq<char>,
    content: Seq<char>,
    is_error: bool,
    now: Timestamp,
)
    requires
        t.agent.wf(),
        t.agent.tool_iteration < 16,
        unhindered(t.script),
    ensures
        ({
            let after = t.tool_result(id, content, is_error, now);
            let answer = ContentView::ToolResult { tool_use_id: id, content, is_error };
            let answers = t.agent.pending_results.push(answer);
            let entry = answer_entry(id, content, is_error, now);
            if !t.agent.pending_ids.contains(id) {
                after == t
            } else if t.agent.pending_ids.len() > 1 {
                &&& asks_for(t, after, seq![entry])
                &&& after.agent.pending_ids.to_set() == t.agent.pending_ids.to_set().remove(id)
                &&& after.agent == (AgentView {
                    pending_ids: after.agent.pending_ids,
                    pending_results: answers,
                    ..t.agent
                })
            } else {
                let history = t.agent.history.push(
                    MessageView { role: Role::User, content: answers },
                );
                &&& asks_for(t, after, seq![entry] + question(t.agent, history))
                &&& after.agent == (AgentView {
                    pending_ids: Seq::empty(),
                    pending_results: Seq::empty(),
                    history,
                    tool_iteration: (t.agent.tool_iteration + 1) as u32,
                    ..t.agent
                })
            }
        }),
{
    let ids = t.agent.pending_ids;
    if ids.contains(id) {
        let entry = answer_entry(id, content, is_error, now);
        lemma_asked(t.script, entry);
        let k = ids.index_of(id);
        let rest = without(ids, id);
        let fewer = Turn { agent: AgentView { pending_ids: rest, ..t.agent }, ..t };
        let answered = fewer.append_tool_result(id, content, is_error, now);
        assert(answered.script.effects =~= t.script.effects + seq![entry]);
        if ids.len() > 1 {
            assert forall|x: Seq<char>| rest.contains(x) <==> ids.contains(x) && x != id by {
                if rest.contains(x) {
                    let i = choose|i: int| 0 <= i < rest.len() && rest[i] == x;
                    let a = if i < k {
                        i
                    } else {
                        i + 1
                    };
                    assert(ids[a] == x && a != k);
                }
                if ids.contains(x) && x != id {
                    let a = choose|a: int| 0 <= a < ids.len() && ids[a] == x;
                    let i = if a < k {
                        a
                    } else {
                        a - 1
                    };
                    assert(rest[i] == x);
                }
            }
            assert(rest.to_set() =~= ids.to_set().remove(id));
        } else {
            assert(rest =~= Seq::empty());
            let taken = Turn {
                agent: AgentView { pending_results: Seq::empty(), ..answered.agent },
                ..answered
            };
            let said = taken.say(Role::User, answered.agent.pending_results);
            lemma_spawn(said, now);
            let after = t.tool_result(id, content, is_error, now);
            assert(after == said.spawn_adapter_call(now));
            assert(after.script.effects =~= t.script.effects + (seq![entry] + question(
                t.agent,
                said.agent.history,
            )));
        }
    }
}

/// Where the tools take too long, each call still awaited gets an error in the
/// journal, in the order the calls were made, and the model is shown the answers
/// so far and these errors as one message.
pub proof fn law_timeouts_reach_the_model(t: Turn, now: Timestamp)
    requires
        t.agent.wf(),
        t.agent.pending_ids.len() > 0,
        t.agent.tool_iteration < 16,
        unhindered(t.script),
    ensures
        ({
            let after = t.tool_batch_timeout(now);
            let ids = t.agent.pending_ids;
            let history = t.agent.history.push(
                MessageView {
                    role: Role::User,
                    content: t.agent.pending_results + Seq::new(
                        ids.len(),
                        |i: int|
                            ContentView::ToolResult {
                                tool_use_id: ids[i],
                                content: "tool call timed out"@,
                                is_error: true,
                            },
                    ),
                },
            );
            &&& asks_for(
                t,
                after,
                Seq::new(
                    ids.len(),
                    |i: int| answer_entry(ids[i], "tool call timed out"@, true, now),
                ) + question(t.agent, history),
            )
            &&& after.agent == (AgentView {
                pending_ids: Seq::empty(),
                pending_results: Seq::empty(),
                history,
                tool_iteration: (t.agent.tool_iteration + 1) as u32,
                ..t.agent
            })
        }),
{
    let ids = t.agent.pending_ids;
    let none = Turn { agent: AgentView { pending_ids: Seq::empty(), ..t.agent }, ..t };
    lemma_time_out(none, ids, ids.len() as int, now);
    let answered = none.time_out_upto(ids, ids.len() as int, now);
    let taken = Turn {
        agent: AgentView { pending_results: Seq::empty(), ..answered.agent },
        ..answered
    };
    let said = taken.say(Role::User, answered.agent.pending_results);
    lemma_spawn(said, now);
    let after = t.tool_batch_timeout(now);
    assert(after == said.spawn_adapter_call(now));
    assert(after.script.effects =~= t.script.effects + (Seq::new(
        ids.len(),
        |i: int| answer_entry(ids[i], "tool call timed out"@, true, now),
    ) + question(t.agent, said.agent.history)));
}

proof fn lemma_time_out(t: Turn, ids: Seq<Seq<char>>, n: int, now: Timestamp)
    requires
        unhindered(t.script),
        0 <= n <= ids.len(),
    ensures
        ({
            let after = t.time_out_upto(ids, n, now);
            &&& unhindered(after.script)
            &&& asks_for(
                t,
                after,
                Seq::new(
                    n as nat,
                    |i: int| answer_entry(ids[i], "tool call timed out"@, true, now),
                ),
            )
            &&& after.agent == (AgentView {
                pending_results: t.agent.pending_results + Seq::new(
                    n as nat,
                    |i: int|
                        ContentView::ToolResult {
                            tool_use_id: ids[i],
                            content: "tool call timed out"@,
                            is_error: true,
                        },
                ),
                ..t.agent
            })
        }),
    decreases n,
{
    let after = t.time_out_upto(ids, n, now);
    let entries = Seq::new(
        n as nat,
        |i: int| answer_entry(ids[i], "tool call timed out"@, true, now),
    );
    let answers = Seq::new(
        n as nat,
        |i: int|
            ContentView::ToolResult {
                tool_use_id: ids[i],
                content: "tool call timed out"@,
                is_error: true,
            },
    );
    if n > 0 {
        lemma_time_out(t, ids, n - 1, now);
        let before = t.time_out_upto(ids, n - 1, now);
        lemma_asked(
            before.script,
            answer_entry(ids[n - 1], "tool call timed out"@, true, now),
        );
    }
    assert(after.script.effects =~= t.script.effects + entries);
    assert(after.agent.pending_results =~= t.agent.pending_results + answers);
}

/// A model that cannot be reached: the journal says why, the question leaves
/// the history, and the agent is idle.
pub proof fn law_failed_call_is_noted(t: Turn, err: Seq<char>, now: Timestamp)
    requires
        t.agent.wf(),
        t.agent.awaits_model(),
        t.agent.history.len() > 0,
        no_failure_from(t.script),
    ensures
        ({
            let after = t.adapter_failed(err, now);
            &&& asks_for(
                t,
                after,
                seq![
                    note_entry("adapter call failed: "@ + err, now),
                    EffectView::WriteStatus(Activity::Idle),
                ],
            )
            &&& after.agent == (AgentView {
                in_flight: false,
                tool_iteration: 0,
                history: t.agent.history.drop_last(),
                ..t.agent
            })
        }),
{
    let note = note_entry("adapter call failed: "@ + err, now);
    let idle = EffectView::WriteStatus(Activity::Idle);
    lemma_asked(t.script, note);
    lemma_asked(t.script.perform(note), idle);
    let after = t.adapter_failed(err, now);
    assert(after.script.effects =~= t.script.effects + seq![note, idle]);
}

/// An agent that starts says so in its journal, and is idle; an envelope that
/// was set aside leaves a note of why, and nothing else.
pub proof fn law_starts_and_quarantines_are_noted(t: Turn, reason: Seq<char>, now: Timestamp)
    requires
        no_failure_from(t.script),
    ensures
        asks_for(
            t,
            t.started(now),
            seq![note_entry("agent started"@, now), EffectView::WriteStatus(Activity::Idle)],
        ),
        t.started(now).agent == t.agent,
        asks_for(t, t.quarantined(reason, now), seq![note_entry("quarantined: "@ + reason, now)]),
        t.quarantined(reason, now).agent == t.agent,
{
    let note = note_entry("agent started"@, now);
    let idle = EffectView::WriteStatus(Activity::Idle);
    lemma_asked(t.script, note);
    lemma_asked(t.script.perform(note), idle);
    lemma_asked(t.script, note_entry("quarantined: "@ + reason, now));
    assert(t.started(now).script.effects =~= t.script.effects + seq![note, idle]);
    assert(t.quarantined(reason, now).script.effects =~= t.script.effects + seq![
        note_entry("quarantined: "@ + reason, now),
    ]);
}

/// What a refusal by a cost limit asks for: a note with the limit's name, the
/// cost and the limit; where the agent is audited, the decision with the agent,
/// its persona and both amounts; and the status.
pub open spec fn refusal(
    agent: AgentView,
    limit_name: Seq<char>,
    whose: Seq<char>,
    current: Seq<char>,
    limit: Seq<char>,
    now: Timestamp,
) -> Seq<EffectView> {
    let note = seq![
        note_entry(
            "refused ("@ + limit_name + "): $"@ + current + " \u{2265} limit $"@ + limit,
            now,
        ),
    ];
    let audit = if agent.config.audited {
        seq![
            EffectView::Audit(
                AuditView::AuthorityDecision {
                    agent_id: agent.config.agent_id,
                    persona_name: agent.config.persona_name,
                    profile_version: agent.config.persona_version,
                    action: "threshold threshold"@,
                    disposition: AuthorityDisposition::Refuse,
                    layer: Some("threshold"@),
                    rationale: Some(whose + current + " USD reached limit "@ + limit + " USD"@),
                    blacklist_version: None,
                    at: now,
                },
            ),
        ]
    } else {
        Seq::empty()
    };
    note + audit + seq![EffectView::WriteStatus(Activity::Idle)]
}

/// A cost limit that is reached keeps the model from being called: whatever
/// handler was about to call it, the refusal is noted and audited, and the turn
/// ends. The agent's own limit counts before the session's.
pub proof fn law_reached_limits_refuse(t: Turn, now: Timestamp)
    requires
        t.agent.tool_iteration < 16,
        no_failure_from(t.script),
        t.script.effects.len() + 2 <= t.script.outcomes.len(),
    ensures
        ({
            let after = t.spawn_adapter_call(now);
            let first = t.script.effects.len() as int;
            let own = EffectView::CheckCost {
                scope: CostScope::Agent,
                microdollars: t.agent.total_cost,
            };
            let shared = EffectView::CheckCost {
                scope: CostScope::Session,
                microdollars: t.agent.total_cost,
            };
            let ended = AgentView { in_flight: false, tool_iteration: 0, ..t.agent };
            match (t.script.outcomes[first], t.script.outcomes[first + 1]) {
                (OutcomeView::LimitReached { current, limit }, _) => asks_for(
                    t,
                    after,
                    seq![own] + refusal(
                        t.agent,
                        "cost_per_agent"@,
                        "agent cost "@,
                        current,
                        limit,
                        now,
                    ),
                ) && after.agent == ended,
                (OutcomeView::Done, OutcomeView::LimitReached { current, limit }) => asks_for(
                    t,
                    after,
                    seq![own, shared] + refusal(
                        t.agent,
                        "cost_per_session"@,
                        "session cost "@,
                        current,
                        limit,
                        now,
                    ),
                ) && after.agent == ended,
                _ => after.script.effects.last() == EffectView::CallAdapter {
                    messages: t.agent.history,
                    tools: t.agent.tools,
                    system_prompt: t.agent.config.system_prompt,
                    max_tokens: 4096,
                },
            }
        }),
{
    let first = t.script.effects.len() as int;
    let own = EffectView::CheckCost {
        scope: CostScope::Agent,
        microdollars: t.agent.total_cost,
    };
    let shared = EffectView::CheckCost {
        scope: CostScope::Session,
        microdollars: t.agent.total_cost,
    };
    let counted = Turn {
        agent: AgentView { tool_iteration: (t.agent.tool_iteration + 1) as u32, ..t.agent },
        ..t
    };
    lemma_asked(t.script, own);
    lemma_asked(t.script.perform(own), shared);
    let one = counted.perform(own);
    let two = one.perform(shared);
    assert(!(t.script.outcomes[first] is Failed));
    assert(!(t.script.outcomes[first + 1] is Failed));
    match (t.script.outcomes[first], t.script.outcomes[first + 1]) {
        (OutcomeView::LimitReached { current, limit }, _) => {
            lemma_refused(one, CostScope::Agent, current, limit, now);
            assert(t.spawn_adapter_call(now).script.effects =~= t.script.effects + (seq![own]
                + refusal(t.agent, "cost_per_agent"@, "agent cost "@, current, limit, now)));
        },
        (OutcomeView::Done, OutcomeView::LimitReached { current, limit }) => {
            lemma_refused(two, CostScope::Session, current, limit, now);
            assert(t.spawn_adapter_call(now).script.effects =~= t.script.effects + (seq![own, shared]
                + refusal(t.agent, "cost_per_session"@, "session cost "@, current, limit, now)));
        },
        _ => {},
    }
}

proof fn lemma_refused(
    t: Turn,
    scope: CostScope,
    current: Seq<char>,
    limit: Seq<char>,
    now: Timestamp,
)
    requires
        no_failure_from(t.script),
    ensures
        ({
            let after = t.refuse_threshold(scope, current, limit, now);
            &&& scope == CostScope::Agent ==> asks_for(
                t,
                after,
                refusal(t.agent, "cost_per_agent"@, "agent cost "@, current, limit, now),
            )
            &&& scope == CostScope::Session ==> asks_for(
                t,
                after,
                refusal(t.agent, "cost_per_session"@, "session cost "@, current, limit, now),
            )
            &&& after.agent == (AgentView { in_flight: false, tool_iteration: 0, ..t.agent })
        }),
{
    let note = note_entry(refusal_note(scope, current, limit), now);
    lemma_asked(t.script, note);
    let noted = t.attempt(note);
    let audit = EffectView::Audit(
        AuditView::AuthorityDecision {
            agent_id: t.agent.config.agent_id,
            persona_name: t.agent.config.persona_name,
            profile_version: t.agent.config.persona_version,
            action: "threshold threshold"@,
            disposition: AuthorityDisposition::Refuse,
            layer: Some("threshold"@),
            rationale: Some(refusal_rationale(scope, current, limit)),
            blacklist_version: None,
            at: now,
        },
    );
    lemma_asked(noted.script, audit);
    let idle = EffectView::WriteStatus(Activity::Idle);
    lemma_asked(noted.script, idle);
    lemma_asked(noted.script.perform(audit), idle);
    let after = t.refuse_threshold(scope, current, limit, now);
    if scope == CostScope::Agent {
        assert(after.script.effects =~= t.script.effects + refusal(
            t.agent,
            "cost_per_agent"@,
            "agent cost "@,
            current,
            limit,
            now,
        ));
    } else {
        assert(after.script.effects =~= t.script.effects + refusal(
            t.agent,
            "cost_per_session"@,
            "session cost "@,
            current,
            limit,
            now,
        ));
    }
}

// ── Failures ─────────────────────────────────────────────────────────────────

/// The `i`-th effect of a script failed.
pub open spec fn failed_at(script: ScriptView, i: int) -> bool {
    0 <= i < script.outcomes.len() && script.outcomes[i] is Failed
}

/// An effect that an agent cannot do without: what it puts in its journal, and
/// its status and cost.
pub open spec fn essential(effect: EffectView) -> bool {
    effect is Append || effect is WriteStatus || effect is WriteCost
}

/// Where an essential effect failed between `before` and `after`, the agent is
/// stopped.
pub open spec fn heeds_failures(before: Turn, after: Turn) -> bool {
    &&& after.script.outcomes == before.script.outcomes
    &&& before.script.effects.len() <= after.script.effects.len()
    &&& forall|i: int|
        0 <= i < before.script.effects.len() ==> #[trigger] after.script.effects[i]
            == before.script.effects[i]
    &&& before.script.stopped ==> after.script.stopped
    &&& forall|i: int|
        before.script.effects.len() <= i < after.script.effects.len() && essential(
            #[trigger] after.script.effects[i],
        ) && failed_at(after.script, i) ==> after.script.stopped
}

proof fn lemma_heeds_trans(a: Turn, b: Turn, c: Turn)
    requires
        heeds_failures(a, b),
        heeds_failures(b, c),
    ensures
        heeds_failures(a, c),
{
    assert forall|i: int| 0 <= i < a.script.effects.len() implies #[trigger] c.script.effects[i]
        == a.script.effects[i] by {
        assert(c.script.effects[i] == b.script.effects[i]);
    }
    assert forall|i: int|
        a.script.effects.len() <= i < c.script.effects.len() && essential(
            #[trigger] c.script.effects[i],
        ) && failed_at(c.script, i) implies c.script.stopped by {
        if i < b.script.effects.len() {
            assert(c.script.effects[i] == b.script.effects[i]);
        }
    }
}

proof fn lemma_attempt_heeds(t: Turn, e: EffectView)
    ensures
        heeds_failures(t, t.attempt(e)),
        !essential(e) ==> heeds_failures(t, t.perform(e)),
{
}

proof fn lemma_refuse_heeds(
    t: Turn,
    scope: CostScope,
    current: Seq<char>,
    limit: Seq<char>,
    now: Timestamp,
)
    ensures
        heeds_failures(t, t.refuse_threshold(scope, current, limit, now)),
{
    let noted = t.append_system_entry(refusal_note(scope, current, limit), now);
    let audited = noted.perform(
        EffectView::Audit(
            AuditView::AuthorityDecision {
                agent_id: t.agent.config.agent_id,
                persona_name: t.agent.config.persona_name,
                profile_version: t.agent.config.persona_version,
                action: "threshold threshold"@,
                disposition: AuthorityDisposition::Refuse,
                layer: Some("threshold"@),
                rationale: Some(refusal_rationale(scope, current, limit)),
                blacklist_version: None,
                at: now,
            },
        ),
    );
    assert(heeds_failures(t, noted));
    assert(heeds_failures(noted, audited));
    lemma_heeds_trans(t, noted, audited);
    assert(heeds_failures(noted, noted.end_turn()));
    assert(heeds_failures(audited, audited.end_turn()));
    lemma_heeds_trans(t, noted, noted.end_turn());
    lemma_heeds_trans(t, audited, audited.end_turn());
}

proof fn lemma_spawn_heeds(t: Turn, now: Timestamp)
    ensures
        heeds_failures(t, t.spawn_adapter_call(now)),
{
    let note = t.append_system_entry("tool loop aborted: exceeded 16 iterations"@, now);
    assert(heeds_failures(t, note));
    assert(heeds_failures(note, note.end_turn()));
    lemma_heeds_trans(t, note, note.end_turn());
    let counted = Turn {
        agent: AgentView { tool_iteration: (t.agent.tool_iteration + 1) as u32, ..t.agent },
        ..t
    };
    let own = counted.check_cost(CostScope::Agent);
    let shared = own.check_cost(CostScope::Session);
    assert(heeds_failures(t, own));
    assert(heeds_failures(own, shared));
    lemma_heeds_trans(t, own, shared);
    assert(heeds_failures(shared, shared.call_adapter()));
    lemma_heeds_trans(t, shared, shared.call_adapter());
    if let OutcomeView::LimitReached { current, limit } = own.script.last_outcome() {
        lemma_refuse_heeds(own, CostScope::Agent, current, limit, now);
        lemma_heeds_trans(t, own, own.refuse_threshold(CostScope::Agent, current, limit, now));
    }
    if let OutcomeView::LimitReached { current, limit } = shared.script.last_outcome() {
        lemma_refuse_heeds(shared, CostScope::Session, current, limit, now);
        lemma_heeds_trans(
            t,
            shared,
            shared.refuse_threshold(CostScope::Session, current, limit, now),
        );
    }
}

proof fn lemma_advance_heeds(t: Turn, now: Timestamp)
    ensures
        heeds_failures(t, t.advance_after_tools(now)),
{
    let results = t.agent.pending_results;
    let taken = Turn { agent: AgentView { pending_results: Seq::empty(), ..t.agent }, ..t };
    lemma_spawn_heeds(taken, now);
    lemma_spawn_heeds(taken.say(Role::User, results), now);
}

proof fn lemma_dispatch_heeds(t: Turn, calls: Seq<ToolCallView>, n: int, now: Timestamp)
    requires
        0 <= n <= calls.len(),
    ensures
        ({
            let (after, all) = t.dispatch_upto(calls, n, now);
            &&& heeds_failures(t, after)
            &&& after.agent.tools == t.agent.tools
            &&& after.agent.config == t.agent.config
            &&& forall|i: int|
                t.script.effects.len() <= i < after.script.effects.len()
                    && #[trigger] after.script.effects[i] is InvokeTool ==> i
                    > t.script.effects.len() && journaled_before(after.script.effects, i, now)
                    && !failed_at(after.script, i - 1) && (exists|k: int|
                    #![trigger calls[k]]
                    0 <= k < n && t.agent.tools.contains(calls[k].name) && after.script.effects[i]
                        == invocation(calls[k], t.agent))
        }),
    decreases n,
{
    if n > 0 {
        lemma_dispatch_heeds(t, calls, n - 1, now);
        let (before, all) = t.dispatch_upto(calls, n - 1, now);
        let after = t.dispatch_upto(calls, n, now).0;
        if all {
            let call = calls[n - 1];
            let journaled = before.attempt(call_entry(call, now));
            assert(heeds_failures(before, journaled));
            let answer = answer_entry(call.id, "unknown tool: "@ + call.name, true, now);
            lemma_attempt_heeds(journaled, answer);
            lemma_attempt_heeds(journaled, invocation(call, before.agent));
            assert(heeds_failures(journaled, after)) by {
                if !journaled.script.failed() {
                    if !before.agent.tools.contains(call.name) {
                        assert(after.script == journaled.attempt(answer).script);
                    } else {
                        assert(after.script == journaled.perform(
                            invocation(call, before.agent),
                        ).script);
                    }
                }
            }
            lemma_heeds_trans(before, journaled, after);
            lemma_heeds_trans(t, before, after);
            assert forall|i: int|
                t.script.effects.len() <= i < after.script.effects.len()
                    && #[trigger] after.script.effects[i] is InvokeTool implies i
                > t.script.effects.len() && journaled_before(after.script.effects, i, now)
                && !failed_at(after.script, i - 1) && (exists|k: int|
                #![trigger calls[k]]
                0 <= k < n && t.agent.tools.contains(calls[k].name) && after.script.effects[i]
                    == invocation(calls[k], t.agent)) by {
                if i < before.script.effects.len() {
                    assert(after.script.effects[i] == before.script.effects[i]);
                    assert(after.script.effects[i - 1] == before.script.effects[i - 1]);
                } else {
                    assert(i == before.script.effects.len() + 1);
                    assert(after.script.effects[i - 1] == call_entry(call, now));
                    assert(after.script.effects[i] == invocation(calls[n - 1], t.agent));
                }
            }
        }
    }
}

proof fn lemma_drain_heeds(t: Turn, combined: Seq<char>, now: Timestamp)
    ensures
        heeds_failures(t, t.drain(combined, now).0),
        forall|i: int|
            t.script.effects.len() <= i < t.drain(combined, now).0.script.effects.len() ==> (
            #[trigger] t.drain(combined, now).0.script.effects[i]) is Append,
    decreases t.agent.queue.len(),
{
    if t.agent.queue.len() > 0 {
        let msg = t.agent.queue[0];
        let taken = Turn {
            agent: AgentView { queue: t.agent.queue.drop_first(), ..t.agent },
            ..t
        };
        let journaled = taken.append_inbound(msg, now);
        assert(heeds_failures(t, journaled));
        let after = t.drain(combined, now).0;
        if !journaled.script.failed() {
            lemma_drain_heeds(journaled, joined(combined, msg), now);
            lemma_heeds_trans(t, journaled, after);
            assert forall|i: int|
                t.script.effects.len() <= i < after.script.effects.len() implies (
            #[trigger] after.script.effects[i]) is Append by {
                if i < journaled.script.effects.len() {
                    assert(after.script.effects[i] == journaled.script.effects[i]);
                }
            }
        }
    }
}

/// What a reply comes to heeds failures, and a tool is handed only calls of the
/// reply for tools of the agent's, each only once it is in the journal.
pub proof fn law_no_tool_runs_unjournaled(t: Turn, response: ResponseView, now: Timestamp)
    ensures
        ({
            let after = t.handle_response(response, now);
            let first = t.script.effects.len() as int;
            let calls = response.tool_calls;
            &&& heeds_failures(t, after)
            &&& forall|i: int|
                first <= i < after.script.effects.len()
                    && #[trigger] after.script.effects[i] is InvokeTool ==> {
                    &&& i > first
                    &&& journaled_before(after.script.effects, i, now)
                    &&& !failed_at(after.script, i - 1)
                    &&& response.finish_reason == FinishReason::ToolUse
                    &&& exists|k: int|
                        #![trigger calls[k]]
                        0 <= k < calls.len() && t.agent.tools.contains(calls[k].name)
                            && after.script.effects[i] == EffectView::InvokeTool {
                            tool_use_id: calls[k].id,
                            name: calls[k].name,
                            input: calls[k].arguments,
                            sender_id: t.agent.config.agent_id,
                        }
                }
        }),
{
    let after = t.handle_response(response, now);
    let calls = response.tool_calls;
    let said = t.say(Role::Assistant, response.content + tool_use_blocks(calls));
    let text = first_text(response.content, 0);
    let outbound = if text.len() == 0 {
        said
    } else {
        said.attempt(EffectView::Append(EntryView::Outbound { payload: text, timestamp_utc: now }))
    };
    assert(heeds_failures(t, outbound));
    if text.len() == 0 || !outbound.script.failed() {
        let called = outbound.attempt(
            EffectView::Append(
                EntryView::ModelCall {
                    input_tokens: response.input_tokens,
                    output_tokens: response.output_tokens,
                    model: t.agent.config.model,
                    timestamp_utc: now,
                },
            ),
        );
        assert(heeds_failures(outbound, called));
        lemma_heeds_trans(t, outbound, called);
        if !called.script.failed() {
            let total = (t.agent.total_cost + response.microdollars) as u64;
            let paid = (Turn {
                agent: AgentView { total_cost: total, ..called.agent },
                ..called
            }).attempt(EffectView::WriteCost { microdollars: total });
            assert(heeds_failures(called, paid));
            lemma_heeds_trans(t, called, paid);
            assert forall|i: int|
                t.script.effects.len() <= i < paid.script.effects.len() implies !(
            #[trigger] paid.script.effects[i] is InvokeTool) by {}
            if !paid.script.failed() {
                if response.finish_reason == FinishReason::ToolUse {
                    lemma_dispatch_heeds(paid, calls, calls.len() as int, now);
                    let (dispatched, all) = paid.dispatch_upto(calls, calls.len() as int, now);
                    lemma_heeds_trans(t, paid, dispatched);
                    lemma_advance_heeds(dispatched, now);
                    lemma_advance_invokes_nothing(dispatched, now);
                    let arm = EffectView::ArmToolTimeout { seconds: 30 };
                    lemma_attempt_heeds(dispatched, arm);
                    lemma_heeds_trans(t, dispatched, dispatched.perform(arm));
                    lemma_heeds_trans(t, dispatched, dispatched.advance_after_tools(now));
                    assert(heeds_failures(dispatched, after));
                    assert forall|i: int|
                        t.script.effects.len() <= i < after.script.effects.len()
                            && #[trigger] after.script.effects[i] is InvokeTool implies i
                        > t.script.effects.len() && journaled_before(after.script.effects, i, now)
                        && !failed_at(after.script, i - 1) && (exists|k: int|
                        #![trigger calls[k]]
                        0 <= k < calls.len() && t.agent.tools.contains(calls[k].name)
                            && after.script.effects[i] == invocation(calls[k], t.agent)) by {
                        if i < paid.script.effects.len() {
                            assert(dispatched.script.effects[i] == paid.script.effects[i]);
                            assert(after.script.effects[i] == dispatched.script.effects[i]);
                        } else if i < dispatched.script.effects.len() {
                            assert(after.script.effects[i] == dispatched.script.effects[i]);
                            assert(after.script.effects[i - 1] == dispatched.script.effects[i - 1]);
                        }
                    }
                } else if paid.agent.queue.len() == 0 {
                    assert(heeds_failures(paid, paid.end_turn()));
                    lemma_heeds_trans(t, paid, paid.end_turn());
                } else {
                    let reset = Turn { agent: AgentView { tool_iteration: 0, ..paid.agent }, ..paid };
                    lemma_drain_heeds(reset, Seq::empty(), now);
                    let (drained, combined) = reset.drain(Seq::empty(), now);
                    lemma_heeds_trans(t, reset, drained);
                    assert(heeds_failures(drained, drained.end_turn()));
                    lemma_heeds_trans(t, drained, drained.end_turn());
                    if let Some(combined) = combined {
                        let asked = drained.say(Role::User, seq![ContentView::Text(combined)]);
                        lemma_spawn_heeds(asked, now);
                        lemma_heeds_trans(t, drained, asked.spawn_adapter_call(now));
                    }
                    assert forall|i: int|
                        t.script.effects.len() <= i < after.script.effects.len() implies !(
                    #[trigger] after.script.effects[i] is InvokeTool) by {
                        if i < paid.script.effects.len() {
                            assert(drained.script.effects[i] == paid.script.effects[i]);
                            assert(after.script.effects[i] == drained.script.effects[i]);
                        } else if i < drained.script.effects.len() {
                            assert(after.script.effects[i] == drained.script.effects[i]);
                        }
                    }
                }
            }
        }
    }
}

/// Taking up a message heeds failures.
pub proof fn law_inbound_heeds_failures(t: Turn, msg: InboundView, now: Timestamp)
    ensures
        heeds_failures(t, t.process_inbound(msg, now)),
{
    if !t.agent.seen.contains(msg.message_id) && !t.agent.in_flight {
        let begun = Turn {
            agent: AgentView {
                in_flight: true,
                seen: remembered(t.agent.seen, msg.message_id),
                ..t.agent
            },
            ..t
        };
        let working = begun.attempt(EffectView::WriteStatus(Activity::Working));
        assert(heeds_failures(t, working));
        let journaled = working.append_inbound(msg, now);
        assert(heeds_failures(working, journaled));
        lemma_heeds_trans(t, working, journaled);
        let asked = journaled.say(Role::User, seq![ContentView::Text(shown_as(msg))]);
        lemma_spawn_heeds(asked, now);
        lemma_heeds_trans(t, journaled, asked.spawn_adapter_call(now));
    }
}

proof fn lemma_answer_heeds(
    t: Turn,
    id: Seq<char>,
    content: Seq<char>,
    is_error: bool,
    now: Timestamp,
)
    ensures
        heeds_failures(t, t.append_tool_result(id, content, is_error, now)),
{
}

proof fn lemma_time_out_heeds(t: Turn, ids: Seq<Seq<char>>, n: int, now: Timestamp)
    ensures
        heeds_failures(t, t.time_out_upto(ids, n, now)),
    decreases n,
{
    if n > 0 {
        lemma_time_out_heeds(t, ids, n - 1, now);
        let before = t.time_out_upto(ids, n - 1, now);
        lemma_answer_heeds(before, ids[n - 1], "tool call timed out"@, true, now);
        lemma_heeds_trans(t, before, t.time_out_upto(ids, n, now));
    }
}

/// Taking a tool's answer, or a timeout, heeds failures.
pub proof fn law_answers_heed_failures(
    t: Turn,
    id: Seq<char>,
    content: Seq<char>,
    is_error: bool,
    now: Timestamp,
)
    ensures
        heeds_failures(t, t.tool_result(id, content, is_error, now)),
        heeds_failures(t, t.tool_batch_timeout(now)),
{
    let fewer = Turn {
        agent: AgentView { pending_ids: without(t.agent.pending_ids, id), ..t.agent },
        ..t
    };
    let answered = fewer.append_tool_result(id, content, is_error, now);
    lemma_answer_heeds(fewer, id, content, is_error, now);
    assert(heeds_failures(t, answered));
    lemma_advance_heeds(answered, now);
    lemma_heeds_trans(t, answered, answered.advance_after_tools(now));
    let ids = t.agent.pending_ids;
    let none = Turn { agent: AgentView { pending_ids: Seq::empty(), ..t.agent }, ..t };
    let late = none.time_out_upto(ids, ids.len() as int, now);
    lemma_time_out_heeds(none, ids, ids.len() as int, now);
    assert(heeds_failures(t, late));
    lemma_advance_heeds(late, now);
    lemma_heeds_trans(t, late, late.advance_after_tools(now));
}

/// A reply that asks for tools and names none is put down, and the model is asked
/// again.
pub proof fn law_empty_requests_ask_again(
    t: Turn,
    response: ResponseView,
    text: Seq<char>,
    now: Timestamp,
)
    requires
        t.agent.wf(),
        t.agent.awaits_model(),
        t.agent.tool_iteration < 16,
        response.finish_reason == FinishReason::ToolUse,
        response.tool_calls.len() == 0,
        opens_with(response.content, text),
        unhindered(t.script),
    ensures
        ({
            let after = t.handle_response(response, now);
            let history = t.agent.history.push(reply_message(response));
            let total_cost = (t.agent.total_cost + response.microdollars) as u64;
            &&& asks_for(
                t,
                after,
                put_down(t.agent, response, text, now) + question(
                    AgentView { total_cost, ..t.agent },
                    history,
                ),
            )
            &&& after.agent == (AgentView {
                history,
                total_cost,
                tool_iteration: (t.agent.tool_iteration + 1) as u32,
                ..t.agent
            })
        }),
{
    lemma_reply(t, response, text, now);
    let paid = after_reply(t, response, text, now);
    assert(t.agent.pending_ids =~= Seq::empty());
    assert(t.agent.pending_results =~= Seq::empty());
    assert(paid.dispatch_upto(response.tool_calls, 0, now) == (paid, true));
    lemma_spawn(paid, now);
    let after = t.handle_response(response, now);
    let taken = Turn { agent: AgentView { pending_results: Seq::empty(), ..paid.agent }, ..paid };
    assert(taken == paid);
    assert(after == paid.spawn_adapter_call(now));
    assert(after.script.effects =~= t.script.effects + (put_down(t.agent, response, text, now)
        + question(paid.agent, paid.agent.history)));
}

/// A turn that has made as many model calls as it may makes no more, whichever
/// handler was about to make one: the answers of the tools are part of the
/// history, the journal says that the loop was cut off, and the agent is idle.
pub proof fn law_cut_off_turns_end(
    t: Turn,
    id: Seq<char>,
    content: Seq<char>,
    is_error: bool,
    now: Timestamp,
)
    requires
        t.agent.wf(),
        t.agent.tool_iteration == 16,
        t.agent.pending_ids == seq![id],
        no_failure_from(t.script),
    ensures
        ({
            let after = t.tool_result(id, content, is_error, now);
            &&& asks_for(
                t,
                after,
                seq![
                    answer_entry(id, content, is_error, now),
                    note_entry("tool loop aborted: exceeded 16 iterations"@, now),
                    EffectView::WriteStatus(Activity::Idle),
                ],
            )
            &&& after.agent == (AgentView {
                in_flight: false,
                tool_iteration: 0,
                pending_ids: Seq::empty(),
                pending_results: Seq::empty(),
                history: t.agent.history.push(
                    MessageView {
                        role: Role::User,
                        content: t.agent.pending_results.push(
                            ContentView::ToolResult { tool_use_id: id, content, is_error },
                        ),
                    },
                ),
                ..t.agent
            })
        }),
{
    let ids = t.agent.pending_ids;
    assert(ids[0] == id);
    assert(ids.contains(id));
    assert(without(ids, id) =~= Seq::empty());
    let entry = answer_entry(id, content, is_error, now);
    let note = note_entry("tool loop aborted: exceeded 16 iterations"@, now);
    let idle = EffectView::WriteStatus(Activity::Idle);
    lemma_asked(t.script, entry);
    lemma_asked(t.script.perform(entry), note);
    lemma_asked(t.script.perform(entry).perform(note), idle);
    let after = t.tool_result(id, content, is_error, now);
    assert(after.script.effects =~= t.script.effects + seq![entry, note, idle]);
}

/// An answer that cannot be journaled is not kept: the agent is stopped, and the
/// model is never shown it. What other tools answered is not lost by it.
pub proof fn law_unjournaled_answers_are_not_shown(
    t: Turn,
    id: Seq<char>,
    content: Seq<char>,
    is_error: bool,
    now: Timestamp,
)
    requires
        t.agent.wf(),
        t.agent.pending_ids.contains(id),
        t.script.effects.len() < t.script.outcomes.len(),
        t.script.outcomes[t.script.effects.len() as int] is Failed,
    ensures
        ({
            let after = t.tool_result(id, content, is_error, now);
            &&& after.script.stopped
            &&& t.agent.pending_ids.len() > 1 ==> after.agent.pending_results
                == t.agent.pending_results && after.agent.history == t.agent.history
                && after.script.effects == t.script.effects.push(
                answer_entry(id, content, is_error, now),
            )
            &&& t.agent.pending_ids.len() == 1 ==> after.agent.pending_results.len() == 0
                && after.agent.history == if t.agent.pending_results.len() == 0 {
                t.agent.history
            } else {
                t.agent.history.push(
                    MessageView { role: Role::User, content: t.agent.pending_results },
                )
            }
        }),
{
}

/// A note that only tells of a failed call, and a refusal that cannot be
/// audited, stop nobody: the agent is stopped only where the journal's other
/// entries or the status cannot be written.
pub proof fn law_lost_notes_stop_nobody(
    t: Turn,
    err: Seq<char>,
    scope: CostScope,
    current: Seq<char>,
    limit: Seq<char>,
    now: Timestamp,
)
    requires
        t.script.effects.len() + 2 < t.script.outcomes.len(),
    ensures
        ({
            let n = t.script.effects.len() as int;
            let outcomes = t.script.outcomes;
            let failed = t.adapter_failed(err, now);
            let refused = t.refuse_threshold(scope, current, limit, now);
            &&& failed.script.effects.len() == n + 2
            &&& failed.script.stopped == (t.script.stopped || outcomes[n + 1] is Failed)
            &&& t.agent.config.audited ==> refused.script.effects.len() == n + 3
                && refused.script.stopped == (t.script.stopped || outcomes[n] is Failed
                || outcomes[n + 2] is Failed)
        }),
{
}

} // verus!
