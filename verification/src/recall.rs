//! What the journal recalls of an agent's history.
//!
//! The message loop writes to the journal what is said as it is said, and a
//! new agent rebuilds its history from the journal. The laws here say that the
//! two agree: as long as every message is answered and every reply is plain,
//! the journal stands for exactly the messages that the model was shown.

use vstd::prelude::*;

use crate::agent_model::{
    first_text, joined, no_failure_from, refusal_note, refusal_rationale, tool_use_blocks, without,
    Activity, AgentView, CostScope, EffectView, FinishReason, InboundView, OutcomeView,
    ResponseView, ScriptView, ToolCallView, Turn, DEFAULT_MAX_TOKENS, MAX_TOOL_ITERATIONS,
    TOOL_TIMEOUT_SECS,
};
use crate::audit::{AuditView, AuthorityDisposition};
use crate::conversation::{ContentView, EntryView, MessageView, Role};
use crate::history::{
    attributed, block_of, history_of, merged, with_block, without_open_turn,
};
use crate::identity::Timestamp;
use crate::seen_ids::remembered;

verus! {

/// The entries that effects append to the journal, in order.
pub open spec fn appends(effects: Seq<EffectView>) -> Seq<EntryView>
    decreases effects.len(),
{
    if effects.len() == 0 {
        Seq::empty()
    } else {
        match effects.last() {
            EffectView::Append(entry) => appends(effects.drop_last()).push(entry),
            _ => appends(effects.drop_last()),
        }
    }
}

/// The messages that a whole journal stands for, an open turn included.
pub open spec fn said(entries: Seq<EntryView>) -> Seq<MessageView> {
    merged(entries, entries.len() as int)
}

/// The messages so far, with the tools' answers that are not yet part of the
/// history as one more.
pub open spec fn spoken(agent: AgentView) -> Seq<MessageView> {
    if agent.pending_results.len() == 0 {
        agent.history
    } else {
        agent.history.push(MessageView { role: Role::User, content: agent.pending_results })
    }
}

/// A journal, with what a handler has appended to it, stands for exactly what
/// the agent has said and heard.
pub open spec fn recalled(journal: Seq<EntryView>, t: Turn) -> bool {
    said(journal + appends(t.script.effects)) == spoken(t.agent)
}

/// No question is open: nothing was said, or the model had the last word.
pub open spec fn answered_so_far(history: Seq<MessageView>) -> bool {
    history.len() == 0 || history.last().role == Role::Assistant
}

/// A reply that the journal records whole: at most one block of content, a
/// text that is not empty; and not nothing at all.
///
/// Its tools are known, or it calls only one; and where it ends the turn it
/// calls none, and at most one message waits, which has text.
pub open spec fn plain_reply(response: ResponseView, agent: AgentView) -> bool {
    &&& response.content.len() <= 1
    &&& response.content.len() == 1 ==> (response.content[0] matches ContentView::Text(text)
        && text.len() > 0)
    &&& response.content.len() + response.tool_calls.len() > 0
    &&& response.finish_reason == FinishReason::ToolUse ==> response.tool_calls.len() <= 1
        || all_known(response.tool_calls, agent.tools)
    &&& response.finish_reason != FinishReason::ToolUse ==> {
        &&& response.tool_calls.len() == 0
        &&& agent.queue.len() <= 1
        &&& agent.queue.len() == 1 ==> agent.queue[0].payload.len() > 0
    }
}

/// Every call is for a tool that the agent has.
pub open spec fn all_known(calls: Seq<ToolCallView>, tools: Seq<Seq<char>>) -> bool {
    forall|i: int| 0 <= i < calls.len() ==> tools.contains((#[trigger] calls[i]).name)
}

// ── Steps ────────────────────────────────────────────────────────────────────

proof fn lemma_merged_prefix(entries: Seq<EntryView>, more: EntryView, n: int)
    requires
        0 <= n <= entries.len(),
    ensures
        merged(entries.push(more), n) == merged(entries, n),
    decreases n,
{
    if n > 0 {
        lemma_merged_prefix(entries, more, n - 1);
        assert(entries.push(more)[n - 1] == entries[n - 1]);
    }
}

/// One more effect adds the block of its entry, where it has one.
proof fn lemma_effect(journal: Seq<EntryView>, effects: Seq<EffectView>, effect: EffectView)
    ensures
        said(journal + appends(effects.push(effect))) == (match effect {
            EffectView::Append(entry) => match block_of(entry) {
                Some((role, block)) => with_block(said(journal + appends(effects)), role, block),
                None => said(journal + appends(effects)),
            },
            _ => said(journal + appends(effects)),
        }),
{
    assert(effects.push(effect).drop_last() =~= effects);
    if let EffectView::Append(entry) = effect {
        let before = journal + appends(effects);
        assert(journal + appends(effects).push(entry) =~= before.push(entry));
        lemma_merged_prefix(before, entry, before.len() as int);
        assert(before.push(entry)[before.len() as int] == entry);
    }
}

/// The next effect does not fail.
proof fn lemma_no_failure(script: ScriptView, effect: EffectView)
    requires
        no_failure_from(script),
    ensures
        !script.perform(effect).failed(),
        script.attempt(effect) == script.perform(effect),
        no_failure_from(script.perform(effect)),
{
    let asked = script.perform(effect);
    if 0 < asked.effects.len() <= asked.outcomes.len() {
        assert(!(script.outcomes[script.effects.len() as int] is Failed));
    }
}

/// A turn that ends says nothing.
proof fn lemma_end_turn(journal: Seq<EntryView>, t: Turn)
    ensures
        said(journal + appends(t.end_turn().script.effects)) == said(
            journal + appends(t.script.effects),
        ),
        t.end_turn().agent.history == t.agent.history,
        t.end_turn().agent.pending_results == t.agent.pending_results,
{
    lemma_effect(
        journal,
        t.script.effects,
        EffectView::WriteStatus(Activity::Idle),
    );
}

/// A refusal by a cost limit says nothing.
proof fn lemma_refuse(
    journal: Seq<EntryView>,
    t: Turn,
    scope: CostScope,
    current: Seq<char>,
    limit: Seq<char>,
    now: Timestamp,
)
    ensures
        ({
            let after = t.refuse_threshold(scope, current, limit, now);
            &&& said(journal + appends(after.script.effects)) == said(
                journal + appends(t.script.effects),
            )
            &&& after.agent.history == t.agent.history
            &&& after.agent.pending_results == t.agent.pending_results
        }),
{
    let note = EffectView::Append(
        EntryView::System {
            message: refusal_note(scope, current, limit),
            timestamp_utc: now,
        },
    );
    let noted = t.append_system_entry(
        refusal_note(scope, current, limit),
        now,
    );
    lemma_effect(journal, t.script.effects, note);
    assert(noted.script.effects == t.script.effects.push(note));
    let audit = EffectView::Audit(
        AuditView::AuthorityDecision {
            agent_id: t.agent.config.agent_id,
            persona_name: t.agent.config.persona_name,
            profile_version: t.agent.config.persona_version,
            action: "threshold threshold"@,
            disposition: AuthorityDisposition::Refuse,
            layer: Some("threshold"@),
            rationale: Some(refusal_rationale(scope, current, limit)),
            blacklist_version: None,
            at: now,
        },
    );
    lemma_effect(journal, noted.script.effects, audit);
    lemma_end_turn(journal, noted);
    lemma_end_turn(journal, noted.perform(audit));
}

/// Asking for a model call says nothing.
proof fn lemma_spawn(journal: Seq<EntryView>, t: Turn, now: Timestamp)
    ensures
        ({
            let after = t.spawn_adapter_call(now);
            &&& said(journal + appends(after.script.effects)) == said(
                journal + appends(t.script.effects),
            )
            &&& after.agent.history == t.agent.history
            &&& after.agent.pending_results == t.agent.pending_results
        }),
{
    if t.agent.tool_iteration >= MAX_TOOL_ITERATIONS {
        let message = "tool loop aborted: exceeded 16 iterations"@;
        lemma_effect(
            journal,
            t.script.effects,
            EffectView::Append(EntryView::System { message, timestamp_utc: now }),
        );
        lemma_end_turn(journal, t.append_system_entry(message, now));
    } else {
        let counted = Turn {
            agent: AgentView { tool_iteration: (t.agent.tool_iteration + 1) as u32, ..t.agent },
            ..t
        };
        let own = counted.check_cost(CostScope::Agent);
        lemma_effect(
            journal,
            counted.script.effects,
            EffectView::CheckCost {
                scope: CostScope::Agent,
                microdollars: counted.agent.total_cost,
            },
        );
        match own.script.last_outcome() {
            OutcomeView::LimitReached { current, limit } => {
                lemma_refuse(journal, own, CostScope::Agent, current, limit, now);
            },
            _ => {
                let shared = own.check_cost(CostScope::Session);
                lemma_effect(
                    journal,
                    own.script.effects,
                    EffectView::CheckCost {
                        scope: CostScope::Session,
                        microdollars: own.agent.total_cost,
                    },
                );
                match shared.script.last_outcome() {
                    OutcomeView::LimitReached { current, limit } => {
                        lemma_refuse(journal, shared, CostScope::Session, current, limit, now);
                    },
                    _ => {
                        lemma_effect(
                            journal,
                            shared.script.effects,
                            EffectView::CallAdapter {
                                messages: shared.agent.history,
                                tools: shared.agent.tools,
                                system_prompt: shared.agent.config.system_prompt,
                                max_tokens: DEFAULT_MAX_TOKENS,
                            },
                        );
                    },
                }
            },
        }
    }
}

/// A message that begins a turn is recalled.
pub proof fn law_inbound_is_recalled(
    journal: Seq<EntryView>,
    t: Turn,
    msg: InboundView,
    now: Timestamp,
)
    requires
        recalled(journal, t),
        t.agent.wf(),
        !t.agent.in_flight,
        answered_so_far(t.agent.history),
        no_failure_from(t.script),
    ensures
        recalled(journal, t.process_inbound(msg, now)),
{
    if !t.agent.seen.contains(msg.message_id) {
        let noted = AgentView {
            seen: remembered(t.agent.seen, msg.message_id),
            ..t.agent
        };
        let begun = Turn { agent: AgentView { in_flight: true, ..noted }, ..t };
        let status = EffectView::WriteStatus(Activity::Working);
        let working = begun.attempt(status);
        lemma_no_failure(begun.script, status);
        lemma_effect(journal, begun.script.effects, status);
        let entry = EntryView::Inbound {
            message_id: msg.message_id,
            sender_id: Some(msg.sender_id),
            payload: msg.payload,
            timestamp_utc: now,
        };
        let journaled = working.append_inbound(msg, now);
        lemma_no_failure(working.script, EffectView::Append(entry));
        lemma_effect(journal, working.script.effects, EffectView::Append(entry));
        let asked = journaled.say(
            Role::User,
            seq![ContentView::Text(attributed(Some(msg.sender_id), msg.payload))],
        );
        assert(recalled(journal, asked));
        lemma_spawn(journal, asked, now);
    }
}

// ── Tools ────────────────────────────────────────────────────────────────────

/// A tool's answer joins those before it.
proof fn lemma_answer(
    journal: Seq<EntryView>,
    t: Turn,
    id: Seq<char>,
    content: Seq<char>,
    is_error: bool,
    now: Timestamp,
)
    requires
        recalled(journal, t),
        no_failure_from(t.script),
        answered_so_far(t.agent.history),
    ensures
        ({
            let after = t.append_tool_result(id, content, is_error, now);
            &&& recalled(journal, after)
            &&& no_failure_from(after.script)
            &&& after.agent.history == t.agent.history
            &&& after.agent.pending_ids == t.agent.pending_ids
        }),
{
    let effect = EffectView::Append(
        EntryView::ToolResult { tool_use_id: id, content, is_error, timestamp_utc: now },
    );
    lemma_no_failure(t.script, effect);
    lemma_effect(journal, t.script.effects, effect);
    let block = ContentView::ToolResult { tool_use_id: id, content, is_error };
    let after = t.append_tool_result(id, content, is_error, now);
    let results = t.agent.pending_results;
    if results.len() == 0 {
        assert(results.push(block) =~= seq![block]);
    } else {
        assert(spoken(t.agent).drop_last() =~= t.agent.history);
    }
    assert(after.agent.pending_results == results.push(block));
}

/// The answers become part of the history.
proof fn lemma_advance(journal: Seq<EntryView>, t: Turn, now: Timestamp)
    requires
        recalled(journal, t),
    ensures
        recalled(journal, t.advance_after_tools(now)),
{
    let results = t.agent.pending_results;
    let taken = Turn { agent: AgentView { pending_results: Seq::empty(), ..t.agent }, ..t };
    lemma_spawn(journal, taken, now);
    lemma_spawn(journal, taken.say(Role::User, results), now);
}

/// A tool's answer is recalled, and with the last one the question that the
/// answers make.
pub proof fn law_tool_result_is_recalled(
    journal: Seq<EntryView>,
    t: Turn,
    id: Seq<char>,
    content: Seq<char>,
    is_error: bool,
    now: Timestamp,
)
    requires
        recalled(journal, t),
        answered_so_far(t.agent.history),
        no_failure_from(t.script),
    ensures
        recalled(journal, t.tool_result(id, content, is_error, now)),
{
    if t.agent.pending_ids.contains(id) {
        let taken = Turn {
            agent: AgentView { pending_ids: without(t.agent.pending_ids, id), ..t.agent },
            ..t
        };
        lemma_answer(journal, taken, id, content, is_error, now);
        lemma_advance(journal, taken.append_tool_result(id, content, is_error, now), now);
    }
}

proof fn lemma_time_out(journal: Seq<EntryView>, t: Turn, ids: Seq<Seq<char>>, n: int, now: Timestamp)
    requires
        recalled(journal, t),
        answered_so_far(t.agent.history),
        no_failure_from(t.script),
        0 <= n <= ids.len(),
    ensures
        ({
            let after = t.time_out_upto(ids, n, now);
            &&& recalled(journal, after)
            &&& no_failure_from(after.script)
            &&& after.agent.history == t.agent.history
        }),
    decreases n,
{
    if n > 0 {
        lemma_time_out(journal, t, ids, n - 1, now);
        lemma_answer(
            journal,
            t.time_out_upto(ids, n - 1, now),
            ids[n - 1],
            "tool call timed out"@,
            true,
            now,
        );
    }
}

/// The answers that stand for tools that took too long are recalled.
pub proof fn law_timeout_is_recalled(journal: Seq<EntryView>, t: Turn, now: Timestamp)
    requires
        recalled(journal, t),
        answered_so_far(t.agent.history),
        no_failure_from(t.script),
    ensures
        recalled(journal, t.tool_batch_timeout(now)),
{
    let ids = t.agent.pending_ids;
    if ids.len() > 0 {
        let none = Turn { agent: AgentView { pending_ids: Seq::empty(), ..t.agent }, ..t };
        lemma_time_out(journal, none, ids, ids.len() as int, now);
        lemma_advance(journal, none.time_out_upto(ids, ids.len() as int, now), now);
    }
}

// ── Replies ──────────────────────────────────────────────────────────────────

/// A history with a reply so far; one without blocks is none yet.
pub open spec fn talk(history: Seq<MessageView>, content: Seq<ContentView>) -> Seq<MessageView> {
    if content.len() == 0 {
        history
    } else {
        history.push(MessageView { role: Role::Assistant, content })
    }
}

proof fn lemma_talk(history: Seq<MessageView>, content: Seq<ContentView>, block: ContentView)
    requires
        history.len() > 0,
        history.last().role == Role::User,
    ensures
        with_block(talk(history, content), Role::Assistant, block) == talk(
            history,
            content.push(block),
        ),
{
    if content.len() == 0 {
        assert(content.push(block) =~= seq![block]);
    } else {
        assert(talk(history, content).drop_last() =~= history);
    }
}

/// The calls of a reply are journaled one by one.
proof fn lemma_dispatch(
    journal: Seq<EntryView>,
    t: Turn,
    asked: Seq<MessageView>,
    content: Seq<ContentView>,
    calls: Seq<ToolCallView>,
    n: int,
    now: Timestamp,
)
    requires
        0 <= n <= calls.len(),
        all_known(calls, t.agent.tools),
        no_failure_from(t.script),
        asked.len() > 0,
        asked.last().role == Role::User,
        said(journal + appends(t.script.effects)) == talk(asked, content),
    ensures
        ({
            let (after, all) = t.dispatch_upto(calls, n, now);
            &&& all
            &&& no_failure_from(after.script)
            &&& after.agent.history == t.agent.history
            &&& after.agent.pending_results == t.agent.pending_results
            &&& after.agent.tools == t.agent.tools
            &&& said(journal + appends(after.script.effects)) == talk(
                asked,
                content + tool_use_blocks(calls.take(n)),
            )
        }),
    decreases n,
{
    if n > 0 {
        lemma_dispatch(journal, t, asked, content, calls, n - 1, now);
        let before = t.dispatch_upto(calls, n - 1, now).0;
        let call = calls[n - 1];
        let use_effect = EffectView::Append(
            EntryView::ToolUse {
                tool_use_id: call.id,
                name: call.name,
                input: call.arguments,
                timestamp_utc: now,
            },
        );
        lemma_no_failure(before.script, use_effect);
        lemma_effect(journal, before.script.effects, use_effect);
        let block = ContentView::ToolUse { id: call.id, name: call.name, input: call.arguments };
        let so_far = content + tool_use_blocks(calls.take(n - 1));
        lemma_talk(asked, so_far, block);
        assert(content + tool_use_blocks(calls.take(n)) =~= so_far.push(block));
        let journaled = before.attempt(use_effect);
        let invoke = EffectView::InvokeTool {
            tool_use_id: call.id,
            name: call.name,
            input: call.arguments,
            sender_id: before.agent.config.agent_id,
        };
        lemma_no_failure(journaled.script, invoke);
        lemma_effect(journal, journaled.script.effects, invoke);
        assert(before.agent.tools.contains(call.name));
    } else {
        assert(content + tool_use_blocks(calls.take(0)) =~= content);
    }
}

/// A reply's only call, for a tool that is not there, is journaled and
/// answered.
proof fn lemma_dispatch_unknown(
    journal: Seq<EntryView>,
    t: Turn,
    asked: Seq<MessageView>,
    content: Seq<ContentView>,
    calls: Seq<ToolCallView>,
    now: Timestamp,
)
    requires
        calls.len() == 1,
        !t.agent.tools.contains(calls[0].name),
        no_failure_from(t.script),
        asked.len() > 0,
        asked.last().role == Role::User,
        t.agent.pending_results.len() == 0,
        t.agent.history == talk(asked, content + tool_use_blocks(calls)),
        said(journal + appends(t.script.effects)) == talk(asked, content),
    ensures
        ({
            let (after, all) = t.dispatch_upto(calls, 1, now);
            &&& all
            &&& recalled(journal, after)
        }),
{
    reveal_with_fuel(Turn::dispatch_upto, 2);
    let call = calls[0];
    let use_effect = EffectView::Append(
        EntryView::ToolUse {
            tool_use_id: call.id,
            name: call.name,
            input: call.arguments,
            timestamp_utc: now,
        },
    );
    lemma_no_failure(t.script, use_effect);
    lemma_effect(journal, t.script.effects, use_effect);
    let block = ContentView::ToolUse { id: call.id, name: call.name, input: call.arguments };
    lemma_talk(asked, content, block);
    assert(content + tool_use_blocks(calls) =~= content.push(block));
    let journaled = t.attempt(use_effect);
    assert(recalled(journal, journaled));
    lemma_answer(journal, journaled, call.id, "unknown tool: "@ + call.name, true, now);
}

/// A plain reply is recalled, with the calls it makes, or with the message
/// that waited for the end of the turn.
pub proof fn law_reply_is_recalled(
    journal: Seq<EntryView>,
    t: Turn,
    response: ResponseView,
    now: Timestamp,
)
    requires
        recalled(journal, t),
        t.agent.wf(),
        t.agent.awaits_model(),
        t.agent.history.len() > 0,
        t.agent.history.last().role == Role::User,
        plain_reply(response, t.agent),
        no_failure_from(t.script),
    ensures
        recalled(journal, t.handle_response(response, now)),
{
    let asked = t.agent.history;
    let content = response.content;
    let calls = response.tool_calls;
    let answer = t.say(Role::Assistant, content + tool_use_blocks(calls));
    assert(answer.agent.history =~= talk(asked, content + tool_use_blocks(calls)));
    let text = first_text(content, 0);
    let out_effect = EffectView::Append(
        EntryView::Outbound { payload: text, timestamp_utc: now },
    );
    lemma_no_failure(answer.script, out_effect);
    lemma_effect(journal, answer.script.effects, out_effect);
    reveal_with_fuel(first_text, 2);
    let outbound = if text.len() == 0 {
        answer
    } else {
        answer.attempt(out_effect)
    };
    if content.len() == 0 {
        assert(talk(asked, content) == asked);
    } else {
        lemma_talk(asked, Seq::empty(), content[0]);
        assert(Seq::empty().push(content[0]) =~= content);
    }
    assert(said(journal + appends(outbound.script.effects)) == talk(asked, content));
    let call_effect = EffectView::Append(
        EntryView::ModelCall {
            input_tokens: response.input_tokens,
            output_tokens: response.output_tokens,
            model: t.agent.config.model,
            timestamp_utc: now,
        },
    );
    lemma_no_failure(outbound.script, call_effect);
    lemma_effect(journal, outbound.script.effects, call_effect);
    let called = outbound.attempt(call_effect);
    let total = (t.agent.total_cost + response.microdollars) as u64;
    let cost_effect = EffectView::WriteCost { microdollars: total };
    let paying = Turn { agent: AgentView { total_cost: total, ..called.agent }, ..called };
    lemma_no_failure(paying.script, cost_effect);
    lemma_effect(journal, paying.script.effects, cost_effect);
    let paid = paying.attempt(cost_effect);
    assert(said(journal + appends(paid.script.effects)) == talk(asked, content));
    if response.finish_reason == FinishReason::ToolUse {
        let (dispatched, all) = paid.dispatch_upto(calls, calls.len() as int, now);
        if all_known(calls, paid.agent.tools) {
            lemma_dispatch(journal, paid, asked, content, calls, calls.len() as int, now);
            assert(calls.take(calls.len() as int) =~= calls);
        } else {
            assert(calls.len() == 1);
            lemma_dispatch_unknown(journal, paid, asked, content, calls, now);
        }
        assert(all && recalled(journal, dispatched));
        lemma_advance(journal, dispatched, now);
        lemma_effect(
            journal,
            dispatched.script.effects,
            EffectView::ArmToolTimeout { seconds: TOOL_TIMEOUT_SECS },
        );
    } else {
        assert(tool_use_blocks(calls) =~= Seq::empty());
        assert(content + tool_use_blocks(calls) =~= content);
        assert(recalled(journal, paid));
        if paid.agent.queue.len() == 0 {
            lemma_end_turn(journal, paid);
        } else {
            let next = Turn { agent: AgentView { tool_iteration: 0, ..paid.agent }, ..paid };
            lemma_drain_one(journal, next, now);
        }
    }
}

/// A single message that waited becomes the next question.
proof fn lemma_drain_one(journal: Seq<EntryView>, t: Turn, now: Timestamp)
    requires
        recalled(journal, t),
        t.agent.pending_results.len() == 0,
        t.agent.history.len() > 0,
        t.agent.history.last().role == Role::Assistant,
        t.agent.queue.len() == 1,
        t.agent.queue[0].payload.len() > 0,
        no_failure_from(t.script),
    ensures
        recalled(journal, t.drain_pending_into_turn(now)),
{
    let msg = t.agent.queue[0];
    let taken = Turn {
        agent: AgentView { queue: t.agent.queue.drop_first(), ..t.agent },
        ..t
    };
    let effect = EffectView::Append(
        EntryView::Inbound {
            message_id: msg.message_id,
            sender_id: Some(msg.sender_id),
            payload: msg.payload,
            timestamp_utc: now,
        },
    );
    lemma_no_failure(taken.script, effect);
    lemma_effect(journal, taken.script.effects, effect);
    let journaled = taken.append_inbound(msg, now);
    let combined = joined(Seq::empty(), msg);
    assert(combined == attributed(Some(msg.sender_id), msg.payload));
    assert(combined.len() > 0) by {
        reveal_strlit("[from ");
    }
    reveal_with_fuel(Turn::drain, 2);
    assert(t.drain(Seq::empty(), now) == (journaled, Some(combined)));
    let question = journaled.say(Role::User, seq![ContentView::Text(combined)]);
    assert(recalled(journal, question));
    lemma_spawn(journal, question, now);
}

/// What a new agent reads back is what the old one knew: where the journal
/// recalls an agent whose last question was answered, the history rebuilt
/// from it is that agent's history, message for message and block for block.
pub proof fn law_rebuilt_history_is_the_same(journal: Seq<EntryView>, t: Turn)
    requires
        recalled(journal, t),
        t.agent.pending_results.len() == 0,
        answered_so_far(t.agent.history),
    ensures
        history_of(journal + appends(t.script.effects)) == t.agent.history,
{
}

/// A question that was not answered is left out when the history is rebuilt,
/// and nothing else is: its envelope is delivered again.
pub proof fn law_open_question_is_left_out(journal: Seq<EntryView>, t: Turn)
    requires
        recalled(journal, t),
        t.agent.pending_results.len() == 0,
        t.agent.history.len() > 0,
        t.agent.history.last().role == Role::User,
        answered_so_far(t.agent.history.drop_last()),
    ensures
        history_of(journal + appends(t.script.effects)) == t.agent.history.drop_last(),
{
    reveal_with_fuel(without_open_turn, 2);
}

} // verus!
