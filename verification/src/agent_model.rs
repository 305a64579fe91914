//! The agent's message loop as a state machine.
//!
//! A handler takes the agent from one state to the next and asks for effects
//! on the way: journal entries, status and cost files, model and tool calls.
//! What an effect came to may change what the handler does after it, so a
//! handler is a function of the state, of the event, and of the outcomes of
//! the effects it asks for. A [`Turn`] is a point within a handler: the state
//! there, and the effects asked for so far.

use vstd::prelude::*;

use crate::audit::{AuditView, AuthorityDisposition};
use crate::conversation::{ContentView, EntryView, MessageView, Role};
use crate::history::attributed;
use crate::identity::Timestamp;
use crate::seen_ids::{bounded_set, lemma_remembered_keeps_bound, remembered};

verus! {

/// Bound on the length of a model's reply.
pub const DEFAULT_MAX_TOKENS: u32 = 4096;

/// How many model calls one turn may make before it is taken for a loop and
/// aborted.
pub const MAX_TOOL_ITERATIONS: u32 = 16;

/// How long tools have to answer before their calls count as failed.
pub const TOOL_TIMEOUT_SECS: u64 = 30;

/// What an agent is doing, as its status file says.
#[derive(Debug, Clone, Copy, PartialEq, Eq, Structural)]
pub enum Activity {
    Idle,
    Working,
}

impl Activity {
    /// The word in the status file.
    pub open spec fn text(self) -> Seq<char> {
        match self {
            Activity::Idle => "idle"@,
            Activity::Working => "working"@,
        }
    }

    /// The word in the status file.
    pub fn as_str(self) -> (word: &'static str)
        ensures
            word@ == self.text(),
    {
        match self {
            Activity::Idle => "idle",
            Activity::Working => "working",
        }
    }
}

/// Whose cost a limit bounds.
#[derive(Debug, Clone, Copy, PartialEq, Eq, Structural)]
pub enum CostScope {
    Agent,
    Session,
}

/// Why a model stopped.
#[derive(Debug, Clone, Copy, PartialEq, Eq, Structural)]
pub enum FinishReason {
    EndTurn,
    ToolUse,
    Other,
}

impl CostScope {
    /// The name of the limit.
    pub open spec fn limit_name(self) -> Seq<char> {
        match self {
            CostScope::Agent => "cost_per_agent"@,
            CostScope::Session => "cost_per_session"@,
        }
    }

    /// Whose cost it is, in words.
    pub open spec fn label(self) -> Seq<char> {
        match self {
            CostScope::Agent => "agent cost "@,
            CostScope::Session => "session cost "@,
        }
    }
}

/// An inbound message.
pub struct InboundView {
    pub payload: Seq<char>,
    pub message_id: Seq<char>,
    pub sender_id: Seq<char>,
}

/// A tool call that a model asked for.
pub struct ToolCallView {
    pub id: Seq<char>,
    pub name: Seq<char>,
    pub arguments: Seq<char>,
}

/// A model's reply.
pub struct ResponseView {
    pub content: Seq<ContentView>,
    pub tool_calls: Seq<ToolCallView>,
    pub finish_reason: FinishReason,
    pub input_tokens: u32,
    pub output_tokens: u32,
    pub microdollars: u64,
}

/// What a handler asks of the world.
pub enum EffectView {
    WriteStatus(Activity),
    Append(EntryView),
    WriteCost { microdollars: u64 },
    CheckCost { scope: CostScope, microdollars: u64 },
    Audit(AuditView),
    CallAdapter {
        messages: Seq<MessageView>,
        tools: Seq<Seq<char>>,
        system_prompt: Seq<char>,
        max_tokens: u32,
    },
    InvokeTool { tool_use_id: Seq<char>, name: Seq<char>, input: Seq<char>, sender_id: Seq<char> },
    ArmToolTimeout { seconds: u64 },
}

/// What an effect came to.
pub enum OutcomeView {
    Done,
    Failed,
    LimitReached { current: Seq<char>, limit: Seq<char> },
}

/// What an agent was made with.
pub struct ConfigView {
    pub agent_id: Seq<char>,
    pub persona_name: Seq<char>,
    pub persona_version: u32,
    pub model: Seq<char>,
    pub system_prompt: Seq<char>,
    pub audited: bool,
}

/// The state of an agent.
#[verifier::ext_equal]
pub struct AgentView {
    pub config: ConfigView,
    pub tools: Seq<Seq<char>>,
    pub total_cost: u64,
    pub in_flight: bool,
    pub history: Seq<MessageView>,
    pub pending_ids: Seq<Seq<char>>,
    pub pending_results: Seq<ContentView>,
    pub tool_iteration: u32,
    pub queue: Seq<InboundView>,
    pub seen: Seq<Seq<char>>,
}

impl AgentView {
    /// What holds of an agent at all times: the bounds on its counters and
    /// sets hold, and an agent with no turn in flight awaits no tool.
    pub open spec fn wf(self) -> bool {
        &&& self.tool_iteration <= MAX_TOOL_ITERATIONS
        &&& bounded_set(self.seen)
        &&& self.pending_ids.no_duplicates()
        &&& !self.in_flight ==> self.tool_iteration == 0 && self.pending_ids.len() == 0
            && self.pending_results.len() == 0
    }

    /// The agent waits for a model's reply.
    pub open spec fn awaits_model(self) -> bool {
        self.in_flight && self.pending_ids.len() == 0 && self.pending_results.len() == 0
    }
}

/// The effects asked for, and what they come to: the outcome at an effect's
/// place, or success where none is given.
#[verifier::ext_equal]
pub struct ScriptView {
    pub outcomes: Seq<OutcomeView>,
    pub effects: Seq<EffectView>,
    pub stopped: bool,
}

/// A point within a handler.
#[verifier::ext_equal]
pub struct Turn {
    pub agent: AgentView,
    pub script: ScriptView,
}

impl ScriptView {
    /// What the effect asked for last came to.
    pub open spec fn last_outcome(self) -> OutcomeView {
        if 0 < self.effects.len() <= self.outcomes.len() {
            self.outcomes[self.effects.len() - 1]
        } else {
            OutcomeView::Done
        }
    }

    /// Asks for an effect whose failure changes nothing.
    pub open spec fn perform(self, effect: EffectView) -> ScriptView {
        ScriptView { effects: self.effects.push(effect), ..self }
    }

    /// Asks for an effect whose failure stops the agent.
    pub open spec fn attempt(self, effect: EffectView) -> ScriptView {
        let asked = self.perform(effect);
        if asked.last_outcome() is Failed {
            ScriptView { stopped: true, ..asked }
        } else {
            asked
        }
    }

    /// Whether the effect asked for last failed.
    pub open spec fn failed(self) -> bool {
        self.last_outcome() is Failed
    }
}

impl Turn {
    /// Asks for an effect whose failure changes nothing.
    pub open spec fn perform(self, effect: EffectView) -> Turn {
        Turn { script: self.script.perform(effect), ..self }
    }

    /// Asks for an effect whose failure stops the agent.
    pub open spec fn attempt(self, effect: EffectView) -> Turn {
        Turn { script: self.script.attempt(effect), ..self }
    }

    /// The status file says idle.
    pub open spec fn set_idle(self) -> Turn {
        self.attempt(EffectView::WriteStatus(Activity::Idle))
    }

    /// The journal has a note of the runtime's.
    pub open spec fn append_system_entry(self, message: Seq<char>, now: Timestamp) -> Turn {
        self.attempt(EffectView::Append(EntryView::System { message, timestamp_utc: now }))
    }

    /// The journal has the inbound message.
    pub open spec fn append_inbound(self, msg: InboundView, now: Timestamp) -> Turn {
        self.attempt(
            EffectView::Append(
                EntryView::Inbound {
                    message_id: msg.message_id,
                    sender_id: Some(msg.sender_id),
                    payload: msg.payload,
                    timestamp_utc: now,
                },
            ),
        )
    }

    /// The turn is over, and the status file says idle.
    pub open spec fn end_turn(self) -> Turn {
        (Turn {
            agent: AgentView { in_flight: false, tool_iteration: 0, ..self.agent },
            ..self
        }).set_idle()
    }

    /// The history has one more message.
    pub open spec fn say(self, role: Role, content: Seq<ContentView>) -> Turn {
        Turn {
            agent: AgentView {
                history: self.agent.history.push(MessageView { role, content }),
                ..self.agent
            },
            ..self
        }
    }

    /// A cost limit was reached: the refusal is journaled, audited where the
    /// agent is audited, and ends the turn.
    pub open spec fn refuse_threshold(
        self,
        scope: CostScope,
        current: Seq<char>,
        limit: Seq<char>,
        now: Timestamp,
    ) -> Turn {
        let noted = self.append_system_entry(refusal_note(scope, current, limit), now);
        let audited = if self.agent.config.audited {
            noted.perform(
                EffectView::Audit(
                    AuditView::AuthorityDecision {
                        agent_id: self.agent.config.agent_id,
                        persona_name: self.agent.config.persona_name,
                        profile_version: self.agent.config.persona_version,
                        action: "threshold threshold"@,
                        disposition: AuthorityDisposition::Refuse,
                        layer: Some("threshold"@),
                        rationale: Some(refusal_rationale(scope, current, limit)),
                        blacklist_version: None,
                        at: now,
                    },
                ),
            )
        } else {
            noted
        };
        audited.end_turn()
    }

    /// Asks for the model's reply to the history.
    pub open spec fn call_adapter(self) -> Turn {
        self.perform(
            EffectView::CallAdapter {
                messages: self.agent.history,
                tools: self.agent.tools,
                system_prompt: self.agent.config.system_prompt,
                max_tokens: DEFAULT_MAX_TOKENS,
            },
        )
    }

    /// Asks whether a cost limit is reached.
    pub open spec fn check_cost(self, scope: CostScope) -> Turn {
        self.perform(EffectView::CheckCost { scope, microdollars: self.agent.total_cost })
    }

    /// One more model call within the turn, unless the turn has made too many
    /// or a cost limit is reached. The agent's own limit is looked at first.
    pub open spec fn spawn_adapter_call(self, now: Timestamp) -> Turn {
        if self.agent.tool_iteration >= MAX_TOOL_ITERATIONS {
            self.append_system_entry("tool loop aborted: exceeded 16 iterations"@, now).end_turn()
        } else {
            let counted = Turn {
                agent: AgentView {
                    tool_iteration: (self.agent.tool_iteration + 1) as u32,
                    ..self.agent
                },
                ..self
            };
            let own = counted.check_cost(CostScope::Agent);
            match own.script.last_outcome() {
                OutcomeView::LimitReached { current, limit } => own.refuse_threshold(
                    CostScope::Agent,
                    current,
                    limit,
                    now,
                ),
                _ => {
                    let shared = own.check_cost(CostScope::Session);
                    match shared.script.last_outcome() {
                        OutcomeView::LimitReached { current, limit } => shared.refuse_threshold(
                            CostScope::Session,
                            current,
                            limit,
                            now,
                        ),
                        _ => shared.call_adapter(),
                    }
                },
            }
        }
    }

    /// A turn begins with one inbound message.
    pub open spec fn start_turn_with(self, msg: InboundView, now: Timestamp) -> Turn {
        let begun = Turn { agent: AgentView { in_flight: true, ..self.agent }, ..self };
        let working = begun.attempt(EffectView::WriteStatus(Activity::Working));
        if working.script.failed() {
            working
        } else {
            let journaled = working.append_inbound(msg, now);
            if journaled.script.failed() {
                journaled
            } else {
                journaled.say(
                    Role::User,
                    seq![ContentView::Text(attributed(Some(msg.sender_id), msg.payload))],
                ).spawn_adapter_call(now)
            }
        }
    }

    /// An inbound message arrives: a known one is dropped, one that arrives
    /// within a turn waits for its end, any other begins a turn.
    pub open spec fn process_inbound(self, msg: InboundView, now: Timestamp) -> Turn {
        if self.agent.seen.contains(msg.message_id) {
            self
        } else {
            let noted = AgentView {
                seen: remembered(self.agent.seen, msg.message_id),
                ..self.agent
            };
            if self.agent.in_flight {
                Turn { agent: AgentView { queue: noted.queue.push(msg), ..noted }, ..self }
            } else {
                (Turn { agent: noted, ..self }).start_turn_with(msg, now)
            }
        }
    }

    /// A tool's answer is journaled and kept for the next user turn.
    pub open spec fn append_tool_result(
        self,
        tool_use_id: Seq<char>,
        content: Seq<char>,
        is_error: bool,
        now: Timestamp,
    ) -> Turn {
        let journaled = self.attempt(
            EffectView::Append(
                EntryView::ToolResult { tool_use_id, content, is_error, timestamp_utc: now },
            ),
        );
        if journaled.script.failed() {
            journaled
        } else {
            Turn {
                agent: AgentView {
                    pending_results: self.agent.pending_results.push(
                        ContentView::ToolResult { tool_use_id, content, is_error },
                    ),
                    ..self.agent
                },
                ..journaled
            }
        }
    }

    /// The tools' answers become the next user turn, and the model is called
    /// again.
    pub open spec fn advance_after_tools(self, now: Timestamp) -> Turn {
        let results = self.agent.pending_results;
        let taken = Turn {
            agent: AgentView { pending_results: Seq::empty(), ..self.agent },
            ..self
        };
        if results.len() == 0 {
            taken.spawn_adapter_call(now)
        } else {
            taken.say(Role::User, results).spawn_adapter_call(now)
        }
    }

    /// One tool call is journaled and handed to its tool, or answered with an
    /// error where there is no such tool.
    pub open spec fn dispatch_one(self, call: ToolCallView, now: Timestamp) -> Turn {
        let journaled = self.attempt(
            EffectView::Append(
                EntryView::ToolUse {
                    tool_use_id: call.id,
                    name: call.name,
                    input: call.arguments,
                    timestamp_utc: now,
                },
            ),
        );
        if journaled.script.failed() {
            journaled
        } else if self.agent.tools.contains(call.name) {
            (Turn {
                agent: AgentView {
                    pending_ids: if self.agent.pending_ids.contains(call.id) {
                        self.agent.pending_ids
                    } else {
                        self.agent.pending_ids.push(call.id)
                    },
                    ..self.agent
                },
                ..journaled
            }).perform(
                EffectView::InvokeTool {
                    tool_use_id: call.id,
                    name: call.name,
                    input: call.arguments,
                    sender_id: self.agent.config.agent_id,
                },
            )
        } else {
            journaled.append_tool_result(call.id, "unknown tool: "@ + call.name, true, now)
        }
    }

    /// Whether journaling `call` as the next effect fails.
    pub open spec fn cannot_journal(self, call: ToolCallView, now: Timestamp) -> bool {
        self.script.perform(
            EffectView::Append(
                EntryView::ToolUse {
                    tool_use_id: call.id,
                    name: call.name,
                    input: call.arguments,
                    timestamp_utc: now,
                },
            ),
        ).failed()
    }

    /// The first `n` tool calls, in order, up to the first that cannot be
    /// journaled. Tells whether all of them could.
    pub open spec fn dispatch_upto(
        self,
        calls: Seq<ToolCallView>,
        n: int,
        now: Timestamp,
    ) -> (Turn, bool)
        decreases n,
    {
        if n <= 0 {
            (self, true)
        } else {
            let (before, all) = self.dispatch_upto(calls, n - 1, now);
            if !all {
                (before, false)
            } else {
                (before.dispatch_one(calls[n - 1], now), !before.cannot_journal(calls[n - 1], now))
            }
        }
    }

    /// A batch of tool calls: each is dispatched, then the agent waits for
    /// the tools, or goes on at once where none was asked.
    pub open spec fn dispatch_tool_calls(self, calls: Seq<ToolCallView>, now: Timestamp) -> Turn {
        let (dispatched, all) = self.dispatch_upto(calls, calls.len() as int, now);
        if !all {
            dispatched
        } else if dispatched.agent.pending_ids.len() == 0 {
            dispatched.advance_after_tools(now)
        } else {
            dispatched.perform(EffectView::ArmToolTimeout { seconds: TOOL_TIMEOUT_SECS })
        }
    }

    /// The queued messages from the `i`-th on, up to the first that cannot be
    /// journaled, each journaled and its payload joined to `combined`. Tells
    /// the text, or nothing where one could not be journaled.
    pub open spec fn drain(self, combined: Seq<char>, now: Timestamp) -> (Turn, Option<Seq<char>>)
        decreases self.agent.queue.len(),
    {
        if self.agent.queue.len() == 0 {
            (self, Some(combined))
        } else {
            let msg = self.agent.queue[0];
            let taken = Turn {
                agent: AgentView { queue: self.agent.queue.drop_first(), ..self.agent },
                ..self
            };
            let journaled = taken.append_inbound(msg, now);
            if journaled.script.failed() {
                (journaled, None)
            } else {
                journaled.drain(joined(combined, msg), now)
            }
        }
    }

    /// The messages that waited become the next user turn; messages without
    /// text are journaled only, and where none has text the agent goes idle.
    pub open spec fn drain_pending_into_turn(self, now: Timestamp) -> Turn {
        match self.drain(Seq::empty(), now) {
            (drained, None) => drained,
            (drained, Some(combined)) => if combined.len() == 0 {
                drained.end_turn()
            } else {
                drained.say(Role::User, seq![ContentView::Text(combined)]).spawn_adapter_call(now)
            },
        }
    }

    /// A model's reply joins the history and is journaled and paid for; then
    /// its tool calls are dispatched, or the turn ends.
    pub open spec fn handle_response(self, response: ResponseView, now: Timestamp) -> Turn {
        let said = self.say(
            Role::Assistant,
            response.content + tool_use_blocks(response.tool_calls),
        );
        let text = first_text(response.content, 0);
        let outbound = if text.len() == 0 {
            said
        } else {
            said.attempt(
                EffectView::Append(EntryView::Outbound { payload: text, timestamp_utc: now }),
            )
        };
        if text.len() != 0 && outbound.script.failed() {
            outbound
        } else {
            let called = outbound.attempt(
                EffectView::Append(
                    EntryView::ModelCall {
                        input_tokens: response.input_tokens,
                        output_tokens: response.output_tokens,
                        model: self.agent.config.model,
                        timestamp_utc: now,
                    },
                ),
            );
            if called.script.failed() {
                called
            } else {
                let total = (self.agent.total_cost + response.microdollars) as u64;
                let paid = (Turn {
                    agent: AgentView { total_cost: total, ..called.agent },
                    ..called
                }).attempt(EffectView::WriteCost { microdollars: total });
                if paid.script.failed() {
                    paid
                } else if response.finish_reason == FinishReason::ToolUse {
                    paid.dispatch_tool_calls(response.tool_calls, now)
                } else if paid.agent.queue.len() == 0 {
                    paid.end_turn()
                } else {
                    (Turn {
                        agent: AgentView { tool_iteration: 0, ..paid.agent },
                        ..paid
                    }).drain_pending_into_turn(now)
                }
            }
        }
    }

    /// The model could not be reached: its question leaves the history, the
    /// failure is journaled where that can be done, and the turn ends.
    pub open spec fn adapter_failed(self, err: Seq<char>, now: Timestamp) -> Turn {
        let unsaid = Turn {
            agent: AgentView {
                history: if self.agent.history.len() == 0 {
                    self.agent.history
                } else {
                    self.agent.history.drop_last()
                },
                ..self.agent
            },
            ..self
        };
        unsaid.perform(
            EffectView::Append(
                EntryView::System { message: "adapter call failed: "@ + err, timestamp_utc: now },
            ),
        ).end_turn()
    }

    /// A tool answers. An answer that is not awaited is dropped; the last one
    /// awaited lets the agent go on.
    pub open spec fn tool_result(
        self,
        tool_use_id: Seq<char>,
        content: Seq<char>,
        is_error: bool,
        now: Timestamp,
    ) -> Turn {
        if !self.agent.pending_ids.contains(tool_use_id) {
            self
        } else {
            let answered = (Turn {
                agent: AgentView {
                    pending_ids: without(self.agent.pending_ids, tool_use_id),
                    ..self.agent
                },
                ..self
            }).append_tool_result(tool_use_id, content, is_error, now);
            if answered.agent.pending_ids.len() == 0 {
                answered.advance_after_tools(now)
            } else {
                answered
            }
        }
    }

    /// The first `n` of `ids` are answered with a timeout, in order.
    pub open spec fn time_out_upto(self, ids: Seq<Seq<char>>, n: int, now: Timestamp) -> Turn
        decreases n,
    {
        if n <= 0 {
            self
        } else {
            self.time_out_upto(ids, n - 1, now).append_tool_result(
                ids[n - 1],
                "tool call timed out"@,
                true,
                now,
            )
        }
    }

    /// The tools took too long: every call still awaited is answered with an
    /// error, and the agent goes on. A timeout that comes late does nothing.
    pub open spec fn tool_batch_timeout(self, now: Timestamp) -> Turn {
        let ids = self.agent.pending_ids;
        if ids.len() == 0 {
            self
        } else {
            (Turn {
                agent: AgentView { pending_ids: Seq::empty(), ..self.agent },
                ..self
            }).time_out_upto(ids, ids.len() as int, now).advance_after_tools(now)
        }
    }

    /// An envelope was set aside: the journal says why.
    pub open spec fn quarantined(self, reason: Seq<char>, now: Timestamp) -> Turn {
        self.append_system_entry("quarantined: "@ + reason, now)
    }

    /// The agent starts.
    pub open spec fn started(self, now: Timestamp) -> Turn {
        self.append_system_entry("agent started"@, now).set_idle()
    }

    /// The agent starts again after a failure: what belongs to a turn is
    /// forgotten, what was said and spent is not.
    pub open spec fn restarting(self) -> Turn {
        (Turn {
            agent: AgentView {
                in_flight: false,
                tool_iteration: 0,
                pending_ids: Seq::empty(),
                pending_results: Seq::empty(),
                queue: Seq::empty(),
                seen: Seq::empty(),
                ..self.agent
            },
            ..self
        }).set_idle()
    }
}

/// The note that a refusal leaves in the journal.
pub open spec fn refusal_note(scope: CostScope, current: Seq<char>, limit: Seq<char>) -> Seq<char> {
    "refused ("@ + scope.limit_name() + "): $"@ + current + " \u{2265} limit $"@ + limit
}

/// Why a cost limit refuses.
pub open spec fn refusal_rationale(
    scope: CostScope,
    current: Seq<char>,
    limit: Seq<char>,
) -> Seq<char> {
    scope.label() + current + " USD reached limit "@ + limit + " USD"@
}

/// The queued payloads so far, with one more: payloads are parted by a blank
/// line, and one without text adds nothing.
pub open spec fn joined(combined: Seq<char>, msg: InboundView) -> Seq<char> {
    if msg.payload.len() == 0 {
        combined
    } else if combined.len() == 0 {
        attributed(Some(msg.sender_id), msg.payload)
    } else {
        combined + "\n\n"@ + attributed(Some(msg.sender_id), msg.payload)
    }
}

/// The blocks that stand for tool calls in a message.
pub open spec fn tool_use_blocks(calls: Seq<ToolCallView>) -> Seq<ContentView> {
    calls.map_values(
        |c: ToolCallView| ContentView::ToolUse { id: c.id, name: c.name, input: c.arguments },
    )
}

/// The first text block from the `i`-th block on; nothing where there is
/// none.
pub open spec fn first_text(content: Seq<ContentView>, i: int) -> Seq<char>
    decreases content.len() - i,
{
    if i >= content.len() {
        Seq::empty()
    } else {
        match content[i] {
            ContentView::Text(text) => text,
            _ => first_text(content, i + 1),
        }
    }
}

/// A set of ids without one of them.
pub open spec fn without(ids: Seq<Seq<char>>, id: Seq<char>) -> Seq<Seq<char>> {
    ids.remove(ids.index_of(id))
}

// ── Laws ─────────────────────────────────────────────────────────────────────

/// What a handler owes: the agent is left well-formed, the effects asked for
/// before it are kept, the model is called at most once and last, with the
/// history as it then stands, and a turn that ends leaves the status idle.
pub open spec fn sound_step(before: Turn, after: Turn) -> bool {
    &&& after.agent.wf()
    &&& after.script.outcomes == before.script.outcomes
    &&& before.script.effects.is_prefix_of(after.script.effects)
    &&& forall|i: int|
        before.script.effects.len() <= i < after.script.effects.len()
            && #[trigger] after.script.effects[i] is CallAdapter ==> i
            == after.script.effects.len() - 1 && after.agent.awaits_model()
            && after.agent.tool_iteration > 0 && after.script.effects[i]->messages
            == after.agent.history
    &&& before.agent.in_flight && !after.agent.in_flight ==> after.script.effects.len() > 0
        && after.script.effects.last() == EffectView::WriteStatus(Activity::Idle)
}

/// As [`sound_step`], for a part of a handler that calls no model and ends no
/// turn.
pub open spec fn quiet_step(before: Turn, after: Turn) -> bool {
    &&& after.script.outcomes == before.script.outcomes
    &&& before.script.effects.is_prefix_of(after.script.effects)
    &&& forall|i: int|
        before.script.effects.len() <= i < after.script.effects.len() ==> !(
        #[trigger] after.script.effects[i] is CallAdapter)
}

proof fn lemma_quiet_trans(a: Turn, b: Turn, c: Turn)
    requires
        quiet_step(a, b),
        quiet_step(b, c),
    ensures
        quiet_step(a, c),
{
    assert forall|i: int|
        a.script.effects.len() <= i < c.script.effects.len() implies !(
    #[trigger] c.script.effects[i] is CallAdapter) by {
        if i < b.script.effects.len() {
            assert(b.script.effects[i] == c.script.effects[i]);
        }
    }
}

proof fn lemma_quiet_then_sound(a: Turn, b: Turn, c: Turn)
    requires
        quiet_step(a, b),
        sound_step(b, c),
        a.agent.in_flight ==> b.agent.in_flight,
    ensures
        sound_step(a, c),
{
    assert forall|i: int|
        a.script.effects.len() <= i < c.script.effects.len()
            && #[trigger] c.script.effects[i] is CallAdapter implies i == c.script.effects.len() - 1
        && c.agent.awaits_model() && c.agent.tool_iteration > 0 && c.script.effects[i]->messages
        == c.agent.history by {
        if i < b.script.effects.len() {
            assert(b.script.effects[i] == c.script.effects[i]);
        }
    }
}

proof fn lemma_attempt_quiet(t: Turn, e: EffectView)
    requires
        !(e is CallAdapter),
    ensures
        quiet_step(t, t.attempt(e)),
        quiet_step(t, t.perform(e)),
{
}

proof fn lemma_end_turn_sound(t: Turn)
    requires
        bounded_set(t.agent.seen),
        t.agent.pending_ids.len() == 0,
        t.agent.pending_results.len() == 0,
    ensures
        sound_step(t, t.end_turn()),
{
    lemma_attempt_quiet(t, EffectView::WriteStatus(Activity::Idle));
}

proof fn lemma_refuse_sound(
    t: Turn,
    scope: CostScope,
    current: Seq<char>,
    limit: Seq<char>,
    now: Timestamp,
)
    requires
        bounded_set(t.agent.seen),
        t.agent.pending_ids.len() == 0,
        t.agent.pending_results.len() == 0,
    ensures
        sound_step(t, t.refuse_threshold(scope, current, limit, now)),
{
    let noted = t.append_system_entry(refusal_note(scope, current, limit), now);
    let audit = EffectView::Audit(
        AuditView::AuthorityDecision {
            agent_id: t.agent.config.agent_id,
            persona_name: t.agent.config.persona_name,
            profile_version: t.agent.config.persona_version,
            action: "threshold threshold"@,
            disposition: AuthorityDisposition::Refuse,
            layer: Some("threshold"@),
            rationale: Some(refusal_rationale(scope, current, limit)),
            blacklist_version: None,
            at: now,
        },
    );
    let audited = if t.agent.config.audited {
        noted.perform(audit)
    } else {
        noted
    };
    assert(quiet_step(t, noted));
    assert(quiet_step(noted, audited));
    lemma_quiet_trans(t, noted, audited);
    lemma_end_turn_sound(audited);
    lemma_quiet_then_sound(t, audited, audited.end_turn());
}

/// A model call within a turn is a sound step.
proof fn lemma_spawn_sound(t: Turn, now: Timestamp)
    requires
        t.agent.awaits_model(),
        t.agent.tool_iteration <= MAX_TOOL_ITERATIONS,
        bounded_set(t.agent.seen),
    ensures
        sound_step(t, t.spawn_adapter_call(now)),
{
    if t.agent.tool_iteration >= MAX_TOOL_ITERATIONS {
        let noted = t.append_system_entry("tool loop aborted: exceeded 16 iterations"@, now);
        assert(quiet_step(t, noted));
        lemma_end_turn_sound(noted);
        lemma_quiet_then_sound(t, noted, noted.end_turn());
    } else {
        let counted = Turn {
            agent: AgentView { tool_iteration: (t.agent.tool_iteration + 1) as u32, ..t.agent },
            ..t
        };
        let own = counted.check_cost(CostScope::Agent);
        assert(quiet_step(t, own));
        match own.script.last_outcome() {
            OutcomeView::LimitReached { current, limit } => {
                lemma_refuse_sound(own, CostScope::Agent, current, limit, now);
                lemma_quiet_then_sound(
                    t,
                    own,
                    own.refuse_threshold(CostScope::Agent, current, limit, now),
                );
            },
            _ => {
                let shared = own.check_cost(CostScope::Session);
                assert(quiet_step(own, shared));
                lemma_quiet_trans(t, own, shared);
                match shared.script.last_outcome() {
                    OutcomeView::LimitReached { current, limit } => {
                        lemma_refuse_sound(shared, CostScope::Session, current, limit, now);
                        lemma_quiet_then_sound(
                            t,
                            shared,
                            shared.refuse_threshold(CostScope::Session, current, limit, now),
                        );
                    },
                    _ => {
                        assert(sound_step(shared, shared.call_adapter()));
                        lemma_quiet_then_sound(t, shared, shared.call_adapter());
                    },
                }
            },
        }
    }
}

/// Taking up an inbound message is a sound step.
pub proof fn law_process_inbound_sound(t: Turn, msg: InboundView, now: Timestamp)
    requires
        t.agent.wf(),
    ensures
        sound_step(t, t.process_inbound(msg, now)),
{
    if !t.agent.seen.contains(msg.message_id) {
        lemma_remembered_keeps_bound(t.agent.seen, msg.message_id);
        if !t.agent.in_flight {
            let noted = AgentView { seen: remembered(t.agent.seen, msg.message_id), ..t.agent };
            let begun = Turn { agent: AgentView { in_flight: true, ..noted }, ..t };
            let working = begun.attempt(EffectView::WriteStatus(Activity::Working));
            assert(quiet_step(t, working));
            if !working.script.failed() {
                let journaled = working.append_inbound(msg, now);
                assert(quiet_step(working, journaled));
                lemma_quiet_trans(t, working, journaled);
                if !journaled.script.failed() {
                    let said = journaled.say(
                        Role::User,
                        seq![ContentView::Text(attributed(Some(msg.sender_id), msg.payload))],
                    );
                    assert(quiet_step(t, said));
                    lemma_spawn_sound(said, now);
                    lemma_quiet_then_sound(t, said, said.spawn_adapter_call(now));
                }
            }
        }
    }
}

proof fn lemma_advance_sound(t: Turn, now: Timestamp)
    requires
        t.agent.in_flight,
        t.agent.pending_ids.len() == 0,
        t.agent.tool_iteration <= MAX_TOOL_ITERATIONS,
        bounded_set(t.agent.seen),
    ensures
        sound_step(t, t.advance_after_tools(now)),
{
    let results = t.agent.pending_results;
    let taken = Turn { agent: AgentView { pending_results: Seq::empty(), ..t.agent }, ..t };
    let asked = if results.len() == 0 {
        taken
    } else {
        taken.say(Role::User, results)
    };
    lemma_spawn_sound(asked, now);
    assert(quiet_step(t, asked));
    lemma_quiet_then_sound(t, asked, asked.spawn_adapter_call(now));
}

/// What stays the same while tool calls are dispatched and answered.
pub open spec fn same_but_tools(a: AgentView, b: AgentView) -> bool {
    b == AgentView { pending_ids: b.pending_ids, pending_results: b.pending_results, ..a }
}

proof fn lemma_dispatch_one_quiet(t: Turn, call: ToolCallView, now: Timestamp)
    requires
        t.agent.pending_ids.no_duplicates(),
    ensures
        quiet_step(t, t.dispatch_one(call, now)),
        same_but_tools(t.agent, t.dispatch_one(call, now).agent),
        t.dispatch_one(call, now).agent.pending_ids.no_duplicates(),
{
    let journaled = t.attempt(
        EffectView::Append(
            EntryView::ToolUse {
                tool_use_id: call.id,
                name: call.name,
                input: call.arguments,
                timestamp_utc: now,
            },
        ),
    );
    assert(quiet_step(t, journaled));
    if !journaled.script.failed() {
        lemma_quiet_trans(t, journaled, t.dispatch_one(call, now));
        if t.agent.tools.contains(call.name) && !t.agent.pending_ids.contains(call.id) {
            let ids = t.agent.pending_ids;
            let more = ids.push(call.id);
            assert forall|i: int, j: int|
                0 <= i < more.len() && 0 <= j < more.len() && i != j implies more[i] != more[j] by {
                if i == ids.len() {
                    assert(ids.contains(ids[j]));
                }
                if j == ids.len() {
                    assert(ids.contains(ids[i]));
                }
            }
        }
    }
}

proof fn lemma_dispatch_upto_quiet(t: Turn, calls: Seq<ToolCallView>, n: int, now: Timestamp)
    requires
        t.agent.pending_ids.no_duplicates(),
        0 <= n <= calls.len(),
    ensures
        quiet_step(t, t.dispatch_upto(calls, n, now).0),
        same_but_tools(t.agent, t.dispatch_upto(calls, n, now).0.agent),
        t.dispatch_upto(calls, n, now).0.agent.pending_ids.no_duplicates(),
    decreases n,
{
    if n > 0 {
        lemma_dispatch_upto_quiet(t, calls, n - 1, now);
        let (before, all) = t.dispatch_upto(calls, n - 1, now);
        if all {
            lemma_dispatch_one_quiet(before, calls[n - 1], now);
            lemma_quiet_trans(t, before, before.dispatch_one(calls[n - 1], now));
        }
    }
}

proof fn lemma_dispatch_sound(t: Turn, calls: Seq<ToolCallView>, now: Timestamp)
    requires
        t.agent.awaits_model(),
        t.agent.tool_iteration <= MAX_TOOL_ITERATIONS,
        bounded_set(t.agent.seen),
    ensures
        sound_step(t, t.dispatch_tool_calls(calls, now)),
{
    lemma_dispatch_upto_quiet(t, calls, calls.len() as int, now);
    let (dispatched, all) = t.dispatch_upto(calls, calls.len() as int, now);
    if all {
        if dispatched.agent.pending_ids.len() == 0 {
            lemma_advance_sound(dispatched, now);
            lemma_quiet_then_sound(t, dispatched, dispatched.advance_after_tools(now));
        } else {
            let armed = dispatched.perform(
                EffectView::ArmToolTimeout { seconds: TOOL_TIMEOUT_SECS },
            );
            lemma_quiet_trans(t, dispatched, armed);
        }
    }
}

proof fn lemma_drain_quiet(t: Turn, combined: Seq<char>, now: Timestamp)
    ensures
        quiet_step(t, t.drain(combined, now).0),
        t.drain(combined, now).0.agent == (AgentView {
            queue: t.drain(combined, now).0.agent.queue,
            ..t.agent
        }),
    decreases t.agent.queue.len(),
{
    if t.agent.queue.len() > 0 {
        let msg = t.agent.queue[0];
        let taken = Turn {
            agent: AgentView { queue: t.agent.queue.drop_first(), ..t.agent },
            ..t
        };
        let journaled = taken.append_inbound(msg, now);
        assert(quiet_step(t, journaled));
        if !journaled.script.failed() {
            lemma_drain_quiet(journaled, joined(combined, msg), now);
            lemma_quiet_trans(t, journaled, journaled.drain(joined(combined, msg), now).0);
        }
    }
}

proof fn lemma_drain_sound(t: Turn, now: Timestamp)
    requires
        t.agent.awaits_model(),
        t.agent.tool_iteration <= MAX_TOOL_ITERATIONS,
        bounded_set(t.agent.seen),
    ensures
        sound_step(t, t.drain_pending_into_turn(now)),
{
    lemma_drain_quiet(t, Seq::empty(), now);
    match t.drain(Seq::empty(), now) {
        (drained, None) => {},
        (drained, Some(combined)) => {
            if combined.len() == 0 {
                lemma_end_turn_sound(drained);
                lemma_quiet_then_sound(t, drained, drained.end_turn());
            } else {
                let said = drained.say(Role::User, seq![ContentView::Text(combined)]);
                assert(quiet_step(t, said));
                lemma_spawn_sound(said, now);
                lemma_quiet_then_sound(t, said, said.spawn_adapter_call(now));
            }
        },
    }
}

/// Taking a model's reply is a sound step.
pub proof fn law_handle_response_sound(t: Turn, response: ResponseView, now: Timestamp)
    requires
        t.agent.wf(),
        t.agent.awaits_model(),
    ensures
        sound_step(t, t.handle_response(response, now)),
{
    let said = t.say(Role::Assistant, response.content + tool_use_blocks(response.tool_calls));
    let text = first_text(response.content, 0);
    let outbound = if text.len() == 0 {
        said
    } else {
        said.attempt(EffectView::Append(EntryView::Outbound { payload: text, timestamp_utc: now }))
    };
    assert(quiet_step(t, outbound));
    if text.len() == 0 || !outbound.script.failed() {
        let called = outbound.attempt(
            EffectView::Append(
                EntryView::ModelCall {
                    input_tokens: response.input_tokens,
                    output_tokens: response.output_tokens,
                    model: t.agent.config.model,
                    timestamp_utc: now,
                },
            ),
        );
        assert(quiet_step(outbound, called));
        lemma_quiet_trans(t, outbound, called);
        if !called.script.failed() {
            let total = (t.agent.total_cost + response.microdollars) as u64;
            let paid = (Turn {
                agent: AgentView { total_cost: total, ..called.agent },
                ..called
            }).attempt(EffectView::WriteCost { microdollars: total });
            assert(quiet_step(called, paid));
            lemma_quiet_trans(t, called, paid);
            if !paid.script.failed() {
                if response.finish_reason == FinishReason::ToolUse {
                    lemma_dispatch_sound(paid, response.tool_calls, now);
                    lemma_quiet_then_sound(
                        t,
                        paid,
                        paid.dispatch_tool_calls(response.tool_calls, now),
                    );
                } else if paid.agent.queue.len() == 0 {
                    lemma_end_turn_sound(paid);
                    lemma_quiet_then_sound(t, paid, paid.end_turn());
                } else {
                    let reset = Turn { agent: AgentView { tool_iteration: 0, ..paid.agent }, ..paid };
                    lemma_drain_sound(reset, now);
                    assert(quiet_step(t, reset));
                    lemma_quiet_then_sound(t, reset, reset.drain_pending_into_turn(now));
                }
            }
        }
    }
}

/// Taking a model's failure is a sound step, and ends the turn.
pub proof fn law_adapter_failed_sound(t: Turn, err: Seq<char>, now: Timestamp)
    requires
        t.agent.wf(),
        t.agent.awaits_model(),
    ensures
        sound_step(t, t.adapter_failed(err, now)),
        !t.adapter_failed(err, now).agent.in_flight,
{
    let unsaid = Turn {
        agent: AgentView {
            history: if t.agent.history.len() == 0 {
                t.agent.history
            } else {
                t.agent.history.drop_last()
            },
            ..t.agent
        },
        ..t
    };
    let noted = unsaid.perform(
        EffectView::Append(
            EntryView::System { message: "adapter call failed: "@ + err, timestamp_utc: now },
        ),
    );
    assert(quiet_step(t, noted));
    lemma_end_turn_sound(noted);
    lemma_quiet_then_sound(t, noted, noted.end_turn());
}

proof fn lemma_append_result_quiet(
    t: Turn,
    id: Seq<char>,
    content: Seq<char>,
    is_error: bool,
    now: Timestamp,
)
    ensures
        quiet_step(t, t.append_tool_result(id, content, is_error, now)),
        t.append_tool_result(id, content, is_error, now).agent == (AgentView {
            pending_results: t.append_tool_result(
                id,
                content,
                is_error,
                now,
            ).agent.pending_results,
            ..t.agent
        }),
{
}

/// Taking a tool's answer is a sound step.
pub proof fn law_tool_result_sound(
    t: Turn,
    id: Seq<char>,
    content: Seq<char>,
    is_error: bool,
    now: Timestamp,
)
    requires
        t.agent.wf(),
    ensures
        sound_step(t, t.tool_result(id, content, is_error, now)),
{
    if t.agent.pending_ids.contains(id) {
        let ids = t.agent.pending_ids;
        let k = ids.index_of(id);
        assert(0 <= k < ids.len());
        let rest = without(ids, id);
        assert(rest.no_duplicates()) by {
            assert forall|i: int, j: int|
                0 <= i < rest.len() && 0 <= j < rest.len() && i != j implies rest[i] != rest[j] by {
                let a = if i < k {
                    i
                } else {
                    i + 1
                };
                let b = if j < k {
                    j
                } else {
                    j + 1
                };
                assert(rest[i] == ids[a] && rest[j] == ids[b]);
            }
        }
        let fewer = Turn { agent: AgentView { pending_ids: rest, ..t.agent }, ..t };
        let answered = fewer.append_tool_result(id, content, is_error, now);
        lemma_append_result_quiet(fewer, id, content, is_error, now);
        assert(quiet_step(t, answered));
        if answered.agent.pending_ids.len() == 0 {
            lemma_advance_sound(answered, now);
            lemma_quiet_then_sound(t, answered, answered.advance_after_tools(now));
        }
    }
}

proof fn lemma_time_out_quiet(t: Turn, ids: Seq<Seq<char>>, n: int, now: Timestamp)
    ensures
        quiet_step(t, t.time_out_upto(ids, n, now)),
        t.time_out_upto(ids, n, now).agent == (AgentView {
            pending_results: t.time_out_upto(ids, n, now).agent.pending_results,
            ..t.agent
        }),
    decreases n,
{
    if n > 0 {
        lemma_time_out_quiet(t, ids, n - 1, now);
        let before = t.time_out_upto(ids, n - 1, now);
        lemma_append_result_quiet(before, ids[n - 1], "tool call timed out"@, true, now);
        lemma_quiet_trans(t, before, t.time_out_upto(ids, n, now));
    }
}

/// Taking a timeout is a sound step.
pub proof fn law_tool_batch_timeout_sound(t: Turn, now: Timestamp)
    requires
        t.agent.wf(),
    ensures
        sound_step(t, t.tool_batch_timeout(now)),
{
    let ids = t.agent.pending_ids;
    if ids.len() > 0 {
        let none = Turn { agent: AgentView { pending_ids: Seq::empty(), ..t.agent }, ..t };
        lemma_time_out_quiet(none, ids, ids.len() as int, now);
        let answered = none.time_out_upto(ids, ids.len() as int, now);
        assert(quiet_step(t, answered));
        lemma_advance_sound(answered, now);
        lemma_quiet_then_sound(t, answered, answered.advance_after_tools(now));
    }
}

/// A message id once taken up is taken up only once: while it is remembered,
/// the same id changes nothing and asks for nothing.
pub proof fn law_message_taken_once(
    t: Turn,
    msg: InboundView,
    again: InboundView,
    now: Timestamp,
    later: Timestamp,
)
    requires
        t.agent.wf(),
        again.message_id == msg.message_id,
    ensures
        t.process_inbound(msg, now).process_inbound(again, later) == t.process_inbound(msg, now),
{
    lemma_remembered_keeps_bound(t.agent.seen, msg.message_id);
    lemma_inbound_remembers(t, msg, now);
}

proof fn lemma_spawn_keeps_seen(t: Turn, now: Timestamp)
    ensures
        t.spawn_adapter_call(now).agent.seen == t.agent.seen,
        t.spawn_adapter_call(now).agent.queue == t.agent.queue,
        t.spawn_adapter_call(now).agent.history == t.agent.history,
        t.spawn_adapter_call(now).agent.total_cost == t.agent.total_cost,
{
}

proof fn lemma_inbound_remembers(t: Turn, msg: InboundView, now: Timestamp)
    ensures
        t.process_inbound(msg, now).agent.seen == remembered(t.agent.seen, msg.message_id),
{
    if !t.agent.seen.contains(msg.message_id) && !t.agent.in_flight {
        let noted = AgentView { seen: remembered(t.agent.seen, msg.message_id), ..t.agent };
        let begun = Turn { agent: AgentView { in_flight: true, ..noted }, ..t };
        let working = begun.attempt(EffectView::WriteStatus(Activity::Working));
        let journaled = working.append_inbound(msg, now);
        let said = journaled.say(
            Role::User,
            seq![ContentView::Text(attributed(Some(msg.sender_id), msg.payload))],
        );
        lemma_spawn_keeps_seen(said, now);
    }
}

/// A message that arrives within a turn waits: it joins the end of the queue,
/// and nothing else of the turn changes.
pub proof fn law_message_within_turn_waits(t: Turn, msg: InboundView, now: Timestamp)
    requires
        t.agent.in_flight,
        !t.agent.seen.contains(msg.message_id),
    ensures
        t.process_inbound(msg, now).script == t.script,
        t.process_inbound(msg, now).agent == (AgentView {
            queue: t.agent.queue.push(msg),
            seen: remembered(t.agent.seen, msg.message_id),
            ..t.agent
        }),
{
}

/// A model failure takes back the question it failed on: after a turn that
/// got as far as calling the model, the history is again what it was before
/// the message arrived.
pub proof fn law_failed_call_restores_history(
    t: Turn,
    msg: InboundView,
    err: Seq<char>,
    now: Timestamp,
    later: Timestamp,
)
    requires
        !t.agent.in_flight,
        !t.agent.seen.contains(msg.message_id),
        t.process_inbound(msg, now).script.effects.len() > 0,
        t.process_inbound(msg, now).script.effects.last() is CallAdapter,
    ensures
        t.process_inbound(msg, now).adapter_failed(err, later).agent.history == t.agent.history,
{
    let noted = AgentView { seen: remembered(t.agent.seen, msg.message_id), ..t.agent };
    let begun = Turn { agent: AgentView { in_flight: true, ..noted }, ..t };
    let working = begun.attempt(EffectView::WriteStatus(Activity::Working));
    let journaled = working.append_inbound(msg, now);
    let said = journaled.say(
        Role::User,
        seq![ContentView::Text(attributed(Some(msg.sender_id), msg.payload))],
    );
    lemma_spawn_keeps_seen(said, now);
    assert(!working.script.failed());
    assert(!journaled.script.failed());
    assert(said.agent.history.drop_last() =~= t.agent.history);
}

/// Nothing fails from the `i`-th effect on.
pub open spec fn no_failure_from(script: ScriptView) -> bool {
    forall|k: int|
        script.effects.len() <= k < script.outcomes.len() ==> !(
        #[trigger] script.outcomes[k] is Failed)
}

/// The answers that stand for timed-out calls.
pub open spec fn timeout_results(ids: Seq<Seq<char>>) -> Seq<ContentView> {
    ids.map_values(
        |id: Seq<char>|
            ContentView::ToolResult {
                tool_use_id: id,
                content: "tool call timed out"@,
                is_error: true,
            },
    )
}

proof fn lemma_time_out_results(t: Turn, ids: Seq<Seq<char>>, n: int, now: Timestamp)
    requires
        no_failure_from(t.script),
        0 <= n <= ids.len(),
    ensures
        no_failure_from(t.time_out_upto(ids, n, now).script),
        t.time_out_upto(ids, n, now).agent.pending_results == t.agent.pending_results
            + timeout_results(ids.take(n)),
    decreases n,
{
    if n > 0 {
        lemma_time_out_results(t, ids, n - 1, now);
        let before = t.time_out_upto(ids, n - 1, now);
        let asked = before.script.perform(
            EffectView::Append(
                EntryView::ToolResult {
                    tool_use_id: ids[n - 1],
                    content: "tool call timed out"@,
                    is_error: true,
                    timestamp_utc: now,
                },
            ),
        );
        assert(!asked.failed()) by {
            if 0 < asked.effects.len() <= asked.outcomes.len() {
                assert(!(before.script.outcomes[before.script.effects.len() as int] is Failed));
            }
        }
        assert(t.agent.pending_results + timeout_results(ids.take(n)) =~= (t.agent.pending_results
            + timeout_results(ids.take(n - 1))).push(
            ContentView::ToolResult {
                tool_use_id: ids[n - 1],
                content: "tool call timed out"@,
                is_error: true,
            },
        ));
    } else {
        assert(t.agent.pending_results + timeout_results(ids.take(0)) =~= t.agent.pending_results);
    }
}

/// A timeout leaves no call unanswered: where the journal can be written, the
/// answers so far and an error for every call still awaited become the next
/// user message.
pub proof fn law_timeout_answers_every_call(t: Turn, now: Timestamp)
    requires
        no_failure_from(t.script),
        t.agent.pending_ids.len() > 0,
    ensures
        t.tool_batch_timeout(now).agent.pending_ids.len() == 0,
        t.tool_batch_timeout(now).agent.history == t.agent.history.push(
            MessageView {
                role: Role::User,
                content: t.agent.pending_results + timeout_results(t.agent.pending_ids),
            },
        ),
{
    let ids = t.agent.pending_ids;
    let none = Turn { agent: AgentView { pending_ids: Seq::empty(), ..t.agent }, ..t };
    lemma_time_out_quiet(none, ids, ids.len() as int, now);
    lemma_time_out_results(none, ids, ids.len() as int, now);
    assert(ids.take(ids.len() as int) =~= ids);
    let answered = none.time_out_upto(ids, ids.len() as int, now);
    let taken = Turn {
        agent: AgentView { pending_results: Seq::empty(), ..answered.agent },
        ..answered
    };
    let said = taken.say(Role::User, answered.agent.pending_results);
    lemma_spawn_keeps_seen(said, now);
}

/// The tool loop is bounded: each model call counts, and where the turn has
/// made as many as it may, the next is not made; a note says so, and the turn
/// ends.
pub proof fn law_tool_loop_is_bounded(t: Turn, now: Timestamp)
    requires
        t.agent.tool_iteration <= MAX_TOOL_ITERATIONS,
    ensures
        t.agent.tool_iteration == MAX_TOOL_ITERATIONS ==> {
            &&& !t.spawn_adapter_call(now).agent.in_flight
            &&& t.spawn_adapter_call(now).script.effects == t.script.effects.push(
                EffectView::Append(
                    EntryView::System {
                        message: "tool loop aborted: exceeded 16 iterations"@,
                        timestamp_utc: now,
                    },
                ),
            ).push(EffectView::WriteStatus(Activity::Idle))
        },
        t.spawn_adapter_call(now).script.effects.last() is CallAdapter
            ==> t.spawn_adapter_call(now).agent.tool_iteration == t.agent.tool_iteration + 1,
{
}

/// A restart forgets the turn and the message ids, keeps what was said and
/// spent, and leaves an agent that is well-formed and idle.
pub proof fn law_restart_starts_afresh(t: Turn)
    ensures
        t.restarting().agent.wf(),
        !t.restarting().agent.in_flight,
        t.restarting().agent.queue.len() == 0,
        t.restarting().agent.seen.len() == 0,
        t.restarting().agent.history == t.agent.history,
        t.restarting().agent.total_cost == t.agent.total_cost,
        t.restarting().script.effects == t.script.effects.push(
            EffectView::WriteStatus(Activity::Idle),
        ),
{
}

} // verus!
