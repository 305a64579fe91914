//! The agent: takes inbound messages, drives the loop of model and tool
//! calls, and keeps the conversation.
//!
//! Each handler changes the agent and fills a [`Script`] with the effects it
//! asks for. The caller performs the effects in order. Where one does not
//! succeed, the caller restores the agent from before the handler and runs
//! the handler again with what the effects came to so far; effects already
//! performed are not performed again.

use std::collections::VecDeque;
use vstd::prelude::*;
use vstd::string::*;

use crate::agent_fs::{AgentFsError, AgentFsView};
use crate::agent_model::{
    first_text, joined, law_adapter_failed_sound, law_handle_response_sound,
    law_process_inbound_sound, law_tool_batch_timeout_sound, law_tool_result_sound,
    tool_use_blocks, without, Activity, AgentView, ConfigView, CostScope, EffectView, FinishReason,
    InboundView, OutcomeView, ResponseView, ScriptView, ToolCallView, Turn, DEFAULT_MAX_TOKENS,
    MAX_TOOL_ITERATIONS, TOOL_TIMEOUT_SECS,
};
use crate::audit::{AuditEvent, AuthorityDisposition};
use crate::conversation::{
    blocks_view, copy_blocks, copy_messages, lemma_blocks_push, lemma_messages_push, messages_view,
    ContentView, ConversationEntry, EntryView, Message, MessageContent, MessageView, Role,
};
use crate::history::{
    attributed, format_inbound_payload, load_history_from_journal, JournalRead,
};
use crate::identity::{copy_texts, holds_text, lemma_texts_push, texts, IdentityId, Timestamp};
use crate::io_error::{IoError, IoErrorView, IoKind};
use crate::seen_ids::SeenIds;
use crate::text::same_text;

verus! {

// ── Errors ───────────────────────────────────────────────────────────────────

/// Failures of the agent and of its construction.
#[derive(Debug, PartialEq, Eq)]
pub enum AgentError {
    /// A filesystem or journal failure.
    Fs(AgentFsError),
    /// The model adapter failed; holds its complaint.
    Adapter(String),
    /// A filesystem operation on `path` failed.
    Io { path: String, source: IoError },
    /// JSON could not be written or read; holds the complaint.
    Json(String),
    /// Two tools had this name.
    DuplicateToolName(String),
}

/// What an agent failure holds.
pub enum AgentErrorView {
    Fs(AgentFsView),
    Adapter(Seq<char>),
    Io { path: Seq<char>, source: IoErrorView },
    Json(Seq<char>),
    DuplicateToolName(Seq<char>),
}

impl View for AgentError {
    type V = AgentErrorView;

    open spec fn view(&self) -> AgentErrorView {
        match *self {
            AgentError::Fs(source) => AgentErrorView::Fs(source@),
            AgentError::Adapter(source) => AgentErrorView::Adapter(source@),
            AgentError::Io { path, source } => AgentErrorView::Io { path: path@, source: source@ },
            AgentError::Json(source) => AgentErrorView::Json(source@),
            AgentError::DuplicateToolName(name) => AgentErrorView::DuplicateToolName(name@),
        }
    }
}

impl AgentErrorView {
    /// What a reader is shown.
    pub open spec fn shown(self) -> Seq<char> {
        match self {
            AgentErrorView::Fs(source) => "agent fs error: "@ + source.shown(),
            AgentErrorView::Adapter(source) => "adapter error: "@ + source,
            AgentErrorView::Io { path, source } => "agent IO at "@ + path + ": "@ + source.message,
            AgentErrorView::Json(source) => "agent json error: "@ + source,
            AgentErrorView::DuplicateToolName(name) => "duplicate tool name in agent constructor: "@
                + name,
        }
    }
}

impl AgentError {
    /// What a reader is shown.
    pub fn to_string(&self) -> (text: String)
        ensures
            text@ == self@.shown(),
    {
        match self {
            AgentError::Fs(source) => {
                let mut text: String = "agent fs error: ".to_owned();
                text.append(source.to_string().as_str());
                text
            },
            AgentError::Adapter(source) => {
                let mut text: String = "adapter error: ".to_owned();
                text.append(source.as_str());
                text
            },
            AgentError::Io { path, source } => {
                let mut text: String = "agent IO at ".to_owned();
                text.append(path.as_str());
                text.append(": ");
                text.append(source.message.as_str());
                text
            },
            AgentError::Json(source) => {
                let mut text: String = "agent json error: ".to_owned();
                text.append(source.as_str());
                text
            },
            AgentError::DuplicateToolName(name) => {
                let mut text: String = "duplicate tool name in agent constructor: ".to_owned();
                text.append(name.as_str());
                text
            },
        }
    }
}

// ── Events ───────────────────────────────────────────────────────────────────

/// An inbound envelope was set aside, for the reason given.
#[derive(Debug, PartialEq, Eq)]
pub struct QuarantineEvent {
    pub reason: String,
}

/// An inbound message for the agent.
#[derive(Debug, PartialEq, Eq)]
pub struct ProcessInbound {
    pub payload: String,
    pub message_id: String,
    pub sender_id: IdentityId,
}

impl View for ProcessInbound {
    type V = InboundView;

    open spec fn view(&self) -> InboundView {
        InboundView {
            payload: self.payload@,
            message_id: self.message_id@,
            sender_id: self.sender_id@,
        }
    }
}

impl Clone for ProcessInbound {
    fn clone(&self) -> (msg: ProcessInbound)
        ensures
            msg@ == self@,
    {
        ProcessInbound {
            payload: self.payload.clone(),
            message_id: self.message_id.clone(),
            sender_id: self.sender_id.clone(),
        }
    }
}

/// What each message of a queue holds.
pub open spec fn queue_view(v: Seq<ProcessInbound>) -> Seq<InboundView> {
    v.map_values(|m: ProcessInbound| m@)
}

/// A tool call that a model asked for. Arguments are held as JSON text.
#[derive(Debug, PartialEq, Eq)]
pub struct ToolCall {
    pub id: String,
    pub name: String,
    pub arguments: String,
}

impl View for ToolCall {
    type V = ToolCallView;

    open spec fn view(&self) -> ToolCallView {
        ToolCallView { id: self.id@, name: self.name@, arguments: self.arguments@ }
    }
}

/// What each tool call of a batch holds.
pub open spec fn calls_view(v: Seq<ToolCall>) -> Seq<ToolCallView> {
    v.map_values(|c: ToolCall| c@)
}

/// A model's reply. The cost is in millionths of a dollar.
#[derive(Debug, PartialEq, Eq)]
pub struct Response {
    pub content: Vec<MessageContent>,
    pub tool_calls: Vec<ToolCall>,
    pub finish_reason: FinishReason,
    pub input_tokens: u32,
    pub output_tokens: u32,
    pub microdollars: u64,
}

impl View for Response {
    type V = ResponseView;

    open spec fn view(&self) -> ResponseView {
        ResponseView {
            content: blocks_view(self.content@),
            tool_calls: calls_view(self.tool_calls@),
            finish_reason: self.finish_reason,
            input_tokens: self.input_tokens,
            output_tokens: self.output_tokens,
            microdollars: self.microdollars,
        }
    }
}

// ── Effects ──────────────────────────────────────────────────────────────────

/// What a handler asks its caller to do.
#[derive(Debug, PartialEq, Eq)]
pub enum Effect {
    /// Overwrite the status file.
    WriteStatus(Activity),
    /// Append an entry to the journal.
    Append(ConversationEntry),
    /// Overwrite the cost file with the agent's cost so far.
    WriteCost { microdollars: u64 },
    /// Compare a cost with its limit. The agent's own cost is given; the
    /// session's is the sum over all agents.
    CheckCost { scope: CostScope, microdollars: u64 },
    /// Append an event to the audit log.
    Audit(AuditEvent),
    /// Call the model, with these tools on offer.
    CallAdapter {
        messages: Vec<Message>,
        tools: Vec<String>,
        system_prompt: String,
        max_tokens: u32,
    },
    /// Hand a call to a tool.
    InvokeTool { tool_use_id: String, name: String, input: String, sender_id: IdentityId },
    /// Report a timeout after so many seconds.
    ArmToolTimeout { seconds: u64 },
}

impl View for Effect {
    type V = EffectView;

    open spec fn view(&self) -> EffectView {
        match *self {
            Effect::WriteStatus(activity) => EffectView::WriteStatus(activity),
            Effect::Append(entry) => EffectView::Append(entry@),
            Effect::WriteCost { microdollars } => EffectView::WriteCost { microdollars },
            Effect::CheckCost { scope, microdollars } => EffectView::CheckCost {
                scope,
                microdollars,
            },
            Effect::Audit(event) => EffectView::Audit(event@),
            Effect::CallAdapter { messages, tools, system_prompt, max_tokens } => EffectView::CallAdapter {
                messages: messages_view(messages@),
                tools: texts(tools@),
                system_prompt: system_prompt@,
                max_tokens,
            },
            Effect::InvokeTool { tool_use_id, name, input, sender_id } => EffectView::InvokeTool {
                tool_use_id: tool_use_id@,
                name: name@,
                input: input@,
                sender_id: sender_id@,
            },
            Effect::ArmToolTimeout { seconds } => EffectView::ArmToolTimeout { seconds },
        }
    }
}

/// What each effect of a script holds.
pub open spec fn effects_view(v: Seq<Effect>) -> Seq<EffectView> {
    v.map_values(|e: Effect| e@)
}

/// What an effect came to. Only a cost check can reach a limit; it then tells
/// the cost and the limit as text.
#[derive(Debug, PartialEq, Eq)]
pub enum Outcome {
    Done,
    Failed,
    LimitReached { current: String, limit: String },
}

impl View for Outcome {
    type V = OutcomeView;

    open spec fn view(&self) -> OutcomeView {
        match *self {
            Outcome::Done => OutcomeView::Done,
            Outcome::Failed => OutcomeView::Failed,
            Outcome::LimitReached { current, limit } => OutcomeView::LimitReached {
                current: current@,
                limit: limit@,
            },
        }
    }
}

/// What each outcome of a script holds.
pub open spec fn outcomes_view(v: Seq<Outcome>) -> Seq<OutcomeView> {
    v.map_values(|o: Outcome| o@)
}

/// The effects that a handler asks for, in order, and what they come to.
#[derive(Debug)]
pub struct Script {
    /// What the first effects came to; the others are taken to succeed.
    pub outcomes: Vec<Outcome>,
    /// The effects asked for.
    pub effects: Vec<Effect>,
    /// Whether a failure asks for the agent to be stopped and restarted.
    pub stopped: bool,
}

impl View for Script {
    type V = ScriptView;

    open spec fn view(&self) -> ScriptView {
        ScriptView {
            outcomes: outcomes_view(self.outcomes@),
            effects: effects_view(self.effects@),
            stopped: self.stopped,
        }
    }
}

impl Script {
    /// A script with no effects yet, for a handler whose first effects come
    /// to `outcomes`.
    pub fn new(outcomes: Vec<Outcome>) -> (script: Script)
        ensures
            script@ == (ScriptView {
                outcomes: outcomes_view(outcomes@),
                effects: Seq::empty(),
                stopped: false,
            }),
    {
        let script: Script = Script { outcomes, effects: Vec::new(), stopped: false };
        assert(script@.effects =~= Seq::empty());
        script
    }

    /// Asks for an effect whose failure changes nothing.
    fn perform(&mut self, effect: Effect)
        ensures
            final(self)@ == old(self)@.perform(effect@),
    {
        let ghost before: Seq<Effect> = self.effects@;
        self.effects.push(effect);
        assert(effects_view(self.effects@) =~= effects_view(before).push(effect@));
    }

    /// Whether the effect asked for last failed.
    fn failed(&self) -> (yes: bool)
        ensures
            yes == self@.failed(),
    {
        let n: usize = self.effects.len();
        if 0 < n && n <= self.outcomes.len() {
            assert(outcomes_view(self.outcomes@)[n - 1] == self.outcomes@[n - 1]@);
            match &self.outcomes[n - 1] {
                Outcome::Failed => true,
                _ => false,
            }
        } else {
            false
        }
    }

    /// The limit that the cost check asked for last reached.
    fn limit_reached(&self) -> (limit: Option<(String, String)>)
        ensures
            match limit {
                Some((current, bound)) => self@.last_outcome() == (OutcomeView::LimitReached {
                    current: current@,
                    limit: bound@,
                }),
                None => !(self@.last_outcome() is LimitReached),
            },
    {
        let n: usize = self.effects.len();
        if 0 < n && n <= self.outcomes.len() {
            assert(outcomes_view(self.outcomes@)[n - 1] == self.outcomes@[n - 1]@);
            match &self.outcomes[n - 1] {
                Outcome::LimitReached { current, limit } => Some((current.clone(), limit.clone())),
                _ => None,
            }
        } else {
            None
        }
    }

    /// Asks for an effect whose failure stops the agent. Tells whether it
    /// succeeds.
    fn attempt(&mut self, effect: Effect) -> (ok: bool)
        ensures
            final(self)@ == old(self)@.attempt(effect@),
            ok == !final(self)@.failed(),
    {
        self.perform(effect);
        if self.failed() {
            self.stopped = true;
            false
        } else {
            true
        }
    }
}

// ── Agent ────────────────────────────────────────────────────────────────────

/// What an agent is made with.
#[derive(Debug, PartialEq, Eq)]
pub struct AgentConfig {
    /// The agent's own identity, the sender of its tool calls.
    pub agent_id: IdentityId,
    pub persona_name: String,
    pub persona_version: u32,
    /// Name of the model, as the journal records it.
    pub model: String,
    pub system_prompt: String,
    /// Whether authority decisions are written to an audit log.
    pub audited: bool,
}

impl View for AgentConfig {
    type V = ConfigView;

    open spec fn view(&self) -> ConfigView {
        ConfigView {
            agent_id: self.agent_id@,
            persona_name: self.persona_name@,
            persona_version: self.persona_version,
            model: self.model@,
            system_prompt: self.system_prompt@,
            audited: self.audited,
        }
    }
}

impl Clone for AgentConfig {
    fn clone(&self) -> (config: AgentConfig)
        ensures
            config@ == self@,
    {
        AgentConfig {
            agent_id: self.agent_id.clone(),
            persona_name: self.persona_name.clone(),
            persona_version: self.persona_version,
            model: self.model.clone(),
            system_prompt: self.system_prompt.clone(),
            audited: self.audited,
        }
    }
}

/// An agent's message loop.
#[derive(Debug)]
pub struct Agent {
    config: AgentConfig,
    tools: Vec<String>,
    total_cost_microdollars: u64,
    in_flight: bool,
    history: Vec<Message>,
    pending_tool_use_ids: Vec<String>,
    pending_results: Vec<MessageContent>,
    tool_iteration: u32,
    pending_inbound: VecDeque<ProcessInbound>,
    seen_message_ids: SeenIds,
}

/// A copy of each message of a queue, in order.
fn copy_queue(v: &VecDeque<ProcessInbound>) -> (copy: VecDeque<ProcessInbound>)
    ensures
        queue_view(copy@) == queue_view(v@),
{
    let ghost all: Seq<InboundView> = queue_view(v@);
    let mut copy: VecDeque<ProcessInbound> = VecDeque::new();
    let mut i: usize = 0;
    assert(queue_view(copy@) =~= all.take(0));
    while i < v.len()
        invariant
            all == queue_view(v@),
            i <= v@.len(),
            queue_view(copy@) == all.take(i as int),
        decreases v.len() - i,
    {
        let msg: ProcessInbound = v[i].clone();
        proof {
            assert(queue_view(copy@.push(msg)) =~= queue_view(copy@).push(msg@));
            assert(all[i as int] == msg@);
            assert(all.take(i as int).push(msg@) =~= all.take(i + 1));
        }
        copy.push_back(msg);
        i = i + 1;
    }
    assert(all.take(i as int) =~= all);
    copy
}

impl Clone for Agent {
    fn clone(&self) -> (agent: Agent)
        ensures
            agent@ == self@,
    {
        Agent {
            config: self.config.clone(),
            tools: copy_texts(&self.tools),
            total_cost_microdollars: self.total_cost_microdollars,
            in_flight: self.in_flight,
            history: copy_messages(&self.history),
            pending_tool_use_ids: copy_texts(&self.pending_tool_use_ids),
            pending_results: copy_blocks(&self.pending_results),
            tool_iteration: self.tool_iteration,
            pending_inbound: copy_queue(&self.pending_inbound),
            seen_message_ids: self.seen_message_ids.clone(),
        }
    }
}

impl Agent {
    /// Whether a turn is in flight.
    pub fn in_flight(&self) -> (yes: bool)
        ensures
            yes == self@.in_flight,
    {
        self.in_flight
    }

    /// The conversation so far.
    pub fn history(&self) -> (messages: &Vec<Message>)
        ensures
            messages_view(messages@) == self@.history,
    {
        &self.history
    }

    /// How many messages wait for the turn in flight.
    pub fn waiting(&self) -> (n: usize)
        ensures
            n == self@.queue.len(),
    {
        assert(queue_view(self.pending_inbound@).len() == self.pending_inbound@.len());
        self.pending_inbound.len()
    }

    /// How many tool calls of the turn in flight are not answered.
    pub fn awaited_tools(&self) -> (n: usize)
        ensures
            n == self@.pending_ids.len(),
    {
        self.pending_tool_use_ids.len()
    }

    /// Whether the agent waits for a model's reply.
    pub fn awaits_model(&self) -> (yes: bool)
        ensures
            yes == self@.awaits_model(),
    {
        self.in_flight && self.pending_tool_use_ids.len() == 0 && self.pending_results.len() == 0
    }

    /// How many rounds of tool calls the turn in flight has had.
    pub fn tool_iteration(&self) -> (n: u32)
        ensures
            n == self@.tool_iteration,
    {
        self.tool_iteration
    }

    /// What the agent has cost so far, in millionths of a dollar.
    pub fn total_cost_microdollars(&self) -> (cost: u64)
        ensures
            cost == self@.total_cost,
    {
        self.total_cost_microdollars
    }

    /// Whether a message of this id was taken.
    pub fn has_seen(&self, message_id: &str) -> (yes: bool)
        ensures
            yes == self@.seen.contains(message_id@),
    {
        self.seen_message_ids.contains(message_id)
    }
}

impl View for Agent {
    type V = AgentView;

    closed spec fn view(&self) -> AgentView {
        AgentView {
            config: self.config@,
            tools: texts(self.tools@),
            total_cost: self.total_cost_microdollars,
            in_flight: self.in_flight,
            history: messages_view(self.history@),
            pending_ids: texts(self.pending_tool_use_ids@),
            pending_results: blocks_view(self.pending_results@),
            tool_iteration: self.tool_iteration,
            queue: queue_view(self.pending_inbound@),
            seen: self.seen_message_ids@,
        }
    }
}

/// A point within a handler.
pub open spec fn turn(agent: AgentView, script: ScriptView) -> Turn {
    Turn { agent, script }
}

impl Agent {
    fn set_idle(&self, script: &mut Script)
        ensures
            final(script)@ == turn(self@, old(script)@).set_idle().script,
    {
        script.attempt(Effect::WriteStatus(Activity::Idle));
    }

    fn append_system_entry(&self, message: &str, now: Timestamp, script: &mut Script)
        ensures
            final(script)@ == turn(self@, old(script)@).append_system_entry(message@, now).script,
    {
        script.attempt(
            Effect::Append(
                ConversationEntry::System { message: message.to_owned(), timestamp_utc: now },
            ),
        );
    }

    fn append_inbound(&self, msg: &ProcessInbound, now: Timestamp, script: &mut Script) -> (ok:
        bool)
        ensures
            final(script)@ == turn(self@, old(script)@).append_inbound(msg@, now).script,
            ok == !final(script)@.failed(),
    {
        script.attempt(
            Effect::Append(
                ConversationEntry::Inbound {
                    message_id: msg.message_id.clone(),
                    sender_id: Some(msg.sender_id.clone()),
                    payload: msg.payload.clone(),
                    timestamp_utc: now,
                },
            ),
        )
    }

    fn end_turn(&mut self, script: &mut Script)
        ensures
            turn(final(self)@, final(script)@) == turn(old(self)@, old(script)@).end_turn(),
    {
        self.in_flight = false;
        self.tool_iteration = 0;
        self.set_idle(script);
    }

    fn say(&mut self, role: Role, content: Vec<MessageContent>)
        ensures
            final(self)@ == (AgentView {
                history: old(self)@.history.push(
                    MessageView { role, content: blocks_view(content@) },
                ),
                ..old(self)@
            }),
    {
        let message: Message = Message { role, content };
        proof {
            lemma_messages_push(self.history@, message);
        }
        self.history.push(message);
    }

    /// Journals and audits that a cost limit was reached, and ends the turn.
    fn refuse_threshold(
        &mut self,
        scope: CostScope,
        current: &str,
        limit: &str,
        now: Timestamp,
        script: &mut Script,
    )
        ensures
            turn(final(self)@, final(script)@) == turn(old(self)@, old(script)@).refuse_threshold(
                scope,
                current@,
                limit@,
                now,
            ),
    {
        let name: &str = match scope {
            CostScope::Agent => "cost_per_agent",
            CostScope::Session => "cost_per_session",
        };
        let mut note: String = "refused (".to_owned();
        note.append(name);
        note.append("): $");
        note.append(current);
        note.append(" \u{2265} limit $");
        note.append(limit);
        self.append_system_entry(note.as_str(), now, script);
        if self.config.audited {
            let mut rationale: String = match scope {
                CostScope::Agent => "agent cost ".to_owned(),
                CostScope::Session => "session cost ".to_owned(),
            };
            rationale.append(current);
            rationale.append(" USD reached limit ");
            rationale.append(limit);
            rationale.append(" USD");
            script.perform(
                Effect::Audit(
                    AuditEvent::AuthorityDecision {
                        agent_id: self.config.agent_id.clone(),
                        persona_name: self.config.persona_name.clone(),
                        profile_version: self.config.persona_version,
                        action: "threshold threshold".to_owned(),
                        disposition: AuthorityDisposition::Refuse,
                        layer: Some("threshold".to_owned()),
                        rationale: Some(rationale),
                        blacklist_version: None,
                        at: now,
                    },
                ),
            );
        }
        self.end_turn(script);
    }

    /// Looks at the agent's cost limit, then at the session's. Tells whether
    /// one is reached, in which case the turn has been ended.
    fn check_cost_thresholds(&mut self, now: Timestamp, script: &mut Script) -> (reached: bool)
        ensures
            ({
                let own = turn(old(self)@, old(script)@).check_cost(CostScope::Agent);
                let shared = own.check_cost(CostScope::Session);
                match (own.script.last_outcome(), shared.script.last_outcome()) {
                    (OutcomeView::LimitReached { current, limit }, _) => reached && turn(
                        final(self)@,
                        final(script)@,
                    ) == own.refuse_threshold(CostScope::Agent, current, limit, now),
                    (_, OutcomeView::LimitReached { current, limit }) => reached && turn(
                        final(self)@,
                        final(script)@,
                    ) == shared.refuse_threshold(CostScope::Session, current, limit, now),
                    _ => !reached && turn(final(self)@, final(script)@) == shared,
                }
            }),
    {
        script.perform(
            Effect::CheckCost {
                scope: CostScope::Agent,
                microdollars: self.total_cost_microdollars,
            },
        );
        match script.limit_reached() {
            Some((current, limit)) => {
                self.refuse_threshold(
                    CostScope::Agent,
                    current.as_str(),
                    limit.as_str(),
                    now,
                    script,
                );
                return true;
            },
            None => {},
        }
        script.perform(
            Effect::CheckCost {
                scope: CostScope::Session,
                microdollars: self.total_cost_microdollars,
            },
        );
        match script.limit_reached() {
            Some((current, limit)) => {
                self.refuse_threshold(
                    CostScope::Session,
                    current.as_str(),
                    limit.as_str(),
                    now,
                    script,
                );
                true
            },
            None => false,
        }
    }

    /// One more model call within the turn, unless the turn has made too many
    /// or a cost limit is reached.
    fn spawn_adapter_call(&mut self, now: Timestamp, script: &mut Script)
        requires
            old(self)@.tool_iteration <= MAX_TOOL_ITERATIONS,
        ensures
            turn(final(self)@, final(script)@) == turn(
                old(self)@,
                old(script)@,
            ).spawn_adapter_call(now),
    {
        if self.tool_iteration >= MAX_TOOL_ITERATIONS {
            self.append_system_entry("tool loop aborted: exceeded 16 iterations", now, script);
            self.end_turn(script);
            return;
        }
        self.tool_iteration = self.tool_iteration + 1;
        if self.check_cost_thresholds(now, script) {
            return;
        }
        script.perform(
            Effect::CallAdapter {
                messages: copy_messages(&self.history),
                tools: copy_texts(&self.tools),
                system_prompt: self.config.system_prompt.clone(),
                max_tokens: DEFAULT_MAX_TOKENS,
            },
        );
    }

    /// Begins a turn with one inbound message.
    fn start_turn_with(&mut self, msg: ProcessInbound, now: Timestamp, script: &mut Script)
        requires
            old(self)@.tool_iteration <= MAX_TOOL_ITERATIONS,
        ensures
            turn(final(self)@, final(script)@) == turn(old(self)@, old(script)@).start_turn_with(
                msg@,
                now,
            ),
    {
        self.in_flight = true;
        if !script.attempt(Effect::WriteStatus(Activity::Working)) {
            return;
        }
        if !self.append_inbound(&msg, now, script) {
            return;
        }
        let attributed_text: String = format_inbound_payload(
            &Some(msg.sender_id),
            msg.payload.as_str(),
        );
        let content: Vec<MessageContent> = vec![MessageContent::Text(attributed_text)];
        assert(blocks_view(content@) =~= seq![
            ContentView::Text(attributed(Some(msg@.sender_id), msg@.payload)),
        ]);
        self.say(Role::User, content);
        self.spawn_adapter_call(now, script);
    }

    /// Journals a tool's answer and keeps it for the next user turn.
    fn append_tool_result(
        &mut self,
        tool_use_id: &str,
        content: &str,
        is_error: bool,
        now: Timestamp,
        script: &mut Script,
    )
        ensures
            turn(final(self)@, final(script)@) == turn(
                old(self)@,
                old(script)@,
            ).append_tool_result(tool_use_id@, content@, is_error, now),
    {
        let ok: bool = script.attempt(
            Effect::Append(
                ConversationEntry::ToolResult {
                    tool_use_id: tool_use_id.to_owned(),
                    content: content.to_owned(),
                    is_error,
                    timestamp_utc: now,
                },
            ),
        );
        if ok {
            let block: MessageContent = MessageContent::ToolResult {
                tool_use_id: tool_use_id.to_owned(),
                content: content.to_owned(),
                is_error,
            };
            proof {
                lemma_blocks_push(self.pending_results@, block);
            }
            self.pending_results.push(block);
        }
    }

    /// Makes the tools' answers the next user turn and calls the model again.
    fn advance_after_tools(&mut self, now: Timestamp, script: &mut Script)
        requires
            old(self)@.tool_iteration <= MAX_TOOL_ITERATIONS,
        ensures
            turn(final(self)@, final(script)@) == turn(
                old(self)@,
                old(script)@,
            ).advance_after_tools(now),
    {
        let mut blocks: Vec<MessageContent> = Vec::new();
        std::mem::swap(&mut blocks, &mut self.pending_results);
        assert(blocks_view(self.pending_results@) =~= Seq::empty());
        if blocks.len() > 0 {
            self.say(Role::User, blocks);
        }
        self.spawn_adapter_call(now, script);
    }

    /// Journals one tool call and hands it to its tool, or answers it with an
    /// error. Tells whether it could be journaled.
    fn dispatch_one(&mut self, call: &ToolCall, now: Timestamp, script: &mut Script) -> (ok: bool)
        ensures
            turn(final(self)@, final(script)@) == turn(old(self)@, old(script)@).dispatch_one(
                call@,
                now,
            ),
            ok == !turn(old(self)@, old(script)@).cannot_journal(call@, now),
    {
        let ok: bool = script.attempt(
            Effect::Append(
                ConversationEntry::ToolUse {
                    tool_use_id: call.id.clone(),
                    name: call.name.clone(),
                    input: call.arguments.clone(),
                    timestamp_utc: now,
                },
            ),
        );
        if !ok {
            return false;
        }
        if holds_text(&self.tools, call.name.as_str()) {
            if !holds_text(&self.pending_tool_use_ids, call.id.as_str()) {
                proof {
                    lemma_texts_push(self.pending_tool_use_ids@, call.id);
                }
                self.pending_tool_use_ids.push(call.id.clone());
            }
            script.perform(
                Effect::InvokeTool {
                    tool_use_id: call.id.clone(),
                    name: call.name.clone(),
                    input: call.arguments.clone(),
                    sender_id: self.config.agent_id.clone(),
                },
            );
        } else {
            let mut text: String = "unknown tool: ".to_owned();
            text.append(call.name.as_str());
            self.append_tool_result(call.id.as_str(), text.as_str(), true, now, script);
        }
        true
    }

    /// Dispatches a batch of tool calls and arms the timeout.
    fn dispatch_tool_calls(&mut self, calls: &Vec<ToolCall>, now: Timestamp, script: &mut Script)
        requires
            old(self)@.tool_iteration <= MAX_TOOL_ITERATIONS,
        ensures
            turn(final(self)@, final(script)@) == turn(
                old(self)@,
                old(script)@,
            ).dispatch_tool_calls(calls_view(calls@), now),
    {
        let ghost start: Turn = turn(self@, script@);
        let ghost cs: Seq<ToolCallView> = calls_view(calls@);
        let mut i: usize = 0;
        while i < calls.len()
            invariant
                cs == calls_view(calls@),
                i <= calls@.len(),
                start == turn(old(self)@, old(script)@),
                start.dispatch_upto(cs, i as int, now) == (turn(self@, script@), true),
                self@.tool_iteration == start.agent.tool_iteration,
            decreases calls.len() - i,
        {
            assert(cs[i as int] == calls@[i as int]@);
            let ghost here: Turn = turn(self@, script@);
            let ok: bool = self.dispatch_one(&calls[i], now, script);
            assert(start.dispatch_upto(cs, i + 1, now) == (turn(self@, script@), ok));
            if !ok {
                proof {
                    lemma_dispatch_stops(start, cs, i + 1, cs.len() as int, now);
                }
                return;
            }
            i = i + 1;
        }
        if self.pending_tool_use_ids.len() == 0 {
            self.advance_after_tools(now, script);
        } else {
            script.perform(Effect::ArmToolTimeout { seconds: TOOL_TIMEOUT_SECS });
        }
    }

    /// Begins a turn with the messages that waited for the last one to end.
    fn drain_pending_into_turn(&mut self, now: Timestamp, script: &mut Script)
        requires
            old(self)@.tool_iteration <= MAX_TOOL_ITERATIONS,
        ensures
            turn(final(self)@, final(script)@) == turn(
                old(self)@,
                old(script)@,
            ).drain_pending_into_turn(now),
    {
        let ghost start: Turn = turn(self@, script@);
        let mut combined: String = String::new();
        while self.pending_inbound.len() > 0
            invariant
                start == turn(old(self)@, old(script)@),
                start.drain(Seq::empty(), now) == turn(self@, script@).drain(combined@, now),
                self@.tool_iteration == start.agent.tool_iteration,
            decreases self.pending_inbound.len(),
        {
            let ghost here: Turn = turn(self@, script@);
            let ghost queued: Seq<ProcessInbound> = self.pending_inbound@;
            match self.pending_inbound.pop_front() {
                Some(msg) => {
                    assert(queue_view(queued)[0] == msg@);
                    assert(queue_view(self.pending_inbound@) =~= queue_view(queued).drop_first());
                    if !self.append_inbound(&msg, now, script) {
                        return;
                    }
                    let ghost text_before: Seq<char> = combined@;
                    if !msg.payload.as_str().is_empty() {
                        if !combined.as_str().is_empty() {
                            combined.append("\n\n");
                        }
                        let attributed_text: String = format_inbound_payload(
                            &Some(msg.sender_id.clone()),
                            msg.payload.as_str(),
                        );
                        combined.append(attributed_text.as_str());
                    }
                    assert(combined@ =~= joined(text_before, msg@));
                },
                None => {},
            }
        }
        assert(self@.queue.len() == 0);
        if combined.as_str().is_empty() {
            self.end_turn(script);
            return;
        }
        let content: Vec<MessageContent> = vec![MessageContent::Text(combined)];
        assert(blocks_view(content@) =~= seq![ContentView::Text(combined@)]);
        self.say(Role::User, content);
        self.spawn_adapter_call(now, script);
    }

    /// Journals the reply's text, where it has any, and the model call. Tells
    /// whether both could be journaled.
    fn append_outbound_and_model_call(
        &self,
        text: &str,
        response: &Response,
        now: Timestamp,
        script: &mut Script,
    ) -> (ok: bool)
        ensures
            ({
                let said = turn(self@, old(script)@);
                let outbound = if text@.len() == 0 {
                    said
                } else {
                    said.attempt(
                        EffectView::Append(
                            EntryView::Outbound { payload: text@, timestamp_utc: now },
                        ),
                    )
                };
                let called = outbound.attempt(
                    EffectView::Append(
                        EntryView::ModelCall {
                            input_tokens: response.input_tokens,
                            output_tokens: response.output_tokens,
                            model: self@.config.model,
                            timestamp_utc: now,
                        },
                    ),
                );
                if text@.len() != 0 && outbound.script.failed() {
                    !ok && final(script)@ == outbound.script
                } else {
                    ok == !called.script.failed() && final(script)@ == called.script
                }
            }),
    {
        if !text.is_empty() {
            let ok: bool = script.attempt(
                Effect::Append(
                    ConversationEntry::Outbound { payload: text.to_owned(), timestamp_utc: now },
                ),
            );
            if !ok {
                return false;
            }
        }
        script.attempt(
            Effect::Append(
                ConversationEntry::ModelCall {
                    input_tokens: response.input_tokens,
                    output_tokens: response.output_tokens,
                    model: self.config.model.clone(),
                    timestamp_utc: now,
                },
            ),
        )
    }
}

/// No two of the names are the same.
pub open spec fn distinct(names: Seq<Seq<char>>) -> bool {
    names.no_duplicates()
}

impl Agent {
    /// Makes an agent from what reading its journal came to, and from the
    /// names of its tools.
    ///
    /// A journal that cannot be read or parsed fails; so do two tools of one
    /// name, of which the later is reported.
    pub fn new(
        config: AgentConfig,
        conversation_path: String,
        journal: &JournalRead,
        tools: Vec<String>,
    ) -> (out: Result<Agent, AgentError>)
        ensures
            match out {
                Ok(agent) => {
                    &&& distinct(texts(tools@))
                    &&& agent@.wf()
                    &&& agent@.config == config@
                    &&& agent@.tools == texts(tools@)
                    &&& agent@.total_cost == 0
                    &&& !agent@.in_flight
                    &&& agent@.queue.len() == 0
                    &&& match *journal {
                        JournalRead::Unreadable(err) => err@.kind == IoKind::NotFound
                            && agent@.history.len() == 0 && agent@.seen.len() == 0,
                        JournalRead::Lines(lines) => {
                            let entries = crate::history::parsed(lines@);
                            &&& crate::history::all_parsed(lines@)
                            &&& agent@.history == crate::history::history_of(entries)
                            &&& agent@.seen == crate::seen_ids::remembered_all(
                                Seq::empty(),
                                crate::history::completed_ids(entries, lines@.len() as int),
                            )
                        },
                    }
                },
                Err(AgentError::Io { path, source }) => {
                    &&& path@ == conversation_path@
                    &&& match *journal {
                        JournalRead::Unreadable(err) => err@.kind != IoKind::NotFound && source@
                            == err@,
                        JournalRead::Lines(lines) => exists|i: int|
                            0 <= i < lines@.len() && crate::history::all_parsed(lines@.take(i)) && (
                            #[trigger] lines@[i] matches Err(complaint) && source@ == (IoErrorView {
                                kind: IoKind::InvalidData,
                                message: complaint@,
                            })),
                    }
                },
                Err(AgentError::DuplicateToolName(name)) => {
                    &&& *journal matches JournalRead::Unreadable(err) ==> err@.kind
                        == IoKind::NotFound
                    &&& *journal matches JournalRead::Lines(lines) ==> crate::history::all_parsed(
                        lines@,
                    )
                    &&& exists|i: int|
                        0 <= i < tools@.len() && distinct(texts(tools@).take(i)) && texts(
                            tools@,
                        ).take(i).contains(#[trigger] tools@[i]@) && name@ == tools@[i]@
                },
                Err(_) => false,
            },
    {
        let loaded: Result<(Vec<Message>, SeenIds), IoError> = load_history_from_journal(journal);
        let (history, seen_message_ids): (Vec<Message>, SeenIds) = match loaded {
            Ok(pair) => pair,
            Err(source) => {
                return Err(AgentError::Io { path: conversation_path, source });
            },
        };
        let ghost names: Seq<Seq<char>> = texts(tools@);
        let mut known: Vec<String> = Vec::new();
        let mut i: usize = 0;
        while i < tools.len()
            invariant
                i <= tools@.len(),
                names == texts(tools@),
                texts(known@) == names.take(i as int),
                distinct(names.take(i as int)),
                *journal matches JournalRead::Unreadable(err) ==> err@.kind == IoKind::NotFound,
                *journal matches JournalRead::Lines(lines) ==> crate::history::all_parsed(lines@),
            decreases tools.len() - i,
        {
            if holds_text(&known, tools[i].as_str()) {
                assert(names.take(i as int).contains(tools@[i as int]@));
                return Err(AgentError::DuplicateToolName(tools[i].clone()));
            }
            proof {
                lemma_texts_push(known@, tools@[i as int]);
                let more = names.take(i + 1);
                assert(names.take(i as int).push(tools@[i as int]@) =~= more);
                assert(distinct(more)) by {
                    assert forall|a: int, b: int|
                        0 <= a < more.len() && 0 <= b < more.len() && a != b implies more[a]
                        != more[b] by {
                        if a == i {
                            assert(names.take(i as int)[b] == more[b]);
                        } else if b == i {
                            assert(names.take(i as int)[a] == more[a]);
                        } else {
                            assert(names.take(i as int)[a] == more[a]);
                            assert(names.take(i as int)[b] == more[b]);
                        }
                    }
                }
            }
            known.push(tools[i].clone());
            i = i + 1;
        }
        assert(names.take(tools@.len() as int) =~= names);
        let agent: Agent = Agent {
            config,
            tools,
            total_cost_microdollars: 0,
            in_flight: false,
            history,
            pending_tool_use_ids: Vec::new(),
            pending_results: Vec::new(),
            tool_iteration: 0,
            pending_inbound: VecDeque::new(),
            seen_message_ids,
        };
        proof {
            assert(agent@.pending_ids =~= Seq::empty());
            assert(agent@.pending_results =~= Seq::empty());
            assert(agent@.queue =~= Seq::empty());
            if *journal is Unreadable {
                assert(agent@.history.len() == 0);
            }
        }
        Ok(agent)
    }

    /// Takes up an inbound message. A message id that is known is dropped; a
    /// message that arrives within a turn waits for its end.
    pub fn process_inbound(&mut self, msg: ProcessInbound, now: Timestamp, script: &mut Script)
        requires
            old(self)@.wf(),
        ensures
            turn(final(self)@, final(script)@) == turn(old(self)@, old(script)@).process_inbound(
                msg@,
                now,
            ),
            final(self)@.wf(),
    {
        proof {
            law_process_inbound_sound(turn(self@, script@), msg@, now);
        }
        if !self.seen_message_ids.insert(msg.message_id.clone()) {
            return;
        }
        if self.in_flight {
            let ghost waiting: Seq<ProcessInbound> = self.pending_inbound@;
            self.pending_inbound.push_back(msg);
            assert(queue_view(self.pending_inbound@) =~= queue_view(waiting).push(msg@));
            return;
        }
        self.start_turn_with(msg, now, script);
    }

    /// Takes a model's reply.
    pub fn handle_response(&mut self, response: &Response, now: Timestamp, script: &mut Script)
        requires
            old(self)@.wf(),
            old(self)@.awaits_model(),
            old(self)@.total_cost + response.microdollars <= u64::MAX,
        ensures
            turn(final(self)@, final(script)@) == turn(old(self)@, old(script)@).handle_response(
                response@,
                now,
            ),
            final(self)@.wf(),
    {
        proof {
            law_handle_response_sound(turn(self@, script@), response@, now);
        }
        let text: String = extract_response_text(&response.content);
        let mut blocks: Vec<MessageContent> = copy_blocks(&response.content);
        let ghost calls: Seq<ToolCallView> = calls_view(response.tool_calls@);
        let mut i: usize = 0;
        assert(tool_use_blocks(calls).take(0) =~= Seq::empty());
        while i < response.tool_calls.len()
            invariant
                calls == calls_view(response.tool_calls@),
                i <= response.tool_calls@.len(),
                blocks_view(blocks@) =~= blocks_view(response.content@) + tool_use_blocks(
                    calls,
                ).take(i as int),
            decreases response.tool_calls.len() - i,
        {
            let call: &ToolCall = &response.tool_calls[i];
            let block: MessageContent = MessageContent::ToolUse {
                id: call.id.clone(),
                name: call.name.clone(),
                input: call.arguments.clone(),
            };
            proof {
                lemma_blocks_push(blocks@, block);
                assert(tool_use_blocks(calls)[i as int] == block@);
                assert(tool_use_blocks(calls).take(i + 1) =~= tool_use_blocks(calls).take(
                    i as int,
                ).push(block@));
            }
            blocks.push(block);
            i = i + 1;
        }
        assert(tool_use_blocks(calls).take(i as int) =~= tool_use_blocks(calls));
        self.say(Role::Assistant, blocks);
        if !self.append_outbound_and_model_call(text.as_str(), response, now, script) {
            return;
        }
        self.total_cost_microdollars = self.total_cost_microdollars + response.microdollars;
        if !script.attempt(Effect::WriteCost { microdollars: self.total_cost_microdollars }) {
            return;
        }
        if response.finish_reason == FinishReason::ToolUse {
            self.dispatch_tool_calls(&response.tool_calls, now, script);
        } else if self.pending_inbound.len() == 0 {
            self.end_turn(script);
        } else {
            self.tool_iteration = 0;
            self.drain_pending_into_turn(now, script);
        }
    }

    /// Takes a model's failure; `err` is its complaint.
    pub fn adapter_failed(&mut self, err: &str, now: Timestamp, script: &mut Script)
        requires
            old(self)@.wf(),
            old(self)@.awaits_model(),
        ensures
            turn(final(self)@, final(script)@) == turn(old(self)@, old(script)@).adapter_failed(
                err@,
                now,
            ),
            final(self)@.wf(),
    {
        proof {
            law_adapter_failed_sound(turn(self@, script@), err@, now);
        }
        let ghost said: Seq<Message> = self.history@;
        let _gone: Option<Message> = self.history.pop();
        assert(said.len() > 0 ==> messages_view(self.history@) =~= messages_view(said).drop_last());
        let mut message: String = "adapter call failed: ".to_owned();
        message.append(err);
        script.perform(Effect::Append(ConversationEntry::System { message, timestamp_utc: now }));
        self.end_turn(script);
    }

    /// Takes a tool's answer. One that is not awaited is dropped.
    pub fn tool_result(
        &mut self,
        tool_use_id: &str,
        content: &str,
        is_error: bool,
        now: Timestamp,
        script: &mut Script,
    )
        requires
            old(self)@.wf(),
        ensures
            turn(final(self)@, final(script)@) == turn(old(self)@, old(script)@).tool_result(
                tool_use_id@,
                content@,
                is_error,
                now,
            ),
            final(self)@.wf(),
    {
        proof {
            law_tool_result_sound(turn(self@, script@), tool_use_id@, content@, is_error, now);
        }
        let ghost ids: Seq<String> = self.pending_tool_use_ids@;
        let mut i: usize = 0;
        while i < self.pending_tool_use_ids.len()
            invariant
                self@ == old(self)@,
                ids == self.pending_tool_use_ids@,
                i <= ids.len(),
                forall|k: int| 0 <= k < i ==> #[trigger] texts(ids)[k] != tool_use_id@,
            ensures
                self@ == old(self)@,
                ids == self.pending_tool_use_ids@,
                i <= ids.len(),
                i < ids.len() ==> texts(ids)[i as int] == tool_use_id@,
                forall|k: int| 0 <= k < i ==> #[trigger] texts(ids)[k] != tool_use_id@,
            decreases self.pending_tool_use_ids.len() - i,
        {
            if same_text(self.pending_tool_use_ids[i].as_str(), tool_use_id) {
                assert(texts(ids)[i as int] == tool_use_id@);
                break;
            }
            assert(texts(ids)[i as int] != tool_use_id@);
            i = i + 1;
        }
        if i == self.pending_tool_use_ids.len() {
            assert(!texts(ids).contains(tool_use_id@));
            return;
        }
        proof {
            let names = texts(ids);
            assert(names[i as int] == tool_use_id@);
            assert(names.contains(tool_use_id@));
            assert(names.no_duplicates());
            assert(names[names.index_of(tool_use_id@)] == tool_use_id@);
            assert(names.index_of(tool_use_id@) == i);
        }
        let _answered: String = self.pending_tool_use_ids.remove(i);
        assert(texts(self.pending_tool_use_ids@) =~= without(texts(ids), tool_use_id@));
        self.append_tool_result(tool_use_id, content, is_error, now, script);
        if self.pending_tool_use_ids.len() == 0 {
            self.advance_after_tools(now, script);
        }
    }

    /// Takes a timeout. One that comes after all tools answered does nothing.
    pub fn tool_batch_timeout(&mut self, now: Timestamp, script: &mut Script)
        requires
            old(self)@.wf(),
        ensures
            turn(final(self)@, final(script)@) == turn(
                old(self)@,
                old(script)@,
            ).tool_batch_timeout(now),
            final(self)@.wf(),
    {
        proof {
            law_tool_batch_timeout_sound(turn(self@, script@), now);
        }
        if self.pending_tool_use_ids.len() == 0 {
            return;
        }
        let ghost ids: Seq<Seq<char>> = texts(self.pending_tool_use_ids@);
        let mut timed_out: Vec<String> = Vec::new();
        std::mem::swap(&mut timed_out, &mut self.pending_tool_use_ids);
        assert(texts(self.pending_tool_use_ids@) =~= Seq::empty());
        let ghost start: Turn = turn(self@, script@);
        let mut i: usize = 0;
        while i < timed_out.len()
            invariant
                ids == texts(timed_out@),
                i <= timed_out@.len(),
                turn(self@, script@) == start.time_out_upto(ids, i as int, now),
                self@.tool_iteration == start.agent.tool_iteration,
            decreases timed_out.len() - i,
        {
            assert(ids[i as int] == timed_out@[i as int]@);
            self.append_tool_result(
                timed_out[i].as_str(),
                "tool call timed out",
                true,
                now,
                script,
            );
            i = i + 1;
        }
        self.advance_after_tools(now, script);
    }

    /// Notes in the journal that an envelope was set aside.
    pub fn quarantined(&mut self, event: &QuarantineEvent, now: Timestamp, script: &mut Script)
        ensures
            turn(final(self)@, final(script)@) == turn(old(self)@, old(script)@).quarantined(
                event.reason@,
                now,
            ),
    {
        let mut message: String = "quarantined: ".to_owned();
        message.append(event.reason.as_str());
        self.append_system_entry(message.as_str(), now, script);
    }

    /// Notes in the journal that the agent started, and reports it idle.
    pub fn started(&mut self, now: Timestamp, script: &mut Script)
        ensures
            turn(final(self)@, final(script)@) == turn(old(self)@, old(script)@).started(now),
    {
        self.append_system_entry("agent started", now, script);
        self.set_idle(script);
    }

    /// Forgets the turn and the message ids after a failure, and reports the
    /// agent idle.
    pub fn restarting(&mut self, script: &mut Script)
        ensures
            turn(final(self)@, final(script)@) == turn(old(self)@, old(script)@).restarting(),
            final(self)@.wf(),
    {
        self.in_flight = false;
        self.tool_iteration = 0;
        self.pending_tool_use_ids.clear();
        self.pending_results.clear();
        self.pending_inbound.clear();
        self.seen_message_ids = SeenIds::new();
        proof {
            assert(self@.pending_ids =~= Seq::empty());
            assert(self@.pending_results =~= Seq::empty());
            assert(self@.queue =~= Seq::empty());
        }
        self.set_idle(script);
    }
}

/// The first text block of a reply, or nothing.
pub fn extract_response_text(content: &Vec<MessageContent>) -> (text: String)
    ensures
        text@ == first_text(blocks_view(content@), 0),
{
    let mut i: usize = 0;
    while i < content.len()
        invariant
            i <= content@.len(),
            first_text(blocks_view(content@), 0) == first_text(blocks_view(content@), i as int),
        decreases content.len() - i,
    {
        assert(blocks_view(content@)[i as int] == content@[i as int]@);
        match &content[i] {
            MessageContent::Text(text) => {
                return text.clone();
            },
            _ => {},
        }
        i = i + 1;
    }
    String::new()
}

proof fn lemma_dispatch_stops(start: Turn, calls: Seq<ToolCallView>, n: int, m: int, now: Timestamp)
    requires
        0 < n <= m,
        !start.dispatch_upto(calls, n, now).1,
    ensures
        start.dispatch_upto(calls, m, now) == start.dispatch_upto(calls, n, now),
    decreases m,
{
    if n < m {
        lemma_dispatch_stops(start, calls, n, m - 1, now);
    }
}

/// What is said of a message is said of its own parts, each in its place.
pub proof fn law_process_inbound_is_taken_as_it_is(value: ProcessInbound)
    ensures
        value@.payload == value.payload@,
        value@.message_id == value.message_id@,
        value@.sender_id == value.sender_id@,
{
}

/// What is said of a tool call is said of its own parts, each in its place.
pub proof fn law_tool_call_is_taken_as_it_is(value: ToolCall)
    ensures
        value@.id == value.id@,
        value@.name == value.name@,
        value@.arguments == value.arguments@,
{
}

/// What is said of a model's reply is said of its own parts, each in its place.
pub proof fn law_response_is_taken_as_it_is(value: Response)
    ensures
        value@.content == blocks_view(value.content@),
        value@.tool_calls == calls_view(value.tool_calls@),
        value@.finish_reason == value.finish_reason,
        value@.input_tokens == value.input_tokens,
        value@.output_tokens == value.output_tokens,
        value@.microdollars == value.microdollars,
{
}

/// What is said of an effect is said of its own parts, each in its place.
pub proof fn law_effect_is_taken_as_it_is(value: Effect)
    ensures
        match value {
            Effect::WriteStatus(activity) => value@ == EffectView::WriteStatus(activity),
            Effect::Append(entry) => value@ == EffectView::Append(entry@),
            Effect::WriteCost { microdollars } => value@ == (EffectView::WriteCost { microdollars }),
            Effect::CheckCost { scope, microdollars } => value@ == (EffectView::CheckCost {
                scope,
                microdollars,
            }),
            Effect::Audit(event) => value@ == EffectView::Audit(event@),
            Effect::CallAdapter { messages, tools, system_prompt, max_tokens } => value@ == (EffectView::CallAdapter {
                messages: messages_view(messages@),
                tools: texts(tools@),
                system_prompt: system_prompt@,
                max_tokens,
            }),
            Effect::InvokeTool { tool_use_id, name, input, sender_id } => value@ == (EffectView::InvokeTool {
                tool_use_id: tool_use_id@,
                name: name@,
                input: input@,
                sender_id: sender_id@,
            }),
            Effect::ArmToolTimeout { seconds } => value@ == (EffectView::ArmToolTimeout { seconds }),
        },
{
}

/// What is said of an agent's making is said of its own parts, each in its place.
pub proof fn law_agent_config_is_taken_as_it_is(value: AgentConfig)
    ensures
        value@.agent_id == value.agent_id@,
        value@.persona_name == value.persona_name@,
        value@.persona_version == value.persona_version,
        value@.model == value.model@,
        value@.system_prompt == value.system_prompt@,
        value@.audited == value.audited,
{
}

} // verus!
