//! The agent's message loop and the history it starts from.

use reeve_runtime::agent::{
    extract_response_text, Agent, AgentConfig, AgentError, Effect, Outcome, ProcessInbound,
    QuarantineEvent, Response, Script, ToolCall,
};
use reeve_runtime::agent_fs::AgentFsError;
use reeve_runtime::agent_model::{
    CostScope, FinishReason, DEFAULT_MAX_TOKENS, MAX_TOOL_ITERATIONS, TOOL_TIMEOUT_SECS,
};
use reeve_runtime::audit::{AuditEvent, AuthorityDisposition};
use reeve_runtime::conversation::{ConversationEntry, Message, MessageContent, Role};
use reeve_runtime::history::{
    format_inbound_payload, journal_lines, load_history_from_journal, replay_journal, JournalRead,
};
use reeve_runtime::identity::{IdentityId, Timestamp};
use reeve_runtime::io_error::{IoError, IoKind};
use reeve_runtime::seen_ids::SeenIds;

const NOW: Timestamp = Timestamp { unix_nanos: 1_704_067_200_000_000_000 };

// ── Journal lines ────────────────────────────────────────────────────────────

fn entry(line: &str) -> Result<ConversationEntry, String> {
    let value: serde_json::Value = serde_json::from_str(line).map_err(|e| e.to_string())?;
    let text = |key: &str| match value[key].as_str() {
        Some(text) => Ok(text.to_owned()),
        None => Err(format!("missing field `{key}`")),
    };
    let count = |key: &str| match value[key].as_u64() {
        Some(n) => u32::try_from(n).map_err(|e| e.to_string()),
        None => Err(format!("missing field `{key}`")),
    };
    let timestamp_utc = NOW;
    Ok(match text("type")?.as_str() {
        "inbound" => ConversationEntry::Inbound {
            message_id: text("message_id")?,
            sender_id: value["sender_id"].as_str().map(IdentityId::new),
            payload: text("payload")?,
            timestamp_utc,
        },
        "outbound" => ConversationEntry::Outbound { payload: text("payload")?, timestamp_utc },
        "model_call" => ConversationEntry::ModelCall {
            input_tokens: count("input_tokens")?,
            output_tokens: count("output_tokens")?,
            model: text("model")?,
            timestamp_utc,
        },
        "system" => ConversationEntry::System { message: text("message")?, timestamp_utc },
        "tool_use" => ConversationEntry::ToolUse {
            tool_use_id: text("tool_use_id")?,
            name: text("name")?,
            input: value["input"].to_string(),
            timestamp_utc,
        },
        "tool_result" => ConversationEntry::ToolResult {
            tool_use_id: text("tool_use_id")?,
            content: text("content")?,
            is_error: value["is_error"] == true,
            timestamp_utc,
        },
        other => return Err(format!("unknown variant `{other}`")),
    })
}

fn load(content: &str) -> Result<(Vec<Message>, SeenIds), IoError> {
    let lines = journal_lines(content).into_iter().map(entry).collect();
    load_history_from_journal(&JournalRead::Lines(lines))
}

fn seen(lines: &[&str]) -> SeenIds {
    load(&lines.join("\n")).unwrap().1
}

fn text(s: &str) -> MessageContent {
    MessageContent::Text(s.to_owned())
}

// ── The world around an agent ────────────────────────────────────────────────

type Model = fn(usize, &[Message]) -> Result<Response, String>;

struct World {
    agent: Agent,
    model: Model,
    /// The messages of each model call.
    calls: Vec<Vec<Message>>,
    journal: Vec<ConversationEntry>,
    /// The words written to the status file.
    statuses: Vec<&'static str>,
    /// The tools that the last model call offered.
    offered: Vec<String>,
    costs: Vec<u64>,
    audit: Vec<AuditEvent>,
    agent_limit: Option<f64>,
    session_limit: Option<f64>,
    peers_usd: f64,
    /// Calls that tools are working on.
    asked: Vec<(String, String)>,
    model_owes: bool,
    stopped: bool,
    /// Journal appends fail from the given one on.
    journal_breaks_at: Option<usize>,
}

fn config(audited: bool) -> AgentConfig {
    AgentConfig {
        agent_id: IdentityId::new("agent-id"),
        persona_name: "lead".to_owned(),
        persona_version: 1,
        model: "mock@test".to_owned(),
        system_prompt: "Be brief.".to_owned(),
        audited,
    }
}

fn no_journal() -> JournalRead {
    JournalRead::Unreadable(IoError::new(IoKind::NotFound, "no such file"))
}

fn new_agent(journal: &JournalRead, tools: &[&str]) -> Result<Agent, AgentError> {
    let tools = tools.iter().map(|t| (*t).to_owned()).collect();
    Agent::new(config(true), "agents/lead/conversation.jsonl".to_owned(), journal, tools)
}

fn world_of(agent: Agent, model: Model) -> World {
    let mut world = World {
        agent,
        model,
        calls: Vec::new(),
        journal: Vec::new(),
        statuses: Vec::new(),
        offered: Vec::new(),
        costs: Vec::new(),
        audit: Vec::new(),
        agent_limit: None,
        session_limit: None,
        peers_usd: 0.0,
        asked: Vec::new(),
        model_owes: false,
        stopped: false,
        journal_breaks_at: None,
    };
    world.run(|agent, script| agent.started(NOW, script));
    world
}

fn world(model: Model, tools: &[&str]) -> World {
    world_of(new_agent(&no_journal(), tools).unwrap(), model)
}

fn copy_outcome(outcome: &Outcome) -> Outcome {
    match outcome {
        Outcome::Done => Outcome::Done,
        Outcome::Failed => Outcome::Failed,
        Outcome::LimitReached { current, limit } => {
            Outcome::LimitReached { current: current.clone(), limit: limit.clone() }
        }
    }
}

impl World {
    fn compare(&self, cost: f64, limit: Option<f64>) -> Outcome {
        match limit {
            Some(limit) if cost >= limit => Outcome::LimitReached {
                current: format!("{cost:.6}"),
                limit: format!("{limit:.6}"),
            },
            _ => Outcome::Done,
        }
    }

    fn perform(&mut self, effect: Effect) -> Outcome {
        match effect {
            Effect::WriteStatus(activity) => self.statuses.push(activity.as_str()),
            Effect::Append(entry) => {
                if self.journal_breaks_at.is_some_and(|n| self.journal.len() >= n) {
                    return Outcome::Failed;
                }
                self.journal.push(entry);
            }
            Effect::WriteCost { microdollars } => self.costs.push(microdollars),
            Effect::CheckCost { scope, microdollars } => {
                let own = microdollars as f64 / 1_000_000.0;
                return match scope {
                    CostScope::Agent => self.compare(own, self.agent_limit),
                    CostScope::Session => self.compare(self.peers_usd + own, self.session_limit),
                };
            }
            Effect::Audit(event) => self.audit.push(event),
            Effect::CallAdapter { messages, tools, system_prompt, max_tokens } => {
                self.offered = tools;
                assert_eq!(system_prompt, "Be brief.");
                assert_eq!(max_tokens, DEFAULT_MAX_TOKENS);
                self.calls.push(messages);
                self.model_owes = true;
            }
            Effect::InvokeTool { tool_use_id, name, sender_id, .. } => {
                assert_eq!(sender_id, IdentityId::new("agent-id"));
                self.asked.push((tool_use_id, name));
            }
            Effect::ArmToolTimeout { seconds } => assert_eq!(seconds, TOOL_TIMEOUT_SECS),
        }
        Outcome::Done
    }

    /// Runs a handler: each effect is performed before the handler goes on.
    fn run(&mut self, handler: impl Fn(&mut Agent, &mut Script)) {
        let mut outcomes: Vec<Outcome> = Vec::new();
        loop {
            let mut agent = self.agent.clone();
            let mut script = Script::new(outcomes.iter().map(copy_outcome).collect());
            handler(&mut agent, &mut script);
            if script.effects.len() == outcomes.len() {
                self.agent = agent;
                self.stopped = self.stopped || script.stopped;
                return;
            }
            let effect = script.effects.remove(outcomes.len());
            let outcome = self.perform(effect);
            outcomes.push(outcome);
        }
    }

    fn inbound(&mut self, id: &str, payload: &str) {
        self.run(|agent, script| {
            let msg = ProcessInbound {
                payload: payload.to_owned(),
                message_id: id.to_owned(),
                sender_id: IdentityId::new("sender-id"),
            };
            agent.process_inbound(msg, NOW, script);
        });
    }

    /// Lets the model reply once.
    fn reply(&mut self) {
        assert!(self.model_owes && self.agent.awaits_model());
        self.model_owes = false;
        let n = self.calls.len();
        match (self.model)(n, &self.calls[n - 1]) {
            Ok(response) => self.run(|agent, script| agent.handle_response(&response, NOW, script)),
            Err(err) => self.run(|agent, script| agent.adapter_failed(&err, NOW, script)),
        }
    }

    fn answer(&mut self, id: &str, content: &str, is_error: bool) {
        self.run(|agent, script| agent.tool_result(id, content, is_error, NOW, script));
    }

    /// Lets the model and the tools go on until none has anything to do.
    fn settle(&mut self) {
        while self.model_owes || !self.asked.is_empty() {
            if self.model_owes {
                self.reply();
            } else {
                let (id, _) = self.asked.remove(0);
                self.answer(&id, "mock-agent", false);
            }
        }
    }

    fn tags(&self) -> Vec<&'static str> {
        self.journal.iter().map(|e| e.type_tag()).collect()
    }

    fn count(&self, tag: &str) -> usize {
        self.tags().into_iter().filter(|t| *t == tag).count()
    }

    fn notes(&self) -> Vec<&str> {
        let note = |e: &'_ ConversationEntry| matches!(e, ConversationEntry::System { .. });
        self.journal
            .iter()
            .filter(|e| note(e))
            .map(|e| match e {
                ConversationEntry::System { message, .. } => message.as_str(),
                _ => unreachable!(),
            })
            .collect()
    }

    fn outbounds(&self) -> Vec<&str> {
        self.journal
            .iter()
            .filter_map(|e| match e {
                ConversationEntry::Outbound { payload, .. } => Some(payload.as_str()),
                _ => None,
            })
            .collect()
    }

    fn inbounds(&self) -> Vec<(&str, &str)> {
        self.journal
            .iter()
            .filter_map(|e| match e {
                ConversationEntry::Inbound { message_id, payload, .. } => {
                    Some((message_id.as_str(), payload.as_str()))
                }
                _ => None,
            })
            .collect()
    }
}

fn says(reply: &str, microdollars: u64) -> Response {
    let content = if reply.is_empty() { Vec::new() } else { vec![text(reply)] };
    Response {
        content,
        tool_calls: Vec::new(),
        finish_reason: FinishReason::EndTurn,
        input_tokens: 10,
        output_tokens: 20,
        microdollars,
    }
}

fn calls_tool(preamble: &str, id: &str, name: &str, arguments: &str) -> Response {
    Response {
        tool_calls: vec![ToolCall {
            id: id.to_owned(),
            name: name.to_owned(),
            arguments: arguments.to_owned(),
        }],
        finish_reason: FinishReason::ToolUse,
        ..says(preamble, 5)
    }
}

fn text_model(_: usize, _: &[Message]) -> Result<Response, String> {
    Ok(says("mock response", 42))
}

fn failing_model(_: usize, _: &[Message]) -> Result<Response, String> {
    Err("bad request: context window exceeded".to_owned())
}

// ── Turns ────────────────────────────────────────────────────────────────────

#[test]
fn lead_agent_new_creates_valid_actor() {
    assert!(new_agent(&no_journal(), &[]).is_ok(), "Agent::new should succeed");
}

#[test]
fn lead_agent_started_writes_idle_status() {
    let world = world(text_model, &[]);
    assert_eq!(world.statuses, vec!["idle"], "status file should contain 'idle'");
    assert_eq!(world.tags(), vec!["system"]);
}

#[test]
fn lead_agent_processes_inbound_updates_conversation() {
    let mut world = world(text_model, &[]);
    world.inbound("test-1", "hello");
    world.settle();
    assert_eq!(world.tags(), vec!["system", "inbound", "outbound", "model_call"]);
    assert_eq!(world.inbounds(), vec![("test-1", "hello")]);
    assert_eq!(world.outbounds(), vec!["mock response"]);
    assert_eq!(world.statuses, vec!["idle", "working", "idle"]);
    assert_eq!(world.costs, vec![42]);
    assert_eq!(world.agent.total_cost_microdollars(), 42);
    match world.journal.last().unwrap() {
        ConversationEntry::ModelCall { input_tokens, output_tokens, model, .. } => {
            assert_eq!((*input_tokens, *output_tokens, model.as_str()), (10, 20, "mock@test"));
        }
        other => panic!("expected a model call, got {other:?}"),
    }
}

#[test]
fn agent_drops_duplicate_inbound_message_id() {
    let mut world = world(text_model, &[]);
    for _ in 0..3 {
        world.inbound("dup-1", "hello");
    }
    world.settle();
    world.inbound("dup-1", "hello");
    world.settle();
    assert_eq!(world.count("inbound"), 1, "duplicate message_ids should only journal once");
    assert_eq!(world.count("model_call"), 1, "duplicate message_ids should fire one adapter call");
}

#[test]
fn extract_response_text_returns_first_text() {
    assert_eq!(extract_response_text(&vec![text("first"), text("second")]), "first");
    let tool = MessageContent::ToolUse {
        id: "t".to_owned(),
        name: "n".to_owned(),
        input: "{}".to_owned(),
    };
    assert_eq!(extract_response_text(&vec![tool, text("second")]), "second");
}

#[test]
fn extract_response_text_empty_content_returns_empty_string() {
    assert!(extract_response_text(&Vec::new()).is_empty());
}

#[test]
fn lead_agent_error_display_impls() {
    let fs_err = AgentError::Fs(AgentFsError::Io {
        path: "agents/lead/status".to_owned(),
        source: IoError::new(IoKind::PermissionDenied, "permission denied"),
    });
    let rendered = fs_err.to_string();
    assert!(rendered.contains("agent fs"), "Fs variant missing context: {rendered}");

    let io_err = AgentError::Io {
        path: "agents/lead/cost".to_owned(),
        source: IoError::new(IoKind::NotFound, "entity not found"),
    };
    let rendered = io_err.to_string();
    assert!(rendered.contains("agents/lead/cost"), "Io variant missing path: {rendered}");

    let complaint = serde_json::from_str::<serde_json::Value>("bad").unwrap_err();
    assert!(!AgentError::Json(complaint.to_string()).to_string().is_empty());

    let rendered = AgentError::Adapter("bad request: test".to_owned()).to_string();
    assert!(rendered.contains("adapter"), "Adapter variant missing context: {rendered}");
}

#[test]
fn conversation_entries_round_trip() {
    let line = r#"{"type":"inbound","message_id":"m1","payload":"hello"}"#;
    let inbound = entry(line).unwrap();
    assert_eq!(inbound.type_tag(), "inbound");
    match inbound {
        ConversationEntry::Inbound { message_id, sender_id, payload, .. } => {
            assert_eq!(message_id, "m1");
            assert_eq!(sender_id, None);
            assert_eq!(payload, "hello");
        }
        other => panic!("expected an inbound entry, got {other:?}"),
    }
}

#[test]
fn lead_agent_second_message_queues_during_in_flight() {
    let mut world = world(|_, _| Ok(says("slow response", 10)), &[]);
    world.inbound("msg-1", "first");
    world.inbound("msg-2", "second");
    assert_eq!(world.agent.waiting(), 1);
    world.settle();
    assert!(!world.notes().iter().any(|n| n.contains("discarded")));
    assert_eq!(world.inbounds(), vec![("msg-1", "first"), ("msg-2", "second")]);
    assert_eq!(world.count("model_call"), 2);
    assert_eq!(world.agent.waiting(), 0);
    assert_eq!(world.statuses.last(), Some(&"idle"));
}

#[test]
fn messages_that_waited_become_one_turn() {
    let mut world = world(text_model, &[]);
    for id in ["a", "b", "c"] {
        world.inbound(id, id);
    }
    world.settle();
    assert_eq!(world.calls.len(), 2);
    match &world.calls[1].last().unwrap().content[0] {
        MessageContent::Text(t) => assert_eq!(t, "[from sender-id]\nb\n\n[from sender-id]\nc"),
        other => panic!("expected text, got {other:?}"),
    }
}

#[test]
fn lead_agent_retry_after_error_sends_clean_history() {
    let mut world = world(
        |n, _| if n == 1 { Err("context too large".to_owned()) } else { Ok(says("ok", 20)) },
        &[],
    );
    world.inbound("msg-1", "first message");
    world.settle();
    world.inbound("msg-2", "second message");
    world.settle();
    assert_eq!(world.calls.len(), 2, "expected exactly 2 adapter calls");
    assert_eq!(
        world.calls[1].len(),
        1,
        "second adapter call should carry exactly one message; got: {:?}",
        world.calls[1]
    );
    match &world.calls[1][0].content[0] {
        MessageContent::Text(t) => assert!(t.ends_with("second message"), "{t}"),
        other => panic!("expected text content; got: {other:?}"),
    }
}

#[test]
fn lead_agent_adapter_error_returns_to_idle() {
    let mut world = world(failing_model, &[]);
    world.inbound("err-1", "hi");
    world.settle();
    assert_eq!(world.statuses.last(), Some(&"idle"));
    assert!(world.agent.history().is_empty());
    let note = world.notes().into_iter().find(|n| n.contains("adapter call failed")).unwrap();
    assert!(note.contains("context window exceeded"), "{note}");
}

#[test]
fn quarantine_event_appends_system_entry() {
    let mut world = world(text_model, &[]);
    let event = || QuarantineEvent { reason: "signature_invalid".to_owned() };
    world.run(|agent, script| agent.quarantined(&event(), NOW, script));
    assert!(world
        .notes()
        .iter()
        .any(|n| n.contains("quarantined") && n.contains("signature_invalid")));
}

#[test]
fn a_journal_that_breaks_stops_the_agent() {
    let mut world = world(text_model, &[]);
    world.journal_breaks_at = Some(1);
    world.inbound("m", "hello");
    assert!(world.stopped);
    assert!(world.calls.is_empty());
}

// ── Tools ────────────────────────────────────────────────────────────────────

const ARGUMENTS: &str = r#"{"persona":"test-persona","task":"hello world"}"#;

#[test]
fn agent_tool_loop_round_trips_through_spawn_agent_tool() {
    let mut world = world(
        |n, _| {
            Ok(if n == 1 {
                calls_tool("spawning agent", "tu_1", "spawn_agent", ARGUMENTS)
            } else {
                says("done!", 3)
            })
        },
        &["spawn_agent"],
    );
    world.inbound("m-1", "trigger");
    world.settle();
    assert_eq!(world.calls.len(), 2);
    assert_eq!(
        world.tags(),
        vec![
            "system", "inbound", "outbound", "model_call", "tool_use", "tool_result", "outbound",
            "model_call",
        ],
    );
    match &world.journal[4] {
        ConversationEntry::ToolUse { tool_use_id, name, input, .. } => {
            assert_eq!(tool_use_id, "tu_1");
            assert_eq!(name, "spawn_agent");
            assert_eq!(input, ARGUMENTS);
        }
        other => panic!("expected a tool use, got {other:?}"),
    }
    match &world.journal[5] {
        ConversationEntry::ToolResult { tool_use_id, content, is_error, .. } => {
            assert_eq!(tool_use_id, "tu_1");
            assert_eq!(content, "mock-agent");
            assert!(!is_error);
        }
        other => panic!("expected a tool result, got {other:?}"),
    }
    assert!(world.outbounds().contains(&"done!"));
    assert_eq!(world.offered, vec!["spawn_agent"]);
    assert_eq!(world.statuses.last(), Some(&"idle"));
    assert_eq!(world.agent.total_cost_microdollars(), 8);
}

#[test]
fn agent_tool_loop_aborts_at_max_iterations() {
    let mut world = world(
        |n, _| Ok(calls_tool("", &format!("tu_{n}"), "spawn_agent", "{}")),
        &["spawn_agent"],
    );
    world.inbound("m-1", "trigger");
    world.settle();
    assert!(world.notes().iter().any(|n| n.contains("tool loop aborted")));
    assert_eq!(world.statuses.last(), Some(&"idle"));
    let max = usize::try_from(MAX_TOOL_ITERATIONS).unwrap();
    assert!(world.count("tool_use") <= max, "too many tool_use entries");
    assert_eq!(world.calls.len(), max);
    assert_eq!(world.agent.tool_iteration(), 0);
}

#[test]
fn agent_skips_empty_outbound_for_tool_only_turn() {
    let mut world = world(
        |n, _| Ok(if n == 1 { calls_tool("", "tu_1", "spawn_agent", "{}") } else { says("done", 1) }),
        &["spawn_agent"],
    );
    world.inbound("m-1", "go");
    world.settle();
    assert_eq!(world.outbounds(), vec!["done"]);
    assert_eq!(world.count("model_call"), 2, "both model_call entries should be present");
}

#[test]
fn agent_recovers_from_unknown_tool_name() {
    let mut world = world(
        |n, _| {
            Ok(if n == 1 {
                calls_tool("", "tu_x", "nonexistent_tool", "{}")
            } else {
                says("recovered", 1)
            })
        },
        &["spawn_agent"],
    );
    world.inbound("m-1", "go");
    world.settle();
    let result = world.journal.iter().find(|e| e.type_tag() == "tool_result").unwrap();
    match result {
        ConversationEntry::ToolResult { tool_use_id, content, is_error, .. } => {
            assert_eq!(tool_use_id, "tu_x");
            assert!(is_error);
            assert!(content.contains("nonexistent_tool"), "{content}");
        }
        other => panic!("expected a tool result, got {other:?}"),
    }
    assert_eq!(world.calls.len(), 2);
    assert_eq!(world.outbounds(), vec!["recovered"]);
}

#[test]
fn agent_new_rejects_duplicate_tool_names() {
    match new_agent(&no_journal(), &["spawn_agent", "spawn_agent"]) {
        Err(AgentError::DuplicateToolName(name)) => assert_eq!(name, "spawn_agent"),
        other => panic!("expected DuplicateToolName, got {other:?}"),
    }
}

fn two_calls(n: usize, _: &[Message]) -> Result<Response, String> {
    if n > 1 {
        return Ok(says("done", 1));
    }
    let mut response = calls_tool("", "a", "echo", "{}");
    response.tool_calls.extend(calls_tool("", "b", "echo", "{}").tool_calls);
    Ok(response)
}

#[test]
fn the_model_is_called_again_once_all_tools_answered() {
    let mut world = world(two_calls, &["echo"]);
    world.inbound("m", "go");
    world.reply();
    assert_eq!(world.agent.awaited_tools(), 2);
    world.answer("b", "second", false);
    assert_eq!(world.calls.len(), 1);
    world.answer("nobody asked", "x", false);
    assert_eq!(world.calls.len(), 1);
    world.answer("a", "first", true);
    assert_eq!(world.calls.len(), 2);
    let last = world.calls[1].last().unwrap();
    assert_eq!(last.role, Role::User);
    assert_eq!(last.content.len(), 2);
}

#[test]
fn a_timeout_answers_every_call() {
    let mut world = world(two_calls, &["echo"]);
    world.inbound("m", "go");
    world.reply();
    world.answer("a", "first", false);
    world.run(|agent, script| agent.tool_batch_timeout(NOW, script));
    let last = world.calls[1].last().unwrap();
    assert_eq!(last.content.len(), 2);
    assert_eq!(
        last.content[1],
        MessageContent::ToolResult {
            tool_use_id: "b".to_owned(),
            content: "tool call timed out".to_owned(),
            is_error: true,
        },
    );
    // A timeout that comes too late changes nothing.
    world.asked.clear();
    world.settle();
    let entries = world.journal.len();
    world.run(|agent, script| agent.tool_batch_timeout(NOW, script));
    assert_eq!(world.journal.len(), entries);
}

// ── What the journal recalls ─────────────────────────────────────────────────

fn rebuilt(world: &World) -> Vec<Message> {
    replay_journal(&world.journal).0
}

#[test]
fn the_journal_rebuilds_the_history() {
    let mut world = world(
        |n, _| {
            Ok(match n {
                1 => calls_tool("looking", "tu_1", "echo", "{}"),
                2 => calls_tool("", "tu_2", "nonexistent_tool", "{}"),
                _ => says("done", 3),
            })
        },
        &["echo"],
    );
    world.inbound("m-1", "first");
    world.settle();
    assert_eq!(world.agent.history().len(), 6);
    assert_eq!(&rebuilt(&world), world.agent.history());
    world.inbound("m-2", "second");
    world.inbound("m-3", "while busy");
    world.settle();
    assert_eq!(world.agent.history().len(), 10);
    assert_eq!(&rebuilt(&world), world.agent.history());
}

#[test]
fn the_journal_rebuilds_answers_in_the_order_they_came() {
    let mut world = world(two_calls, &["echo"]);
    world.inbound("m", "go");
    world.reply();
    world.answer("b", "second", false);
    world.run(|agent, script| agent.tool_batch_timeout(NOW, script));
    world.settle();
    assert_eq!(&rebuilt(&world), world.agent.history());
}

#[test]
fn an_open_question_is_left_out_of_the_rebuilt_history() {
    let mut world = world(text_model, &[]);
    world.inbound("m-1", "first");
    world.settle();
    world.inbound("m-2", "second");
    let history = world.agent.history();
    assert_eq!(rebuilt(&world)[..], history[..history.len() - 1]);
}

// ── Costs ────────────────────────────────────────────────────────────────────

#[test]
fn cost_per_agent_threshold_refuses_when_exceeded() {
    let mut world = world(text_model, &[]);
    world.agent_limit = Some(0.000_042);
    world.inbound("ct1-msg-1", "hello");
    world.settle();
    assert_eq!(world.tags(), vec!["system", "inbound", "outbound", "model_call"]);
    world.inbound("ct1-msg-2", "hello again");
    world.settle();
    assert_eq!(world.calls.len(), 1);
    let note = world.notes().into_iter().find(|n| n.contains("cost_per_agent")).unwrap();
    assert_eq!(note, "refused (cost_per_agent): $0.000042 \u{2265} limit $0.000042");
    match &world.audit[0] {
        AuditEvent::AuthorityDecision { disposition, rationale, layer, .. } => {
            assert_eq!(*disposition, AuthorityDisposition::Refuse);
            assert_eq!(layer.as_deref(), Some("threshold"));
            assert_eq!(
                rationale.as_deref(),
                Some("agent cost 0.000042 USD reached limit 0.000042 USD"),
            );
        }
        other => panic!("expected a decision, got {other:?}"),
    }
    assert_eq!(world.statuses.last(), Some(&"idle"));
}

#[test]
fn cost_per_session_threshold_refuses_when_session_total_exceeded() {
    let mut world = world(text_model, &[]);
    world.session_limit = Some(0.04);
    world.peers_usd = 0.04;
    world.inbound("ct2-msg-1", "hello");
    world.settle();
    assert!(world.calls.is_empty());
    assert_eq!(world.tags(), vec!["system", "inbound", "system"]);
    assert!(world.notes()[1].contains("cost_per_session"));
}

// ── History ──────────────────────────────────────────────────────────────────

const IN_1: &str = r#"{"type":"inbound","message_id":"m1","payload":"hello","timestamp_utc":"2024-01-01T00:00:00Z"}"#;
const OUT_1: &str =
    r#"{"type":"outbound","payload":"world","timestamp_utc":"2024-01-01T00:00:00Z"}"#;

#[test]
fn load_history_from_journal_empty_file_returns_empty_vec() {
    assert!(load("").unwrap().0.is_empty());
}

#[test]
fn load_history_from_journal_missing_file_returns_empty_vec() {
    let (history, seen) = load_history_from_journal(&no_journal()).unwrap();
    assert!(history.is_empty());
    assert_eq!(seen.len(), 0);
}

#[test]
fn load_history_from_journal_inbound_becomes_user_message() {
    let (history, _) = load(&[IN_1, OUT_1].join("\n")).unwrap();
    assert_eq!(history.len(), 2);
    assert_eq!(history[0].role, Role::User);
    assert_eq!(history[0].content, vec![text("hello")]);
}

#[test]
fn an_inbound_message_names_its_sender() {
    let line = r#"{"type":"inbound","message_id":"m1","sender_id":"op","payload":"hello"}"#;
    let (history, _) = load(&[line, OUT_1].join("\n")).unwrap();
    assert_eq!(history[0].content, vec![text("[from op]\nhello")]);
    assert_eq!(format_inbound_payload(&Some(IdentityId::new("op")), "hello"), "[from op]\nhello");
    assert_eq!(format_inbound_payload(&None, "hello"), "hello");
}

#[test]
fn load_history_from_journal_outbound_becomes_assistant_message() {
    let (history, _) = load(&format!("{OUT_1}\n")).unwrap();
    assert_eq!(history.len(), 1);
    assert_eq!(history[0].role, Role::Assistant);
    assert_eq!(history[0].content, vec![text("world")]);
}

#[test]
fn load_history_from_journal_skips_system_and_model_call() {
    let lines = [
        r#"{"type":"system","message":"startup","timestamp_utc":"2024-01-01T00:00:00Z"}"#,
        r#"{"type":"model_call","input_tokens":10,"output_tokens":5,"model":"test","timestamp_utc":"2024-01-01T00:00:00Z"}"#,
    ];
    let (history, _) = load(&lines.join("\n")).unwrap();
    assert!(history.is_empty(), "expected empty history, got {history:?}");
}

const TOOL_USE_1: &str = r#"{"type":"tool_use","tool_use_id":"tu1","name":"echo","input":{"text":"hi"},"timestamp_utc":"2024-01-01T00:00:00Z"}"#;

fn echo_block() -> MessageContent {
    MessageContent::ToolUse {
        id: "tu1".to_owned(),
        name: "echo".to_owned(),
        input: r#"{"text":"hi"}"#.to_owned(),
    }
}

fn result_block(id: &str, content: &str) -> MessageContent {
    MessageContent::ToolResult {
        tool_use_id: id.to_owned(),
        content: content.to_owned(),
        is_error: false,
    }
}

#[test]
fn load_history_from_journal_reconstructs_tool_use_and_result() {
    let lines = [
        TOOL_USE_1,
        r#"{"type":"tool_result","tool_use_id":"tu1","content":"hi","is_error":false,"timestamp_utc":"2024-01-01T00:00:00Z"}"#,
        r#"{"type":"outbound","payload":"done","timestamp_utc":"2024-01-01T00:00:00Z"}"#,
    ];
    let (history, _) = load(&lines.join("\n")).unwrap();
    assert_eq!(history.len(), 3, "expected 3 messages, got {history:?}");
    assert_eq!(history[0].role, Role::Assistant);
    assert_eq!(history[0].content, vec![echo_block()]);
    assert_eq!(history[1].role, Role::User);
    assert_eq!(history[1].content, vec![result_block("tu1", "hi")]);
    assert_eq!(history[2].role, Role::Assistant);
}

#[test]
fn load_history_from_journal_interleaved_in_out() {
    let lines = [
        r#"{"type":"inbound","message_id":"m1","payload":"ping","timestamp_utc":"2024-01-01T00:00:00Z"}"#,
        r#"{"type":"system","message":"note","timestamp_utc":"2024-01-01T00:00:00Z"}"#,
        r#"{"type":"outbound","payload":"pong","timestamp_utc":"2024-01-01T00:00:00Z"}"#,
        r#"{"type":"inbound","message_id":"m2","payload":"again","timestamp_utc":"2024-01-01T00:00:00Z"}"#,
        r#"{"type":"outbound","payload":"replied","timestamp_utc":"2024-01-01T00:00:00Z"}"#,
    ];
    let (history, _) = load(&lines.join("\n")).unwrap();
    let roles: Vec<Role> = history.iter().map(|m| m.role).collect();
    assert_eq!(roles, vec![Role::User, Role::Assistant, Role::User, Role::Assistant]);
    let blocks: Vec<&MessageContent> = history.iter().flat_map(|m| m.content.iter()).collect();
    assert_eq!(blocks, vec![&text("ping"), &text("pong"), &text("again"), &text("replied")]);
}

#[test]
fn load_history_from_journal_truncates_trailing_user_message() {
    let lines = [
        r#"{"type":"inbound","message_id":"m1","payload":"turn1","timestamp_utc":"2024-01-01T00:00:00Z"}"#,
        r#"{"type":"outbound","payload":"reply1","timestamp_utc":"2024-01-01T00:00:00Z"}"#,
        r#"{"type":"inbound","message_id":"m2","payload":"turn2","timestamp_utc":"2024-01-01T00:00:01Z"}"#,
        r#"{"type":"outbound","payload":"reply2","timestamp_utc":"2024-01-01T00:00:01Z"}"#,
        r#"{"type":"inbound","message_id":"m3","payload":"crashed","timestamp_utc":"2024-01-01T00:00:02Z"}"#,
    ];
    let (history, _) = load(&lines.join("\n")).unwrap();
    assert_eq!(history.len(), 4, "trailing user message must be truncated; got {history:?}");
    assert_eq!(history.last().unwrap().role, Role::Assistant);
}

#[test]
fn load_history_from_journal_single_inbound_truncated_to_empty() {
    let line = r#"{"type":"inbound","message_id":"m1","payload":"only","timestamp_utc":"2024-01-01T00:00:00Z"}"#;
    let (history, _) = load(line).unwrap();
    assert!(history.is_empty(), "got {history:?}");
}

#[test]
fn system_notes_change_nothing_wherever_they_stand() {
    let note = r#"{"type":"system","message":"m","timestamp_utc":"2024-01-01T00:00:00Z"}"#;
    let lines = [
        inbound_line("m-1"),
        r#"{"type":"outbound","payload":"yes","timestamp_utc":"2024-01-01T00:00:00Z"}"#.to_owned(),
        r#"{"type":"model_call","input_tokens":1,"output_tokens":1,"model":"m","timestamp_utc":"2024-01-01T00:00:00Z"}"#
            .to_owned(),
        inbound_line("m-2"),
    ];
    let (history, seen) = load(&lines.join("\n")).unwrap();
    assert_eq!(history.len(), 2);
    for i in 0..=lines.len() {
        let mut noted = lines.to_vec();
        noted.insert(i, note.to_owned());
        let (again, ids) = load(&noted.join("\n")).unwrap();
        assert_eq!(again, history);
        assert_eq!(ids.len(), seen.len());
        assert!(ids.contains("m-1") && !ids.contains("m-2"));
    }
}

#[test]
fn load_history_from_journal_skips_blank_lines() {
    let (history, _) = load(&[IN_1, "", OUT_1, ""].join("\n")).unwrap();
    assert_eq!(history.len(), 2, "blank lines must be skipped; got {history:?}");
    assert_eq!(history[0].role, Role::User);
    assert_eq!(history[1].role, Role::Assistant);
}

#[test]
fn restarting_clears_seen_message_ids() {
    let mut world = world(text_model, &[]);
    world.inbound("sentinel", "hello");
    world.settle();
    assert!(world.agent.has_seen("sentinel"));
    world.run(|agent, script| agent.restarting(script));
    assert!(!world.agent.has_seen("sentinel"), "restarting must clear seen_message_ids");
    assert!(!world.agent.in_flight());
}

#[test]
fn agent_new_loads_prior_history_and_appends_after_it() {
    let lines = vec![
        entry(r#"{"type":"inbound","message_id":"prior-1","payload":"seed message"}"#),
        entry(r#"{"type":"outbound","payload":"seed reply"}"#),
    ];
    let agent = new_agent(&JournalRead::Lines(lines), &[]).unwrap();
    assert_eq!(agent.history().len(), 2);
    assert_eq!(agent.history()[0].role, Role::User);
    assert_eq!(agent.history()[1].role, Role::Assistant);

    let mut world = world_of(agent, text_model);
    world.inbound("new-1", "new message");
    world.settle();
    assert_eq!(world.inbounds(), vec![("new-1", "new message")]);
    assert_eq!(world.calls[0].len(), 3, "the model sees the prior history first");
    assert_eq!(world.calls[0][0].content, vec![text("seed message")]);
    assert_eq!(world.agent.history().len(), 4);
}

#[test]
fn load_history_from_journal_returns_err_on_invalid_line() {
    let lines = [IN_1, "not valid json at all", OUT_1];
    let err = load(&lines.join("\n")).unwrap_err();
    assert_eq!(err.kind, IoKind::InvalidData, "corrupt journal line must return InvalidData");
}

#[test]
fn load_history_from_journal_merges_outbound_and_tool_use_into_one_message() {
    let lines = [
        r#"{"type":"outbound","payload":"text_preamble","timestamp_utc":"2024-01-01T00:00:00Z"}"#,
        TOOL_USE_1,
    ];
    let (history, _) = load(&lines.join("\n")).unwrap();
    assert_eq!(history.len(), 1, "consecutive assistant entries must merge; got {history:?}");
    assert_eq!(history[0].role, Role::Assistant);
    assert_eq!(history[0].content, vec![text("text_preamble"), echo_block()]);
}

#[test]
fn load_history_from_journal_merges_consecutive_tool_results_into_one_message() {
    let lines = [
        r#"{"type":"tool_result","tool_use_id":"tu1","content":"result1","is_error":false,"timestamp_utc":"2024-01-01T00:00:00Z"}"#,
        r#"{"type":"tool_result","tool_use_id":"tu2","content":"result2","is_error":false,"timestamp_utc":"2024-01-01T00:00:00Z"}"#,
        r#"{"type":"outbound","payload":"response","timestamp_utc":"2024-01-01T00:00:00Z"}"#,
    ];
    let (history, _) = load(&lines.join("\n")).unwrap();
    assert_eq!(history.len(), 2, "got {history:?}");
    assert_eq!(history[0].role, Role::User);
    assert_eq!(
        history[0].content,
        vec![result_block("tu1", "result1"), result_block("tu2", "result2")],
    );
    assert_eq!(history[1].role, Role::Assistant);
}

// ── Remembered message ids ───────────────────────────────────────────────────

fn inbound_line(id: &str) -> String {
    format!(r#"{{"type":"inbound","message_id":"{id}","payload":"do it","timestamp_utc":"2024-01-01T00:00:00Z"}}"#)
}

const MODEL_CALL: &str = r#"{"type":"model_call","input_tokens":5,"output_tokens":3,"model":"test","timestamp_utc":"2024-01-01T00:00:00Z"}"#;
const TOOL_USE: &str = r#"{"type":"tool_use","tool_use_id":"tu1","name":"spawn_agent","input":{"persona":"p","task":"t"},"timestamp_utc":"2024-01-01T00:00:00Z"}"#;
const TOOL_RESULT: &str = r#"{"type":"tool_result","tool_use_id":"tu1","content":"ok","is_error":false,"timestamp_utc":"2024-01-01T00:00:00Z"}"#;
const PREAMBLE: &str = r#"{"type":"outbound","payload":"Sure, I'll do that.","timestamp_utc":"2024-01-01T00:00:00Z"}"#;

#[test]
fn load_history_from_journal_collects_inbound_message_ids() {
    let seen = seen(&[
        &inbound_line("inbound-1"),
        OUT_1,
        MODEL_CALL,
        &inbound_line("inbound-2"),
        OUT_1,
        MODEL_CALL,
    ]);
    assert_eq!(seen.len(), 2, "expected exactly 2 inbound message_ids; got {seen:?}");
    assert_eq!(seen.iter(), vec!["inbound-1", "inbound-2"]);
}

#[test]
fn seen_ids_excludes_interrupted_inbound() {
    let seen = seen(&[
        &inbound_line("completed-turn"),
        OUT_1,
        MODEL_CALL,
        &inbound_line("interrupted-turn"),
    ]);
    assert!(seen.contains("completed-turn"));
    assert!(!seen.contains("interrupted-turn"));
}

#[test]
fn load_history_from_journal_commits_message_id_on_model_call() {
    let seen = seen(&[
        &inbound_line("msg-tool-only"),
        MODEL_CALL,
        TOOL_USE,
        TOOL_RESULT,
        MODEL_CALL,
    ]);
    assert!(seen.contains("msg-tool-only"));
}

#[test]
fn seen_ids_excludes_crash_between_model_call_and_tool_result() {
    let seen = seen(&[&inbound_line("msg-crash"), MODEL_CALL, TOOL_USE]);
    assert!(!seen.contains("msg-crash"));
}

#[test]
fn load_history_from_journal_commits_message_id_on_two_iteration_tool_turn() {
    let seen = seen(&[
        &inbound_line("msg-two-iter"),
        MODEL_CALL,
        TOOL_USE,
        TOOL_RESULT,
        MODEL_CALL,
        TOOL_USE,
        TOOL_RESULT,
        MODEL_CALL,
    ]);
    assert!(seen.contains("msg-two-iter"));
}

#[test]
fn seen_ids_excludes_crash_in_second_tool_iteration() {
    let seen = seen(&[
        &inbound_line("msg-two-iter-crash"),
        MODEL_CALL,
        TOOL_USE,
        TOOL_RESULT,
        MODEL_CALL,
        TOOL_USE,
    ]);
    assert!(!seen.contains("msg-two-iter-crash"));
}

#[test]
fn seen_ids_excludes_crash_in_preamble_text_tool_turn() {
    let seen = seen(&[&inbound_line("msg-preamble-crash"), PREAMBLE, MODEL_CALL, TOOL_USE]);
    assert!(!seen.contains("msg-preamble-crash"));
}

#[test]
fn load_history_from_journal_commits_message_id_for_preamble_text_tool_turn() {
    let seen = seen(&[
        &inbound_line("msg-preamble-complete"),
        PREAMBLE,
        MODEL_CALL,
        TOOL_USE,
        TOOL_RESULT,
        MODEL_CALL,
    ]);
    assert!(seen.contains("msg-preamble-complete"));
}

#[test]
fn seen_ids_excludes_crash_after_tool_result_before_mc() {
    let seen = seen(&[&inbound_line("msg-tr-crash"), MODEL_CALL, TOOL_USE, TOOL_RESULT]);
    assert!(!seen.contains("msg-tr-crash"));
}

#[test]
fn load_history_from_journal_commits_message_id_for_real_text_turn_sequence() {
    let seen = seen(&[&inbound_line("msg-text-real"), OUT_1, MODEL_CALL]);
    assert!(seen.contains("msg-text-real"));
    assert_eq!(seen.len(), 1, "exactly one id must be committed");
}

#[test]
fn load_history_from_journal_commits_message_id_on_model_call_no_tools() {
    let seen = seen(&[&inbound_line("msg-empty-endturn"), MODEL_CALL]);
    assert!(seen.contains("msg-empty-endturn"));
}

#[test]
fn seen_ids_rebuilt_from_journal_prevents_reprocessing() {
    let lines = vec![
        entry(&inbound_line("msg-already-processed")),
        entry(OUT_1),
        entry(MODEL_CALL),
    ];
    let mut world =
        world_of(new_agent(&JournalRead::Lines(lines), &[]).unwrap(), failing_model);
    world.inbound("msg-already-processed", "re-delivered payload");
    world.inbound("msg-probe", "probe");
    world.settle();
    assert_eq!(world.inbounds(), vec![("msg-probe", "probe")]);
    let failures = world.notes().iter().filter(|n| n.contains("adapter call failed")).count();
    assert_eq!(failures, 1, "exactly 1 adapter call expected (probe only)");
}

#[test]
fn load_history_from_journal_unreadable_file_returns_err() {
    let denied = || IoError::new(IoKind::PermissionDenied, "permission denied");
    let result = load_history_from_journal(&JournalRead::Unreadable(denied()));
    assert_eq!(result.unwrap_err(), denied());
    match new_agent(&JournalRead::Unreadable(denied()), &[]) {
        Err(AgentError::Io { path, source }) => {
            assert_eq!(path, "agents/lead/conversation.jsonl");
            assert_eq!(source, denied());
        }
        other => panic!("expected an Io error, got {other:?}"),
    }
}

#[test]
fn lines_end_at_line_feeds() {
    assert_eq!(journal_lines("a\nb\r\n\n  \nc"), vec!["a", "b", "  ", "c"]);
    assert!(journal_lines("\n\r\n").is_empty());
}
