//! Resuming the agents of an earlier run.

use vstd::prelude::*;
use vstd::string::*;

use crate::agent_fs::{agent_root, name_refusal, valid_agent_name, AgentDirs, RuntimeLayout};
use crate::agent_registry::{
    changes, records_view, with_status, AgentRecord, AgentRegistry, AgentRegistryError,
    AgentStatus, FlushNext, RecordView,
};
use crate::capability::{CapabilityProfile, ProfileError};
use crate::config::{ConfigError, PersonaConfig};
use crate::identity::{holds_text, texts, IdentityId};
use crate::keypair::{ed25519_public_key, Keypair};
use crate::paths::joined_path;
use crate::startup::same_bytes;

verus! {

/// Why an agent could not be resumed.
#[derive(Debug, PartialEq, Eq)]
pub enum ResumeError {
    /// Neither the agent nor its persona has a capability profile.
    ProfileMissing,
    /// Anything else; holds the complaint.
    Other(String),
}

/// What the failure holds.
pub enum ResumeErrorView {
    ProfileMissing,
    Other(Seq<char>),
}

impl View for ResumeError {
    type V = ResumeErrorView;

    open spec fn view(&self) -> ResumeErrorView {
        match *self {
            ResumeError::ProfileMissing => ResumeErrorView::ProfileMissing,
            ResumeError::Other(message) => ResumeErrorView::Other(message@),
        }
    }
}

impl ResumeErrorView {
    /// What a reader is shown.
    pub open spec fn shown(self) -> Seq<char> {
        match self {
            ResumeErrorView::ProfileMissing =>
                "agent profile.toml missing and persona profile.toml absent; cannot synthesize a capability profile"@,
            ResumeErrorView::Other(message) => message,
        }
    }
}

impl ResumeError {
    /// What a reader is shown.
    pub fn to_string(&self) -> (text: String)
        ensures
            text@ == self@.shown(),
    {
        match self {
            ResumeError::ProfileMissing =>
                "agent profile.toml missing and persona profile.toml absent; cannot synthesize a capability profile".to_owned(),
            ResumeError::Other(message) => message.clone(),
        }
    }
}

/// What an agent was spawned with.
#[derive(Debug, PartialEq, Eq)]
pub struct SpawnSnapshot {
    /// Adapter that runs the agent's model.
    pub adapter_id: String,
    pub persona_name: String,
    /// Prompt, empty where none was recorded.
    pub system_prompt: String,
}

/// What reading a snapshot came to.
#[derive(Debug, PartialEq, Eq)]
pub enum SnapshotRead {
    /// It could not be read; holds the complaint.
    Unreadable(String),
    /// It could not be parsed; holds the complaint.
    Unparsable(String),
    Snapshot(SpawnSnapshot),
}

/// What has been learned so far about an agent to be resumed.
pub struct ResumeReplies {
    pub keypair: Option<Result<Keypair, AgentRegistryError>>,
    /// The agent's public keys, as the identity registry has them.
    pub keys: Option<Result<Option<Vec<Vec<u8>>>, String>>,
    pub snapshot: Option<SnapshotRead>,
    /// The persona, where its prompt is needed.
    pub persona: Option<Result<PersonaConfig, ConfigError>>,
    /// The agent's own profile.
    pub profile: Option<Result<CapabilityProfile, ProfileError>>,
    /// The persona's profile.
    pub persona_profile: Option<Result<CapabilityProfile, ProfileError>>,
    /// What writing the agent's profile came to.
    pub profile_written: Option<Result<(), ProfileError>>,
    /// What launching the agent came to.
    pub launched: Option<Result<(), String>>,
}

/// Which profile is meant.
#[derive(Debug, Clone, Copy, PartialEq, Eq, Structural)]
pub enum ProfileSource {
    /// The agent's own snapshot.
    Own,
    /// The persona's.
    Persona,
}

/// What to do next to resume an agent.
#[derive(Debug, PartialEq, Eq)]
pub enum ResumeNext {
    /// Load the keypair kept at `path`, or make one.
    LoadKeypair { path: String },
    /// Look up the public keys of an identity.
    LookupKeys { id: IdentityId },
    /// Read the snapshot kept at `path`.
    ReadSnapshot { path: String },
    /// Load the persona kept at `path`.
    LoadPersona { path: String },
    /// Load the agent's own profile.
    LoadProfile { path: String },
    /// Load the persona's profile.
    LoadPersonaProfile { path: String },
    /// Write this profile as the agent's own.
    WriteProfile { path: String, profile: ProfileSource },
    /// Launch the agent.
    Launch { adapter_id: String, system_prompt: String, profile: ProfileSource },
    /// Nothing: the agent runs, or could not be resumed.
    Done(Result<(), ResumeError>),
}

/// What to do next to resume an agent.
#[allow(inconsistent_fields)]
pub enum ResumeNextView {
    LoadKeypair { path: Seq<char> },
    LookupKeys { id: Seq<char> },
    ReadSnapshot { path: Seq<char> },
    LoadPersona { path: Seq<char> },
    LoadProfile { path: Seq<char> },
    LoadPersonaProfile { path: Seq<char> },
    WriteProfile { path: Seq<char>, profile: ProfileSource },
    Launch { adapter_id: Seq<char>, system_prompt: Seq<char>, profile: ProfileSource },
    Resumed,
    Failed(ResumeErrorView),
}

impl View for ResumeNext {
    type V = ResumeNextView;

    open spec fn view(&self) -> ResumeNextView {
        match *self {
            ResumeNext::LoadKeypair { path } => ResumeNextView::LoadKeypair { path: path@ },
            ResumeNext::LookupKeys { id } => ResumeNextView::LookupKeys { id: id@ },
            ResumeNext::ReadSnapshot { path } => ResumeNextView::ReadSnapshot { path: path@ },
            ResumeNext::LoadPersona { path } => ResumeNextView::LoadPersona { path: path@ },
            ResumeNext::LoadProfile { path } => ResumeNextView::LoadProfile { path: path@ },
            ResumeNext::LoadPersonaProfile { path } => ResumeNextView::LoadPersonaProfile {
                path: path@,
            },
            ResumeNext::WriteProfile { path, profile } => ResumeNextView::WriteProfile {
                path: path@,
                profile,
            },
            ResumeNext::Launch { adapter_id, system_prompt, profile } => ResumeNextView::Launch {
                adapter_id: adapter_id@,
                system_prompt: system_prompt@,
                profile,
            },
            ResumeNext::Done(Ok(())) => ResumeNextView::Resumed,
            ResumeNext::Done(Err(err)) => ResumeNextView::Failed(err@),
        }
    }
}

/// A failure that is told in these words.
pub open spec fn told(message: Seq<char>) -> ResumeNextView {
    ResumeNextView::Failed(ResumeErrorView::Other(message))
}

fn tell(message: &str) -> (next: ResumeNext)
    ensures
        next@ == told(message@),
{
    ResumeNext::Done(Err(ResumeError::Other(message.to_owned())))
}

/// A failure that is told by what was tried and the complaint.
pub open spec fn other(what: Seq<char>, complaint: Seq<char>) -> ResumeNextView {
    told(what + complaint)
}

fn fails(what: &str, complaint: &str) -> (next: ResumeNext)
    ensures
        next@ == other(what@, complaint@),
{
    let mut message: String = what.to_owned();
    message.append(complaint);
    ResumeNext::Done(Err(ResumeError::Other(message)))
}

/// Texts with a separator between each two.
pub open spec fn separated(parts: Seq<Seq<char>>, separator: Seq<char>) -> Seq<char>
    decreases parts.len(),
{
    if parts.len() == 0 {
        Seq::empty()
    } else if parts.len() == 1 {
        parts[0]
    } else {
        separated(parts.drop_last(), separator) + separator + parts.last()
    }
}

fn separate(parts: &Vec<String>, separator: &str) -> (text: String)
    ensures
        text@ == separated(texts(parts@), separator@),
{
    let ghost ps: Seq<Seq<char>> = texts(parts@);
    let mut text: String = "".to_owned();
    let mut i: usize = 0;
    proof {
        reveal_strlit("");
        assert(ps.take(0) =~= Seq::empty());
        assert(text@ =~= Seq::empty());
    }
    while i < parts.len()
        invariant
            ps == texts(parts@),
            i <= parts@.len(),
            text@ == separated(ps.take(i as int), separator@),
        decreases parts.len() - i,
    {
        proof {
            assert(ps.take(i + 1).drop_last() =~= ps.take(i as int));
            assert(ps.take(i + 1).last() == parts@[i as int]@);
        }
        if i > 0 {
            text.append(separator);
        }
        text.append(parts[i].as_str());
        assert(i == 0 ==> text@ =~= parts@[0]@);
        i = i + 1;
    }
    assert(ps.take(i as int) =~= ps);
    text
}

/// No adapter that runs has the id.
pub open spec fn no_adapter(id: Seq<char>, available: Seq<Seq<char>>) -> ResumeNextView {
    told(
        "no running adapter matches snapshot adapter_id '"@ + id + "'; available: ["@ + separated(
            available,
            ", "@,
        ) + "]"@,
    )
}

/// The persona of an agent: the one of its record, else the one of its
/// snapshot.
pub open spec fn persona_of(record: RecordView, snapshot: SpawnSnapshot) -> Seq<char> {
    match record.persona_name {
        Some(name) => name,
        None => snapshot.persona_name@,
    }
}

/// What to do once the profile is there.
pub open spec fn launch_rule(
    snapshot: SpawnSnapshot,
    prompt: Seq<char>,
    profile: ProfileSource,
    seen: ResumeReplies,
) -> ResumeNextView {
    match seen.launched {
        None => ResumeNextView::Launch {
            adapter_id: snapshot.adapter_id@,
            system_prompt: prompt,
            profile,
        },
        Some(Err(message)) => told(message@),
        Some(Ok(())) => ResumeNextView::Resumed,
    }
}

/// The rule for the profile: the agent's own counts. Only where there is none
/// is the persona's taken and written as the agent's own; one that is there
/// but not acceptable is never replaced.
pub open spec fn profile_rule(
    data_dir: Seq<char>,
    record: RecordView,
    snapshot: SpawnSnapshot,
    prompt: Seq<char>,
    seen: ResumeReplies,
) -> ResumeNextView {
    let own = joined_path(agent_root(data_dir, record.name), "profile.toml"@);
    match seen.profile {
        None => ResumeNextView::LoadProfile { path: own },
        Some(Ok(_)) => launch_rule(snapshot, prompt, ProfileSource::Own, seen),
        Some(Err(err)) => if !err@.absent() {
            other("load agent profile snapshot: "@, err@.shown())
        } else {
            match seen.persona_profile {
                None => ResumeNextView::LoadPersonaProfile {
                    path: joined_path(
                        joined_path(
                            joined_path(data_dir, "personas"@),
                            persona_of(record, snapshot),
                        ),
                        "profile.toml"@,
                    ),
                },
                Some(Err(err)) => if err@.absent() {
                    ResumeNextView::Failed(ResumeErrorView::ProfileMissing)
                } else {
                    other("load persona profile for synthesis: "@, err@.shown())
                },
                Some(Ok(_)) => match seen.profile_written {
                    None => ResumeNextView::WriteProfile {
                        path: own,
                        profile: ProfileSource::Persona,
                    },
                    Some(Err(err)) => other(
                        "write synthesized profile snapshot: "@,
                        err@.shown(),
                    ),
                    Some(Ok(())) => launch_rule(snapshot, prompt, ProfileSource::Persona, seen),
                },
            }
        },
    }
}

/// The rule for an agent whose snapshot is there: its adapter must run, and
/// an empty prompt is the persona's.
pub open spec fn snapshot_rule(
    data_dir: Seq<char>,
    adapters: Seq<Seq<char>>,
    record: RecordView,
    snapshot: SpawnSnapshot,
    seen: ResumeReplies,
) -> ResumeNextView {
    if !adapters.contains(snapshot.adapter_id@) {
        no_adapter(snapshot.adapter_id@, adapters)
    } else if snapshot.system_prompt@.len() > 0 {
        profile_rule(data_dir, record, snapshot, snapshot.system_prompt@, seen)
    } else {
        match seen.persona {
            None => ResumeNextView::LoadPersona {
                path: joined_path(
                    joined_path(joined_path(data_dir, "personas"@), persona_of(record, snapshot)),
                    "config.toml"@,
                ),
            },
            Some(Err(err)) => other("load persona for prompt fallback: "@, err@.shown()),
            Some(Ok(persona)) => profile_rule(
                data_dir,
                record,
                snapshot,
                persona.system_prompt@,
                seen,
            ),
        }
    }
}

/// The rule for resuming an agent: its key must be the one that is
/// registered, and its snapshot there.
pub open spec fn resume_rule(
    data_dir: Seq<char>,
    adapters: Seq<Seq<char>>,
    record: RecordView,
    seen: ResumeReplies,
) -> ResumeNextView {
    let root = agent_root(data_dir, record.name);
    if !valid_agent_name(record.name) {
        other("open agent dirs: "@, name_refusal(record.name).shown())
    } else {
        match seen.keypair {
            None => ResumeNextView::LoadKeypair { path: joined_path(root, "identity.key"@) },
            Some(Err(err)) => other("load keypair: "@, err@.shown()),
            Some(Ok(keypair)) => match seen.keys {
                None => ResumeNextView::LookupKeys { id: record.identity_id },
                Some(Err(source)) => other("identity lookup: "@, source@),
                Some(Ok(None)) => told("identity registry has no entry for this agent"@),
                Some(Ok(Some(keys))) => if keys@.len() == 0 {
                    told("stored identity has no key records"@)
                } else if keys@[0]@ != ed25519_public_key(keypair.seed_bytes()) {
                    told("on-disk identity.key does not match stored public key for this agent"@)
                } else {
                    match seen.snapshot {
                        None => ResumeNextView::ReadSnapshot {
                            path: joined_path(root, "agent.toml"@),
                        },
                        Some(SnapshotRead::Unreadable(source)) => other(
                            "read agent.toml: "@,
                            source@,
                        ),
                        Some(SnapshotRead::Unparsable(source)) => other(
                            "parse agent.toml: "@,
                            source@,
                        ),
                        Some(SnapshotRead::Snapshot(snapshot)) => snapshot_rule(
                            data_dir,
                            adapters,
                            record,
                            snapshot,
                            seen,
                        ),
                    }
                },
            },
        }
    }
}

fn persona_name<'a>(record: &'a AgentRecord, snapshot: &'a SpawnSnapshot) -> (name: &'a str)
    ensures
        name@ == persona_of(record@, *snapshot),
{
    match &record.persona_name {
        Some(name) => name.as_str(),
        None => snapshot.persona_name.as_str(),
    }
}

fn launch(
    snapshot: &SpawnSnapshot,
    prompt: &str,
    profile: ProfileSource,
    seen: &ResumeReplies,
) -> (next: ResumeNext)
    ensures
        next@ == launch_rule(*snapshot, prompt@, profile, *seen),
{
    match &seen.launched {
        None => ResumeNext::Launch {
            adapter_id: snapshot.adapter_id.clone(),
            system_prompt: prompt.to_owned(),
            profile,
        },
        Some(Err(message)) => tell(message.as_str()),
        Some(Ok(())) => ResumeNext::Done(Ok(())),
    }
}

fn with_profile(
    data_dir: &str,
    dirs: &AgentDirs,
    record: &AgentRecord,
    snapshot: &SpawnSnapshot,
    prompt: &str,
    seen: &ResumeReplies,
) -> (next: ResumeNext)
    requires
        dirs@ == agent_root(data_dir@, record@.name),
    ensures
        next@ == profile_rule(data_dir@, record@, *snapshot, prompt@, *seen),
{
    match &seen.profile {
        None => ResumeNext::LoadProfile { path: dirs.profile_path() },
        Some(Ok(_)) => launch(snapshot, prompt, ProfileSource::Own, seen),
        Some(Err(err)) => {
            if !err.is_absent() {
                return fails("load agent profile snapshot: ", err.to_string().as_str());
            }
            match &seen.persona_profile {
                None => ResumeNext::LoadPersonaProfile {
                    path: RuntimeLayout::new(data_dir).persona_profile_path(
                        persona_name(record, snapshot),
                    ),
                },
                Some(Err(err)) => {
                    if err.is_absent() {
                        return ResumeNext::Done(Err(ResumeError::ProfileMissing));
                    }
                    fails("load persona profile for synthesis: ", err.to_string().as_str())
                },
                Some(Ok(_)) => match &seen.profile_written {
                    None => ResumeNext::WriteProfile {
                        path: dirs.profile_path(),
                        profile: ProfileSource::Persona,
                    },
                    Some(Err(err)) => fails(
                        "write synthesized profile snapshot: ",
                        err.to_string().as_str(),
                    ),
                    Some(Ok(())) => launch(snapshot, prompt, ProfileSource::Persona, seen),
                },
            }
        },
    }
}

fn with_snapshot(
    data_dir: &str,
    dirs: &AgentDirs,
    adapters: &Vec<String>,
    record: &AgentRecord,
    snapshot: &SpawnSnapshot,
    seen: &ResumeReplies,
) -> (next: ResumeNext)
    requires
        dirs@ == agent_root(data_dir@, record@.name),
    ensures
        next@ == snapshot_rule(data_dir@, texts(adapters@), record@, *snapshot, *seen),
{
    if !holds_text(adapters, snapshot.adapter_id.as_str()) {
        let mut message: String =
            "no running adapter matches snapshot adapter_id '".to_owned();
        let available: String = separate(adapters, ", ");
        message.append(snapshot.adapter_id.as_str());
        message.append("'; available: [");
        message.append(available.as_str());
        message.append("]");
        return tell(message.as_str());
    }
    if !snapshot.system_prompt.as_str().is_empty() {
        return with_profile(
            data_dir,
            dirs,
            record,
            snapshot,
            snapshot.system_prompt.as_str(),
            seen,
        );
    }
    match &seen.persona {
        None => ResumeNext::LoadPersona {
            path: RuntimeLayout::new(data_dir).persona_config_path(persona_name(record, snapshot)),
        },
        Some(Err(err)) => fails("load persona for prompt fallback: ", err.to_string().as_str()),
        Some(Ok(persona)) => with_profile(
            data_dir,
            dirs,
            record,
            snapshot,
            persona.system_prompt.as_str(),
            seen,
        ),
    }
}

/// What to do next to resume one agent, when the adapters with these ids run.
pub fn resume_one_subagent(
    data_dir: &str,
    adapters: &Vec<String>,
    record: &AgentRecord,
    seen: &ResumeReplies,
) -> (next: ResumeNext)
    ensures
        next@ == resume_rule(data_dir@, texts(adapters@), record@, *seen),
{
    let dirs: AgentDirs = match AgentDirs::open(data_dir, record.name.as_str()) {
        Ok(dirs) => dirs,
        Err(err) => {
            return fails("open agent dirs: ", err.to_string().as_str());
        },
    };
    let keypair: &Keypair = match &seen.keypair {
        None => {
            return ResumeNext::LoadKeypair { path: dirs.identity_key_path() };
        },
        Some(Err(err)) => {
            return fails("load keypair: ", err.to_string().as_str());
        },
        Some(Ok(keypair)) => keypair,
    };
    match &seen.keys {
        None => {
            return ResumeNext::LookupKeys { id: record.identity_id.clone() };
        },
        Some(Err(source)) => {
            return fails("identity lookup: ", source.as_str());
        },
        Some(Ok(None)) => {
            return tell("identity registry has no entry for this agent");
        },
        Some(Ok(Some(keys))) => {
            if keys.len() == 0 {
                return tell("stored identity has no key records");
            }
            if !same_bytes(&keys[0], keypair.public()) {
                return tell("on-disk identity.key does not match stored public key for this agent");
            }
        },
    }
    match &seen.snapshot {
        None => ResumeNext::ReadSnapshot { path: dirs.agent_toml_path() },
        Some(SnapshotRead::Unreadable(source)) => fails("read agent.toml: ", source.as_str()),
        Some(SnapshotRead::Unparsable(source)) => fails("parse agent.toml: ", source.as_str()),
        Some(SnapshotRead::Snapshot(snapshot)) => with_snapshot(
            data_dir,
            &dirs,
            adapters,
            record,
            snapshot,
            seen,
        ),
    }
}

// ── All agents ───────────────────────────────────────────────────────────────

/// What resuming one agent came to.
#[derive(Debug, PartialEq, Eq)]
pub struct AgentOutcome {
    pub result: Result<(), ResumeError>,
    /// Whether an agent that could not be resumed is marked as stopped.
    pub marked: bool,
}

/// What to do next to resume all agents.
#[derive(Debug, PartialEq, Eq)]
pub enum ResumeAllNext {
    /// Resume this agent.
    Resume(AgentRecord),
    /// Mark this agent as stopped, with the reason where there is one.
    MarkStopped { name: String, reason: Option<&'static str> },
    /// Nothing: all were tried.
    Done,
}

/// What to do next to resume all agents.
#[allow(inconsistent_fields)]
pub enum ResumeAllView {
    Resume(RecordView),
    MarkStopped { name: Seq<char>, reason: Option<Seq<char>> },
    Done,
}

impl View for ResumeAllNext {
    type V = ResumeAllView;

    open spec fn view(&self) -> ResumeAllView {
        match *self {
            ResumeAllNext::Resume(record) => ResumeAllView::Resume(record@),
            ResumeAllNext::MarkStopped { name, reason } => ResumeAllView::MarkStopped {
                name: name@,
                reason: match reason {
                    Some(r) => Some(r@),
                    None => None,
                },
            },
            ResumeAllNext::Done => ResumeAllView::Done,
        }
    }
}

/// Why an agent that could not be resumed is stopped, as its record tells.
pub open spec fn stop_reason(err: ResumeErrorView) -> Option<Seq<char>> {
    match err {
        ResumeErrorView::ProfileMissing => Some("profile_missing"@),
        ResumeErrorView::Other(_) => None,
    }
}

fn reason_of(err: &ResumeError) -> (reason: Option<&'static str>)
    ensures
        match (reason, stop_reason(err@)) {
            (Some(r), Some(t)) => r@ == t,
            (None, None) => true,
            _ => false,
        },
{
    match err {
        ResumeError::ProfileMissing => Some("profile_missing"),
        ResumeError::Other(_) => None,
    }
}

/// The agents that are to be resumed: all that are not retired, in order.
pub open spec fn resumable(records: Seq<RecordView>) -> Seq<RecordView> {
    records.filter(|r: RecordView| r.status != AgentStatus::Retired)
}

/// The rule for all agents, from the `i`-th record and the `k`-th outcome on:
/// each that is not retired is tried once, and one that fails is marked
/// before the next is tried.
pub open spec fn resume_all_rule(
    records: Seq<RecordView>,
    outcomes: Seq<AgentOutcome>,
    i: int,
    k: int,
) -> ResumeAllView
    decreases records.len() - i,
{
    if i >= records.len() {
        ResumeAllView::Done
    } else if records[i].status == AgentStatus::Retired {
        resume_all_rule(records, outcomes, i + 1, k)
    } else if k >= outcomes.len() {
        ResumeAllView::Resume(records[i])
    } else {
        match outcomes[k].result {
            Ok(()) => resume_all_rule(records, outcomes, i + 1, k + 1),
            Err(err) => if outcomes[k].marked {
                resume_all_rule(records, outcomes, i + 1, k + 1)
            } else {
                ResumeAllView::MarkStopped { name: records[i].name, reason: stop_reason(err@) }
            },
        }
    }
}

/// What to do next to resume the agents of the registry. Where it could not
/// be opened, none is resumed.
pub fn resume_persisted_subagents(
    opened: &Result<AgentRegistry, AgentRegistryError>,
    outcomes: &Vec<AgentOutcome>,
) -> (next: ResumeAllNext)
    requires
        opened matches Ok(registry) ==> registry.wf(),
    ensures
        match *opened {
            Err(_) => next@ is Done,
            Ok(registry) => next@ == resume_all_rule(registry.listed(), outcomes@, 0, 0),
        },
{
    let registry: &AgentRegistry = match opened {
        Ok(registry) => registry,
        Err(_) => {
            return ResumeAllNext::Done;
        },
    };
    let records: &Vec<AgentRecord> = registry.list();
    let ghost rs: Seq<RecordView> = registry.listed();
    let mut i: usize = 0;
    let mut k: usize = 0;
    while i < records.len()
        invariant
            opened matches Ok(r) && r == registry,
            rs == registry.listed(),
            rs == records_view(records@),
            i <= records@.len(),
            k <= i,
            resume_all_rule(rs, outcomes@, 0, 0) == resume_all_rule(
                rs,
                outcomes@,
                i as int,
                k as int,
            ),
        decreases records.len() - i,
    {
        assert(rs[i as int] == records@[i as int]@);
        if records[i].status != AgentStatus::Retired {
            if k >= outcomes.len() {
                return ResumeAllNext::Resume(records[i].clone());
            }
            match &outcomes[k].result {
                Ok(()) => {},
                Err(err) => {
                    if !outcomes[k].marked {
                        return ResumeAllNext::MarkStopped {
                            name: records[i].name.as_str().to_owned(),
                            reason: reason_of(err),
                        };
                    }
                },
            }
            k = k + 1;
        }
        i = i + 1;
    }
    ResumeAllNext::Done
}

/// Marks an agent that could not be resumed as stopped, with the reason where
/// there is one. An agent that is not registered is left alone. The registry
/// is then to be written: this is the first step of that.
#[must_use]
pub fn mark_stopped(registry: &mut AgentRegistry, name: &str, reason: Option<&'static str>) -> (next:
    FlushNext)
    requires
        old(registry).wf(),
    ensures
        final(registry).wf(),
        final(registry).path() == old(registry).path(),
        changes(
            *old(registry),
            *final(registry),
            name@,
            with_status(
                old(registry)@,
                name@,
                AgentStatus::Stopped,
                match reason {
                    Some(r) => Some(r@),
                    None => None,
                },
            ),
            next@,
        ),
{
    match reason {
        Some(reason) => registry.update_stopped_with_reason(name, reason),
        None => registry.update_status(name, AgentStatus::Stopped),
    }
}

// ── Laws ─────────────────────────────────────────────────────────────────────

/// The profile of an agent is written only where it has none, and only from
/// its persona's: one that is there and not acceptable is never replaced.
pub proof fn law_profiles_are_never_replaced(
    data_dir: Seq<char>,
    adapters: Seq<Seq<char>>,
    record: RecordView,
    seen: ResumeReplies,
)
    ensures
        resume_rule(data_dir, adapters, record, seen) matches ResumeNextView::WriteProfile {
            profile,
            ..
        } ==> {
            &&& profile == ProfileSource::Persona
            &&& seen.profile matches Some(Err(err)) && err@.absent()
            &&& seen.persona_profile matches Some(Ok(_))
        },
{
}

/// No agent is launched without a profile, with another key than the one
/// that is registered, or on an adapter that does not run.
pub proof fn law_no_agent_runs_unenforced(
    data_dir: Seq<char>,
    adapters: Seq<Seq<char>>,
    record: RecordView,
    seen: ResumeReplies,
)
    ensures
        resume_rule(data_dir, adapters, record, seen) matches ResumeNextView::Launch {
            adapter_id,
            profile,
            ..
        } ==> {
            &&& adapters.contains(adapter_id)
            &&& seen.keypair matches Some(Ok(keypair)) && (seen.keys matches Some(Ok(Some(keys)))
                && keys@.len() > 0 && keys@[0]@ == ed25519_public_key(keypair.seed_bytes()))
            &&& profile == ProfileSource::Own ==> (seen.profile matches Some(Ok(_)))
            &&& profile == ProfileSource::Persona ==> (seen.profile_written matches Some(Ok(_)))
        },
{
}

/// Where neither the agent nor its persona has a profile, the agent is
/// stopped with the reason that tells so.
pub proof fn law_missing_profile_is_told(
    data_dir: Seq<char>,
    adapters: Seq<Seq<char>>,
    record: RecordView,
    seen: ResumeReplies,
)
    ensures
        resume_rule(data_dir, adapters, record, seen) == ResumeNextView::Failed(
            ResumeErrorView::ProfileMissing,
        ) ==> {
            &&& seen.profile matches Some(Err(err)) && err@.absent()
            &&& seen.persona_profile matches Some(Err(err)) && err@.absent()
        },
        stop_reason(ResumeErrorView::ProfileMissing) == Some("profile_missing"@),
{
}

proof fn lemma_resumable_step(records: Seq<RecordView>, i: int)
    requires
        0 <= i < records.len(),
    ensures
        records[i].status != AgentStatus::Retired ==> resumable(records.take(i + 1)) == resumable(
            records.take(i),
        ).push(records[i]),
        records[i].status == AgentStatus::Retired ==> resumable(records.take(i + 1)) == resumable(
            records.take(i),
        ),
{
    reveal(Seq::filter);
    assert(records.take(i + 1).drop_last() =~= records.take(i));
}

proof fn lemma_resumable_prefix(records: Seq<RecordView>, i: int, n: int)
    requires
        0 <= i <= n <= records.len(),
    ensures
        resumable(records.take(i)).is_prefix_of(resumable(records.take(n))),
    decreases n,
{
    if i < n {
        lemma_resumable_prefix(records, i, n - 1);
        lemma_resumable_step(records, n - 1);
        let a = resumable(records.take(i));
        let b = resumable(records.take(n - 1));
        let c = resumable(records.take(n));
        assert(a =~= c.subrange(0, a.len() as int)) by {
            assert forall|x: int| 0 <= x < a.len() implies a[x] == c[x] by {
                assert(a[x] == b.subrange(0, a.len() as int)[x]);
            }
        }
    } else {
        let a = resumable(records.take(i));
        assert(a =~= a.subrange(0, a.len() as int));
    }
}

proof fn lemma_resume_from(
    records: Seq<RecordView>,
    outcomes: Seq<AgentOutcome>,
    i: int,
    k: int,
)
    requires
        0 <= i <= records.len(),
        k == resumable(records.take(i)).len(),
        k <= outcomes.len(),
    ensures
        resume_all_rule(records, outcomes, i, k) matches ResumeAllView::Resume(record) ==> {
            &&& outcomes.len() < resumable(records).len()
            &&& record == resumable(records)[outcomes.len() as int]
        },
        resume_all_rule(records, outcomes, i, k) is Done ==> resumable(records).len()
            <= outcomes.len(),
    decreases records.len() - i,
{
    if i < records.len() {
        lemma_resumable_step(records, i);
        if records[i].status == AgentStatus::Retired {
            lemma_resume_from(records, outcomes, i + 1, k);
        } else if k >= outcomes.len() {
            lemma_resumable_prefix(records, i + 1, records.len() as int);
            assert(records.take(records.len() as int) =~= records);
            let upto = resumable(records.take(i + 1));
            let all = resumable(records);
            assert(upto[k] == all.subrange(0, upto.len() as int)[k]);
        } else {
            lemma_resume_from(records, outcomes, i + 1, k + 1);
        }
    } else {
        assert(records.take(i) =~= records);
    }
}

/// Every agent that is not retired is tried, one after the other, whatever
/// became of the others; and no retired agent ever is.
pub proof fn law_one_failure_stops_no_other(
    records: Seq<RecordView>,
    outcomes: Seq<AgentOutcome>,
)
    ensures
        resume_all_rule(records, outcomes, 0, 0) matches ResumeAllView::Resume(record) ==> {
            &&& outcomes.len() < resumable(records).len()
            &&& record == resumable(records)[outcomes.len() as int]
            &&& record.status != AgentStatus::Retired
        },
        resume_all_rule(records, outcomes, 0, 0) is Done ==> resumable(records).len()
            <= outcomes.len(),
{
    reveal(Seq::filter);
    assert(records.take(0) =~= Seq::empty());
    assert(resumable(records.take(0)) =~= Seq::empty());
    lemma_resume_from(records, outcomes, 0, 0);
    lemma_resumed_is_not_retired(records, outcomes, 0, 0);
}

proof fn lemma_resumed_is_not_retired(
    records: Seq<RecordView>,
    outcomes: Seq<AgentOutcome>,
    i: int,
    k: int,
)
    requires
        0 <= i,
    ensures
        resume_all_rule(records, outcomes, i, k) matches ResumeAllView::Resume(record)
            ==> record.status != AgentStatus::Retired,
    decreases records.len() - i,
{
    if i < records.len() {
        lemma_resumed_is_not_retired(records, outcomes, i + 1, k);
        lemma_resumed_is_not_retired(records, outcomes, i + 1, k + 1);
    }
}

/// An agent comes back as it was spawned: whenever one is launched, whatever
/// its profile's source, it runs on its snapshot's adapter, with its snapshot's
/// prompt, or, where that is empty, with the prompt of the persona that was
/// loaded for it. Its own profile counts where it could be loaded, and only else
/// its persona's.
pub proof fn law_agents_come_back_as_they_were(
    data_dir: Seq<char>,
    adapters: Seq<Seq<char>>,
    record: RecordView,
    seen: ResumeReplies,
)
    ensures
        resume_rule(data_dir, adapters, record, seen) matches ResumeNextView::Launch {
            adapter_id,
            system_prompt,
            profile,
        } ==> {
            &&& seen.snapshot matches Some(SnapshotRead::Snapshot(snapshot)) && {
                &&& adapter_id == snapshot.adapter_id@
                &&& snapshot.system_prompt@.len() > 0 ==> system_prompt == snapshot.system_prompt@
                &&& snapshot.system_prompt@.len() == 0 ==> (seen.persona matches Some(Ok(persona))
                    && system_prompt == persona.system_prompt@)
            }
            &&& profile == ProfileSource::Own <==> (seen.profile matches Some(Ok(_)))
            &&& profile == ProfileSource::Persona ==> (seen.profile matches Some(Err(err))
                && err@.absent()) && (seen.persona_profile matches Some(Ok(_)))
            &&& seen.launched is None
        },
{
}

/// An agent whose key is the registered one, whose snapshot is there and whose
/// adapter runs.
pub open spec fn fit_to_resume(
    adapters: Seq<Seq<char>>,
    record: RecordView,
    snapshot: SpawnSnapshot,
    seen: ResumeReplies,
) -> bool {
    &&& valid_agent_name(record.name)
    &&& seen.keypair matches Some(Ok(keypair)) && (seen.keys matches Some(Ok(Some(keys)))
        && keys@.len() > 0 && keys@[0]@ == ed25519_public_key(keypair.seed_bytes()))
    &&& seen.snapshot == Some(SnapshotRead::Snapshot(snapshot))
    &&& adapters.contains(snapshot.adapter_id@)
}

/// The prompt that an agent comes back with: its snapshot's, or its persona's
/// where that is empty.
pub open spec fn prompt_is(snapshot: SpawnSnapshot, seen: ResumeReplies, prompt: Seq<char>) -> bool {
    if snapshot.system_prompt@.len() > 0 {
        prompt == snapshot.system_prompt@
    } else {
        seen.persona matches Some(Ok(persona)) && prompt == persona.system_prompt@
    }
}

/// An agent that is fit to be resumed is resumed: its profile is loaded from
/// its own directory, or made from its persona's where it has none; it is then
/// launched, and what launching came to is what resuming came to.
pub proof fn law_fit_agents_are_launched(
    data_dir: Seq<char>,
    adapters: Seq<Seq<char>>,
    record: RecordView,
    snapshot: SpawnSnapshot,
    prompt: Seq<char>,
    seen: ResumeReplies,
)
    requires
        fit_to_resume(adapters, record, snapshot, seen),
        prompt_is(snapshot, seen, prompt),
    ensures
        ({
            let next = resume_rule(data_dir, adapters, record, seen);
            let home = joined_path(joined_path(data_dir, "agents"@), record.name);
            let own = joined_path(home, "profile.toml"@);
            let persona = match record.persona_name {
                Some(name) => name,
                None => snapshot.persona_name@,
            };
            let launched = |profile: ProfileSource|
                match seen.launched {
                    None => next == ResumeNextView::Launch {
                        adapter_id: snapshot.adapter_id@,
                        system_prompt: prompt,
                        profile,
                    },
                    Some(Ok(())) => next is Resumed,
                    Some(Err(message)) => next == ResumeNextView::Failed(
                        ResumeErrorView::Other(message@),
                    ),
                };
            match seen.profile {
                None => next == ResumeNextView::LoadProfile { path: own },
                Some(Ok(_)) => launched(ProfileSource::Own),
                Some(Err(err)) => if !err@.absent() {
                    next == ResumeNextView::Failed(
                        ResumeErrorView::Other("load agent profile snapshot: "@ + err@.shown()),
                    )
                } else {
                    match seen.persona_profile {
                        None => next == ResumeNextView::LoadPersonaProfile {
                            path: joined_path(
                                joined_path(joined_path(data_dir, "personas"@), persona),
                                "profile.toml"@,
                            ),
                        },
                        Some(Err(err)) => next == if err@.absent() {
                            ResumeNextView::Failed(ResumeErrorView::ProfileMissing)
                        } else {
                            ResumeNextView::Failed(
                                ResumeErrorView::Other(
                                    "load persona profile for synthesis: "@ + err@.shown(),
                                ),
                            )
                        },
                        Some(Ok(_)) => match seen.profile_written {
                            None => next == ResumeNextView::WriteProfile {
                                path: own,
                                profile: ProfileSource::Persona,
                            },
                            Some(Err(err)) => next == ResumeNextView::Failed(
                                ResumeErrorView::Other(
                                    "write synthesized profile snapshot: "@ + err@.shown(),
                                ),
                            ),
                            Some(Ok(())) => launched(ProfileSource::Persona),
                        },
                    }
                },
            }
        }),
{
}

/// Everything that resuming looks at is the agent's own: its key, its snapshot
/// and its profile stand in its own directory, its identity is the one of its
/// record, and its persona is the one of its record, or of its snapshot where
/// the record has none.
pub proof fn law_resuming_looks_at_the_agent(
    data_dir: Seq<char>,
    adapters: Seq<Seq<char>>,
    record: RecordView,
    seen: ResumeReplies,
)
    ensures
        ({
            let home = joined_path(joined_path(data_dir, "agents"@), record.name);
            let personas = joined_path(data_dir, "personas"@);
            let persona = match (record.persona_name, seen.snapshot) {
                (Some(name), _) => name,
                (None, Some(SnapshotRead::Snapshot(snapshot))) => snapshot.persona_name@,
                _ => arbitrary(),
            };
            match resume_rule(data_dir, adapters, record, seen) {
                ResumeNextView::LoadKeypair { path } => path == joined_path(
                    home,
                    "identity.key"@,
                ) && seen.keypair is None,
                ResumeNextView::LookupKeys { id } => id == record.identity_id && seen.keys is None,
                ResumeNextView::ReadSnapshot { path } => path == joined_path(home, "agent.toml"@)
                    && seen.snapshot is None,
                ResumeNextView::LoadPersona { path } => path == joined_path(
                    joined_path(personas, persona),
                    "config.toml"@,
                ) && seen.persona is None && (
                seen.snapshot matches Some(SnapshotRead::Snapshot(snapshot))
                    && snapshot.system_prompt@.len() == 0),
                ResumeNextView::LoadProfile { path } => path == joined_path(home, "profile.toml"@)
                    && seen.profile is None,
                ResumeNextView::LoadPersonaProfile { path } => path == joined_path(
                    joined_path(personas, persona),
                    "profile.toml"@,
                ) && seen.persona_profile is None,
                ResumeNextView::WriteProfile { path, profile } => path == joined_path(
                    home,
                    "profile.toml"@,
                ) && profile == ProfileSource::Persona && seen.profile_written is None,
                ResumeNextView::Launch { .. } => seen.launched is None,
                ResumeNextView::Resumed => seen.launched matches Some(Ok(_)),
                ResumeNextView::Failed(_) => true,
            }
        }),
{
}

/// Why an agent is not resumed before its profile is looked at, in words: a name
/// it may not have, a key that cannot be loaded or is not the registered one, a
/// snapshot that cannot be read, an adapter that does not run, a persona whose
/// prompt is needed and cannot be had.
pub proof fn law_unfit_agents_are_told(
    data_dir: Seq<char>,
    adapters: Seq<Seq<char>>,
    record: RecordView,
    seen: ResumeReplies,
)
    ensures
        ({
            let next = resume_rule(data_dir, adapters, record, seen);
            let says = |words: Seq<char>|
                next == ResumeNextView::Failed(ResumeErrorView::Other(words));
            if !valid_agent_name(record.name) {
                says("open agent dirs: "@ + name_refusal(record.name).shown())
            } else {
                match (seen.keypair, seen.keys) {
                    (None, _) => next is LoadKeypair,
                    (Some(Err(err)), _) => says("load keypair: "@ + err@.shown()),
                    (Some(Ok(_)), None) => next is LookupKeys,
                    (Some(Ok(_)), Some(Err(source))) => says("identity lookup: "@ + source@),
                    (Some(Ok(_)), Some(Ok(None))) => says(
                        "identity registry has no entry for this agent"@,
                    ),
                    (Some(Ok(keypair)), Some(Ok(Some(keys)))) => if keys@.len() == 0 {
                        says("stored identity has no key records"@)
                    } else if keys@[0]@ != ed25519_public_key(keypair.seed_bytes()) {
                        says(
                            "on-disk identity.key does not match stored public key for this agent"@,
                        )
                    } else {
                        match seen.snapshot {
                            None => next is ReadSnapshot,
                            Some(SnapshotRead::Unreadable(source)) => says(
                                "read agent.toml: "@ + source@,
                            ),
                            Some(SnapshotRead::Unparsable(source)) => says(
                                "parse agent.toml: "@ + source@,
                            ),
                            Some(SnapshotRead::Snapshot(snapshot)) => if !adapters.contains(
                                snapshot.adapter_id@,
                            ) {
                                says(
                                    "no running adapter matches snapshot adapter_id '"@
                                        + snapshot.adapter_id@ + "'; available: ["@ + separated(
                                        adapters,
                                        ", "@,
                                    ) + "]"@,
                                )
                            } else if snapshot.system_prompt@.len() == 0 {
                                match seen.persona {
                                    None => next is LoadPersona,
                                    Some(Err(err)) => says(
                                        "load persona for prompt fallback: "@ + err@.shown(),
                                    ),
                                    Some(Ok(_)) => true,
                                }
                            } else {
                                true
                            },
                        }
                    },
                }
            }
        }),
{
}

/// The first `n` attempts are settled: each succeeded, or its agent is marked.
pub open spec fn settled_upto(outcomes: Seq<AgentOutcome>, n: int) -> bool {
    &&& n <= outcomes.len()
    &&& forall|k: int|
        0 <= k < n ==> (#[trigger] outcomes[k]).result is Ok || outcomes[k].marked
}

proof fn lemma_marked_from(
    records: Seq<RecordView>,
    outcomes: Seq<AgentOutcome>,
    i: int,
    k: int,
)
    requires
        0 <= i <= records.len(),
        k == resumable(records.take(i)).len(),
        settled_upto(outcomes, k),
    ensures
        match resume_all_rule(records, outcomes, i, k) {
            ResumeAllView::Resume(_) => settled_upto(outcomes, outcomes.len() as int),
            ResumeAllView::MarkStopped { name, reason } => exists|n: int|
                {
                    &&& 0 <= n < outcomes.len()
                    &&& n < resumable(records).len()
                    &&& settled_upto(outcomes, n)
                    &&& !(#[trigger] outcomes[n]).marked
                    &&& name == resumable(records)[n].name
                    &&& outcomes[n].result matches Err(err) && reason == (match err {
                        ResumeError::ProfileMissing => Some("profile_missing"@),
                        ResumeError::Other(_) => None,
                    })
                },
            ResumeAllView::Done => settled_upto(outcomes, resumable(records).len() as int),
        },
    decreases records.len() - i,
{
    if i < records.len() {
        lemma_resumable_step(records, i);
        if records[i].status == AgentStatus::Retired {
            lemma_marked_from(records, outcomes, i + 1, k);
        } else if k < outcomes.len() {
            if outcomes[k].result is Ok || outcomes[k].marked {
                lemma_marked_from(records, outcomes, i + 1, k + 1);
            } else {
                lemma_resumable_prefix(records, i + 1, records.len() as int);
                assert(records.take(records.len() as int) =~= records);
                let upto = resumable(records.take(i + 1));
                let all = resumable(records);
                assert(upto[k] == all.subrange(0, upto.len() as int)[k]);
                assert(!outcomes[k].marked);
            }
        }
    } else {
        assert(records.take(i) =~= records);
    }
}

/// An agent that could not be resumed is marked as stopped, before any other is
/// tried: the agent that failed, and with the reason where it has no profile and
/// no other reason. Nothing is over before every failure is marked.
pub proof fn law_failures_are_marked(records: Seq<RecordView>, outcomes: Seq<AgentOutcome>)
    ensures
        match resume_all_rule(records, outcomes, 0, 0) {
            ResumeAllView::Resume(_) => settled_upto(outcomes, outcomes.len() as int),
            ResumeAllView::MarkStopped { name, reason } => exists|n: int|
                {
                    &&& 0 <= n < outcomes.len()
                    &&& n < resumable(records).len()
                    &&& settled_upto(outcomes, n)
                    &&& !(#[trigger] outcomes[n]).marked
                    &&& name == resumable(records)[n].name
                    &&& outcomes[n].result matches Err(err) && reason == (match err {
                        ResumeError::ProfileMissing => Some("profile_missing"@),
                        ResumeError::Other(_) => None,
                    })
                },
            ResumeAllView::Done => settled_upto(outcomes, resumable(records).len() as int),
        },
{
    reveal(Seq::filter);
    assert(records.take(0) =~= Seq::empty());
    assert(resumable(records.take(0)) =~= Seq::empty());
    lemma_marked_from(records, outcomes, 0, 0);
}

/// A list in words has each of its parts, in order, with a separator between.
pub proof fn law_lists_have_all_their_parts(
    parts: Seq<Seq<char>>,
    more: Seq<char>,
    separator: Seq<char>,
)
    ensures
        separated(parts.push(more), separator) == if parts.len() == 0 {
            more
        } else {
            separated(parts, separator) + separator + more
        },
{
    assert(parts.push(more).drop_last() =~= parts);
}

/// What is said of a step of a resumption is said of its own parts, each in its place.
pub proof fn law_resume_next_is_taken_as_it_is(value: ResumeNext)
    ensures
        match value {
            ResumeNext::LoadKeypair { path } => value@ == (ResumeNextView::LoadKeypair { path: path@ }),
            ResumeNext::LookupKeys { id } => value@ == (ResumeNextView::LookupKeys { id: id@ }),
            ResumeNext::ReadSnapshot { path } => value@ == (ResumeNextView::ReadSnapshot { path: path@ }),
            ResumeNext::LoadPersona { path } => value@ == (ResumeNextView::LoadPersona { path: path@ }),
            ResumeNext::LoadProfile { path } => value@ == (ResumeNextView::LoadProfile { path: path@ }),
            ResumeNext::LoadPersonaProfile { path } => value@ == (ResumeNextView::LoadPersonaProfile {
                path: path@,
            }),
            ResumeNext::WriteProfile { path, profile } => value@ == (ResumeNextView::WriteProfile {
                path: path@,
                profile,
            }),
            ResumeNext::Launch { adapter_id, system_prompt, profile } => value@ == (ResumeNextView::Launch {
                adapter_id: adapter_id@,
                system_prompt: system_prompt@,
                profile,
            }),
            ResumeNext::Done(Ok(())) => value@ == ResumeNextView::Resumed,
            ResumeNext::Done(Err(err)) => value@ == ResumeNextView::Failed(err@),
        },
{
}

} // verus!
