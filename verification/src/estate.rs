//! The estate coordinator: what the operator may do with engagements, teams
//! and agents.
//!
//! An operation is carried out one step at a time: a function tells the next
//! step from what the earlier ones came to. Each step that leaves a trace in
//! the audit log is followed by that trace before the next one is taken.

use vstd::prelude::*;
use vstd::string::*;
use vstd::utf8::*;

use crate::agent_fs::{is_valid_agent_name, valid_agent_name, RuntimeLayout};
use crate::agent_registry::{AgentRegistry, AgentRegistryError, AgentStatus, ValidatedAgentName};
use crate::audit::{events_view, lemma_events_push, AuditEvent, AuditView};
use crate::config::{members_view, ConfigError, MemberView, TeamConfig, TeamMember};
use crate::engagement::{
    open_rule, transition_rule, EngagementError, EngagementErrorView, EngagementRegistry,
    EngagementState, StoreNext, StoreNextView, StoreReplies,
};
use crate::identity::{lemma_texts_push, opt_text, texts, IdentityId, Timestamp};
use crate::io_error::IoError;
use crate::paths::joined_path;
use crate::team::{
    lemma_seats_push, seats_view, serves, serving, teams_view, Dispositions, MemberDisposition,
    SeatView, TeamMemberRecord, TeamRecord, TeamState, TeamView,
};
use crate::text::{decimal, fitting, same_text, truncate_at_char_boundary, write_decimal};

verus! {

/// The name that is kept for the coordinator; no agent may have it.
pub const ESTATE_AGENT_NAME: &'static str = "estate";

/// Most bytes of the reason in the trace of a refused team or agent
/// operation.
pub const MAX_REFUSAL_REASON_BYTES: usize = 256;

/// How long one mint is waited for, in seconds.
pub const MINT_TIMEOUT_SECS: u64 = 30;

// ── Operations ───────────────────────────────────────────────────────────────

/// An estate operation.
#[allow(inconsistent_fields)]
#[derive(Debug, PartialEq, Eq)]
pub enum EstateOp {
    /// Open an engagement, with the directory it works in.
    OpenEngagement { name: String, purpose: String, root: Option<String> },
    /// Close an open engagement.
    CloseEngagement { name: String },
    /// Reopen a closed engagement.
    ReopenEngagement { name: String },
    /// Form a team from a template, minting its members.
    FormTeam { name: String, template: String },
    /// Dissolve a team. A member that is not named is retired.
    DissolveTeam { name: String, dispositions: Dispositions },
    /// Mint an agent that belongs to no team.
    MintAgent { name: String, persona: String },
    /// Retire an agent that belongs to no team.
    RetireAgent { name: String },
}

/// What an operation holds.
#[allow(inconsistent_fields)]
pub enum OpView {
    OpenEngagement { name: Seq<char>, purpose: Seq<char>, root: Option<Seq<char>> },
    CloseEngagement { name: Seq<char> },
    ReopenEngagement { name: Seq<char> },
    FormTeam { name: Seq<char>, template: Seq<char> },
    DissolveTeam { name: Seq<char>, dispositions: Map<Seq<char>, MemberDisposition> },
    MintAgent { name: Seq<char>, persona: Seq<char> },
    RetireAgent { name: Seq<char> },
}

impl View for EstateOp {
    type V = OpView;

    open spec fn view(&self) -> OpView {
        match *self {
            EstateOp::OpenEngagement { name, purpose, root } => OpView::OpenEngagement {
                name: name@,
                purpose: purpose@,
                root: opt_text(root),
            },
            EstateOp::CloseEngagement { name } => OpView::CloseEngagement { name: name@ },
            EstateOp::ReopenEngagement { name } => OpView::ReopenEngagement { name: name@ },
            EstateOp::FormTeam { name, template } => OpView::FormTeam {
                name: name@,
                template: template@,
            },
            EstateOp::DissolveTeam { name, dispositions } => OpView::DissolveTeam {
                name: name@,
                dispositions: dispositions@,
            },
            EstateOp::MintAgent { name, persona } => OpView::MintAgent {
                name: name@,
                persona: persona@,
            },
            EstateOp::RetireAgent { name } => OpView::RetireAgent { name: name@ },
        }
    }
}

impl OpView {
    /// The word for the operation in the audit log.
    pub open spec fn verb_text(self) -> Seq<char> {
        match self {
            OpView::OpenEngagement { .. } => "open-engagement"@,
            OpView::CloseEngagement { .. } => "close-engagement"@,
            OpView::ReopenEngagement { .. } => "reopen-engagement"@,
            OpView::FormTeam { .. } => "form-team"@,
            OpView::DissolveTeam { .. } => "dissolve-team"@,
            OpView::MintAgent { .. } => "mint-agent"@,
            OpView::RetireAgent { .. } => "retire-agent"@,
        }
    }

    /// The name of what the operation is about.
    pub open spec fn target(self) -> Seq<char> {
        match self {
            OpView::OpenEngagement { name, .. } => name,
            OpView::CloseEngagement { name } => name,
            OpView::ReopenEngagement { name } => name,
            OpView::FormTeam { name, .. } => name,
            OpView::DissolveTeam { name, .. } => name,
            OpView::MintAgent { name, .. } => name,
            OpView::RetireAgent { name } => name,
        }
    }
}

impl EstateOp {
    /// The word for the operation in the audit log.
    pub fn verb(&self) -> (word: &'static str)
        ensures
            word@ == self@.verb_text(),
    {
        match self {
            EstateOp::OpenEngagement { .. } => "open-engagement",
            EstateOp::CloseEngagement { .. } => "close-engagement",
            EstateOp::ReopenEngagement { .. } => "reopen-engagement",
            EstateOp::FormTeam { .. } => "form-team",
            EstateOp::DissolveTeam { .. } => "dissolve-team",
            EstateOp::MintAgent { .. } => "mint-agent",
            EstateOp::RetireAgent { .. } => "retire-agent",
        }
    }

    /// The name of what the operation is about.
    pub fn name(&self) -> (name: &str)
        ensures
            name@ == self@.target(),
    {
        match self {
            EstateOp::OpenEngagement { name, .. } => name.as_str(),
            EstateOp::CloseEngagement { name } => name.as_str(),
            EstateOp::ReopenEngagement { name } => name.as_str(),
            EstateOp::FormTeam { name, .. } => name.as_str(),
            EstateOp::DissolveTeam { name, .. } => name.as_str(),
            EstateOp::MintAgent { name, .. } => name.as_str(),
            EstateOp::RetireAgent { name } => name.as_str(),
        }
    }
}

/// The token for a refused engagement operation in the audit log.
pub open spec fn refusal_token(err: EngagementErrorView) -> Seq<char> {
    match err {
        EngagementErrorView::InvalidName { .. } => "invalid_name"@,
        EngagementErrorView::NameTaken { .. } => "name_taken"@,
        EngagementErrorView::NotFound { .. } => "not_found"@,
        EngagementErrorView::WrongState { .. } => "wrong_state"@,
        EngagementErrorView::RelativeRoot { .. } => "relative_root"@,
        EngagementErrorView::Io { .. } => "io_error"@,
        EngagementErrorView::Toml { .. } => "record_corrupt"@,
    }
}

/// The token for a refused engagement operation in the audit log.
pub fn refusal_reason(err: &EngagementError) -> (token: &'static str)
    ensures
        token@ == refusal_token(err@),
{
    match err {
        EngagementError::InvalidName { .. } => "invalid_name",
        EngagementError::NameTaken { .. } => "name_taken",
        EngagementError::NotFound { .. } => "not_found",
        EngagementError::WrongState { .. } => "wrong_state",
        EngagementError::RelativeRoot { .. } => "relative_root",
        EngagementError::Io { .. } => "io_error",
        EngagementError::Toml { .. } => "record_corrupt",
    }
}

// ── Steps ────────────────────────────────────────────────────────────────────

/// What reading the roster of a team came to.
#[derive(Debug, PartialEq, Eq)]
pub enum RosterRead {
    /// There is none.
    Absent,
    /// It could not be read; holds the complaint.
    Broken(String),
    Found(TeamRecord),
}

/// What the steps taken so far came to.
pub struct EstateReplies {
    /// How many traces of this operation are in the audit log.
    pub audited: usize,
    /// The canonical form of the directory that was named.
    pub canonical: Option<Result<String, IoError>>,
    /// What was learned of the engagement.
    pub store: StoreReplies,
    /// The roster of the team.
    pub roster: Option<RosterRead>,
    /// The template of the team.
    pub template: Option<Result<TeamConfig, ConfigError>>,
    /// What the mints came to, in order.
    pub mints: Vec<Result<(), String>>,
    /// How many agents of this operation are being retired.
    pub retired: usize,
    /// What writing the roster came to.
    pub written: Option<Result<(), String>>,
    /// All rosters.
    pub rosters: Option<Result<Vec<TeamRecord>, String>>,
    /// The agent registry.
    pub agents: Option<Result<AgentRegistry, AgentRegistryError>>,
}

impl EstateReplies {
    /// The registry that was opened is in order.
    pub open spec fn wf(&self) -> bool {
        self.agents matches Some(Ok(registry)) ==> registry.wf()
    }
}

/// What to do next for an operation.
#[allow(inconsistent_fields)]
#[derive(Debug)]
pub enum EstateStep {
    /// Append this to the audit log.
    Audit(AuditEvent),
    /// Resolve this path to its canonical form.
    Canonicalize { path: String },
    /// Take this step of an engagement operation.
    Store(StoreNext),
    /// Read the roster of this team.
    GetRoster { name: String },
    /// Load the team template kept at `path`.
    LoadTemplate { path: String },
    /// Mint an agent of this persona under this name.
    Mint { persona: String, name: ValidatedAgentName },
    /// Write the roster of a new team.
    FormRoster(TeamRecord),
    /// Mark the team dissolved, with what became of its members.
    DissolveRoster { name: String, dispositions: Dispositions },
    /// Retire this agent.
    Retire { name: String },
    /// Read all rosters.
    ListRosters,
    /// Open the agent registry.
    OpenAgents,
    /// Nothing: the operation is over.
    Done,
}

/// What to do next, by content.
#[allow(inconsistent_fields)]
#[verifier::ext_equal]
pub enum StepView {
    Audit(AuditView),
    Canonicalize { path: Seq<char> },
    Store(StoreNextView),
    GetRoster { name: Seq<char> },
    LoadTemplate { path: Seq<char> },
    Mint { persona: Seq<char>, name: Seq<char> },
    FormRoster(TeamView),
    DissolveRoster { name: Seq<char>, dispositions: Map<Seq<char>, MemberDisposition> },
    Retire { name: Seq<char> },
    ListRosters,
    OpenAgents,
    Done,
}

impl View for EstateStep {
    type V = StepView;

    open spec fn view(&self) -> StepView {
        match *self {
            EstateStep::Audit(event) => StepView::Audit(event@),
            EstateStep::Canonicalize { path } => StepView::Canonicalize { path: path@ },
            EstateStep::Store(next) => StepView::Store(next@),
            EstateStep::GetRoster { name } => StepView::GetRoster { name: name@ },
            EstateStep::LoadTemplate { path } => StepView::LoadTemplate { path: path@ },
            EstateStep::Mint { persona, name } => StepView::Mint { persona: persona@, name: name@ },
            EstateStep::FormRoster(record) => StepView::FormRoster(record@),
            EstateStep::DissolveRoster { name, dispositions } => StepView::DissolveRoster {
                name: name@,
                dispositions: dispositions@,
            },
            EstateStep::Retire { name } => StepView::Retire { name: name@ },
            EstateStep::ListRosters => StepView::ListRosters,
            EstateStep::OpenAgents => StepView::OpenAgents,
            EstateStep::Done => StepView::Done,
        }
    }
}

/// The traces that an operation has left so far, and the step after them.
#[verifier::ext_equal]
pub struct Course {
    pub events: Seq<AuditView>,
    pub step: StepView,
}

impl Course {
    /// No trace yet.
    pub open spec fn asks(step: StepView) -> Course {
        Course { events: Seq::empty(), step }
    }

    /// The operation ends with one trace.
    pub open spec fn ends(event: AuditView) -> Course {
        Course { events: seq![event], step: StepView::Done }
    }

    /// What to do next when so many traces are in the log.
    pub open spec fn paced(self, audited: nat) -> StepView {
        if audited < self.events.len() {
            StepView::Audit(self.events[audited as int])
        } else {
            self.step
        }
    }
}

/// The traces that an operation has left so far, and the step after them.
struct Plan {
    events: Vec<AuditEvent>,
    step: EstateStep,
}

impl View for Plan {
    type V = Course;

    closed spec fn view(&self) -> Course {
        Course { events: events_view(self.events@), step: self.step@ }
    }
}

impl Plan {
    fn asks(step: EstateStep) -> (plan: Plan)
        ensures
            plan@ == Course::asks(step@),
    {
        let plan: Plan = Plan { events: Vec::new(), step };
        assert(events_view(plan.events@) =~= Seq::empty());
        plan
    }

    fn ends(event: AuditEvent) -> (plan: Plan)
        ensures
            plan@ == Course::ends(event@),
    {
        Plan::ends_after(Vec::new(), event)
    }

    fn ends_after(events: Vec<AuditEvent>, event: AuditEvent) -> (plan: Plan)
        ensures
            plan@ == (Course { events: events_view(events@).push(event@), step: StepView::Done }),
    {
        let mut events: Vec<AuditEvent> = events;
        proof {
            lemma_events_push(events@, event);
            assert(events@.len() == 0 ==> events_view(events@) =~= Seq::empty());
        }
        events.push(event);
        Plan { events, step: EstateStep::Done }
    }

    fn paced(self, audited: usize) -> (step: EstateStep)
        ensures
            step@ == self@.paced(audited as nat),
    {
        let mut events: Vec<AuditEvent> = self.events;
        assert(events_view(events@).len() == events@.len());
        if audited < events.len() {
            EstateStep::Audit(events.remove(audited))
        } else {
            self.step
        }
    }
}

// ── Refusals ─────────────────────────────────────────────────────────────────

/// The trace of a refused engagement operation.
pub open spec fn engagement_refused(
    sender: Seq<char>,
    op: Seq<char>,
    name: Option<Seq<char>>,
    reason: Seq<char>,
    at: Timestamp,
) -> AuditView {
    AuditView::EngagementOpRefused { sender_id: Some(sender), op, name, reason, at }
}

fn refuse(
    sender: &IdentityId,
    op: &str,
    name: Option<&str>,
    reason: &str,
    at: Timestamp,
) -> (event: AuditEvent)
    ensures
        event@ == engagement_refused(
            sender@,
            op@,
            match name {
                Some(n) => Some(n@),
                None => None,
            },
            reason@,
            at,
        ),
{
    AuditEvent::EngagementOpRefused {
        sender_id: Some(sender.clone()),
        op: op.to_owned(),
        name: match name {
            Some(n) => Some(n.to_owned()),
            None => None,
        },
        reason: reason.to_owned(),
        at,
    }
}

/// The trace of a refused team or agent operation. A reason that takes more
/// bytes than are kept for it is cut.
pub open spec fn estate_refused(
    sender: Seq<char>,
    op: Seq<char>,
    name: Seq<char>,
    reason: Seq<char>,
    at: Timestamp,
) -> AuditView {
    AuditView::EstateOpRefused {
        sender_id: Some(sender),
        op,
        name: Some(name),
        reason: fitting(reason, MAX_REFUSAL_REASON_BYTES as int),
        at,
    }
}

fn audit_estate_refusal(
    sender: &IdentityId,
    op: &str,
    name: &str,
    reason: &str,
    at: Timestamp,
) -> (event: AuditEvent)
    ensures
        event@ == estate_refused(sender@, op@, name@, reason@, at),
{
    AuditEvent::EstateOpRefused {
        sender_id: Some(sender.clone()),
        op: op.to_owned(),
        name: Some(name.to_owned()),
        reason: truncate_at_char_boundary(reason, MAX_REFUSAL_REASON_BYTES).to_owned(),
        at,
    }
}

// ── Engagement operations ────────────────────────────────────────────────────

/// The course of an engagement operation, from that of the store.
pub open spec fn store_course(
    next: StoreNextView,
    op: OpView,
    sender: Seq<char>,
    at: Timestamp,
) -> Course {
    match next {
        StoreNextView::Refused(err) => Course::ends(
            engagement_refused(
                sender,
                op.verb_text(),
                Some(op.target()),
                refusal_token(err),
                at,
            ),
        ),
        StoreNextView::Done(record) => Course::ends(
            match op {
                OpView::OpenEngagement { .. } => AuditView::EngagementOpened {
                    sender_id: sender,
                    name: record.name,
                    root: record.root,
                    at,
                },
                OpView::CloseEngagement { name } => AuditView::EngagementClosed {
                    sender_id: sender,
                    name,
                    at,
                },
                _ => AuditView::EngagementReopened { sender_id: sender, name: op.target(), at },
            },
        ),
        _ => Course::asks(StepView::Store(next)),
    }
}

/// The course of opening an engagement: the directory that was named is
/// recorded in its canonical form, and one that has none is refused.
pub open spec fn open_course(
    store: Seq<char>,
    op: OpView,
    name: Seq<char>,
    purpose: Seq<char>,
    root: Option<Seq<char>>,
    sender: Seq<char>,
    at: Timestamp,
    seen: EstateReplies,
) -> Course {
    match root {
        None => store_course(open_rule(store, name, purpose, None, at, seen.store), op, sender, at),
        Some(raw) => match seen.canonical {
            None => Course::asks(StepView::Canonicalize { path: raw }),
            Some(Err(_)) => Course::ends(
                engagement_refused(sender, op.verb_text(), Some(name), "root_unresolvable"@, at),
            ),
            Some(Ok(resolved)) => store_course(
                open_rule(store, name, purpose, Some(resolved@), at, seen.store),
                op,
                sender,
                at,
            ),
        },
    }
}

/// The course of an engagement operation.
pub open spec fn engagement_course(
    store: Seq<char>,
    op: OpView,
    sender: Seq<char>,
    at: Timestamp,
    seen: EstateReplies,
) -> Course {
    match op {
        OpView::OpenEngagement { name, purpose, root } => open_course(
            store,
            op,
            name,
            purpose,
            root,
            sender,
            at,
            seen,
        ),
        OpView::CloseEngagement { name } => store_course(
            transition_rule(
                store,
                name,
                EngagementState::Open,
                EngagementState::Closed,
                seen.store,
            ),
            op,
            sender,
            at,
        ),
        _ => store_course(
            transition_rule(
                store,
                op.target(),
                EngagementState::Closed,
                EngagementState::Open,
                seen.store,
            ),
            op,
            sender,
            at,
        ),
    }
}

// ── Team operations ──────────────────────────────────────────────────────────

/// The name of one of `count` members of a team in a role.
pub open spec fn seat_name(team: Seq<char>, role: Seq<char>, index: int, count: int) -> Seq<char> {
    if count == 1 {
        team + "-"@ + role
    } else {
        team + "-"@ + role + "-"@ + decimal((index + 1) as nat)
    }
}

/// The name of one of `count` members of a team in a role.
pub fn member_agent_name(team: &str, role: &str, index: u32, count: u32) -> (name: String)
    ensures
        name@ == seat_name(team@, role@, index as int, count as int),
{
    let mut name: String = team.to_owned();
    name.append("-");
    name.append(role);
    if count != 1 {
        let number: String = write_decimal(index as u64 + 1);
        name.append("-");
        name.append(number.as_str());
    }
    name
}

/// The members that one line of a template asks for.
pub open spec fn line_seats(team: Seq<char>, line: MemberView) -> Seq<SeatView> {
    Seq::new(
        line.count as nat,
        |x: int|
            SeatView {
                agent_name: seat_name(team, line.role_label, x, line.count as int),
                role_label: line.role_label,
                persona_name: line.persona_name,
            },
    )
}

/// The members that the first `n` lines of a template ask for, in order.
pub open spec fn planned(team: Seq<char>, lines: Seq<MemberView>, n: int) -> Seq<SeatView>
    decreases n,
{
    if n <= 0 {
        Seq::empty()
    } else {
        planned(team, lines, n - 1) + line_seats(team, lines[n - 1])
    }
}

/// Why minting the members of a team stands still.
pub enum MintStop {
    /// All are minted.
    All,
    /// The next has a name that no agent may have.
    Invalid,
    /// The next is to be minted.
    Pending,
    /// The next could not be minted; holds the complaint.
    Failed(Seq<char>),
}

/// How many members are minted, from the `k`-th on, and why it is not more.
pub open spec fn mint_walk(plan: Seq<SeatView>, mints: Seq<Result<(), String>>, k: int) -> (
    int,
    MintStop,
)
    decreases plan.len() - k,
{
    if k >= plan.len() {
        (k, MintStop::All)
    } else if !valid_agent_name(plan[k].agent_name) {
        (k, MintStop::Invalid)
    } else if k >= mints.len() {
        (k, MintStop::Pending)
    } else {
        match mints[k] {
            Err(message) => (k, MintStop::Failed(message@)),
            Ok(()) => mint_walk(plan, mints, k + 1),
        }
    }
}

/// The traces of the first `n` mints for a team.
pub open spec fn minted_events(
    sender: Seq<char>,
    team: Seq<char>,
    plan: Seq<SeatView>,
    n: nat,
    at: Timestamp,
) -> Seq<AuditView> {
    Seq::new(
        n,
        |i: int|
            AuditView::AgentMinted {
                sender_id: sender,
                name: plan[i].agent_name,
                persona_name: plan[i].persona_name,
                team: Some(team),
                at,
            },
    )
}

/// The names of members.
pub open spec fn seat_names(seats: Seq<SeatView>) -> Seq<Seq<char>> {
    seats.map_values(|s: SeatView| s.agent_name)
}

/// A team whose members are all minted.
pub open spec fn formed_team(
    name: Seq<char>,
    template: Seq<char>,
    lead_role: Seq<char>,
    members: Seq<SeatView>,
    at: Timestamp,
) -> TeamView {
    TeamView {
        name,
        template_name: template,
        lead_role,
        members,
        state: TeamState::Formed,
        formed_at: at,
        dispositions: Map::empty(),
    }
}

/// The course of minting the members of a team and writing its roster.
pub open spec fn minting_course(
    name: Seq<char>,
    template: Seq<char>,
    config: TeamConfig,
    sender: Seq<char>,
    at: Timestamp,
    seen: EstateReplies,
) -> Course {
    let lines = members_view(config.members@);
    let plan = planned(name, lines, lines.len() as int);
    let (n, stop) = mint_walk(plan, seen.mints@, 0);
    let events = minted_events(sender, name, plan, n as nat, at);
    let refusal = |reason: Seq<char>| estate_refused(sender, "form-team"@, name, reason, at);
    match stop {
        MintStop::Invalid => Course {
            events: events.push(refusal("invalid_member_name: "@ + plan[n].agent_name)),
            step: StepView::Done,
        },
        MintStop::Pending => Course {
            events,
            step: StepView::Mint { persona: plan[n].persona_name, name: plan[n].agent_name },
        },
        MintStop::Failed(message) => Course {
            events: events.push(
                refusal("mint_failed: "@ + plan[n].agent_name + ": "@ + message),
            ),
            step: StepView::Done,
        },
        MintStop::All => match seen.written {
            None => Course {
                events,
                step: StepView::FormRoster(
                    formed_team(name, template, config.lead_role@, plan, at),
                ),
            },
            Some(Err(_)) => Course {
                events: events.push(refusal("roster_write_failed"@)),
                step: StepView::Done,
            },
            Some(Ok(())) => Course {
                events: events.push(
                    AuditView::TeamFormed {
                        sender_id: sender,
                        name,
                        members: seat_names(plan),
                        at,
                    },
                ),
                step: StepView::Done,
            },
        },
    }
}

/// The course of forming a team: its name must be new and its template there.
pub open spec fn form_course(
    data_dir: Seq<char>,
    name: Seq<char>,
    template: Seq<char>,
    sender: Seq<char>,
    at: Timestamp,
    seen: EstateReplies,
) -> Course {
    let refusal = |reason: Seq<char>|
        Course::ends(estate_refused(sender, "form-team"@, name, reason, at));
    match seen.roster {
        None => Course::asks(StepView::GetRoster { name }),
        Some(RosterRead::Found(_)) => refusal("name_taken"@),
        Some(RosterRead::Broken(_)) => refusal("roster_error"@),
        Some(RosterRead::Absent) => if !valid_agent_name(template) {
            refusal("invalid_template"@)
        } else {
            match seen.template {
                None => Course::asks(
                    StepView::LoadTemplate {
                        path: joined_path(joined_path(data_dir, "teams"@), template + ".toml"@),
                    },
                ),
                Some(Err(_)) => refusal("template_not_found"@),
                Some(Ok(config)) => minting_course(name, template, config, sender, at, seen),
            }
        },
    }
}

/// What becomes of a member: what was said, else it is retired.
pub open spec fn disposition_of(
    said: Map<Seq<char>, MemberDisposition>,
    name: Seq<char>,
) -> MemberDisposition {
    if said.contains_key(name) {
        said[name]
    } else {
        MemberDisposition::Retired
    }
}

/// How many members are settled, from the `k`-th on, when `r` of `retired`
/// retirements are accounted for.
pub open spec fn settle_walk(
    members: Seq<SeatView>,
    said: Map<Seq<char>, MemberDisposition>,
    retired: nat,
    k: int,
    r: nat,
) -> int
    decreases members.len() - k,
{
    if k >= members.len() {
        k
    } else {
        match disposition_of(said, members[k].agent_name) {
            MemberDisposition::Released => settle_walk(members, said, retired, k + 1, r),
            MemberDisposition::Retired => if r >= retired {
                k
            } else {
                settle_walk(members, said, retired, k + 1, r + 1)
            },
        }
    }
}

/// The trace of what becomes of a member.
pub open spec fn settled_event(
    sender: Seq<char>,
    team: Seq<char>,
    member: Seq<char>,
    disposition: MemberDisposition,
    at: Timestamp,
) -> AuditView {
    match disposition {
        MemberDisposition::Retired => AuditView::AgentRetired { sender_id: sender, name: member, at },
        MemberDisposition::Released => AuditView::AgentReleased {
            sender_id: sender,
            name: member,
            team,
            at,
        },
    }
}

/// The traces of what becomes of the first `n` members.
pub open spec fn settled_events(
    sender: Seq<char>,
    team: Seq<char>,
    members: Seq<SeatView>,
    said: Map<Seq<char>, MemberDisposition>,
    n: nat,
    at: Timestamp,
) -> Seq<AuditView> {
    Seq::new(
        n,
        |i: int|
            settled_event(
                sender,
                team,
                members[i].agent_name,
                disposition_of(said, members[i].agent_name),
                at,
            ),
    )
}

/// What becomes of the first `n` members, by name.
pub open spec fn effective(
    members: Seq<SeatView>,
    said: Map<Seq<char>, MemberDisposition>,
    n: int,
) -> Map<Seq<char>, MemberDisposition>
    decreases n,
{
    if n <= 0 {
        Map::empty()
    } else {
        let name = members[n - 1].agent_name;
        effective(members, said, n - 1).insert(name, disposition_of(said, name))
    }
}

/// The course of settling the members of a team and marking it dissolved.
pub open spec fn settling_course(
    name: Seq<char>,
    members: Seq<SeatView>,
    said: Map<Seq<char>, MemberDisposition>,
    sender: Seq<char>,
    at: Timestamp,
    seen: EstateReplies,
) -> Course {
    let n = settle_walk(members, said, seen.retired as nat, 0, 0);
    let events = settled_events(sender, name, members, said, n as nat, at);
    if n < members.len() {
        Course { events, step: StepView::Retire { name: members[n].agent_name } }
    } else {
        match seen.written {
            None => Course {
                events,
                step: StepView::DissolveRoster {
                    name,
                    dispositions: effective(members, said, members.len() as int),
                },
            },
            Some(Err(_)) => Course {
                events: events.push(
                    estate_refused(sender, "dissolve-team"@, name, "roster_write_failed"@, at),
                ),
                step: StepView::Done,
            },
            Some(Ok(())) => Course {
                events: events.push(AuditView::TeamDissolved { sender_id: sender, name, at }),
                step: StepView::Done,
            },
        }
    }
}

/// The course of dissolving a team: it must be there, and formed.
pub open spec fn dissolve_course(
    name: Seq<char>,
    said: Map<Seq<char>, MemberDisposition>,
    sender: Seq<char>,
    at: Timestamp,
    seen: EstateReplies,
) -> Course {
    let refusal = |reason: Seq<char>|
        Course::ends(estate_refused(sender, "dissolve-team"@, name, reason, at));
    match seen.roster {
        None => Course::asks(StepView::GetRoster { name }),
        Some(RosterRead::Absent) => refusal("not_found"@),
        Some(RosterRead::Broken(_)) => refusal("roster_error"@),
        Some(RosterRead::Found(record)) => if record.state != TeamState::Formed {
            refusal("wrong_state"@)
        } else {
            settling_course(name, seats_view(record.members@), said, sender, at, seen)
        },
    }
}

/// The course of minting an agent: its name must be one that an agent may
/// have, and not the coordinator's.
pub open spec fn mint_course(
    name: Seq<char>,
    persona: Seq<char>,
    sender: Seq<char>,
    at: Timestamp,
    seen: EstateReplies,
) -> Course {
    let refusal = |reason: Seq<char>|
        Course::ends(estate_refused(sender, "mint-agent"@, name, reason, at));
    if name == ESTATE_AGENT_NAME@ {
        refusal("reserved"@)
    } else if !valid_agent_name(name) {
        refusal("invalid_name"@)
    } else if seen.mints@.len() == 0 {
        Course::asks(StepView::Mint { persona, name })
    } else {
        match seen.mints@[0] {
            Err(message) => refusal("mint_failed: "@ + message@),
            Ok(()) => Course::ends(
                AuditView::AgentMinted {
                    sender_id: sender,
                    name,
                    persona_name: persona,
                    team: None,
                    at,
                },
            ),
        }
    }
}

/// The course of retiring an agent: it must not be the coordinator, must
/// serve in no formed team, and must be registered and not retired.
pub open spec fn retire_course(
    name: Seq<char>,
    sender: Seq<char>,
    at: Timestamp,
    seen: EstateReplies,
) -> Course {
    let refusal = |reason: Seq<char>|
        Course::ends(estate_refused(sender, "retire-agent"@, name, reason, at));
    if name == ESTATE_AGENT_NAME@ {
        refusal("reserved"@)
    } else {
        match seen.rosters {
            None => Course::asks(StepView::ListRosters),
            Some(Err(_)) => refusal("roster_error"@),
            Some(Ok(rosters)) => if serving(teams_view(rosters@), name) {
                refusal("team_member"@)
            } else {
                match seen.agents {
                    None => Course::asks(StepView::OpenAgents),
                    Some(Err(_)) => refusal("registry_error"@),
                    Some(Ok(registry)) => if !registry@.contains_key(name) {
                        refusal("not_found"@)
                    } else if registry@[name].status == AgentStatus::Retired {
                        refusal("wrong_state"@)
                    } else if seen.retired == 0 {
                        Course::asks(StepView::Retire { name })
                    } else {
                        Course::ends(AuditView::AgentRetired { sender_id: sender, name, at })
                    },
                }
            },
        }
    }
}

/// The course of a team or agent operation.
pub open spec fn team_course(
    data_dir: Seq<char>,
    op: OpView,
    sender: Seq<char>,
    at: Timestamp,
    seen: EstateReplies,
) -> Course {
    match op {
        OpView::FormTeam { name, template } => form_course(
            data_dir,
            name,
            template,
            sender,
            at,
            seen,
        ),
        OpView::DissolveTeam { name, dispositions } => dissolve_course(
            name,
            dispositions,
            sender,
            at,
            seen,
        ),
        OpView::MintAgent { name, persona } => mint_course(name, persona, sender, at, seen),
        _ => retire_course(op.target(), sender, at, seen),
    }
}

/// Whether the operation is about a team or an agent.
pub open spec fn is_team_op(op: OpView) -> bool {
    op is FormTeam || op is DissolveTeam || op is MintAgent || op is RetireAgent
}

/// The course of what was asked: only the operator may ask for anything.
pub open spec fn estate_course(
    operator: Seq<char>,
    store: Seq<char>,
    data_dir: Option<Seq<char>>,
    op: Option<OpView>,
    sender: Seq<char>,
    at: Timestamp,
    seen: EstateReplies,
) -> Course {
    match op {
        None => Course::ends(
            engagement_refused(sender, "unknown"@, None, "invalid_payload"@, at),
        ),
        Some(op) => if sender != operator {
            Course::ends(
                engagement_refused(
                    sender,
                    op.verb_text(),
                    Some(op.target()),
                    "not_operator"@,
                    at,
                ),
            )
        } else if !is_team_op(op) {
            engagement_course(store, op, sender, at, seen)
        } else {
            match data_dir {
                None => Course::ends(
                    estate_refused(sender, op.verb_text(), op.target(), "team_ops_unwired"@, at),
                ),
                Some(dir) => team_course(dir, op, sender, at, seen),
            }
        },
    }
}

// ── Coordinator ──────────────────────────────────────────────────────────────

/// What asking for a mint came to.
#[derive(Debug, PartialEq, Eq)]
pub enum MintReply {
    /// The request itself was not acceptable; holds the complaint.
    Invalid(String),
    Success,
    /// The spawner refused; holds its message.
    Failure(String),
    /// The reply will never come.
    Dropped,
    /// The reply did not come in time.
    TimedOut,
}

/// What a mint came to.
pub open spec fn mint_outcome(reply: MintReply) -> Result<(), Seq<char>> {
    match reply {
        MintReply::Invalid(complaint) => Err("invalid mint request: "@ + complaint@),
        MintReply::Success => Ok(()),
        MintReply::Failure(message) => Err(message@),
        MintReply::Dropped => Err("mint reply channel dropped"@),
        MintReply::TimedOut => Err(
            "mint timed out after "@ + decimal(MINT_TIMEOUT_SECS as nat) + "s"@,
        ),
    }
}

/// What a mint came to.
pub fn mint_one(reply: MintReply) -> (out: Result<(), String>)
    ensures
        match (out, mint_outcome(reply)) {
            (Ok(()), Ok(())) => true,
            (Err(text), Err(t)) => text@ == t,
            _ => false,
        },
{
    match reply {
        MintReply::Invalid(complaint) => {
            let mut text: String = "invalid mint request: ".to_owned();
            text.append(complaint.as_str());
            Err(text)
        },
        MintReply::Success => Ok(()),
        MintReply::Failure(message) => Err(message),
        MintReply::Dropped => Err("mint reply channel dropped".to_owned()),
        MintReply::TimedOut => {
            let mut text: String = "mint timed out after ".to_owned();
            let seconds: String = write_decimal(MINT_TIMEOUT_SECS);
            text.append(seconds.as_str());
            text.append("s");
            Err(text)
        },
    }
}

/// How an agent is retired.
#[derive(Debug, Clone, Copy, PartialEq, Eq, Structural)]
pub enum RetireRoute {
    /// Its incarnation is told, and retires itself when it has wound down.
    TellIncarnation,
    /// Its record is given this status, and the registry written.
    MarkRecord(AgentStatus),
}

/// How an agent is retired: one that is live is told, any other is marked as
/// retired in the registry.
pub fn retire_identity(live: bool) -> (route: RetireRoute)
    ensures
        route == (if live {
            RetireRoute::TellIncarnation
        } else {
            RetireRoute::MarkRecord(AgentStatus::Retired)
        }),
{
    if live {
        RetireRoute::TellIncarnation
    } else {
        RetireRoute::MarkRecord(AgentStatus::Retired)
    }
}

/// Carries out the operator's operations.
#[derive(Debug)]
pub struct EstateCoordinator {
    operator_id: IdentityId,
    engagements: EngagementRegistry,
    /// Where team templates are kept, once team operations are wired.
    team_data_dir: Option<String>,
}

impl EstateCoordinator {
    /// The identity of the operator.
    pub closed spec fn operator(&self) -> Seq<char> {
        self.operator_id@
    }

    /// The root of the engagement store.
    pub closed spec fn store(&self) -> Seq<char> {
        self.engagements@
    }

    /// The data directory for team operations, if they are wired.
    pub closed spec fn data_dir(&self) -> Option<Seq<char>> {
        opt_text(self.team_data_dir)
    }

    /// A coordinator for the operator's engagements. Team operations are
    /// refused until they are wired.
    pub fn new(operator_id: IdentityId, engagements: EngagementRegistry) -> (estate:
        EstateCoordinator)
        ensures
            estate.operator() == operator_id@,
            estate.store() == engagements@,
            estate.data_dir() is None,
    {
        EstateCoordinator { operator_id, engagements, team_data_dir: None }
    }

    /// Wires the team operations to a data directory.
    pub fn with_team_ops(self, data_dir: String) -> (estate: EstateCoordinator)
        ensures
            estate.operator() == self.operator(),
            estate.store() == self.store(),
            estate.data_dir() == Some(data_dir@),
    {
        EstateCoordinator {
            operator_id: self.operator_id,
            engagements: self.engagements,
            team_data_dir: Some(data_dir),
        }
    }

    /// What to do next about what a sender asked for. `None` stands for a
    /// payload that is no operation.
    pub fn handle(
        &self,
        sender: &IdentityId,
        op: &Option<EstateOp>,
        at: Timestamp,
        seen: &EstateReplies,
    ) -> (step: EstateStep)
        requires
            seen.wf(),
        ensures
            step@ == estate_course(
                self.operator(),
                self.store(),
                self.data_dir(),
                match *op {
                    Some(o) => Some(o@),
                    None => None,
                },
                sender@,
                at,
                *seen,
            ).paced(seen.audited as nat),
    {
        let op: &EstateOp = match op {
            Some(op) => op,
            None => {
                return Plan::ends(refuse(sender, "unknown", None, "invalid_payload", at)).paced(
                    seen.audited,
                );
            },
        };
        if !sender.same(&self.operator_id) {
            return Plan::ends(
                refuse(sender, op.verb(), Some(op.name()), "not_operator", at),
            ).paced(seen.audited);
        }
        match op {
            EstateOp::OpenEngagement { .. } | EstateOp::CloseEngagement { .. }
            | EstateOp::ReopenEngagement { .. } => self.execute(op, sender, at, seen).paced(
                seen.audited,
            ),
            _ => match &self.team_data_dir {
                None => Plan::ends(
                    audit_estate_refusal(sender, op.verb(), op.name(), "team_ops_unwired", at),
                ).paced(seen.audited),
                Some(dir) => execute_team_op(dir.as_str(), op, sender, at, seen).paced(
                    seen.audited,
                ),
            },
        }
    }

    fn execute(
        &self,
        op: &EstateOp,
        sender: &IdentityId,
        at: Timestamp,
        seen: &EstateReplies,
    ) -> (plan: Plan)
        requires
            !is_team_op(op@),
        ensures
            plan@ == engagement_course(self.store(), op@, sender@, at, *seen),
    {
        let next: StoreNext = match op {
            EstateOp::OpenEngagement { name, purpose, root } => {
                let resolved: Option<String> = match root {
                    None => None,
                    Some(raw) => match &seen.canonical {
                        None => {
                            return Plan::asks(EstateStep::Canonicalize { path: raw.clone() });
                        },
                        Some(Err(_)) => {
                            return Plan::ends(
                                refuse(
                                    sender,
                                    op.verb(),
                                    Some(name.as_str()),
                                    "root_unresolvable",
                                    at,
                                ),
                            );
                        },
                        Some(Ok(path)) => Some(path.clone()),
                    },
                };
                self.engagements.open_engagement(
                    name.as_str(),
                    purpose.as_str(),
                    &resolved,
                    at,
                    &seen.store,
                )
            },
            EstateOp::CloseEngagement { name } => self.engagements.close(
                name.as_str(),
                &seen.store,
            ),
            _ => self.engagements.reopen(op.name(), &seen.store),
        };
        match next {
            StoreNext::Done(Err(err)) => Plan::ends(
                refuse(sender, op.verb(), Some(op.name()), refusal_reason(&err), at),
            ),
            StoreNext::Done(Ok(record)) => Plan::ends(
                match op {
                    EstateOp::OpenEngagement { .. } => AuditEvent::EngagementOpened {
                        sender_id: sender.clone(),
                        name: record.name,
                        root: record.root,
                        at,
                    },
                    EstateOp::CloseEngagement { name } => AuditEvent::EngagementClosed {
                        sender_id: sender.clone(),
                        name: name.clone(),
                        at,
                    },
                    _ => AuditEvent::EngagementReopened {
                        sender_id: sender.clone(),
                        name: op.name().to_owned(),
                        at,
                    },
                },
            ),
            other => Plan::asks(EstateStep::Store(other)),
        }
    }
}

fn execute_team_op(
    data_dir: &str,
    op: &EstateOp,
    sender: &IdentityId,
    at: Timestamp,
    seen: &EstateReplies,
) -> (plan: Plan)
    requires
        seen.wf(),
        is_team_op(op@),
    ensures
        plan@ == team_course(data_dir@, op@, sender@, at, *seen),
{
    match op {
        EstateOp::FormTeam { name, template } => form_team(
            data_dir,
            name.as_str(),
            template.as_str(),
            sender,
            at,
            seen,
        ),
        EstateOp::DissolveTeam { name, dispositions } => dissolve_team(
            name.as_str(),
            dispositions,
            sender,
            at,
            seen,
        ),
        EstateOp::MintAgent { name, persona } => mint_agent(
            name.as_str(),
            persona.as_str(),
            sender,
            at,
            seen,
        ),
        _ => retire_teamless_agent(op.name(), sender, at, seen),
    }
}

fn mint_agent(
    name: &str,
    persona: &str,
    sender: &IdentityId,
    at: Timestamp,
    seen: &EstateReplies,
) -> (plan: Plan)
    ensures
        plan@ == mint_course(name@, persona@, sender@, at, *seen),
{
    if same_text(name, ESTATE_AGENT_NAME) {
        return Plan::ends(audit_estate_refusal(sender, "mint-agent", name, "reserved", at));
    }
    let validated: ValidatedAgentName = match ValidatedAgentName::new(name) {
        Ok(validated) => validated,
        Err(_) => {
            return Plan::ends(
                audit_estate_refusal(sender, "mint-agent", name, "invalid_name", at),
            );
        },
    };
    if seen.mints.len() == 0 {
        return Plan::asks(EstateStep::Mint { persona: persona.to_owned(), name: validated });
    }
    match &seen.mints[0] {
        Err(message) => {
            let mut reason: String = "mint_failed: ".to_owned();
            reason.append(message.as_str());
            Plan::ends(audit_estate_refusal(sender, "mint-agent", name, reason.as_str(), at))
        },
        Ok(()) => Plan::ends(
            AuditEvent::AgentMinted {
                sender_id: sender.clone(),
                name: name.to_owned(),
                persona_name: persona.to_owned(),
                team: None,
                at,
            },
        ),
    }
}

fn retire_teamless_agent(
    name: &str,
    sender: &IdentityId,
    at: Timestamp,
    seen: &EstateReplies,
) -> (plan: Plan)
    requires
        seen.wf(),
    ensures
        plan@ == retire_course(name@, sender@, at, *seen),
{
    if same_text(name, ESTATE_AGENT_NAME) {
        return Plan::ends(audit_estate_refusal(sender, "retire-agent", name, "reserved", at));
    }
    match &seen.rosters {
        None => {
            return Plan::asks(EstateStep::ListRosters);
        },
        Some(Err(_)) => {
            return Plan::ends(
                audit_estate_refusal(sender, "retire-agent", name, "roster_error", at),
            );
        },
        Some(Ok(rosters)) => {
            if serves(rosters, name) {
                return Plan::ends(
                    audit_estate_refusal(sender, "retire-agent", name, "team_member", at),
                );
            }
        },
    }
    let registry: &AgentRegistry = match &seen.agents {
        None => {
            return Plan::asks(EstateStep::OpenAgents);
        },
        Some(Err(_)) => {
            return Plan::ends(
                audit_estate_refusal(sender, "retire-agent", name, "registry_error", at),
            );
        },
        Some(Ok(registry)) => registry,
    };
    match registry.lookup(name) {
        None => {
            return Plan::ends(
                audit_estate_refusal(sender, "retire-agent", name, "not_found", at),
            );
        },
        Some(record) => {
            if record.status == AgentStatus::Retired {
                return Plan::ends(
                    audit_estate_refusal(sender, "retire-agent", name, "wrong_state", at),
                );
            }
        },
    }
    if seen.retired == 0 {
        return Plan::asks(EstateStep::Retire { name: name.to_owned() });
    }
    Plan::ends(
        AuditEvent::AgentRetired { sender_id: sender.clone(), name: name.to_owned(), at },
    )
}

fn dissolve_team(
    name: &str,
    dispositions: &Dispositions,
    sender: &IdentityId,
    at: Timestamp,
    seen: &EstateReplies,
) -> (plan: Plan)
    ensures
        plan@ == dissolve_course(name@, dispositions@, sender@, at, *seen),
{
    let record: &TeamRecord = match &seen.roster {
        None => {
            return Plan::asks(EstateStep::GetRoster { name: name.to_owned() });
        },
        Some(RosterRead::Absent) => {
            return Plan::ends(
                audit_estate_refusal(sender, "dissolve-team", name, "not_found", at),
            );
        },
        Some(RosterRead::Broken(_)) => {
            return Plan::ends(
                audit_estate_refusal(sender, "dissolve-team", name, "roster_error", at),
            );
        },
        Some(RosterRead::Found(record)) => record,
    };
    if record.state != TeamState::Formed {
        return Plan::ends(audit_estate_refusal(sender, "dissolve-team", name, "wrong_state", at));
    }
    let ghost ms: Seq<SeatView> = seats_view(record.members@);
    let ghost said: Map<Seq<char>, MemberDisposition> = dispositions@;
    let mut events: Vec<AuditEvent> = Vec::new();
    let mut settled: Dispositions = Dispositions::new();
    let mut retired: usize = 0;
    let mut k: usize = 0;
    assert(events_view(events@) =~= settled_events(sender@, name@, ms, said, 0, at));
    while k < record.members.len()
        invariant
            ms == seats_view(record.members@),
            said == dispositions@,
            k <= record.members@.len(),
            retired <= seen.retired,
            settled@ == effective(ms, said, k as int),
            events_view(events@) == settled_events(sender@, name@, ms, said, k as nat, at),
            settle_walk(ms, said, seen.retired as nat, 0, 0) == settle_walk(
                ms,
                said,
                seen.retired as nat,
                k as int,
                retired as nat,
            ),
            seen.roster matches Some(RosterRead::Found(r)) && r == *record && r.state
                == TeamState::Formed,
        decreases record.members.len() - k,
    {
        let member: &str = record.members[k].agent_name.as_str();
        assert(ms[k as int] == record.members@[k as int]@);
        let disposition: MemberDisposition = match dispositions.get(member) {
            Some(disposition) => disposition,
            None => MemberDisposition::Retired,
        };
        let event: AuditEvent = match disposition {
            MemberDisposition::Retired => {
                if retired >= seen.retired {
                    return Plan { events, step: EstateStep::Retire { name: member.to_owned() } };
                }
                retired = retired + 1;
                AuditEvent::AgentRetired { sender_id: sender.clone(), name: member.to_owned(), at }
            },
            MemberDisposition::Released => AuditEvent::AgentReleased {
                sender_id: sender.clone(),
                name: member.to_owned(),
                team: name.to_owned(),
                at,
            },
        };
        settled.insert(member, disposition);
        proof {
            lemma_events_push(events@, event);
            assert(settled_events(sender@, name@, ms, said, k as nat, at).push(event@)
                =~= settled_events(sender@, name@, ms, said, (k + 1) as nat, at));
        }
        events.push(event);
        k = k + 1;
    }
    match &seen.written {
        None => Plan {
            events,
            step: EstateStep::DissolveRoster { name: name.to_owned(), dispositions: settled },
        },
        Some(Err(_)) => Plan::ends_after(
            events,
            audit_estate_refusal(sender, "dissolve-team", name, "roster_write_failed", at),
        ),
        Some(Ok(())) => Plan::ends_after(
            events,
            AuditEvent::TeamDissolved { sender_id: sender.clone(), name: name.to_owned(), at },
        ),
    }
}

fn form_team(
    data_dir: &str,
    name: &str,
    template: &str,
    sender: &IdentityId,
    at: Timestamp,
    seen: &EstateReplies,
) -> (plan: Plan)
    ensures
        plan@ == form_course(data_dir@, name@, template@, sender@, at, *seen),
{
    match &seen.roster {
        None => {
            return Plan::asks(EstateStep::GetRoster { name: name.to_owned() });
        },
        Some(RosterRead::Found(_)) => {
            return Plan::ends(audit_estate_refusal(sender, "form-team", name, "name_taken", at));
        },
        Some(RosterRead::Broken(_)) => {
            return Plan::ends(
                audit_estate_refusal(sender, "form-team", name, "roster_error", at),
            );
        },
        Some(RosterRead::Absent) => {},
    }
    if !is_valid_agent_name(template) {
        return Plan::ends(audit_estate_refusal(sender, "form-team", name, "invalid_template", at));
    }
    match &seen.template {
        None => Plan::asks(
            EstateStep::LoadTemplate {
                path: RuntimeLayout::new(data_dir).team_config_path(template),
            },
        ),
        Some(Err(_)) => Plan::ends(
            audit_estate_refusal(sender, "form-team", name, "template_not_found", at),
        ),
        Some(Ok(config)) => mint_members(name, template, config, sender, at, seen),
    }
}

/// Members are a prefix of those that more lines ask for.
proof fn lemma_planned_prefix(team: Seq<char>, lines: Seq<MemberView>, i: int, n: int)
    requires
        0 <= i <= n <= lines.len(),
    ensures
        planned(team, lines, i).is_prefix_of(planned(team, lines, n)),
    decreases n,
{
    if i < n {
        lemma_planned_prefix(team, lines, i, n - 1);
        let a = planned(team, lines, i);
        let b = planned(team, lines, n - 1);
        let c = planned(team, lines, n);
        assert(a =~= c.subrange(0, a.len() as int)) by {
            assert forall|x: int| 0 <= x < a.len() implies a[x] == c[x] by {
                assert(a[x] == b.subrange(0, a.len() as int)[x]);
            }
        }
    }
}

/// The `index`-th member of the `i`-th line is the one after those of the
/// earlier lines and of the earlier places in the line.
proof fn lemma_planned_at(team: Seq<char>, lines: Seq<MemberView>, i: int, index: int)
    requires
        0 <= i < lines.len(),
        0 <= index < lines[i].count,
    ensures
        planned(team, lines, i).len() + index < planned(team, lines, lines.len() as int).len(),
        planned(team, lines, lines.len() as int)[planned(team, lines, i).len() + index]
            == line_seats(team, lines[i])[index],
{
    lemma_planned_prefix(team, lines, i + 1, lines.len() as int);
    let upto = planned(team, lines, i + 1);
    let all = planned(team, lines, lines.len() as int);
    let at = planned(team, lines, i).len() + index;
    assert(upto[at] == all.subrange(0, upto.len() as int)[at]);
}

fn mint_members(
    name: &str,
    template: &str,
    config: &TeamConfig,
    sender: &IdentityId,
    at: Timestamp,
    seen: &EstateReplies,
) -> (plan: Plan)
    ensures
        plan@ == minting_course(name@, template@, *config, sender@, at, *seen),
{
    let ghost lines: Seq<MemberView> = members_view(config.members@);
    let ghost all: Seq<SeatView> = planned(name@, lines, lines.len() as int);
    let mut members: Vec<TeamMemberRecord> = Vec::new();
    let mut events: Vec<AuditEvent> = Vec::new();
    let mut i: usize = 0;
    assert(seats_view(members@) =~= all.take(0));
    assert(events_view(events@) =~= minted_events(sender@, name@, all, 0, at));
    while i < config.members.len()
        invariant
            lines == members_view(config.members@),
            all == planned(name@, lines, lines.len() as int),
            i <= config.members@.len(),
            members@.len() == planned(name@, lines, i as int).len(),
            members@.len() <= all.len(),
            seats_view(members@) == all.take(members@.len() as int),
            events_view(events@) == minted_events(sender@, name@, all, members@.len(), at),
            mint_walk(all, seen.mints@, 0) == mint_walk(
                all,
                seen.mints@,
                members@.len() as int,
            ),
        decreases config.members.len() - i,
    {
        let line: &TeamMember = &config.members[i];
        assert(lines[i as int] == line@);
        let mut index: u32 = 0;
        while index < line.count
            invariant
                lines == members_view(config.members@),
                all == planned(name@, lines, lines.len() as int),
                i < config.members@.len(),
                lines[i as int] == line@,
                index <= line.count,
                members@.len() == planned(name@, lines, i as int).len() + index,
                members@.len() <= all.len(),
                seats_view(members@) == all.take(members@.len() as int),
                events_view(events@) == minted_events(sender@, name@, all, members@.len(), at),
                mint_walk(all, seen.mints@, 0) == mint_walk(
                    all,
                    seen.mints@,
                    members@.len() as int,
                ),
            decreases line.count - index,
        {
            let k: usize = members.len();
            proof {
                lemma_planned_at(name@, lines, i as int, index as int);
            }
            let agent_name: String = member_agent_name(
                name,
                line.role_label.as_str(),
                index,
                line.count,
            );
            assert(all[k as int].agent_name == agent_name@);
            let validated: ValidatedAgentName = match ValidatedAgentName::new(
                agent_name.as_str(),
            ) {
                Ok(validated) => validated,
                Err(_) => {
                    let mut reason: String = "invalid_member_name: ".to_owned();
                    reason.append(agent_name.as_str());
                    return Plan::ends_after(
                        events,
                        audit_estate_refusal(sender, "form-team", name, reason.as_str(), at),
                    );
                },
            };
            if k >= seen.mints.len() {
                return Plan {
                    events,
                    step: EstateStep::Mint {
                        persona: line.persona_name.clone(),
                        name: validated,
                    },
                };
            }
            match &seen.mints[k] {
                Err(message) => {
                    let mut reason: String = "mint_failed: ".to_owned();
                    reason.append(agent_name.as_str());
                    reason.append(": ");
                    reason.append(message.as_str());
                    return Plan::ends_after(
                        events,
                        audit_estate_refusal(sender, "form-team", name, reason.as_str(), at),
                    );
                },
                Ok(()) => {},
            }
            let event: AuditEvent = AuditEvent::AgentMinted {
                sender_id: sender.clone(),
                name: agent_name.clone(),
                persona_name: line.persona_name.clone(),
                team: Some(name.to_owned()),
                at,
            };
            let member: TeamMemberRecord = TeamMemberRecord {
                agent_name,
                role_label: line.role_label.clone(),
                persona_name: line.persona_name.clone(),
            };
            proof {
                lemma_events_push(events@, event);
                lemma_seats_push(members@, member);
                assert(minted_events(sender@, name@, all, k as nat, at).push(event@)
                    =~= minted_events(sender@, name@, all, (k + 1) as nat, at));
                assert(all.take(k as int).push(member@) =~= all.take(k + 1));
            }
            events.push(event);
            members.push(member);
            index = index + 1;
        }
        i = i + 1;
    }
    assert(all.take(members@.len() as int) =~= all);
    match &seen.written {
        None => Plan {
            events,
            step: EstateStep::FormRoster(
                TeamRecord {
                    name: name.to_owned(),
                    template_name: template.to_owned(),
                    lead_role: config.lead_role.clone(),
                    members,
                    state: TeamState::Formed,
                    formed_at: at,
                    dispositions: Dispositions::new(),
                },
            ),
        },
        Some(Err(_)) => Plan::ends_after(
            events,
            audit_estate_refusal(sender, "form-team", name, "roster_write_failed", at),
        ),
        Some(Ok(())) => {
            let names: Vec<String> = names_of(&members);
            Plan::ends_after(
                events,
                AuditEvent::TeamFormed {
                    sender_id: sender.clone(),
                    name: name.to_owned(),
                    members: names,
                    at,
                },
            )
        },
    }
}

fn names_of(members: &Vec<TeamMemberRecord>) -> (names: Vec<String>)
    ensures
        texts(names@) == seat_names(seats_view(members@)),
{
    let ghost all: Seq<Seq<char>> = seat_names(seats_view(members@));
    let mut names: Vec<String> = Vec::new();
    let mut i: usize = 0;
    assert(texts(names@) =~= all.take(0));
    while i < members.len()
        invariant
            all == seat_names(seats_view(members@)),
            i <= members@.len(),
            texts(names@) == all.take(i as int),
        decreases members.len() - i,
    {
        let name: String = members[i].agent_name.clone();
        proof {
            lemma_texts_push(names@, name);
            assert(all[i as int] == name@);
            assert(all.take(i as int).push(name@) =~= all.take(i + 1));
        }
        names.push(name);
        i = i + 1;
    }
    assert(all.take(i as int) =~= all);
    names
}

// ── Laws ─────────────────────────────────────────────────────────────────────

/// Whoever is not the operator is refused, whatever was asked and learned:
/// the one trace of that is the whole of the course.
pub proof fn law_only_the_operator_commands(
    operator: Seq<char>,
    store: Seq<char>,
    data_dir: Option<Seq<char>>,
    op: Option<OpView>,
    sender: Seq<char>,
    at: Timestamp,
    seen: EstateReplies,
)
    requires
        sender != operator,
    ensures
        ({
            let course = estate_course(operator, store, data_dir, op, sender, at, seen);
            match op {
                Some(o) => course == Course::ends(
                    engagement_refused(
                        sender,
                        o.verb_text(),
                        Some(o.target()),
                        "not_operator"@,
                        at,
                    ),
                ),
                None => course == Course::ends(
                    engagement_refused(sender, "unknown"@, None, "invalid_payload"@, at),
                ),
            }
        }),
{
}

/// No operation is over without a trace of how it ended.
pub proof fn law_every_operation_is_traced(
    operator: Seq<char>,
    store: Seq<char>,
    data_dir: Option<Seq<char>>,
    op: Option<OpView>,
    sender: Seq<char>,
    at: Timestamp,
    seen: EstateReplies,
)
    ensures
        ({
            let course = estate_course(operator, store, data_dir, op, sender, at, seen);
            course.step is Done ==> course.events.len() > 0
        }),
{
}

/// A team is formed once: where its roster is there, forming it again is
/// refused as a taken name, and nothing is loaded, minted or written.
pub proof fn law_formed_team_is_left_alone(
    data_dir: Seq<char>,
    name: Seq<char>,
    template: Seq<char>,
    sender: Seq<char>,
    at: Timestamp,
    seen: EstateReplies,
)
    requires
        seen.roster matches Some(RosterRead::Found(_)),
    ensures
        form_course(data_dir, name, template, sender, at, seen) == Course::ends(
            estate_refused(sender, "form-team"@, name, "name_taken"@, at),
        ),
{
}

/// No step is taken before the traces of the earlier ones are in the log.
pub proof fn law_traces_come_first(course: Course, audited: nat)
    requires
        course.step !is Audit,
    ensures
        course.paced(audited) !is Audit <==> audited >= course.events.len(),
        audited < course.events.len() ==> course.paced(audited) == StepView::Audit(
            course.events[audited as int],
        ),
{
}

/// What was learned stays, and more may be.
pub open spec fn learned_more(seen: EstateReplies, later: EstateReplies) -> bool {
    &&& seen.canonical is Some ==> later.canonical == seen.canonical
    &&& seen.store.taken is Some ==> later.store.taken == seen.store.taken
    &&& seen.store.directory is Some ==> later.store.directory == seen.store.directory
    &&& seen.store.read is Some ==> later.store.read == seen.store.read
    &&& seen.store.written is Some ==> later.store.written == seen.store.written
    &&& seen.roster is Some ==> later.roster == seen.roster
    &&& seen.template is Some ==> later.template == seen.template
    &&& seen.mints@.is_prefix_of(later.mints@)
    &&& seen.retired <= later.retired
    &&& seen.written is Some ==> later.written == seen.written
    &&& seen.rosters is Some ==> later.rosters == seen.rosters
    &&& seen.agents is Some ==> later.agents == seen.agents
}

proof fn lemma_mint_walk_grows(
    plan: Seq<SeatView>,
    mints: Seq<Result<(), String>>,
    later: Seq<Result<(), String>>,
    k: int,
)
    requires
        mints.is_prefix_of(later),
        0 <= k,
    ensures
        k <= plan.len() ==> k <= mint_walk(plan, mints, k).0 <= mint_walk(plan, later, k).0
            <= plan.len(),
        mint_walk(plan, mints, k).1 !is Pending ==> mint_walk(plan, later, k) == mint_walk(
            plan,
            mints,
            k,
        ),
    decreases plan.len() - k,
{
    if k < plan.len() && valid_agent_name(plan[k].agent_name) {
        if k < mints.len() {
            assert(mints[k] == later.subrange(0, mints.len() as int)[k]);
            lemma_mint_walk_grows(plan, mints, later, k + 1);
        } else if k < later.len() {
            lemma_mint_walk_grows(plan, later, later, k + 1);
        }
    }
}

proof fn lemma_settle_walk_grows(
    members: Seq<SeatView>,
    said: Map<Seq<char>, MemberDisposition>,
    retired: nat,
    later: nat,
    k: int,
    r: nat,
)
    requires
        retired <= later,
        0 <= k <= members.len(),
    ensures
        k <= settle_walk(members, said, retired, k, r) <= settle_walk(members, said, later, k, r)
            <= members.len(),
    decreases members.len() - k,
{
    if k < members.len() {
        match disposition_of(said, members[k].agent_name) {
            MemberDisposition::Released => {
                lemma_settle_walk_grows(members, said, retired, later, k + 1, r);
            },
            MemberDisposition::Retired => {
                if r < retired {
                    lemma_settle_walk_grows(members, said, retired, later, k + 1, r + 1);
                } else if r < later {
                    lemma_settle_walk_grows(members, said, later, later, k + 1, r + 1);
                }
            },
        }
    }
}

/// The traces of an operation only ever grow as more is learned, and an
/// operation that is over stays as it is.
pub proof fn law_traces_only_grow(
    operator: Seq<char>,
    store: Seq<char>,
    data_dir: Option<Seq<char>>,
    op: Option<OpView>,
    sender: Seq<char>,
    at: Timestamp,
    seen: EstateReplies,
    later: EstateReplies,
)
    requires
        learned_more(seen, later),
    ensures
        ({
            let before = estate_course(operator, store, data_dir, op, sender, at, seen);
            let after = estate_course(operator, store, data_dir, op, sender, at, later);
            &&& before.events.is_prefix_of(after.events)
            &&& before.step is Done ==> after == before
        }),
{
    let before = estate_course(operator, store, data_dir, op, sender, at, seen);
    let after = estate_course(operator, store, data_dir, op, sender, at, later);
    assert(before.events.len() == 0 ==> before.events =~= after.events.subrange(0, 0));
    match op {
        Some(OpView::FormTeam { name, template }) => {
            if let Some(Ok(config)) = seen.template {
                let lines = members_view(config.members@);
                let plan = planned(name, lines, lines.len() as int);
                lemma_mint_walk_grows(plan, seen.mints@, later.mints@, 0);
            }
        },
        Some(OpView::DissolveTeam { name, dispositions }) => {
            if let Some(RosterRead::Found(record)) = seen.roster {
                let members = seats_view(record.members@);
                lemma_settle_walk_grows(
                    members,
                    dispositions,
                    seen.retired as nat,
                    later.retired as nat,
                    0,
                    0,
                );
            }
        },
        Some(OpView::MintAgent { .. }) => {
            if seen.mints@.len() > 0 {
                assert(seen.mints@[0] == later.mints@.subrange(0, seen.mints@.len() as int)[0]);
            }
        },
        _ => {},
    }
    assert(before.events =~= after.events.subrange(0, before.events.len() as int));
}

/// A text that was cut to fit does fit.
proof fn lemma_fitting_fits(s: Seq<char>, max: int)
    requires
        0 <= max,
    ensures
        encode_utf8(fitting(s, max)).len() <= max,
    decreases s.len(),
{
    if s.len() > 0 && encode_utf8(s).len() > max {
        lemma_fitting_fits(s.drop_last(), max);
    }
}

/// The reason in the trace of a refused team or agent operation keeps within
/// its bytes, however long the complaint was.
pub proof fn law_reasons_are_bounded(
    sender: Seq<char>,
    op: Seq<char>,
    name: Seq<char>,
    reason: Seq<char>,
    at: Timestamp,
)
    ensures
        estate_refused(sender, op, name, reason, at) matches AuditView::EstateOpRefused {
            reason: kept,
            ..
        } && encode_utf8(kept).len() <= MAX_REFUSAL_REASON_BYTES,
{
    lemma_fitting_fits(reason, MAX_REFUSAL_REASON_BYTES as int);
}

/// Dissolving accounts for every member: what was said of it, and where
/// nothing was said, that it is retired.
pub proof fn law_dissolving_accounts_for_all(
    members: Seq<SeatView>,
    said: Map<Seq<char>, MemberDisposition>,
    n: int,
    i: int,
)
    requires
        0 <= i < n <= members.len(),
    ensures
        effective(members, said, n).contains_key(members[i].agent_name),
        effective(members, said, n)[members[i].agent_name] == disposition_of(
            said,
            members[i].agent_name,
        ),
        !said.contains_key(members[i].agent_name) ==> effective(
            members,
            said,
            n,
        )[members[i].agent_name] == MemberDisposition::Retired,
    decreases n,
{
    if i < n - 1 {
        law_dissolving_accounts_for_all(members, said, n - 1, i);
    }
}

/// A team member is not retired on its own, and the coordinator never: while
/// a formed team has the member, asking to retire it is refused.
pub proof fn law_serving_members_are_not_retired_alone(
    name: Seq<char>,
    sender: Seq<char>,
    at: Timestamp,
    seen: EstateReplies,
)
    ensures
        retire_course(name, sender, at, seen).step matches StepView::Retire { name: gone } ==> {
            &&& gone == name
            &&& name != ESTATE_AGENT_NAME@
            &&& seen.rosters matches Some(Ok(rosters)) && !serving(teams_view(rosters@), name)
        },
{
}

proof fn lemma_planned_names(team: Seq<char>, lines: Seq<MemberView>, n: int, k: int)
    requires
        0 <= n <= lines.len(),
        0 <= k < planned(team, lines, n).len(),
    ensures
        planned(team, lines, n)[k].agent_name.contains('-'),
    decreases n,
{
    let before = planned(team, lines, n - 1);
    if k < before.len() {
        lemma_planned_names(team, lines, n - 1, k);
    } else {
        let line = lines[n - 1];
        let x = k - before.len();
        let name = seat_name(team, line.role_label, x, line.count as int);
        assert(line_seats(team, line)[x].agent_name == name);
        reveal_strlit("-");
        assert(name[team.len() as int] == '-');
    }
}

proof fn lemma_pending_is_valid(plan: Seq<SeatView>, mints: Seq<Result<(), String>>, k: int)
    requires
        0 <= k,
    ensures
        mint_walk(plan, mints, k).1 is Pending ==> 0 <= mint_walk(plan, mints, k).0 < plan.len()
            && valid_agent_name(plan[mint_walk(plan, mints, k).0].agent_name),
    decreases plan.len() - k,
{
    if k < plan.len() && valid_agent_name(plan[k].agent_name) && k < mints.len() {
        lemma_pending_is_valid(plan, mints, k + 1);
    }
}

/// No agent is ever minted under the coordinator's name, nor under a name
/// that no agent may have.
pub proof fn law_coordinator_name_is_never_minted(
    operator: Seq<char>,
    store: Seq<char>,
    data_dir: Option<Seq<char>>,
    op: Option<OpView>,
    sender: Seq<char>,
    at: Timestamp,
    seen: EstateReplies,
)
    ensures
        estate_course(operator, store, data_dir, op, sender, at, seen).step matches StepView::Mint {
            name,
            ..
        } ==> name != ESTATE_AGENT_NAME@ && valid_agent_name(name),
{
    match op {
        Some(OpView::FormTeam { name, template }) => {
            if let Some(Ok(config)) = seen.template {
                let lines = members_view(config.members@);
                let plan = planned(name, lines, lines.len() as int);
                lemma_pending_is_valid(plan, seen.mints@, 0);
                let k = mint_walk(plan, seen.mints@, 0).0;
                if mint_walk(plan, seen.mints@, 0).1 is Pending {
                    lemma_planned_names(name, lines, lines.len() as int, k);
                    let seat = plan[k].agent_name;
                    let d = choose|d: int| 0 <= d < seat.len() && seat[d] == '-';
                    reveal_strlit("estate");
                    assert(seat[d] == '-');
                }
            }
        },
        _ => {},
    }
}

/// What a mint came to is what was answered: a refusal in its own words, and
/// where no answer came, that it did not.
pub proof fn law_mints_come_to_what_was_answered(reply: MintReply)
    ensures
        match reply {
            MintReply::Success => mint_outcome(reply) is Ok,
            MintReply::Failure(message) => mint_outcome(reply) == Err::<(), Seq<char>>(message@),
            MintReply::Invalid(complaint) => mint_outcome(reply) == Err::<(), Seq<char>>(
                "invalid mint request: "@ + complaint@,
            ),
            MintReply::Dropped => mint_outcome(reply) == Err::<(), Seq<char>>(
                "mint reply channel dropped"@,
            ),
            MintReply::TimedOut => mint_outcome(reply) == Err::<(), Seq<char>>(
                "mint timed out after "@ + decimal(30) + "s"@,
            ),
        },
{
}

/// What is said of an operation is said of its own parts, each in its place.
pub proof fn law_estate_op_is_taken_as_it_is(value: EstateOp)
    ensures
        match value {
            EstateOp::OpenEngagement { name, purpose, root } => value@ == (OpView::OpenEngagement {
                name: name@,
                purpose: purpose@,
                root: opt_text(root),
            }),
            EstateOp::CloseEngagement { name } => value@ == (OpView::CloseEngagement { name: name@ }),
            EstateOp::ReopenEngagement { name } => value@ == (OpView::ReopenEngagement { name: name@ }),
            EstateOp::FormTeam { name, template } => value@ == (OpView::FormTeam {
                name: name@,
                template: template@,
            }),
            EstateOp::DissolveTeam { name, dispositions } => value@ == (OpView::DissolveTeam {
                name: name@,
                dispositions: dispositions@,
            }),
            EstateOp::MintAgent { name, persona } => value@ == (OpView::MintAgent {
                name: name@,
                persona: persona@,
            }),
            EstateOp::RetireAgent { name } => value@ == (OpView::RetireAgent { name: name@ }),
        },
{
}

/// What is said of a step of an operation is said of its own parts, each in its place.
pub proof fn law_estate_step_is_taken_as_it_is(value: EstateStep)
    ensures
        match value {
            EstateStep::Audit(event) => value@ == StepView::Audit(event@),
            EstateStep::Canonicalize { path } => value@ == (StepView::Canonicalize { path: path@ }),
            EstateStep::Store(next) => value@ == StepView::Store(next@),
            EstateStep::GetRoster { name } => value@ == (StepView::GetRoster { name: name@ }),
            EstateStep::LoadTemplate { path } => value@ == (StepView::LoadTemplate { path: path@ }),
            EstateStep::Mint { persona, name } => value@ == (StepView::Mint { persona: persona@, name: name@ }),
            EstateStep::FormRoster(record) => value@ == StepView::FormRoster(record@),
            EstateStep::DissolveRoster { name, dispositions } => value@ == (StepView::DissolveRoster {
                name: name@,
                dispositions: dispositions@,
            }),
            EstateStep::Retire { name } => value@ == (StepView::Retire { name: name@ }),
            EstateStep::ListRosters => value@ == StepView::ListRosters,
            EstateStep::OpenAgents => value@ == StepView::OpenAgents,
            EstateStep::Done => value@ == StepView::Done,
        },
{
}

/// No two kinds of refusal have one token.
pub proof fn law_tokens_tell_refusals_apart(a: EngagementErrorView, b: EngagementErrorView)
    requires
        refusal_token(a) == refusal_token(b),
    ensures
        a is InvalidName <==> b is InvalidName,
        a is NameTaken <==> b is NameTaken,
        a is NotFound <==> b is NotFound,
        a is WrongState <==> b is WrongState,
        a is RelativeRoot <==> b is RelativeRoot,
        a is Io <==> b is Io,
        a is Toml <==> b is Toml,
{
    reveal_strlit("invalid_name");
    reveal_strlit("name_taken");
    reveal_strlit("not_found");
    reveal_strlit("wrong_state");
    reveal_strlit("relative_root");
    reveal_strlit("io_error");
    reveal_strlit("record_corrupt");
    assert("invalid_name"@.len() == 12);
    assert("name_taken"@.len() == 10);
    assert("not_found"@.len() == 9);
    assert("wrong_state"@.len() == 11);
    assert("relative_root"@.len() == 13);
    assert("io_error"@.len() == 8);
    assert("record_corrupt"@.len() == 14);
}

} // verus!
