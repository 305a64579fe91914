//! What becomes of the operator's orders.
//!
//! The laws here follow each order from its words to what is written, minted,
//! retired and put in the audit log. They speak of the order, of what the steps
//! so far came to, and of the step and the traces that follow.

use vstd::prelude::*;
use vstd::utf8::*;

use crate::agent_fs::valid_agent_name;
use crate::agent_registry::AgentStatus;
use crate::audit::AuditView;
use crate::config::{members_view, ConfigError, MemberView, TeamConfig};
use crate::engagement::{
    EngagementState, EngagementView, RecordRead, RecordWriteError, StoreNextView, StoreReplies,
};
use crate::estate::{
    effective, estate_course, line_seats, mint_walk, minted_events, planned,
    seat_names, settle_walk, settled_events, Course, EstateReplies, MintStop, OpView, RosterRead,
    StepView, MAX_REFUSAL_REASON_BYTES,
};
use crate::identity::Timestamp;
use crate::io_error::IoKind;
use crate::paths::{absolute, joined_path};
use crate::team::{
    has_member, seats_view, serving, teams_view, MemberDisposition, SeatView, TeamRecord, TeamState,
    TeamView,
};
use crate::text::{decimal, fitting};

verus! {

// ── Refusals ─────────────────────────────────────────────────────────────────

/// `kept` is as much of `full` as fits in so many bytes, cut between
/// characters.
pub open spec fn cut_to(full: Seq<char>, kept: Seq<char>, bytes: int) -> bool {
    &&& kept.is_prefix_of(full)
    &&& kept.len() > 0 ==> encode_utf8(kept).len() <= bytes
    &&& kept.len() < full.len() ==> encode_utf8(full.take(kept.len() as int + 1)).len() > bytes
}

proof fn lemma_fitting_is_cut(full: Seq<char>, s: Seq<char>, bytes: int)
    requires
        s.is_prefix_of(full),
        s.len() < full.len() ==> encode_utf8(full.take(s.len() as int + 1)).len() > bytes,
    ensures
        cut_to(full, fitting(s, bytes), bytes),
    decreases s.len(),
{
    if s.len() > 0 && encode_utf8(s).len() > bytes {
        let less = s.drop_last();
        assert(s =~= full.take(less.len() as int + 1));
        assert(less =~= full.subrange(0, less.len() as int));
        lemma_fitting_is_cut(full, less, bytes);
    }
}

/// The whole of the course is one trace: an order about a team or an agent was
/// refused, with what was ordered, by whom, about what, why and when.
pub open spec fn refused(
    course: Course,
    sender: Seq<char>,
    order: Seq<char>,
    name: Seq<char>,
    reason: Seq<char>,
    at: Timestamp,
) -> bool {
    course.step is Done && course.events.len() == 1 && tells_refusal(
        course.events[0],
        sender,
        order,
        name,
        reason,
        at,
    )
}

/// The trace tells that an order about a team or an agent was refused.
pub open spec fn tells_refusal(
    event: AuditView,
    sender: Seq<char>,
    order: Seq<char>,
    name: Seq<char>,
    reason: Seq<char>,
    at: Timestamp,
) -> bool {
    event matches AuditView::EstateOpRefused {
        sender_id,
        op,
        name: about,
        reason: told,
        at: when,
    } && sender_id == Some(sender) && op == order && about == Some(name) && cut_to(reason, told, 256)
        && when == at
}

/// The whole of the course is one trace: an order about an engagement was
/// refused, with what was ordered, by whom, about what, why and when.
pub open spec fn engagement_order_refused(
    sender: Seq<char>,
    order: Seq<char>,
    name: Seq<char>,
    reason: Seq<char>,
    at: Timestamp,
) -> Course {
    Course {
        events: seq![
            AuditView::EngagementOpRefused {
                sender_id: Some(sender),
                op: order,
                name: Some(name),
                reason,
                at,
            },
        ],
        step: StepView::Done,
    }
}

proof fn lemma_cut(reason: Seq<char>)
    ensures
        cut_to(reason, fitting(reason, MAX_REFUSAL_REASON_BYTES as int), 256),
{
    assert(reason =~= reason.subrange(0, reason.len() as int));
    lemma_fitting_is_cut(reason, reason, 256);
}

/// The word for each order in the audit log.
pub open spec fn word_for(op: OpView) -> Seq<char> {
    match op {
        OpView::OpenEngagement { .. } => "open-engagement"@,
        OpView::CloseEngagement { .. } => "close-engagement"@,
        OpView::ReopenEngagement { .. } => "reopen-engagement"@,
        OpView::FormTeam { .. } => "form-team"@,
        OpView::DissolveTeam { .. } => "dissolve-team"@,
        OpView::MintAgent { .. } => "mint-agent"@,
        OpView::RetireAgent { .. } => "retire-agent"@,
    }
}

/// What each order is about.
pub open spec fn about(op: OpView) -> Seq<char> {
    match op {
        OpView::OpenEngagement { name, .. } => name,
        OpView::CloseEngagement { name } => name,
        OpView::ReopenEngagement { name } => name,
        OpView::FormTeam { name, .. } => name,
        OpView::DissolveTeam { name, .. } => name,
        OpView::MintAgent { name, .. } => name,
        OpView::RetireAgent { name } => name,
    }
}

/// An order of someone who is not the operator comes to nothing but a trace
/// that says whose order it was, what it was and what about; a payload that is
/// no order comes to nothing but a trace of that, whoever sent it.
pub proof fn law_strangers_orders_come_to_nothing(
    operator: Seq<char>,
    store: Seq<char>,
    data_dir: Option<Seq<char>>,
    op: OpView,
    sender: Seq<char>,
    at: Timestamp,
    seen: EstateReplies,
)
    ensures
        sender != operator ==> estate_course(
            operator,
            store,
            data_dir,
            Some(op),
            sender,
            at,
            seen,
        ) == engagement_order_refused(sender, word_for(op), about(op), "not_operator"@, at),
        estate_course(operator, store, data_dir, None, sender, at, seen) == (Course {
            events: seq![
                AuditView::EngagementOpRefused {
                    sender_id: Some(sender),
                    op: "unknown"@,
                    name: None,
                    reason: "invalid_payload"@,
                    at,
                },
            ],
            step: StepView::Done,
        }),
{
}

/// Until team orders are wired to a data directory, each is refused, and says
/// so.
pub proof fn law_unwired_team_orders_are_refused(
    operator: Seq<char>,
    store: Seq<char>,
    op: OpView,
    at: Timestamp,
    seen: EstateReplies,
)
    requires
        op is FormTeam || op is DissolveTeam || op is MintAgent || op is RetireAgent,
    ensures
        refused(
            estate_course(operator, store, None, Some(op), operator, at, seen),
            operator,
            word_for(op),
            about(op),
            "team_ops_unwired"@,
            at,
        ),
{
    lemma_cut("team_ops_unwired"@);
}

// ── Agents ───────────────────────────────────────────────────────────────────

/// An agent is minted as ordered: under the order's name and of the order's
/// persona, once, and the trace of it says the same. An order that cannot be
/// carried out is refused with the reason, and nothing is minted.
pub proof fn law_agents_are_minted_as_ordered(
    operator: Seq<char>,
    store: Seq<char>,
    data_dir: Seq<char>,
    name: Seq<char>,
    persona: Seq<char>,
    at: Timestamp,
    seen: EstateReplies,
)
    ensures
        ({
            let order = OpView::MintAgent { name, persona };
            let course = estate_course(
                operator,
                store,
                Some(data_dir),
                Some(order),
                operator,
                at,
                seen,
            );
            if name == "estate"@ {
                refused(course, operator, "mint-agent"@, name, "reserved"@, at)
            } else if !valid_agent_name(name) {
                refused(course, operator, "mint-agent"@, name, "invalid_name"@, at)
            } else if seen.mints@.len() == 0 {
                course == Course { events: Seq::empty(), step: StepView::Mint { persona, name } }
            } else {
                match seen.mints@[0] {
                    Ok(()) => course == Course {
                        events: seq![
                            AuditView::AgentMinted {
                                sender_id: operator,
                                name,
                                persona_name: persona,
                                team: None,
                                at,
                            },
                        ],
                        step: StepView::Done,
                    },
                    Err(message) => refused(
                        course,
                        operator,
                        "mint-agent"@,
                        name,
                        "mint_failed: "@ + message@,
                        at,
                    ),
                }
            }
        }),
{
    lemma_cut("reserved"@);
    lemma_cut("invalid_name"@);
    if seen.mints@.len() > 0 {
        if let Err(message) = seen.mints@[0] {
            lemma_cut("mint_failed: "@ + message@);
        }
    }
}

/// A formed team among these has a member of this name.
pub open spec fn in_a_formed_team(rosters: Seq<TeamRecord>, name: Seq<char>) -> bool {
    exists|i: int, k: int|
        0 <= i < rosters.len() && 0 <= k < rosters[i].members@.len() && #[trigger] seat_of(
            rosters,
            i,
            k,
        ) == name && rosters[i].state == TeamState::Formed
}

/// The name of the `k`-th member of the `i`-th team.
pub open spec fn seat_of(rosters: Seq<TeamRecord>, i: int, k: int) -> Seq<char> {
    rosters[i].members@[k].agent_name@
}

/// An agent is retired as ordered: the one that the order names and no other,
/// once, and the trace of it says the same. The coordinator, a member of a
/// formed team, an agent that is not registered and one that is retired already
/// are refused, each with its reason.
pub proof fn law_agents_are_retired_as_ordered(
    operator: Seq<char>,
    store: Seq<char>,
    data_dir: Seq<char>,
    name: Seq<char>,
    at: Timestamp,
    seen: EstateReplies,
)
    ensures
        ({
            let order = OpView::RetireAgent { name };
            let word = "retire-agent"@;
            let course = estate_course(
                operator,
                store,
                Some(data_dir),
                Some(order),
                operator,
                at,
                seen,
            );
            if name == "estate"@ {
                refused(course, operator, word, name, "reserved"@, at)
            } else {
                match seen.rosters {
                    None => course == Course { events: Seq::empty(), step: StepView::ListRosters },
                    Some(Err(_)) => refused(course, operator, word, name, "roster_error"@, at),
                    Some(Ok(rosters)) => if in_a_formed_team(rosters@, name) {
                        refused(course, operator, word, name, "team_member"@, at)
                    } else {
                        match seen.agents {
                            None => course == Course {
                                events: Seq::empty(),
                                step: StepView::OpenAgents,
                            },
                            Some(Err(_)) => refused(
                                course,
                                operator,
                                word,
                                name,
                                "registry_error"@,
                                at,
                            ),
                            Some(Ok(registry)) => if !registry@.contains_key(name) {
                                refused(course, operator, word, name, "not_found"@, at)
                            } else if registry@[name].status == AgentStatus::Retired {
                                refused(course, operator, word, name, "wrong_state"@, at)
                            } else if seen.retired == 0 {
                                course == Course {
                                    events: Seq::empty(),
                                    step: StepView::Retire { name },
                                }
                            } else {
                                course == Course {
                                    events: seq![
                                        AuditView::AgentRetired { sender_id: operator, name, at },
                                    ],
                                    step: StepView::Done,
                                }
                            },
                        }
                    },
                }
            }
        }),
{
    lemma_cut("reserved"@);
    lemma_cut("roster_error"@);
    lemma_cut("team_member"@);
    lemma_cut("registry_error"@);
    lemma_cut("not_found"@);
    lemma_cut("wrong_state"@);
    if let Some(Ok(rosters)) = seen.rosters {
        lemma_serving(rosters@, name);
    }
}

proof fn lemma_serving(rosters: Seq<TeamRecord>, name: Seq<char>)
    ensures
        serving(teams_view(rosters), name) == in_a_formed_team(rosters, name),
{
    let teams = teams_view(rosters);
    if in_a_formed_team(rosters, name) {
        let (i, k) = choose|i: int, k: int|
            0 <= i < rosters.len() && 0 <= k < rosters[i].members@.len() && #[trigger] seat_of(
                rosters,
                i,
                k,
            ) == name && rosters[i].state == TeamState::Formed;
        assert(teams[i] == rosters[i]@);
        assert(teams[i].members[k].agent_name == name);
    }
    if serving(teams, name) {
        let i = choose|i: int|
            0 <= i < teams.len() && (#[trigger] teams[i]).state == TeamState::Formed && has_member(
                teams[i].members,
                name,
            );
        assert(teams[i] == rosters[i]@);
        let k = choose|k: int|
            0 <= k < teams[i].members.len() && (#[trigger] teams[i].members[k]).agent_name == name;
        assert(seat_of(rosters, i, k) == name);
    }
}

// ── Engagements ──────────────────────────────────────────────────────────────

/// The directory of an engagement, below the store.
pub open spec fn home(store: Seq<char>, name: Seq<char>) -> Seq<char> {
    joined_path(store, name)
}

/// The file of an engagement's record.
pub open spec fn record_path(store: Seq<char>, name: Seq<char>) -> Seq<char> {
    joined_path(joined_path(store, name), "record.toml"@)
}

/// The course asks for this step, and has left no trace.
pub open spec fn asks_only(step: StepView) -> Course {
    Course { events: Seq::empty(), step }
}

/// The course ends with this trace alone.
pub open spec fn leaves_only(event: AuditView) -> Course {
    Course { events: seq![event], step: StepView::Done }
}

/// What an order comes to once its record is to be written: the record goes to
/// its own file, for its owner alone; once it is there the trace tells what was
/// done, and where it cannot be written, why.
pub open spec fn writes_record(
    store: Seq<char>,
    record: EngagementView,
    seen: StoreReplies,
    done: AuditView,
    sender: Seq<char>,
    order: Seq<char>,
    name: Seq<char>,
    at: Timestamp,
) -> Course {
    match seen.written {
        None => asks_only(
            StepView::Store(
                StoreNextView::Write {
                    path: record_path(store, record.name),
                    dir: home(store, record.name),
                    mode: 0o600,
                    record,
                },
            ),
        ),
        Some(Ok(())) => leaves_only(done),
        Some(Err(RecordWriteError::Io(_))) => engagement_order_refused(
            sender,
            order,
            name,
            "io_error"@,
            at,
        ),
        Some(Err(RecordWriteError::Unserializable(_))) => engagement_order_refused(
            sender,
            order,
            name,
            "record_corrupt"@,
            at,
        ),
    }
}

/// An engagement is opened as ordered: its record has the order's name and
/// purpose, the canonical form of the order's root, the time of the order, and
/// is open; nobody works on it yet, and it has no parent. A name is looked at
/// before it is used, and one that was ever used is refused.
pub proof fn law_engagements_are_opened_as_ordered(
    operator: Seq<char>,
    store: Seq<char>,
    data_dir: Option<Seq<char>>,
    name: Seq<char>,
    purpose: Seq<char>,
    root: Option<Seq<char>>,
    at: Timestamp,
    seen: EstateReplies,
)
    ensures
        ({
            let order = OpView::OpenEngagement { name, purpose, root };
            let word = "open-engagement"@;
            let course = estate_course(operator, store, data_dir, Some(order), operator, at, seen);
            let work_root = match (root, seen.canonical) {
                (Some(_), Some(Ok(resolved))) => Some(resolved@),
                _ => None,
            };
            if root is Some && seen.canonical is None {
                course == asks_only(StepView::Canonicalize { path: root->0 })
            } else if root is Some && seen.canonical->0 is Err {
                course == engagement_order_refused(operator, word, name, "root_unresolvable"@, at)
            } else if !valid_agent_name(name) {
                course == engagement_order_refused(operator, word, name, "invalid_name"@, at)
            } else if work_root is Some && !absolute(work_root->0) {
                course == engagement_order_refused(operator, word, name, "relative_root"@, at)
            } else {
                match (seen.store.taken, seen.store.directory) {
                    (None, _) => course == asks_only(
                        StepView::Store(StoreNextView::Look { path: home(store, name) }),
                    ),
                    (Some(true), _) => course == engagement_order_refused(
                        operator,
                        word,
                        name,
                        "name_taken"@,
                        at,
                    ),
                    (Some(false), None) => course == asks_only(
                        StepView::Store(
                            StoreNextView::EnsureDirectory { path: home(store, name), mode: 0o700 },
                        ),
                    ),
                    (Some(false), Some(Err(_))) => course == engagement_order_refused(
                        operator,
                        word,
                        name,
                        "io_error"@,
                        at,
                    ),
                    (Some(false), Some(Ok(()))) => course == writes_record(
                        store,
                        EngagementView {
                            name,
                            purpose,
                            root: work_root,
                            state: EngagementState::Open,
                            opened_at: at,
                            parent: None,
                            staffed_unit: None,
                        },
                        seen.store,
                        AuditView::EngagementOpened {
                            sender_id: operator,
                            name,
                            root: work_root,
                            at,
                        },
                        operator,
                        word,
                        name,
                        at,
                    ),
                }
            }
        }),
{
}

/// What an order to change an engagement's state comes to: its record is read,
/// must be in the state that the change starts from, and is written back with
/// the other state and nothing else changed.
pub open spec fn moves(
    store: Seq<char>,
    from: EngagementState,
    to: EngagementState,
    seen: StoreReplies,
    done: AuditView,
    sender: Seq<char>,
    order: Seq<char>,
    name: Seq<char>,
    at: Timestamp,
) -> Course {
    let refusal = |reason: Seq<char>| engagement_order_refused(sender, order, name, reason, at);
    if !valid_agent_name(name) {
        refusal("invalid_name"@)
    } else {
        match seen.read {
            None => asks_only(
                StepView::Store(
                    StoreNextView::Read { path: record_path(store, name), max_bytes: 65536 },
                ),
            ),
            Some(RecordRead::Unreadable(e)) => if e@.kind == IoKind::NotFound {
                refusal("not_found"@)
            } else {
                refusal("io_error"@)
            },
            Some(RecordRead::Unparsable(_)) => refusal("record_corrupt"@),
            Some(RecordRead::Record(record)) => if record.state != from {
                refusal("wrong_state"@)
            } else {
                writes_record(
                    store,
                    EngagementView { state: to, ..record@ },
                    seen,
                    done,
                    sender,
                    order,
                    name,
                    at,
                )
            },
        }
    }
}

/// Engagements are closed and reopened as ordered: closing needs an open one
/// and reopening a closed one, and nothing but the state of the record changes.
pub proof fn law_engagements_change_state_as_ordered(
    operator: Seq<char>,
    store: Seq<char>,
    data_dir: Option<Seq<char>>,
    name: Seq<char>,
    at: Timestamp,
    seen: EstateReplies,
)
    ensures
        estate_course(
            operator,
            store,
            data_dir,
            Some(OpView::CloseEngagement { name }),
            operator,
            at,
            seen,
        ) == moves(
            store,
            EngagementState::Open,
            EngagementState::Closed,
            seen.store,
            AuditView::EngagementClosed { sender_id: operator, name, at },
            operator,
            "close-engagement"@,
            name,
            at,
        ),
        estate_course(
            operator,
            store,
            data_dir,
            Some(OpView::ReopenEngagement { name }),
            operator,
            at,
            seen,
        ) == moves(
            store,
            EngagementState::Closed,
            EngagementState::Open,
            seen.store,
            AuditView::EngagementReopened { sender_id: operator, name, at },
            operator,
            "reopen-engagement"@,
            name,
            at,
        ),
{
}

// ── Teams ────────────────────────────────────────────────────────────────────

/// The seat of one of a line's members: its name is the team's and the role's,
/// with a number where the line asks for more than one; its persona is the
/// line's.
pub open spec fn seat(team: Seq<char>, line: MemberView, x: int) -> SeatView {
    SeatView {
        agent_name: if line.count == 1 {
            team + "-"@ + line.role_label
        } else {
            team + "-"@ + line.role_label + "-"@ + decimal((x + 1) as nat)
        },
        role_label: line.role_label,
        persona_name: line.persona_name,
    }
}

/// The seats that the lines of a template call for, line by line.
pub open spec fn called_for(team: Seq<char>, lines: Seq<MemberView>) -> Seq<SeatView>
    decreases lines.len(),
{
    if lines.len() == 0 {
        Seq::empty()
    } else {
        called_for(team, lines.drop_last()) + Seq::new(
            lines.last().count as nat,
            |x: int| seat(team, lines.last(), x),
        )
    }
}

proof fn lemma_called_for(team: Seq<char>, lines: Seq<MemberView>, n: int)
    requires
        0 <= n <= lines.len(),
    ensures
        planned(team, lines, n) == called_for(team, lines.take(n)),
    decreases n,
{
    if n > 0 {
        lemma_called_for(team, lines, n - 1);
        assert(lines.take(n).drop_last() =~= lines.take(n - 1));
        let line = lines[n - 1];
        assert(line_seats(team, line) =~= Seq::new(line.count as nat, |x: int| seat(team, line, x)));
    }
}

/// The trace of a mint for a team.
pub open spec fn seat_minted(
    sender: Seq<char>,
    team: Seq<char>,
    seat: SeatView,
    at: Timestamp,
) -> AuditView {
    AuditView::AgentMinted {
        sender_id: sender,
        name: seat.agent_name,
        persona_name: seat.persona_name,
        team: Some(team),
        at,
    }
}

/// The first `k` mints succeeded.
pub open spec fn minted_upto(mints: Seq<Result<(), String>>, k: int) -> bool {
    &&& k <= mints.len()
    &&& forall|i: int| 0 <= i < k ==> #[trigger] mints[i] == Ok::<(), String>(())
}

/// The first `k` seats have names that agents may have.
pub open spec fn named_upto(seats: Seq<SeatView>, k: int) -> bool {
    &&& k <= seats.len()
    &&& forall|i: int| 0 <= i < k ==> valid_agent_name((#[trigger] seats[i]).agent_name)
}

proof fn lemma_walk(seats: Seq<SeatView>, mints: Seq<Result<(), String>>, k: int)
    requires
        0 <= k <= seats.len(),
        minted_upto(mints, k),
        named_upto(seats, k),
    ensures
        ({
            let (n, stop) = mint_walk(seats, mints, k);
            &&& k <= n <= seats.len()
            &&& minted_upto(mints, n)
            &&& named_upto(seats, n)
            &&& match stop {
                MintStop::All => n == seats.len(),
                MintStop::Invalid => n < seats.len() && !valid_agent_name(seats[n].agent_name),
                MintStop::Pending => n < seats.len() && valid_agent_name(seats[n].agent_name) && n
                    == mints.len(),
                MintStop::Failed(message) => n < seats.len() && valid_agent_name(
                    seats[n].agent_name,
                ) && n < mints.len() && (mints[n] matches Err(e) && e@ == message),
            }
        }),
    decreases seats.len() - k,
{
    if k < seats.len() && valid_agent_name(seats[k].agent_name) && k < mints.len() {
        if mints[k] is Ok {
            assert(mints[k] == Ok::<(), String>(mints[k]->Ok_0));
            lemma_walk(seats, mints, k + 1);
        }
    }
}

proof fn lemma_walk_is(
    seats: Seq<SeatView>,
    mints: Seq<Result<(), String>>,
    from: int,
    k: int,
)
    requires
        0 <= from <= k <= seats.len(),
        minted_upto(mints, k),
        named_upto(seats, k),
    ensures
        mint_walk(seats, mints, from) == mint_walk(seats, mints, k),
    decreases k - from,
{
    if from < k {
        assert(mints[from] == Ok::<(), String>(()));
        assert(valid_agent_name(seats[from].agent_name));
        lemma_walk_is(seats, mints, from + 1, k);
    }
}

/// The members of a team are minted as its template calls for: the next to be
/// minted is the next seat, under the seat's name and of the seat's persona.
/// Each that was minted has left a trace that says the same; once all are, the
/// roster that is written has exactly these seats.
pub proof fn law_teams_are_formed_as_called_for(
    operator: Seq<char>,
    store: Seq<char>,
    data_dir: Seq<char>,
    name: Seq<char>,
    template: Seq<char>,
    at: Timestamp,
    seen: EstateReplies,
    config: TeamConfig,
    k: int,
)
    requires
        seen.roster == Some(RosterRead::Absent),
        valid_agent_name(template),
        seen.template == Some(Ok::<TeamConfig, ConfigError>(config)),
        0 <= k <= called_for(name, members_view(config.members@)).len(),
        minted_upto(seen.mints@, k),
        named_upto(called_for(name, members_view(config.members@)), k),
    ensures
        ({
            let seats = called_for(name, members_view(config.members@));
            let traces = Seq::new(k as nat, |i: int| seat_minted(operator, name, seats[i], at));
            let order = OpView::FormTeam { name, template };
            let word = "form-team"@;
            let course = estate_course(
                operator,
                store,
                Some(data_dir),
                Some(order),
                operator,
                at,
                seen,
            );
            if k < seats.len() {
                if !valid_agent_name(seats[k].agent_name) {
                    ends_refused(
                        course,
                        traces,
                        operator,
                        word,
                        name,
                        "invalid_member_name: "@ + seats[k].agent_name,
                        at,
                    )
                } else if k == seen.mints@.len() {
                    course == Course {
                        events: traces,
                        step: StepView::Mint {
                            persona: seats[k].persona_name,
                            name: seats[k].agent_name,
                        },
                    }
                } else {
                    seen.mints@[k] matches Err(message) ==> ends_refused(
                        course,
                        traces,
                        operator,
                        word,
                        name,
                        "mint_failed: "@ + seats[k].agent_name + ": "@ + message@,
                        at,
                    )
                }
            } else {
                match seen.written {
                    None => course == Course {
                        events: traces,
                        step: StepView::FormRoster(
                            TeamView {
                                name,
                                template_name: template,
                                lead_role: config.lead_role@,
                                members: seats,
                                state: TeamState::Formed,
                                formed_at: at,
                                dispositions: Map::empty(),
                            },
                        ),
                    },
                    Some(Ok(())) => course == Course {
                        events: traces.push(
                            AuditView::TeamFormed {
                                sender_id: operator,
                                name,
                                members: Seq::new(seats.len(), |i: int| seats[i].agent_name),
                                at,
                            },
                        ),
                        step: StepView::Done,
                    },
                    Some(Err(_)) => ends_refused(
                        course,
                        traces,
                        operator,
                        word,
                        name,
                        "roster_write_failed"@,
                        at,
                    ),
                }
            }
        }),
{
    let lines = members_view(config.members@);
    lemma_called_for(name, lines, lines.len() as int);
    assert(lines.take(lines.len() as int) =~= lines);
    let seats = called_for(name, lines);
    lemma_walk_is(seats, seen.mints@, 0, k);
    let traces = Seq::new(k as nat, |i: int| seat_minted(operator, name, seats[i], at));
    assert(minted_events(operator, name, seats, k as nat, at) =~= traces);
    assert(seat_names(seats) =~= Seq::new(seats.len(), |i: int| seats[i].agent_name));
    lemma_cut("roster_write_failed"@);
    let course = estate_course(
        operator,
        store,
        Some(data_dir),
        Some(OpView::FormTeam { name, template }),
        operator,
        at,
        seen,
    );
    if course.events.len() == k + 1 {
        assert(course.events.drop_last() =~= traces);
    }
    if k < seats.len() {
        lemma_cut("invalid_member_name: "@ + seats[k].agent_name);
        if k < seen.mints@.len() {
            if let Err(message) = seen.mints@[k] {
                lemma_cut("mint_failed: "@ + seats[k].agent_name + ": "@ + message@);
            }
        }
    }
}

/// The course ends refused, after these traces.
pub open spec fn ends_refused(
    course: Course,
    traces: Seq<AuditView>,
    sender: Seq<char>,
    order: Seq<char>,
    name: Seq<char>,
    reason: Seq<char>,
    at: Timestamp,
) -> bool {
    &&& course.step is Done
    &&& course.events.len() == traces.len() + 1
    &&& course.events.drop_last() == traces
    &&& tells_refusal(course.events.last(), sender, order, name, reason, at)
}

/// Nothing is minted for a team before its name is known to be new and its
/// template is there; whatever is minted for it, in whatever order the replies
/// came, is a seat that its template calls for, of that seat's persona.
pub proof fn law_only_seats_are_minted(
    operator: Seq<char>,
    store: Seq<char>,
    data_dir: Option<Seq<char>>,
    name: Seq<char>,
    template: Seq<char>,
    at: Timestamp,
    seen: EstateReplies,
)
    ensures
        ({
            let course = estate_course(
                operator,
                store,
                data_dir,
                Some(OpView::FormTeam { name, template }),
                operator,
                at,
                seen,
            );
            let k = seen.mints@.len() as int;
            &&& course.step matches StepView::Mint { persona, name: agent } ==> {
                &&& seen.roster == Some(RosterRead::Absent)
                &&& seen.template matches Some(Ok(config)) && {
                    let seats = called_for(name, members_view(config.members@));
                    &&& k < seats.len()
                    &&& agent == seats[k].agent_name
                    &&& persona == seats[k].persona_name
                    &&& course.events == Seq::new(
                        k as nat,
                        |i: int| seat_minted(operator, name, seats[i], at),
                    )
                }
            }
            &&& course.step matches StepView::FormRoster(team) ==> {
                &&& seen.template matches Some(Ok(config)) && {
                    let seats = called_for(name, members_view(config.members@));
                    &&& team.members == seats
                    &&& minted_upto(seen.mints@, seats.len() as int)
                    &&& course.events == Seq::new(
                        seats.len(),
                        |i: int| seat_minted(operator, name, seats[i], at),
                    )
                }
            }
        }),
{
    if let Some(Ok(config)) = seen.template {
        let lines = members_view(config.members@);
        lemma_called_for(name, lines, lines.len() as int);
        assert(lines.take(lines.len() as int) =~= lines);
        let seats = called_for(name, lines);
        lemma_walk(seats, seen.mints@, 0);
        let n = mint_walk(seats, seen.mints@, 0).0;
        assert(minted_events(operator, name, seats, n as nat, at) =~= Seq::new(
            n as nat,
            |i: int| seat_minted(operator, name, seats[i], at),
        ));
    }
}

/// Before its members are minted, a team's roster is looked for by the order's
/// name, and its template by the order's template; a name that is taken, a
/// roster that cannot be read, and a template that may not be named or is not
/// there are refused, each with its reason.
pub proof fn law_teams_are_prepared_as_ordered(
    operator: Seq<char>,
    store: Seq<char>,
    data_dir: Seq<char>,
    name: Seq<char>,
    template: Seq<char>,
    at: Timestamp,
    seen: EstateReplies,
)
    ensures
        ({
            let course = estate_course(
                operator,
                store,
                Some(data_dir),
                Some(OpView::FormTeam { name, template }),
                operator,
                at,
                seen,
            );
            let word = "form-team"@;
            match seen.roster {
                None => course == asks_only(StepView::GetRoster { name }),
                Some(RosterRead::Found(_)) => refused(
                    course,
                    operator,
                    word,
                    name,
                    "name_taken"@,
                    at,
                ),
                Some(RosterRead::Broken(_)) => refused(
                    course,
                    operator,
                    word,
                    name,
                    "roster_error"@,
                    at,
                ),
                Some(RosterRead::Absent) => if !valid_agent_name(template) {
                    refused(course, operator, word, name, "invalid_template"@, at)
                } else {
                    match seen.template {
                        None => course == asks_only(
                            StepView::LoadTemplate {
                                path: joined_path(
                                    joined_path(data_dir, "teams"@),
                                    template + ".toml"@,
                                ),
                            },
                        ),
                        Some(Err(_)) => refused(
                            course,
                            operator,
                            word,
                            name,
                            "template_not_found"@,
                            at,
                        ),
                        Some(Ok(_)) => true,
                    }
                },
            }
        }),
{
    lemma_cut("name_taken"@);
    lemma_cut("roster_error"@);
    lemma_cut("invalid_template"@);
    lemma_cut("template_not_found"@);
}

/// An agent goes on alone where the order says that it is released.
pub open spec fn goes_on(said: Map<Seq<char>, MemberDisposition>, name: Seq<char>) -> bool {
    said.contains_key(name) && said[name] == MemberDisposition::Released
}

/// How many of the first `k` members are to be retired.
pub open spec fn to_retire(
    members: Seq<SeatView>,
    said: Map<Seq<char>, MemberDisposition>,
    k: int,
) -> nat
    decreases k,
{
    if k <= 0 {
        0
    } else if goes_on(said, members[k - 1].agent_name) {
        to_retire(members, said, k - 1)
    } else {
        to_retire(members, said, k - 1) + 1
    }
}

/// The trace of what became of a member: released from its team, or retired.
pub open spec fn parted(
    sender: Seq<char>,
    team: Seq<char>,
    member: Seq<char>,
    said: Map<Seq<char>, MemberDisposition>,
    at: Timestamp,
) -> AuditView {
    if goes_on(said, member) {
        AuditView::AgentReleased { sender_id: sender, name: member, team, at }
    } else {
        AuditView::AgentRetired { sender_id: sender, name: member, at }
    }
}

proof fn lemma_settle(
    members: Seq<SeatView>,
    said: Map<Seq<char>, MemberDisposition>,
    retired: nat,
    k: int,
)
    requires
        0 <= k <= members.len(),
        to_retire(members, said, k) <= retired,
    ensures
        ({
            let n = settle_walk(members, said, retired, k, to_retire(members, said, k));
            &&& k <= n <= members.len()
            &&& to_retire(members, said, n) <= retired
            &&& n < members.len() ==> to_retire(members, said, n) == retired && !goes_on(
                said,
                members[n].agent_name,
            )
        }),
    decreases members.len() - k,
{
    if k < members.len() {
        let r = to_retire(members, said, k);
        if goes_on(said, members[k].agent_name) {
            assert(to_retire(members, said, k + 1) == r);
            lemma_settle(members, said, retired, k + 1);
        } else if r < retired {
            assert(to_retire(members, said, k + 1) == r + 1);
            lemma_settle(members, said, retired, k + 1);
        }
    }
}

proof fn lemma_effective(
    members: Seq<SeatView>,
    said: Map<Seq<char>, MemberDisposition>,
    n: int,
    name: Seq<char>,
)
    requires
        0 <= n <= members.len(),
    ensures
        effective(members, said, n).contains_key(name) <==> exists|i: int|
            0 <= i < n && (#[trigger] members[i]).agent_name == name,
        effective(members, said, n).contains_key(name) ==> effective(members, said, n)[name] == if
            goes_on(said, name) {
            MemberDisposition::Released
        } else {
            MemberDisposition::Retired
        },
    decreases n,
{
    if n > 0 {
        lemma_effective(members, said, n - 1, name);
        assert(members[n - 1].agent_name == members[n - 1].agent_name);
        if exists|i: int| 0 <= i < n && (#[trigger] members[i]).agent_name == name {
            let i = choose|i: int| 0 <= i < n && (#[trigger] members[i]).agent_name == name;
            if i < n - 1 {
                assert(members[i].agent_name == name);
            }
        }
    }
}

/// A team is dissolved as ordered: its members are taken in order; one that the
/// order releases goes on, and any other is retired, whether the order names it
/// or not. Each leaves the trace of what became of it. Once all are settled,
/// the roster is marked with exactly that, for exactly the members.
pub proof fn law_teams_are_dissolved_as_ordered(
    operator: Seq<char>,
    store: Seq<char>,
    data_dir: Seq<char>,
    name: Seq<char>,
    said: Map<Seq<char>, MemberDisposition>,
    at: Timestamp,
    seen: EstateReplies,
    record: TeamRecord,
)
    requires
        seen.roster == Some(RosterRead::Found(record)),
        record.state == TeamState::Formed,
    ensures
        ({
            let members = seats_view(record.members@);
            let course = estate_course(
                operator,
                store,
                Some(data_dir),
                Some(OpView::DissolveTeam { name, dispositions: said }),
                operator,
                at,
                seen,
            );
            let traces = |n: nat|
                Seq::new(n, |i: int| parted(operator, name, members[i].agent_name, said, at));
            let all = members.len();
            if seen.retired < to_retire(members, said, all as int) {
                exists|n: nat|
                    n < all && to_retire(members, said, n as int) == seen.retired && !goes_on(
                        said,
                        members[n as int].agent_name,
                    ) && course.events == #[trigger] traces(n) && course.step == StepView::Retire {
                        name: members[n as int].agent_name,
                    }
            } else {
                match seen.written {
                    None => course.events == traces(all) && (
                    course.step matches StepView::DissolveRoster { name: team, dispositions }
                        && team == name && settles(dispositions, members, said)),
                    Some(Ok(())) => course == Course {
                        events: traces(all).push(
                            AuditView::TeamDissolved { sender_id: operator, name, at },
                        ),
                        step: StepView::Done,
                    },
                    Some(Err(_)) => ends_refused(
                        course,
                        traces(all),
                        operator,
                        "dissolve-team"@,
                        name,
                        "roster_write_failed"@,
                        at,
                    ),
                }
            }
        }),
{
    let members = seats_view(record.members@);
    let all = members.len();
    let retired = seen.retired as nat;
    lemma_settle(members, said, retired, 0);
    let n = settle_walk(members, said, retired, 0, 0);
    lemma_to_retire_grows(members, said, n, all as int);
    let traces = |n: nat|
        Seq::new(n, |i: int| parted(operator, name, members[i].agent_name, said, at));
    assert(settled_events(operator, name, members, said, n as nat, at) =~= traces(n as nat));
    lemma_cut("roster_write_failed"@);
    if n < all {
        assert(to_retire(members, said, n + 1) == to_retire(members, said, n) + 1);
        lemma_to_retire_grows(members, said, n + 1, all as int);
    }
    let course = estate_course(
        operator,
        store,
        Some(data_dir),
        Some(OpView::DissolveTeam { name, dispositions: said }),
        operator,
        at,
        seen,
    );
    if n < all {
        assert(course.events == traces(n as nat));
    } else if course.events.len() == all + 1 {
        assert(course.events.drop_last() =~= traces(all));
    }
    let settled = effective(members, said, all as int);
    assert forall|m: Seq<char>| settled.contains_key(m) <==> has_member(members, m) by {
        lemma_effective(members, said, all as int, m);
    }
    assert forall|m: Seq<char>| settled.contains_key(m) implies #[trigger] settled[m] == if goes_on(
        said,
        m,
    ) {
        MemberDisposition::Released
    } else {
        MemberDisposition::Retired
    } by {
        lemma_effective(members, said, all as int, m);
    }
}

/// Every member and nobody else is accounted for: released where the order says
/// so, else retired.
pub open spec fn settles(
    dispositions: Map<Seq<char>, MemberDisposition>,
    members: Seq<SeatView>,
    said: Map<Seq<char>, MemberDisposition>,
) -> bool {
    &&& forall|m: Seq<char>| dispositions.contains_key(m) <==> has_member(members, m)
    &&& forall|m: Seq<char>|
        dispositions.contains_key(m) ==> #[trigger] dispositions[m] == if goes_on(said, m) {
            MemberDisposition::Released
        } else {
            MemberDisposition::Retired
        }
}

proof fn lemma_to_retire_grows(
    members: Seq<SeatView>,
    said: Map<Seq<char>, MemberDisposition>,
    a: int,
    b: int,
)
    requires
        0 <= a <= b,
    ensures
        to_retire(members, said, a) <= to_retire(members, said, b),
    decreases b,
{
    if a < b {
        lemma_to_retire_grows(members, said, a, b - 1);
    }
}

/// Only a formed team whose roster can be read is dissolved; the roster is
/// looked for by the order's name, and anything else is refused with its reason.
pub proof fn law_only_formed_teams_are_dissolved(
    operator: Seq<char>,
    store: Seq<char>,
    data_dir: Seq<char>,
    name: Seq<char>,
    said: Map<Seq<char>, MemberDisposition>,
    at: Timestamp,
    seen: EstateReplies,
)
    ensures
        ({
            let course = estate_course(
                operator,
                store,
                Some(data_dir),
                Some(OpView::DissolveTeam { name, dispositions: said }),
                operator,
                at,
                seen,
            );
            let word = "dissolve-team"@;
            match seen.roster {
                None => course == asks_only(StepView::GetRoster { name }),
                Some(RosterRead::Absent) => refused(course, operator, word, name, "not_found"@, at),
                Some(RosterRead::Broken(_)) => refused(
                    course,
                    operator,
                    word,
                    name,
                    "roster_error"@,
                    at,
                ),
                Some(RosterRead::Found(record)) => record.state == TeamState::Dissolved ==> refused(
                    course,
                    operator,
                    word,
                    name,
                    "wrong_state"@,
                    at,
                ),
            }
        }),
{
    lemma_cut("not_found"@);
    lemma_cut("roster_error"@);
    lemma_cut("wrong_state"@);
}

} // verus!
