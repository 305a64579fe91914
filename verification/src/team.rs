//! Standing teams: who serves in them, and what becomes of each member.

use vstd::prelude::*;

use crate::identity::Timestamp;
use crate::text::same_text;

verus! {

/// Whether a team serves.
#[derive(Debug, Clone, Copy, PartialEq, Eq, Structural)]
pub enum TeamState {
    Formed,
    Dissolved,
}

/// What becomes of a member when its team is dissolved.
#[derive(Debug, Clone, Copy, PartialEq, Eq, Structural)]
pub enum MemberDisposition {
    /// The agent is retired for good.
    Retired,
    /// The agent goes on alone.
    Released,
}

/// A member of a team.
#[derive(Debug, PartialEq, Eq)]
pub struct TeamMemberRecord {
    pub agent_name: String,
    pub role_label: String,
    pub persona_name: String,
}

/// What the record of a member holds.
pub struct SeatView {
    pub agent_name: Seq<char>,
    pub role_label: Seq<char>,
    pub persona_name: Seq<char>,
}

impl View for TeamMemberRecord {
    type V = SeatView;

    open spec fn view(&self) -> SeatView {
        SeatView {
            agent_name: self.agent_name@,
            role_label: self.role_label@,
            persona_name: self.persona_name@,
        }
    }
}

impl Clone for TeamMemberRecord {
    fn clone(&self) -> (member: TeamMemberRecord)
        ensures
            member@ == self@,
    {
        TeamMemberRecord {
            agent_name: self.agent_name.clone(),
            role_label: self.role_label.clone(),
            persona_name: self.persona_name.clone(),
        }
    }
}

/// What each member record of a sequence holds.
pub open spec fn seats_view(v: Seq<TeamMemberRecord>) -> Seq<SeatView> {
    v.map_values(|m: TeamMemberRecord| m@)
}

/// The last of the members is the one added last.
pub proof fn lemma_seats_push(v: Seq<TeamMemberRecord>, m: TeamMemberRecord)
    ensures
        seats_view(v.push(m)) == seats_view(v).push(m@),
{
    assert(seats_view(v.push(m)) =~= seats_view(v).push(m@));
}

/// What becomes of one agent.
#[derive(Debug, PartialEq, Eq)]
pub struct Fate {
    pub agent_name: String,
    pub disposition: MemberDisposition,
}

/// What becomes of the members named. Of two entries for one name the later
/// counts.
#[derive(Debug, PartialEq, Eq)]
pub struct Dispositions {
    pub entries: Vec<Fate>,
}

/// The fates by name.
pub open spec fn fates(entries: Seq<Fate>) -> Map<Seq<char>, MemberDisposition>
    decreases entries.len(),
{
    if entries.len() == 0 {
        Map::empty()
    } else {
        fates(entries.drop_last()).insert(entries.last().agent_name@, entries.last().disposition)
    }
}

impl View for Dispositions {
    type V = Map<Seq<char>, MemberDisposition>;

    open spec fn view(&self) -> Map<Seq<char>, MemberDisposition> {
        fates(self.entries@)
    }
}

impl Dispositions {
    /// Nobody is named.
    pub fn new() -> (all: Dispositions)
        ensures
            all@ == Map::<Seq<char>, MemberDisposition>::empty(),
    {
        Dispositions { entries: Vec::new() }
    }

    /// Says what becomes of an agent.
    pub fn insert(&mut self, agent_name: &str, disposition: MemberDisposition)
        ensures
            final(self)@ == old(self)@.insert(agent_name@, disposition),
    {
        let fate: Fate = Fate { agent_name: agent_name.to_owned(), disposition };
        assert(self.entries@.push(fate).drop_last() =~= self.entries@);
        self.entries.push(fate);
    }

    /// What becomes of an agent, if anything is said.
    pub fn get(&self, agent_name: &str) -> (out: Option<MemberDisposition>)
        ensures
            out == (if self@.contains_key(agent_name@) {
                Some(self@[agent_name@])
            } else {
                None
            }),
    {
        let mut i: usize = self.entries.len();
        assert(self.entries@.take(i as int) =~= self.entries@);
        while i > 0
            invariant
                i <= self.entries@.len(),
                self@.contains_key(agent_name@) == fates(
                    self.entries@.take(i as int),
                ).contains_key(agent_name@),
                self@.contains_key(agent_name@) ==> self@[agent_name@] == fates(
                    self.entries@.take(i as int),
                )[agent_name@],
            decreases i,
        {
            let ghost upto: Seq<Fate> = self.entries@.take(i as int);
            assert(upto.drop_last() =~= self.entries@.take(i - 1));
            if same_text(self.entries[i - 1].agent_name.as_str(), agent_name) {
                return Some(self.entries[i - 1].disposition);
            }
            i = i - 1;
        }
        None
    }
}

/// What is kept of a team.
#[derive(Debug, PartialEq, Eq)]
pub struct TeamRecord {
    pub name: String,
    pub template_name: String,
    pub lead_role: String,
    pub members: Vec<TeamMemberRecord>,
    pub state: TeamState,
    pub formed_at: Timestamp,
    pub dispositions: Dispositions,
}

/// What the record of a team holds.
#[verifier::ext_equal]
pub struct TeamView {
    pub name: Seq<char>,
    pub template_name: Seq<char>,
    pub lead_role: Seq<char>,
    pub members: Seq<SeatView>,
    pub state: TeamState,
    pub formed_at: Timestamp,
    pub dispositions: Map<Seq<char>, MemberDisposition>,
}

impl View for TeamRecord {
    type V = TeamView;

    open spec fn view(&self) -> TeamView {
        TeamView {
            name: self.name@,
            template_name: self.template_name@,
            lead_role: self.lead_role@,
            members: seats_view(self.members@),
            state: self.state,
            formed_at: self.formed_at,
            dispositions: self.dispositions@,
        }
    }
}

/// Some member has the name.
pub open spec fn has_member(members: Seq<SeatView>, name: Seq<char>) -> bool {
    exists|i: int| 0 <= i < members.len() && (#[trigger] members[i]).agent_name == name
}

impl TeamRecord {
    /// Whether an agent of this name is a member.
    pub fn has_member(&self, name: &str) -> (yes: bool)
        ensures
            yes == has_member(self@.members, name@),
    {
        let mut i: usize = 0;
        while i < self.members.len()
            invariant
                i <= self.members@.len(),
                forall|k: int| 0 <= k < i ==> (#[trigger] self@.members[k]).agent_name != name@,
            decreases self.members.len() - i,
        {
            assert(self@.members[i as int] == self.members@[i as int]@);
            if same_text(self.members[i].agent_name.as_str(), name) {
                return true;
            }
            i = i + 1;
        }
        false
    }
}

/// What each team record of a sequence holds.
pub open spec fn teams_view(v: Seq<TeamRecord>) -> Seq<TeamView> {
    v.map_values(|t: TeamRecord| t@)
}

/// Some formed team has a member of this name.
pub open spec fn serving(teams: Seq<TeamView>, name: Seq<char>) -> bool {
    exists|i: int|
        0 <= i < teams.len() && (#[trigger] teams[i]).state == TeamState::Formed && has_member(
            teams[i].members,
            name,
        )
}

/// Whether some formed team has a member of this name.
pub fn serves(teams: &Vec<TeamRecord>, name: &str) -> (yes: bool)
    ensures
        yes == serving(teams_view(teams@), name@),
{
    let mut i: usize = 0;
    while i < teams.len()
        invariant
            i <= teams@.len(),
            forall|k: int|
                0 <= k < i ==> !((#[trigger] teams_view(teams@)[k]).state == TeamState::Formed
                    && has_member(teams_view(teams@)[k].members, name@)),
        decreases teams.len() - i,
    {
        assert(teams_view(teams@)[i as int] == teams@[i as int]@);
        if teams[i].state == TeamState::Formed && teams[i].has_member(name) {
            return true;
        }
        i = i + 1;
    }
    false
}

/// The name of the first member in a role.
pub open spec fn first_in_role(members: Seq<SeatView>, role: Seq<char>) -> Option<Seq<char>>
    decreases members.len(),
{
    if members.len() == 0 {
        None
    } else if members[0].role_label == role {
        Some(members[0].agent_name)
    } else {
        first_in_role(members.drop_first(), role)
    }
}

impl TeamRecord {
    /// The name of the member that leads: the first in the lead role.
    pub fn lead_member_name(&self) -> (out: Option<&str>)
        ensures
            match out {
                Some(name) => first_in_role(self@.members, self@.lead_role) == Some(name@),
                None => first_in_role(self@.members, self@.lead_role) is None,
            },
    {
        let ghost ms: Seq<SeatView> = self@.members;
        let mut i: usize = 0;
        assert(ms.skip(0) =~= ms);
        while i < self.members.len()
            invariant
                ms == self@.members,
                i <= self.members@.len(),
                first_in_role(ms, self@.lead_role) == first_in_role(
                    ms.skip(i as int),
                    self@.lead_role,
                ),
            decreases self.members.len() - i,
        {
            assert(ms.skip(i as int)[0] == self.members@[i as int]@);
            if same_text(self.members[i].role_label.as_str(), self.lead_role.as_str()) {
                return Some(self.members[i].agent_name.as_str());
            }
            assert(ms.skip(i as int).drop_first() =~= ms.skip(i + 1));
            i = i + 1;
        }
        None
    }
}

// ── Laws ─────────────────────────────────────────────────────────────────────

/// The one who leads is the first member in the lead role; there is none exactly
/// where no member has that role.
pub proof fn law_lead_is_first_in_role(members: Seq<SeatView>, role: Seq<char>)
    ensures
        match first_in_role(members, role) {
            Some(name) => exists|i: int|
                0 <= i < members.len() && (#[trigger] members[i]).role_label == role
                    && members[i].agent_name == name && forall|j: int|
                    0 <= j < i ==> (#[trigger] members[j]).role_label != role,
            None => forall|i: int|
                0 <= i < members.len() ==> (#[trigger] members[i]).role_label != role,
        },
    decreases members.len(),
{
    if members.len() > 0 {
        if members[0].role_label == role {
            assert(first_in_role(members, role) == Some(members[0].agent_name));
        } else {
            let rest = members.drop_first();
            law_lead_is_first_in_role(rest, role);
            match first_in_role(members, role) {
                Some(name) => {
                    let i = choose|i: int|
                        0 <= i < rest.len() && (#[trigger] rest[i]).role_label == role
                            && rest[i].agent_name == name && forall|j: int|
                            0 <= j < i ==> (#[trigger] rest[j]).role_label != role;
                    assert(members[i + 1] == rest[i]);
                    assert forall|j: int| 0 <= j < i + 1 implies (#[trigger] members[j]).role_label
                        != role by {
                        if j > 0 {
                            assert(rest[j - 1] == members[j]);
                        }
                    }
                },
                None => {
                    assert forall|i: int| 0 <= i < members.len() implies (
                    #[trigger] members[i]).role_label != role by {
                        if i > 0 {
                            assert(rest[i - 1] == members[i]);
                        }
                    }
                },
            }
        }
    }
}

/// What is said last of an agent counts.
pub proof fn law_last_fate_counts(entries: Seq<Fate>, name: Seq<char>)
    ensures
        fates(entries).contains_key(name) <==> exists|i: int|
            0 <= i < entries.len() && (#[trigger] entries[i]).agent_name@ == name,
        fates(entries).contains_key(name) ==> exists|i: int|
            0 <= i < entries.len() && (#[trigger] entries[i]).agent_name@ == name
                && entries[i].disposition == fates(entries)[name] && forall|j: int|
                i < j < entries.len() ==> (#[trigger] entries[j]).agent_name@ != name,
    decreases entries.len(),
{
    if entries.len() > 0 {
        let last = entries.len() - 1;
        let rest = entries.drop_last();
        law_last_fate_counts(rest, name);
        if entries[last].agent_name@ == name {
            assert(fates(entries)[name] == entries[last].disposition);
        } else {
            if fates(rest).contains_key(name) {
                let i = choose|i: int|
                    0 <= i < rest.len() && (#[trigger] rest[i]).agent_name@ == name
                        && rest[i].disposition == fates(rest)[name] && forall|j: int|
                        i < j < rest.len() ==> (#[trigger] rest[j]).agent_name@ != name;
                assert(entries[i] == rest[i]);
                assert forall|j: int| i < j < entries.len() implies (
                #[trigger] entries[j]).agent_name@ != name by {
                    if j < last {
                        assert(rest[j] == entries[j]);
                    }
                }
            }
            if exists|i: int| 0 <= i < entries.len() && (#[trigger] entries[i]).agent_name@ == name {
                let i = choose|i: int|
                    0 <= i < entries.len() && (#[trigger] entries[i]).agent_name@ == name;
                assert(rest[i] == entries[i]);
            }
        }
    }
}

/// What is said of a member's record is said of its own parts, each in its place.
pub proof fn law_team_member_record_is_taken_as_it_is(value: TeamMemberRecord)
    ensures
        value@.agent_name == value.agent_name@,
        value@.role_label == value.role_label@,
        value@.persona_name == value.persona_name@,
{
}

/// What is said of a team's record is said of its own parts, each in its place.
pub proof fn law_team_record_is_taken_as_it_is(value: TeamRecord)
    ensures
        value@.name == value.name@,
        value@.template_name == value.template_name@,
        value@.lead_role == value.lead_role@,
        value@.members == seats_view(value.members@),
        value@.state == value.state,
        value@.formed_at == value.formed_at,
        value@.dispositions == value.dispositions@,
{
}

} // verus!
