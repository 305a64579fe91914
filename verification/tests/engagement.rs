//! Engagements, teams, and the estate coordinator.

use std::collections::BTreeMap;

use reeve_runtime::agent_registry::{
    AgentRecord, AgentRegistry, AgentStatus, RegistryNext, RegistryReplies, ValidatedAgentName,
};
use reeve_runtime::audit::AuditEvent;
use reeve_runtime::config::{ConfigError, TeamConfig, TeamMember};
use reeve_runtime::engagement::{
    comes_before, resolve_vcs_toplevel, EngagementError, EngagementRecord, EngagementRegistry,
    EngagementState, ListNext, ListReplies, OpenStoreNext, RecordRead, RecordWriteError,
    StaffedUnit, StoreEntry, StoreNext, StoreReplies, ToplevelNext, ENGAGEMENT_DIR_MODE,
    ENGAGEMENT_FILE_MODE,
};
use reeve_runtime::estate::{
    member_agent_name, mint_one, refusal_reason, retire_identity, EstateCoordinator, EstateOp,
    EstateReplies, EstateStep, MintReply, RetireRoute, RosterRead, ESTATE_AGENT_NAME,
    MAX_REFUSAL_REASON_BYTES,
};
use reeve_runtime::fs_util::{FileKind, FsCheckError};
use reeve_runtime::identity::{IdentityId, Timestamp};
use reeve_runtime::io_error::{IoError, IoKind};
use reeve_runtime::team::{
    serves, Dispositions, MemberDisposition, TeamMemberRecord, TeamRecord, TeamState,
};

fn now() -> Timestamp {
    Timestamp { unix_nanos: 1_760_000_000_000_000_000 }
}

fn not_found() -> IoError {
    IoError::new(IoKind::NotFound, "no such file")
}

// ── The store of engagements ─────────────────────────────────────────────────

#[derive(Default)]
struct Disk {
    records: BTreeMap<String, EngagementRecord>,
    /// Names under the store that are links.
    links: Vec<String>,
    /// Records that a reader would find by following a link.
    behind_links: BTreeMap<String, EngagementRecord>,
}

fn blank() -> StoreReplies {
    StoreReplies { taken: None, directory: None, read: None, written: None }
}

fn store() -> EngagementRegistry {
    match EngagementRegistry::open("/data/engagements", &None) {
        OpenStoreNext::EnsureDirectory { path, mode } => {
            assert_eq!((path.as_str(), mode), ("/data/engagements", ENGAGEMENT_DIR_MODE));
        }
        other => panic!("expected a directory, got {other:?}"),
    }
    match EngagementRegistry::open("/data/engagements", &Some(Ok(()))) {
        OpenStoreNext::Done(out) => out.unwrap(),
        other => panic!("expected a store, got {other:?}"),
    }
}

impl Disk {
    /// Performs a step, or tells what the operation came to.
    fn perform(
        &mut self,
        next: StoreNext,
        seen: &mut StoreReplies,
    ) -> Option<Result<EngagementRecord, EngagementError>> {
        match next {
            StoreNext::Look { path } => {
                let record = format!("{path}/record.toml");
                seen.taken = Some(self.records.contains_key(&record) || self.records.contains_key(&path));
            }
            StoreNext::EnsureDirectory { path, mode } => {
                assert!(path.starts_with("/data/engagements/"));
                assert_eq!(mode, ENGAGEMENT_DIR_MODE);
                seen.directory = Some(Ok(()));
            }
            StoreNext::Read { path, .. } => {
                assert!(!self.behind_links.contains_key(&path), "{path} lies behind a link");
                seen.read = Some(match self.records.get(&path) {
                    Some(record) => RecordRead::Record(record.clone()),
                    None => RecordRead::Unreadable(not_found()),
                });
            }
            StoreNext::Write { path, dir, mode, record } => {
                assert_eq!(path, format!("{dir}/record.toml"));
                assert_eq!(mode, ENGAGEMENT_FILE_MODE);
                self.records.insert(path, record);
                seen.written = Some(Ok(()));
            }
            StoreNext::Done(out) => return Some(out),
        }
        None
    }

    fn drive(
        &mut self,
        step: impl Fn(&StoreReplies) -> StoreNext,
    ) -> Result<EngagementRecord, EngagementError> {
        let mut seen = blank();
        loop {
            if let Some(out) = self.perform(step(&seen), &mut seen) {
                return out;
            }
        }
    }

    fn open(&mut self, name: &str, purpose: &str, root: Option<&str>) -> Result<EngagementRecord, EngagementError> {
        let store = store();
        let root = root.map(str::to_owned);
        self.drive(|seen| store.open_engagement(name, purpose, &root, now(), seen))
    }

    fn close(&mut self, name: &str) -> Result<EngagementRecord, EngagementError> {
        let store = store();
        self.drive(|seen| store.close(name, seen))
    }

    fn reopen(&mut self, name: &str) -> Result<EngagementRecord, EngagementError> {
        let store = store();
        self.drive(|seen| store.reopen(name, seen))
    }

    fn get(&mut self, name: &str) -> Result<EngagementRecord, EngagementError> {
        let store = store();
        self.drive(|seen| match &seen.read {
            None => store.get(name, &None),
            Some(RecordRead::Record(record)) => {
                store.get(name, &Some(RecordRead::Record(record.clone())))
            }
            Some(_) => store.get(name, &Some(RecordRead::Unreadable(not_found()))),
        })
    }

    /// What the store's directory holds: a directory for each record under it,
    /// links, and a plain file.
    fn entries(&self) -> Vec<StoreEntry> {
        let entry = |name: &str, kind: FileKind| StoreEntry::Found {
            path: format!("/data/engagements/{name}"),
            name: Some(name.to_owned()),
            kind: Ok(kind),
        };
        let mut entries = vec![entry("notes.txt", FileKind::Other)];
        entries.extend(self.links.iter().map(|name| entry(name, FileKind::Symlink)));
        entries.extend(self.records.values().rev().map(|r| entry(&r.name, FileKind::Directory)));
        entries
    }

    fn list(&mut self) -> Result<Vec<EngagementRecord>, EngagementError> {
        let store = store();
        let mut seen = ListReplies { entries: None, reads: Vec::new() };
        loop {
            match store.list(&seen) {
                ListNext::Entries { path } => {
                    assert_eq!(path, "/data/engagements");
                    seen.entries = Some(Ok(self.entries()));
                }
                ListNext::Read { path, max_bytes } => {
                    let mut replies = blank();
                    self.perform(StoreNext::Read { path, max_bytes }, &mut replies);
                    seen.reads.extend(replies.read);
                }
                ListNext::Done(out) => return out,
            }
        }
    }
}

#[test]
fn open_writes_durable_record_visible_to_fresh_store() {
    let mut disk = Disk::default();
    let record = disk.open("reconciler", "modernize it", Some("/repo")).unwrap();
    assert_eq!(record.state, EngagementState::Open);

    let reloaded = disk.get("reconciler").unwrap();
    assert_eq!(reloaded.name, "reconciler");
    assert_eq!(reloaded.purpose, "modernize it");
    assert_eq!(reloaded.root.as_deref(), Some("/repo"));
    assert_eq!(reloaded.state, EngagementState::Open);
    assert_eq!(reloaded.opened_at, now());
    assert_eq!(reloaded.parent, None);
}

#[test]
fn open_engagement_starts_unstaffed() {
    let record = Disk::default().open("reconciler", "modernize it", None).unwrap();
    assert_eq!(record.staffed_unit, None);
}

#[test]
fn record_without_staffed_unit_key_parses_as_unstaffed() {
    let source = r#"
name = "legacy"
purpose = "pre-staffing record"
state = "open"
opened_at = "2025-10-09T15:33:20Z"
"#;
    let table: toml::Table = toml::from_str(source).unwrap();
    let text = |key: &str| table.get(key).and_then(|v| v.as_str()).map(str::to_owned);
    let record = EngagementRecord {
        name: text("name").unwrap(),
        purpose: text("purpose").unwrap(),
        root: text("root"),
        state: EngagementState::Open,
        opened_at: now(),
        parent: text("parent"),
        staffed_unit: text("staffed_unit").map(|name| StaffedUnit::Agent { name }),
    };
    let mut disk = Disk::default();
    disk.records.insert("/data/engagements/legacy/record.toml".to_owned(), record);
    let reloaded = disk.get("legacy").unwrap();
    assert_eq!(reloaded.name, "legacy");
    assert_eq!(reloaded.staffed_unit, None);
}

#[test]
fn staffing_is_recorded_and_taken_back() {
    let mut disk = Disk::default();
    disk.open("work", "p", None).unwrap();
    let store = store();
    let crew = || Some(StaffedUnit::Team { name: "crew".to_owned() });
    let record = disk.drive(|seen| store.set_staffed_unit("work", crew(), seen)).unwrap();
    assert_eq!(record.staffed_unit, crew());
    assert_eq!(disk.get("work").unwrap().staffed_unit, crew());
    disk.drive(|seen| store.set_staffed_unit("work", None, seen)).unwrap();
    assert_eq!(disk.get("work").unwrap().staffed_unit, None);
}

#[test]
fn names_are_never_reused_even_after_close() {
    let mut disk = Disk::default();
    disk.open("once", "first", None).unwrap();
    disk.close("once").unwrap();
    let err = disk.open("once", "second", None).unwrap_err();
    assert_eq!(err, EngagementError::NameTaken { name: "once".to_owned() });
    assert_eq!(disk.get("once").unwrap().purpose, "first");
}

#[test]
fn reopen_restores_identical_context() {
    let mut disk = Disk::default();
    disk.open("work", "purpose", Some("/repo/a")).unwrap();
    disk.close("work").unwrap();
    let reopened = disk.reopen("work").unwrap();
    assert_eq!(reopened.state, EngagementState::Open);
    assert_eq!(reopened.root.as_deref(), Some("/repo/a"));
    assert_eq!(reopened.purpose, "purpose");
}

#[test]
fn transitions_require_the_expected_state() {
    let mut disk = Disk::default();
    disk.open("work", "p", None).unwrap();
    let err = disk.reopen("work").unwrap_err();
    assert!(matches!(err, EngagementError::WrongState { actual: EngagementState::Open, .. }));
    disk.close("work").unwrap();
    let err = disk.close("work").unwrap_err();
    assert!(matches!(err, EngagementError::WrongState { actual: EngagementState::Closed, .. }));
    let err = disk.close("none").unwrap_err();
    assert_eq!(err, EngagementError::NotFound { name: "none".to_owned() });
}

#[test]
fn relative_root_is_refused() {
    let err = Disk::default().open("rel", "p", Some("repo/a")).unwrap_err();
    assert_eq!(err, EngagementError::RelativeRoot { path: "repo/a".to_owned() });
}

#[test]
fn invalid_names_are_refused() {
    for bad in ["", "a/b", ".", "..", "nul\0byte"] {
        let err = Disk::default().open(bad, "p", None).unwrap_err();
        assert!(
            matches!(err, EngagementError::InvalidName { .. }),
            "expected InvalidName for {bad:?}"
        );
    }
}

#[test]
fn a_store_that_fails_is_told() {
    let store = store();
    let mut seen = blank();
    seen.taken = Some(false);
    seen.directory = Some(Err(FsCheckError::Symlink { path: "/data/engagements/x".to_owned() }));
    match store.open_engagement("x", "p", &None, now(), &seen) {
        StoreNext::Done(Err(EngagementError::Io { path, .. })) => {
            assert_eq!(path, "/data/engagements/x");
        }
        other => panic!("expected a failure, got {other:?}"),
    }
    seen.directory = Some(Ok(()));
    seen.written = Some(Err(RecordWriteError::Unserializable("bad".to_owned())));
    match store.open_engagement("x", "p", &None, now(), &seen) {
        StoreNext::Done(Err(EngagementError::Toml { message, .. })) => assert_eq!(message, "bad"),
        other => panic!("expected a failure, got {other:?}"),
    }
    let torn = RecordRead::Unparsable("torn".to_owned());
    match store.get("x", &Some(torn)) {
        StoreNext::Done(Err(err)) => {
            assert!(matches!(err, EngagementError::Toml { .. }));
            assert_eq!(refusal_reason(&err), "record_corrupt");
        }
        other => panic!("expected a failure, got {other:?}"),
    }
}

fn toplevel(start: &str, present: &[&str]) -> String {
    let mut canonical = None;
    let mut found = Vec::new();
    loop {
        match resolve_vcs_toplevel(start, &canonical, &found) {
            ToplevelNext::Canonicalize { path } => canonical = Some(Ok(path)),
            ToplevelNext::Look { path } => found.push(present.contains(&path.as_str())),
            ToplevelNext::Done(out) => return out.unwrap(),
        }
    }
}

#[test]
fn vcs_toplevel_resolves_outermost_marker_from_subdir() {
    assert_eq!(toplevel("/tmp/repo/crates/deep", &["/tmp/repo/.jj"]), "/tmp/repo");
}

#[test]
fn a_marker_further_out_counts_for_more() {
    let top = toplevel("/tmp/repo/crates/deep", &["/tmp/repo/.jj", "/tmp/repo/crates/.git"]);
    assert_eq!(top, "/tmp/repo");
    assert_eq!(toplevel("/tmp/plain", &["/tmp/plain/.hg"]), "/tmp/plain");
}

#[test]
fn vcs_toplevel_falls_back_to_start_dir() {
    assert_eq!(toplevel("/tmp/plain", &[]), "/tmp/plain");
}

#[test]
fn vcs_toplevel_detects_git_marker() {
    assert_eq!(toplevel("/tmp/gitrepo/src", &["/tmp/gitrepo/.git"]), "/tmp/gitrepo");
}

#[test]
fn a_start_without_canonical_form_has_no_toplevel() {
    let next = resolve_vcs_toplevel("/gone", &Some(Err(not_found())), &Vec::new());
    assert_eq!(next, ToplevelNext::Done(Err(not_found())));
}

#[test]
fn list_skips_symlinked_entries() {
    let mut disk = Disk::default();
    disk.open("real", "p", None).unwrap();
    let outside = EngagementRecord {
        name: "planted".to_owned(),
        ..disk.get("real").unwrap()
    };
    disk.links.push("planted".to_owned());
    disk.behind_links.insert("/data/engagements/planted/record.toml".to_owned(), outside);
    let all = disk.list().unwrap();
    let names: Vec<&str> = all.iter().map(|r| r.name.as_str()).collect();
    assert_eq!(names, vec!["real"], "symlinked entries must be skipped");
}

#[test]
fn an_entry_that_fails_fails_the_listing() {
    let store = store();
    let denied = || IoError::new(IoKind::PermissionDenied, "denied");
    let dir = |name: Option<&str>, kind| StoreEntry::Found {
        path: "/data/engagements/x".to_owned(),
        name: name.map(str::to_owned),
        kind,
    };
    let list = |entries: Vec<StoreEntry>, reads: Vec<RecordRead>| {
        store.list(&ListReplies { entries: Some(Ok(entries)), reads })
    };
    let failed = |next: ListNext| match next {
        ListNext::Done(Err(err)) => err,
        other => panic!("expected a failure, got {other:?}"),
    };
    let at = |path: &str| EngagementError::Io { path: path.to_owned(), source: denied() };
    assert_eq!(
        failed(store.list(&ListReplies { entries: Some(Err(denied())), reads: Vec::new() })),
        at("/data/engagements"),
    );
    assert_eq!(failed(list(vec![StoreEntry::Unlisted(denied())], vec![])), at("/data/engagements"));
    assert_eq!(failed(list(vec![dir(Some("x"), Err(denied()))], vec![])), at("/data/engagements/x"));
    let torn = RecordRead::Unparsable("torn".to_owned());
    let err = failed(list(vec![dir(Some("x"), Ok(FileKind::Directory))], vec![torn]));
    assert!(matches!(err, EngagementError::Toml { .. }));
    assert_eq!(list(vec![dir(None, Ok(FileKind::Directory))], vec![]), ListNext::Done(Ok(vec![])));
}

#[test]
fn list_returns_all_records_sorted() {
    let mut disk = Disk::default();
    disk.open("beta", "b", None).unwrap();
    disk.open("alpha", "a", None).unwrap();
    disk.close("beta").unwrap();
    let all = disk.list().unwrap();
    let names: Vec<&str> = all.iter().map(|r| r.name.as_str()).collect();
    assert_eq!(names, vec!["alpha", "beta"]);
    assert_eq!(all[1].state, EngagementState::Closed);
}

#[test]
fn names_are_ordered_by_their_characters() {
    assert!(comes_before("a", "b") && comes_before("a", "aa") && comes_before("", "a"));
    assert!(!comes_before("b", "a") && !comes_before("a", "a"));
    assert!(comes_before("z", "é"));
}

// ── The estate coordinator ───────────────────────────────────────────────────

/// Everything the coordinator works on.
#[derive(Default)]
struct Estate {
    disk: Disk,
    directories: BTreeMap<String, String>,
    rosters: BTreeMap<String, TeamRecord>,
    agents: BTreeMap<String, (AgentStatus, String)>,
    log: Vec<AuditEvent>,
    teams: bool,
}

fn member(m: &TeamMemberRecord) -> TeamMemberRecord {
    m.clone()
}

fn copy_dispositions(from: &Dispositions) -> Dispositions {
    let mut copy = Dispositions::new();
    for fate in &from.entries {
        copy.insert(&fate.agent_name, fate.disposition);
    }
    copy
}

fn copy_team(team: &TeamRecord) -> TeamRecord {
    TeamRecord {
        name: team.name.clone(),
        template_name: team.template_name.clone(),
        lead_role: team.lead_role.clone(),
        members: team.members.iter().map(member).collect(),
        state: team.state,
        formed_at: team.formed_at,
        dispositions: copy_dispositions(&team.dispositions),
    }
}

fn template() -> TeamConfig {
    let line = |count: u32, role: &str| TeamMember {
        persona_name: "worker".to_owned(),
        persona_version: 1,
        count,
        role_label: role.to_owned(),
    };
    TeamConfig {
        name: "default".to_owned(),
        version: 1,
        lead_role: "lead".to_owned(),
        members: vec![line(1, "lead"), line(2, "helper")],
    }
}

fn operator() -> IdentityId {
    IdentityId::new("operator")
}

impl Estate {
    fn registry(&self) -> AgentRegistry {
        let seen = RegistryReplies {
            directory: Some(Ok(())),
            stat: Some(Err(not_found())),
            read: None,
        };
        let mut registry = match AgentRegistry::open("/data/identities/agents/registry.toml", &seen) {
            RegistryNext::Done(out) => out.unwrap(),
            other => panic!("expected a registry, got {other:?}"),
        };
        for (name, (status, persona)) in &self.agents {
            let _ = registry.register(AgentRecord {
                name: ValidatedAgentName::new(name).unwrap(),
                identity_id: IdentityId::new(name),
                inbox_dir: format!("/data/agents/{name}/inbox"),
                persona_name: Some(persona.clone()),
                spawned_at: now(),
                status: *status,
                stopped_reason: None,
            });
        }
        registry
    }

    fn mint(&mut self, name: &str, persona: &str) -> Result<(), String> {
        if self.agents.contains_key(name) {
            return mint_one(MintReply::Failure(format!("agent '{name}' already exists")));
        }
        self.agents.insert(name.to_owned(), (AgentStatus::Running, persona.to_owned()));
        mint_one(MintReply::Success)
    }

    fn send(&mut self, sender: &IdentityId, op: Option<EstateOp>) {
        let mut coordinator = EstateCoordinator::new(operator(), store());
        if self.teams {
            coordinator = coordinator.with_team_ops("/data".to_owned());
        }
        let mut seen = EstateReplies {
            audited: 0,
            canonical: None,
            store: blank(),
            roster: None,
            template: None,
            mints: Vec::new(),
            retired: 0,
            written: None,
            rosters: None,
            agents: None,
        };
        loop {
            match coordinator.handle(sender, &op, now(), &seen) {
                EstateStep::Audit(event) => {
                    self.log.push(event);
                    seen.audited += 1;
                }
                EstateStep::Canonicalize { path } => {
                    seen.canonical = Some(match self.directories.get(&path) {
                        Some(canonical) => Ok(canonical.clone()),
                        None => Err(not_found()),
                    });
                }
                EstateStep::Store(next) => {
                    assert!(self.disk.perform(next, &mut seen.store).is_none());
                }
                EstateStep::GetRoster { name } => {
                    seen.roster = Some(match self.rosters.get(&name) {
                        Some(team) => RosterRead::Found(copy_team(team)),
                        None => RosterRead::Absent,
                    });
                }
                EstateStep::LoadTemplate { path } => {
                    seen.template = Some(if path == "/data/teams/default.toml" {
                        Ok(template())
                    } else {
                        Err(ConfigError::Io { path, source: not_found() })
                    });
                }
                EstateStep::Mint { persona, name } => {
                    let minted = self.mint(name.as_str(), &persona);
                    seen.mints.push(minted);
                }
                EstateStep::FormRoster(team) => {
                    self.rosters.insert(team.name.clone(), team);
                    seen.written = Some(Ok(()));
                }
                EstateStep::DissolveRoster { name, dispositions } => {
                    let team = self.rosters.get_mut(&name).unwrap();
                    team.state = TeamState::Dissolved;
                    team.dispositions = dispositions;
                    seen.written = Some(Ok(()));
                }
                EstateStep::Retire { name } => {
                    self.agents.get_mut(&name).unwrap().0 = AgentStatus::Retired;
                    seen.retired += 1;
                }
                EstateStep::ListRosters => {
                    seen.rosters = Some(Ok(self.rosters.values().map(copy_team).collect()));
                }
                EstateStep::OpenAgents => seen.agents = Some(Ok(self.registry())),
                EstateStep::Done => return,
            }
        }
    }

    fn send_op(&mut self, op: EstateOp) {
        self.send(&operator(), Some(op));
    }

    fn kinds(&self) -> Vec<&'static str> {
        self.log.iter().map(|e| e.kind()).collect()
    }

    fn status(&self, name: &str) -> Option<AgentStatus> {
        self.agents.get(name).map(|(status, _)| *status)
    }

    fn refused(&self, verb: &str, why: &str) -> bool {
        self.log.iter().any(|e| match e {
            AuditEvent::EstateOpRefused { op, reason, .. } => op == verb && reason.starts_with(why),
            _ => false,
        })
    }
}

fn estate() -> Estate {
    Estate::default()
}

fn team_bed() -> Estate {
    Estate { teams: true, ..Estate::default() }
}

fn open_op(name: &str, root: Option<&str>) -> EstateOp {
    EstateOp::OpenEngagement {
        name: name.to_owned(),
        purpose: "modernize".to_owned(),
        root: root.map(str::to_owned),
    }
}

fn form(name: &str) -> EstateOp {
    EstateOp::FormTeam { name: name.to_owned(), template: "default".to_owned() }
}

fn retire(name: &str) -> EstateOp {
    EstateOp::RetireAgent { name: name.to_owned() }
}

fn mint(name: &str) -> EstateOp {
    EstateOp::MintAgent { name: name.to_owned(), persona: "worker".to_owned() }
}

#[test]
fn operator_open_close_reopen_round_trip_with_audit() {
    let mut estate = estate();
    estate.directories.insert("/tmp/work".to_owned(), "/private/tmp/work".to_owned());
    estate.send_op(open_op("reconciler", Some("/tmp/work")));
    estate.send_op(EstateOp::CloseEngagement { name: "reconciler".to_owned() });
    estate.send_op(EstateOp::ReopenEngagement { name: "reconciler".to_owned() });

    let record = estate.disk.get("reconciler").unwrap();
    assert_eq!(record.state, EngagementState::Open);
    assert_eq!(record.root.as_deref(), Some("/private/tmp/work"));
    assert_eq!(
        estate.kinds(),
        vec!["engagement.opened", "engagement.closed", "engagement.reopened"],
    );
}

#[test]
fn non_operator_sender_is_refused_and_audited() {
    let mut estate = estate();
    let stranger = IdentityId::new("stranger");
    estate.send(&stranger, Some(open_op("sneaky", None)));
    assert!(matches!(estate.disk.get("sneaky").unwrap_err(), EngagementError::NotFound { .. }));
    assert_eq!(estate.log.len(), 1);
    match &estate.log[0] {
        AuditEvent::EngagementOpRefused { sender_id, op, name, reason, .. } => {
            assert_eq!(sender_id.as_ref(), Some(&stranger));
            assert_eq!(reason, "not_operator");
            assert_eq!(op, "open-engagement");
            assert_eq!(name.as_deref(), Some("sneaky"));
        }
        other => panic!("expected a refusal, got {other:?}"),
    }
    assert_eq!(estate.kinds(), vec!["engagement.op_refused"]);
}

#[test]
fn invalid_payload_is_refused_and_audited() {
    let mut estate = estate();
    estate.send(&operator(), None);
    assert_eq!(estate.log.len(), 1);
    match &estate.log[0] {
        AuditEvent::EngagementOpRefused { reason, .. } => assert_eq!(reason, "invalid_payload"),
        other => panic!("expected a refusal, got {other:?}"),
    }
    assert_eq!(estate.kinds(), vec!["engagement.op_refused"]);
}

#[test]
fn reused_name_is_refused_with_name_taken() {
    let mut estate = estate();
    estate.send_op(open_op("once", None));
    estate.send_op(EstateOp::CloseEngagement { name: "once".to_owned() });
    estate.send_op(open_op("once", None));
    match estate.log.last().unwrap() {
        AuditEvent::EngagementOpRefused { reason, .. } => assert_eq!(reason, "name_taken"),
        other => panic!("expected a refusal, got {other:?}"),
    }
}

#[test]
fn unresolvable_root_is_refused() {
    let mut estate = estate();
    estate.send_op(open_op("ghost", Some("/tmp/does-not-exist")));
    assert_eq!(estate.log.len(), 1);
    match &estate.log[0] {
        AuditEvent::EngagementOpRefused { reason, .. } => assert_eq!(reason, "root_unresolvable"),
        other => panic!("expected a refusal, got {other:?}"),
    }
}

#[test]
fn team_operations_need_their_parts() {
    let mut estate = estate();
    estate.send_op(form("default"));
    assert_eq!(estate.kinds(), vec!["estate.op_refused"]);
    assert!(estate.rosters.is_empty());
}

#[test]
fn form_team_mints_members_and_writes_roster() {
    let mut bed = team_bed();
    bed.send_op(form("default"));
    let roster = &bed.rosters["default"];
    assert_eq!(roster.state, TeamState::Formed);
    let names: Vec<&str> = roster.members.iter().map(|m| m.agent_name.as_str()).collect();
    assert_eq!(
        names,
        vec!["default-lead", "default-helper-1", "default-helper-2"],
        "one member per (persona, count) with deterministic names"
    );
    assert_eq!(roster.lead_member_name(), Some("default-lead"));
    for name in &names {
        assert_eq!(bed.status(name), Some(AgentStatus::Running), "{name} must be running");
    }
    assert_eq!(
        bed.kinds(),
        vec!["agent.minted", "agent.minted", "agent.minted", "team.formed"],
    );
    match &bed.log[0] {
        AuditEvent::AgentMinted { name, team, persona_name, .. } => {
            assert_eq!(name, "default-lead");
            assert_eq!(team.as_deref(), Some("default"));
            assert_eq!(persona_name, "worker");
        }
        other => panic!("expected a mint, got {other:?}"),
    }
    bed.send_op(form("default"));
    assert!(bed.refused("form-team", "name_taken"));
}

#[test]
fn a_team_whose_member_cannot_be_minted_is_not_formed() {
    let mut bed = team_bed();
    bed.send_op(mint("crew-helper-1"));
    bed.send_op(form("crew"));
    assert!(bed.rosters.is_empty());
    assert!(bed.refused("form-team", "mint_failed: crew-helper-1: "));
    assert_eq!(bed.status("crew-lead"), Some(AgentStatus::Running));
    assert_eq!(bed.status("crew-helper-2"), None);

    bed.send_op(EstateOp::FormTeam { name: "t".to_owned(), template: "none".to_owned() });
    assert!(bed.refused("form-team", "template_not_found"));
    bed.send_op(EstateOp::FormTeam { name: "t".to_owned(), template: "../x".to_owned() });
    assert!(bed.refused("form-team", "invalid_template"));
}

#[test]
fn mint_retire_round_trip_and_name_permanence() {
    let mut bed = team_bed();
    bed.send_op(mint("librarian"));
    assert_eq!(bed.status("librarian"), Some(AgentStatus::Running));
    match &bed.log[0] {
        AuditEvent::AgentMinted { name, team, .. } => {
            assert_eq!(name, "librarian");
            assert_eq!(*team, None);
        }
        other => panic!("expected a mint, got {other:?}"),
    }
    bed.send_op(retire("librarian"));
    assert_eq!(bed.status("librarian"), Some(AgentStatus::Retired));
    assert_eq!(bed.kinds(), vec!["agent.minted", "agent.retired"]);
    bed.send_op(mint("librarian"));
    assert!(bed.refused("mint-agent", "mint_failed"));
    assert_eq!(bed.status("librarian"), Some(AgentStatus::Retired));
}

#[test]
fn retire_agent_refuses_team_member_and_reserved_identity() {
    let mut bed = team_bed();
    bed.send_op(form("crew"));
    bed.send_op(retire("crew-helper-1"));
    assert!(bed.refused("retire-agent", "team_member"));
    assert_eq!(bed.status("crew-helper-1"), Some(AgentStatus::Running));
    bed.send_op(retire(ESTATE_AGENT_NAME));
    assert!(bed.refused("retire-agent", "reserved"));
    bed.send_op(retire("nobody"));
    assert!(bed.refused("retire-agent", "not_found"));
    bed.send_op(mint(ESTATE_AGENT_NAME));
    assert!(bed.refused("mint-agent", "reserved"));
    bed.send_op(mint("a/b"));
    assert!(bed.refused("mint-agent", "invalid_name"));
}

#[test]
fn dissolve_applies_mixed_dispositions_and_retire_guards_hold() {
    let mut bed = team_bed();
    bed.send_op(form("crew"));
    let mut dispositions = Dispositions::new();
    dispositions.insert("crew-helper-1", MemberDisposition::Released);
    bed.send_op(EstateOp::DissolveTeam { name: "crew".to_owned(), dispositions });

    assert_eq!(bed.rosters["crew"].state, TeamState::Dissolved);
    assert_eq!(bed.status("crew-lead"), Some(AgentStatus::Retired));
    assert_eq!(bed.status("crew-helper-2"), Some(AgentStatus::Retired));
    assert_eq!(
        bed.status("crew-helper-1"),
        Some(AgentStatus::Running),
        "released member keeps running"
    );
    let said = &bed.rosters["crew"].dispositions;
    assert_eq!(said.get("crew-helper-1"), Some(MemberDisposition::Released));
    assert_eq!(said.get("crew-lead"), Some(MemberDisposition::Retired));
    assert!(bed.log.iter().any(|e| matches!(
        e,
        AuditEvent::AgentReleased { name, team, .. } if name == "crew-helper-1" && team == "crew"
    )));
    assert_eq!(bed.kinds().last(), Some(&"team.dissolved"));

    bed.send_op(retire("crew-helper-1"));
    assert_eq!(bed.status("crew-helper-1"), Some(AgentStatus::Retired));

    let again = EstateOp::DissolveTeam { name: "crew".to_owned(), dispositions: Dispositions::new() };
    bed.send_op(again);
    assert!(bed.refused("dissolve-team", "wrong_state"));
    let none = EstateOp::DissolveTeam { name: "none".to_owned(), dispositions: Dispositions::new() };
    bed.send_op(none);
    assert!(bed.refused("dissolve-team", "not_found"));
}

#[test]
fn reasons_are_bounded() {
    let mut bed = team_bed();
    let long = format!("{}é", "x".repeat(400));
    bed.send_op(EstateOp::MintAgent { name: "a".to_owned(), persona: "p".to_owned() });
    bed.agents.insert("b".to_owned(), (AgentStatus::Running, long.clone()));
    let coordinator = EstateCoordinator::new(operator(), store()).with_team_ops("/data".to_owned());
    let seen = EstateReplies {
        audited: 0,
        canonical: None,
        store: blank(),
        roster: None,
        template: None,
        mints: vec![Err(long)],
        retired: 0,
        written: None,
        rosters: None,
        agents: None,
    };
    match coordinator.handle(&operator(), &Some(mint("b")), now(), &seen) {
        EstateStep::Audit(AuditEvent::EstateOpRefused { reason, .. }) => {
            assert_eq!(reason.len(), MAX_REFUSAL_REASON_BYTES);
        }
        other => panic!("expected a refusal, got {other:?}"),
    }
}

#[test]
fn seats_and_retirement() {
    assert_eq!(member_agent_name("crew", "lead", 0, 1), "crew-lead");
    assert_eq!(member_agent_name("crew", "helper", 1, 2), "crew-helper-2");
    assert_eq!(member_agent_name("crew", "lead", u32::MAX, 1), "crew-lead");
    assert_eq!(retire_identity(true), RetireRoute::TellIncarnation);
    assert_eq!(retire_identity(false), RetireRoute::MarkRecord(AgentStatus::Retired));
    assert!(mint_one(MintReply::TimedOut).is_err());
    assert!(mint_one(MintReply::Dropped).is_err());
    let mut bed = team_bed();
    bed.send_op(form("crew"));
    let teams: Vec<TeamRecord> = bed.rosters.values().map(copy_team).collect();
    assert!(serves(&teams, "crew-lead"));
    assert!(!serves(&teams, "librarian"));
}

#[test]
fn operations_have_their_verbs() {
    assert_eq!(open_op("a", None).verb(), "open-engagement");
    assert_eq!(form("a").verb(), "form-team");
    assert_eq!(mint("a").verb(), "mint-agent");
    assert_eq!(retire("a").verb(), "retire-agent");
    assert_eq!(retire("a").name(), "a");
}
