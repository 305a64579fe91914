//! The background process: status, start, stop, preparation and resumption.

use std::collections::BTreeMap;

use reeve_runtime::agent_fs::{AgentDirs, ProvisionNext};
use reeve_runtime::agent_registry::{
    AgentRecord, AgentRegistry, AgentRegistryError, AgentStatus, FlushNext, RegistryNext,
    RegistryReplies, ValidatedAgentName,
};
use reeve_runtime::capability::{
    CapabilityProfile, ProfileError, Thresholds,
};
use reeve_runtime::config::{ConfigError, PersonaConfig, TeamConfig, TeamMember};
use reeve_runtime::daemon::{
    acquire_lock, confirm_started, daemon_spawn, daemon_status, daemon_stop, heartbeat_fresh,
    wait_for_exit, DaemonError, DaemonStatus, FreshNext, HeartbeatLook, KillOutcome,
    RuntimeLockError, SpawnNext, SpawnReplies, StatusNext, StatusReplies, StopNext, StopReplies,
    WaitNext, KILL_TIMEOUT_MILLIS, SPAWN_CONFIRM_TIMEOUT_MILLIS, SPAWN_POLL_INTERVAL_MILLIS,
    STALE_THRESHOLD_NANOS, STOP_POLL_INTERVAL_MILLIS, STOP_TIMEOUT_MILLIS,
};
use reeve_runtime::estate::{EstateOp, ESTATE_AGENT_NAME};
use reeve_runtime::fs_util::FileKind;
use reeve_runtime::identity::{IdentityId, Timestamp};
use reeve_runtime::io_error::{IoError, IoKind};
use reeve_runtime::keypair::Keypair;
use reeve_runtime::resume::{
    mark_stopped, resume_one_subagent, resume_persisted_subagents, AgentOutcome, ProfileSource,
    ResumeAllNext, ResumeError, ResumeNext, ResumeReplies, SnapshotRead, SpawnSnapshot,
};
use reeve_runtime::startup::{
    daemon_run, default_team_op, launch_actors, open_resources, prepare_agent_startup, AgentStartup,
    IdentityListing, IdentityNext, IdentityReplies, IdentityType, LaunchNext, LaunchStage,
    OpenNext, PrepareNext, PrepareReplies, Resource, RunNext, RunReplies, SystemActorRecord,
};

fn not_found() -> IoError {
    IoError::new(IoKind::NotFound, "no such file")
}

// ── Status ───────────────────────────────────────────────────────────────────

const NOW: Timestamp = Timestamp { unix_nanos: 1_700_000_000_000_000_000 };

struct Process {
    pid_file: Option<u32>,
    alive: bool,
    /// Age of the heartbeat file.
    heartbeat: Option<i128>,
}

impl Process {
    fn look(&self) -> HeartbeatLook {
        HeartbeatLook {
            kind: self.heartbeat.map(|_| FileKind::Other),
            modified: self.heartbeat.map(|age| Timestamp { unix_nanos: NOW.unix_nanos - age }),
            now: NOW,
        }
    }

    fn status(&self) -> DaemonStatus {
        let mut seen = StatusReplies { pid: None, alive: None, heartbeat: None };
        loop {
            match daemon_status("/state", &seen) {
                StatusNext::ReadPid { path } => {
                    assert_eq!(path, "/state/runtime.pid");
                    seen.pid = Some(self.pid_file);
                }
                StatusNext::CheckProcess { pid } => {
                    assert_eq!(Some(pid), self.pid_file);
                    seen.alive = Some(self.alive);
                }
                StatusNext::Look { path } => {
                    assert_eq!(path, "/state/runtime/heartbeat");
                    seen.heartbeat = Some(self.look());
                }
                StatusNext::Done(status) => return status,
            }
        }
    }
}

#[test]
fn daemon_status_returns_not_running_when_no_pid_file() {
    let process = Process { pid_file: None, alive: true, heartbeat: Some(0) };
    assert_eq!(process.status(), DaemonStatus::NotRunning);
}

#[test]
fn daemon_status_returns_not_running_for_dead_pid() {
    let process = Process { pid_file: Some(4_000_000), alive: false, heartbeat: Some(0) };
    assert_eq!(process.status(), DaemonStatus::NotRunning);
}

#[test]
fn daemon_status_returns_alive_for_current_process() {
    let process = Process { pid_file: Some(77), alive: true, heartbeat: Some(5_000_000) };
    match process.status() {
        DaemonStatus::Alive { pid, heartbeat_age_nanos } => {
            assert_eq!(pid, 77);
            assert_eq!(heartbeat_age_nanos, 5_000_000);
            assert!(heartbeat_age_nanos < 2_000_000_000);
        }
        other => panic!("expected Alive, got {other:?}"),
    }
}

#[test]
fn daemon_status_returns_stale_for_current_process_with_no_heartbeat() {
    let process = Process { pid_file: Some(77), alive: true, heartbeat: None };
    assert_eq!(process.status(), DaemonStatus::Stale { pid: 77 });
}

#[test]
fn a_heartbeat_is_stale_after_the_threshold() {
    let age = i128::try_from(STALE_THRESHOLD_NANOS).unwrap();
    let at = |age| Process { pid_file: Some(7), alive: true, heartbeat: Some(age) }.status();
    let alive = DaemonStatus::Alive { pid: 7, heartbeat_age_nanos: STALE_THRESHOLD_NANOS };
    assert_eq!(at(age), alive);
    assert_eq!(at(age + 1), DaemonStatus::Stale { pid: 7 });
    // Written in the future: it has no age.
    assert_eq!(at(-1), DaemonStatus::Alive { pid: 7, heartbeat_age_nanos: 0 });
}

#[test]
fn a_linked_heartbeat_is_not_fresh() {
    assert!(matches!(heartbeat_fresh("/state", &None), FreshNext::Look { .. }));
    let mut look = Process { pid_file: None, alive: true, heartbeat: Some(1) }.look();
    look.kind = Some(FileKind::Symlink);
    assert_eq!(heartbeat_fresh("/state", &Some(look)), FreshNext::Done(false));
    let look = Process { pid_file: None, alive: true, heartbeat: Some(1) }.look();
    assert_eq!(heartbeat_fresh("/state", &Some(look)), FreshNext::Done(true));
}

#[test]
fn daemon_error_display_all_variants() {
    let cases: Vec<(DaemonError, &str)> = vec![
        (DaemonError::AlreadyRunning { pid: Some(42) }, "42"),
        (DaemonError::AlreadyRunning { pid: None }, "unknown"),
        (
            DaemonError::Io {
                path: "/tmp/test".to_owned(),
                source: IoError::new(IoKind::Other, "boom"),
            },
            "/tmp/test",
        ),
        (
            DaemonError::Resource {
                component: "identity registry",
                source: "disk full".to_owned(),
            },
            "identity registry",
        ),
        (DaemonError::Timeout { op: "daemon start" }, "timed out"),
        (DaemonError::Signal { pid: 99, source: IoError::new(IoKind::Other, "refused") }, "99"),
        (DaemonError::NoRuntime, "no daemon"),
        (DaemonError::Lock("cannot create".to_owned()), "daemon lock: cannot create"),
    ];
    for (err, needle) in &cases {
        let rendered = err.to_string();
        assert!(
            rendered.contains(needle),
            "Display for {err:?} should contain {needle:?}, got: {rendered}"
        );
    }
}

// ── Start and stop ───────────────────────────────────────────────────────────

#[test]
fn confirm_started_returns_timeout_when_daemon_does_not_start() {
    let mut elapsed: u64 = 0;
    loop {
        match confirm_started(&DaemonStatus::NotRunning, elapsed) {
            WaitNext::Sleep { millis } => {
                assert_eq!(millis, SPAWN_POLL_INTERVAL_MILLIS);
                elapsed += millis;
            }
            WaitNext::Done(result) => {
                assert!(
                    matches!(result, Err(DaemonError::Timeout { .. })),
                    "expected Timeout, got {result:?}",
                );
                break;
            }
        }
    }
    assert_eq!(elapsed, SPAWN_CONFIRM_TIMEOUT_MILLIS);
    let alive = DaemonStatus::Alive { pid: 1, heartbeat_age_nanos: 0 };
    assert_eq!(confirm_started(&alive, 0), WaitNext::Done(Ok(())));
}

#[test]
fn wait_for_exit_returns_timeout_when_process_persists() {
    assert_eq!(
        wait_for_exit(true, 0, 300),
        WaitNext::Sleep { millis: STOP_POLL_INTERVAL_MILLIS },
    );
    let result = wait_for_exit(true, 300, 300);
    assert!(
        matches!(result, WaitNext::Done(Err(DaemonError::Timeout { .. }))),
        "expected Timeout, got {result:?}",
    );
    assert_eq!(wait_for_exit(false, 300, 300), WaitNext::Done(Ok(())));
}

fn spawn(status: DaemonStatus, confirmed: bool) -> Result<(), DaemonError> {
    let mut seen = SpawnReplies { status: None, exe: None, spawned: None, confirmed: None };
    loop {
        match daemon_spawn("/state", &seen) {
            SpawnNext::Status { state_dir } => {
                assert_eq!(state_dir, "/state");
                seen.status = Some(status);
            }
            SpawnNext::CurrentExe => seen.exe = Some(Ok("/bin/reeve".to_owned())),
            SpawnNext::Spawn { exe, args, log, log_dir, log_dir_mode } => {
                assert_eq!(log, "/state/daemon.log");
                assert_eq!((log_dir.as_str(), log_dir_mode), ("/state", 0o700));
                assert_eq!(exe, "/bin/reeve");
                assert_eq!(args, vec!["daemon", "run-internal"]);
                seen.spawned = Some(Ok(()));
            }
            SpawnNext::Confirm { .. } => seen.confirmed = Some(confirmed),
            SpawnNext::Done(out) => return out,
        }
    }
}

#[test]
fn a_second_process_is_not_started() {
    assert_eq!(spawn(DaemonStatus::NotRunning, true), Ok(()));
    assert_eq!(
        spawn(DaemonStatus::NotRunning, false),
        Err(DaemonError::Timeout { op: "daemon start" }),
    );
    let running = Err(DaemonError::AlreadyRunning { pid: Some(9) });
    assert_eq!(spawn(DaemonStatus::Alive { pid: 9, heartbeat_age_nanos: 1 }, true), running);
    assert_eq!(spawn(DaemonStatus::Stale { pid: 9 }, true), running);
}

/// Stops a process that exits after as many signals as told; returns the
/// signals that were sent.
fn stop(exits_after: usize) -> (Result<(), DaemonError>, Vec<&'static str>) {
    let mut signals = Vec::new();
    let mut seen = StopReplies {
        pid: None,
        alive: None,
        terminated: None,
        exited: None,
        killed: false,
        waited_killed: false,
    };
    loop {
        match daemon_stop("/state", &seen) {
            StopNext::ReadPid { .. } => seen.pid = Some(Some(5)),
            StopNext::CheckProcess { .. } => seen.alive = Some(true),
            StopNext::Terminate { .. } => {
                signals.push("TERM");
                seen.terminated = Some(KillOutcome::Sent);
            }
            StopNext::Wait { timeout_millis, .. } => {
                if seen.killed {
                    assert_eq!(timeout_millis, KILL_TIMEOUT_MILLIS);
                    seen.waited_killed = true;
                } else {
                    assert_eq!(timeout_millis, STOP_TIMEOUT_MILLIS);
                    seen.exited = Some(signals.len() >= exits_after);
                }
            }
            StopNext::Kill { .. } => {
                signals.push("KILL");
                seen.killed = true;
            }
            StopNext::Done(out) => return (out, signals),
        }
    }
}

#[test]
fn killing_is_the_last_resort() {
    assert_eq!(stop(1), (Ok(()), vec!["TERM"]));
    let timed_out = Err(DaemonError::Timeout { op: "daemon stop" });
    assert_eq!(stop(2), (timed_out, vec!["TERM", "KILL"]));
}

#[test]
fn nothing_is_stopped_where_nothing_runs() {
    let mut seen = StopReplies {
        pid: Some(None),
        alive: None,
        terminated: None,
        exited: None,
        killed: false,
        waited_killed: false,
    };
    let none = StopNext::Done(Err(DaemonError::NoRuntime));
    assert_eq!(daemon_stop("/state", &seen), none);
    seen.pid = Some(Some(5));
    seen.alive = Some(false);
    assert_eq!(daemon_stop("/state", &seen), none);
    seen.alive = Some(true);
    seen.terminated = Some(KillOutcome::Exited("exit status: 1".to_owned()));
    match daemon_stop("/state", &seen) {
        StopNext::Done(Err(DaemonError::Signal { pid, .. })) => assert_eq!(pid, 5),
        other => panic!("expected a failed signal, got {other:?}"),
    }
}

#[test]
fn a_lock_that_is_held_tells_its_holder() {
    assert_eq!(acquire_lock(Ok(())), Ok(()));
    assert_eq!(
        acquire_lock(Err(RuntimeLockError::AlreadyRunning { pid: Some(3) })),
        Err(DaemonError::AlreadyRunning { pid: Some(3) }),
    );
    assert_eq!(
        acquire_lock(Err(RuntimeLockError::Failed("no".to_owned()))),
        Err(DaemonError::Lock("no".to_owned())),
    );
}

// ── Preparation ──────────────────────────────────────────────────────────────

/// The registries and key files of a data directory.
#[derive(Default)]
struct World {
    identities: Vec<(IdentityId, IdentityType, Vec<Vec<u8>>)>,
    systems: Vec<SystemActorRecord>,
    /// Seeds of the key files.
    keys: BTreeMap<String, u8>,
    drawn: u8,
}

fn pair(seed: u8) -> Keypair {
    Keypair::from_seed_bytes(vec![seed; 32])
}

fn provision(name: &str) -> AgentDirs {
    let mut checks = Vec::new();
    loop {
        match AgentDirs::provision("/data", name, &checks) {
            ProvisionNext::EnsureDirectory { .. } => checks.push(Ok(())),
            ProvisionNext::Done(out) => return out.unwrap(),
        }
    }
}

fn default_team() -> TeamConfig {
    TeamConfig {
        name: "default".to_owned(),
        version: 1,
        lead_role: "lead".to_owned(),
        members: vec![TeamMember {
            persona_name: "lead".to_owned(),
            persona_version: 1,
            count: 1,
            role_label: "lead".to_owned(),
        }],
    }
}

fn prepare_replies() -> PrepareReplies {
    PrepareReplies {
        defaults: None,
        team: None,
        systems: None,
        identities: None,
        estate_dirs: None,
        keypair: None,
        identity: IdentityReplies {
            keys: None,
            fresh: None,
            key_record: None,
            stored: None,
            written: None,
            registered: None,
        },
    }
}

impl World {
    fn with_operator() -> World {
        let mut world = World::default();
        world.identities.push((IdentityId::new("op"), IdentityType::Operator, Vec::new()));
        world
    }

    fn keys_of(&self, id: &IdentityId) -> Option<Vec<Vec<u8>>> {
        self.identities.iter().find(|(i, _, _)| i == id).map(|(_, _, keys)| keys.clone())
    }

    fn keypair(&mut self, path: &str) -> Keypair {
        if !self.keys.contains_key(path) {
            self.drawn += 1;
            self.keys.insert(path.to_owned(), self.drawn);
        }
        pair(self.keys[path])
    }

    fn prepare(&mut self) -> Result<AgentStartup, DaemonError> {
        let mut seen = prepare_replies();
        let mut fresh_keys = Vec::new();
        loop {
            match prepare_agent_startup("/data", "/data/identities/agents/registry.toml", &seen) {
                PrepareNext::InstallDefaults { data_dir } => {
                    assert_eq!(data_dir, "/data");
                    seen.defaults = Some(Ok(()));
                }
                PrepareNext::LoadTeam { path } => {
                    assert_eq!(path, "/data/teams/default.toml");
                    seen.team = Some(Ok(default_team()));
                }
                PrepareNext::OpenSystems { path } => {
                    assert_eq!(path, "/data/system/registry.toml");
                    let systems = self.systems.iter().map(|r| SystemActorRecord {
                        name: r.name.clone(),
                        identity_id: r.identity_id.clone(),
                        inbox_dir: r.inbox_dir.clone(),
                    });
                    seen.systems = Some(Ok(systems.collect()));
                }
                PrepareNext::ListIdentities => {
                    let all = self.identities.iter().map(|(id, kind, _)| IdentityListing {
                        id: id.clone(),
                        identity_type: *kind,
                    });
                    seen.identities = Some(Ok(all.collect()));
                }
                PrepareNext::Provision { data_dir, name } => {
                    assert_eq!(data_dir, "/data");
                    assert_eq!(name, ESTATE_AGENT_NAME);
                    seen.estate_dirs = Some(Ok(provision(name)));
                }
                PrepareNext::LoadKeypair { path } => {
                    assert_eq!(path, "/data/agents/estate/identity.key");
                    seen.keypair = Some(Ok(self.keypair(&path)));
                }
                PrepareNext::Identity(step) => match step {
                    IdentityNext::LookupKeys { id } => {
                        seen.identity.keys = Some(Ok(self.keys_of(&id)));
                    }
                    IdentityNext::NewIdentity { display_name, operator_id } => {
                        assert_eq!(display_name, ESTATE_AGENT_NAME);
                        assert_eq!(operator_id, IdentityId::new("op"));
                        let id = IdentityId::new(&format!("id-{}", self.identities.len()));
                        seen.identity.fresh = Some(Ok(id));
                    }
                    IdentityNext::NewKeyRecord { public_key, .. } => {
                        fresh_keys = vec![public_key];
                        seen.identity.key_record = Some(Ok(()));
                    }
                    IdentityNext::NewStored { .. } => seen.identity.stored = Some(Ok(())),
                    IdentityNext::WriteIdentity { id } => {
                        self.identities.push((id, IdentityType::System, fresh_keys.clone()));
                        seen.identity.written = Some(Ok(()));
                    }
                    IdentityNext::Register(record) => {
                        assert!(self.keys_of(&record.identity_id).is_some());
                        self.systems.push(record);
                        seen.identity.registered = Some(Ok(()));
                    }
                    IdentityNext::Done(out) => panic!("unmapped outcome {out:?}"),
                },
                PrepareNext::Done(out) => return out,
            }
        }
    }
}

#[test]
fn prepare_agent_startup_succeeds_with_defaults_and_matching_adapter() {
    let startup = World::with_operator().prepare().unwrap();
    assert_eq!(startup.data_dir, "/data");
    assert_eq!(startup.operator_id, IdentityId::new("op"));
    assert_eq!(startup.estate_inbox, "/data/agents/estate/inbox");
    assert_eq!(startup.team, default_team());
}

#[test]
fn the_default_team_has_its_own_template() {
    assert_eq!(
        default_team_op(),
        EstateOp::FormTeam { name: "default".to_owned(), template: "default".to_owned() },
    );
}

#[test]
fn prepare_agent_startup_uses_stable_estate_identity_across_calls() {
    let mut world = World::with_operator();
    let first = world.prepare().unwrap();
    let second = world.prepare().unwrap();
    assert_eq!(
        first.estate_id, second.estate_id,
        "estate coordinator identity must be stable across restarts"
    );
    assert!(world.keys_of(&second.estate_id).is_some());
    let systems: Vec<_> = world
        .identities
        .iter()
        .filter(|(_, kind, _)| *kind == IdentityType::System)
        .collect();
    assert_eq!(systems.len(), 1, "exactly one System-typed entry; got: {systems:?}");
    assert_eq!(systems[0].0, second.estate_id);
}

#[test]
fn estate_is_registered_as_system_actor_not_agent_registry_entry() {
    let mut world = World::with_operator();
    let startup = world.prepare().unwrap();
    assert_eq!(world.systems.len(), 1);
    assert_eq!(world.systems[0].name, ESTATE_AGENT_NAME);
    assert_eq!(world.systems[0].identity_id, startup.estate_id);
    assert!(open_registry().lookup(ESTATE_AGENT_NAME).is_none());
}

#[test]
fn prepare_agent_startup_rejects_mismatched_keypair() {
    let mut world = World::with_operator();
    world.prepare().unwrap();
    world.keys.insert("/data/agents/estate/identity.key".to_owned(), 200);
    let result = world.prepare();
    assert!(
        matches!(result, Err(DaemonError::Resource { component: "keypair mismatch", .. })),
        "mismatched keypair must produce Resource(keypair mismatch); got: {result:?}",
    );
}

#[test]
fn preparation_needs_an_operator() {
    match World::default().prepare() {
        Err(DaemonError::Resource { component, source }) => {
            assert_eq!(component, "operator lookup");
            assert!(source.contains("reeve identity enroll"));
        }
        other => panic!("expected a failure, got {other:?}"),
    }
}

#[test]
fn a_failed_preparation_names_the_part() {
    let refused = || Some(Err(ConfigError::Validation { path: "p".to_owned(), message: "m".to_owned() }));
    let failed = |seen: PrepareReplies| match prepare_agent_startup("/data", "/r", &seen) {
        PrepareNext::Done(Err(err)) => err.to_string(),
        other => panic!("expected a failure, got {other:?}"),
    };
    let mut seen = prepare_replies();
    seen.defaults = refused();
    assert_eq!(failed(seen), "failed to open config defaults: config validation failed at p: m");
    let mut seen = prepare_replies();
    seen.defaults = Some(Ok(()));
    seen.team = Some(Err(ConfigError::Validation { path: "p".to_owned(), message: "m".to_owned() }));
    assert_eq!(failed(seen), "failed to open team config: config validation failed at p: m");
    let mut seen = prepare_replies();
    seen.defaults = Some(Ok(()));
    seen.team = Some(Ok(default_team()));
    seen.systems = Some(Err("torn".to_owned()));
    assert_eq!(failed(seen), "failed to open system registry: torn");
}

#[test]
fn resources_are_opened_in_order() {
    let mut opened = Vec::new();
    let mut order = Vec::new();
    while let OpenNext::Open { resource, path } = open_resources("/data", &opened) {
        order.push((resource, path));
        opened.push(Ok(()));
    }
    let place = |p: &str| p.to_owned();
    assert_eq!(
        order,
        vec![
            (Resource::IdentityRegistry, place("/data/identities")),
            (Resource::ReplayLedger, place("/data")),
            (Resource::DeliveryLedger, place("/data")),
            (Resource::AuditLog, place("/data")),
        ],
    );
    assert_eq!(open_resources("/data", &opened), OpenNext::Done(Ok(())));
    assert_eq!(
        open_resources("/data", &vec![Ok(()), Err("torn".to_owned())]),
        OpenNext::Done(Err(DaemonError::Resource {
            component: "replay ledger",
            source: "torn".to_owned(),
        })),
    );
}

#[test]
fn the_launch_keeps_its_order() {
    let startup = World::with_operator().prepare().unwrap();
    let mut taken = Vec::new();
    let mut order = Vec::new();
    while let LaunchNext::Take { stage, path, identity, op } =
        launch_actors("/state", &startup, &taken)
    {
        match stage {
            LaunchStage::StartHeartbeat => assert_eq!(path, "/state"),
            LaunchStage::StartWatcher => assert_eq!(path, "/data/blacklist.toml"),
            LaunchStage::StartDispatcher => {
                assert_eq!(path, "/data/identities/agents/registry.toml");
            }
            LaunchStage::FormDefaultTeam => {
                assert_eq!(identity, Some(IdentityId::new("op")));
                assert_eq!(op, Some(default_team_op()));
            }
            LaunchStage::WatchEstateInbox => assert_eq!(identity, Some(startup.estate_id.clone())),
            _ => assert_eq!(op, None),
        }
        order.push(stage);
        taken.push(if stage == LaunchStage::LoadBlacklist { Err("torn".to_owned()) } else { Ok(()) });
    }
    assert_eq!(launch_actors("/state", &startup, &taken), LaunchNext::Running);
    let at = |stage| order.iter().position(|s| *s == stage).unwrap();
    assert!(at(LaunchStage::ResumeAgents) < at(LaunchStage::FormDefaultTeam));
    assert!(at(LaunchStage::OpenAuditLog) < at(LaunchStage::StartWatcher));
    assert_eq!(at(LaunchStage::WatchEstateInbox), order.len() - 1);

    let until = |stage, complaint: &str| {
        let mut taken = vec![Ok(()); at(stage)];
        taken.push(Err(complaint.to_owned()));
        launch_actors("/state", &startup, &taken)
    };
    assert_eq!(
        until(LaunchStage::OpenAuditLog, "full"),
        LaunchNext::Fatal("cannot open audit log: full".to_owned()),
    );
    assert_eq!(
        until(LaunchStage::OpenEngagements, "full"),
        LaunchNext::Failed(DaemonError::Resource {
            component: "engagement registry",
            source: "full".to_owned(),
        }),
    );
}

#[test]
fn nothing_runs_without_the_lock() {
    let mut seen = RunReplies {
        lock: None,
        migrated: None,
        opened: None,
        registry_path: None,
        prepared: None,
        ran: None,
    };
    assert_eq!(daemon_run("/state", "/data", &seen), RunNext::Lock { state_dir: "/state".to_owned() });
    seen.lock = Some(Err(DaemonError::AlreadyRunning { pid: None }));
    assert_eq!(
        daemon_run("/state", "/data", &seen),
        RunNext::Done(Err(DaemonError::AlreadyRunning { pid: None })),
    );
    seen.lock = Some(Ok(()));
    assert_eq!(daemon_run("/state", "/data", &seen), RunNext::Migrate { data_dir: "/data".to_owned() });
    seen.migrated = Some(Ok(()));
    assert_eq!(daemon_run("/state", "/data", &seen), RunNext::Open { data_dir: "/data".to_owned() });
    seen.opened = Some(Ok(()));
    assert_eq!(daemon_run("/state", "/data", &seen), RunNext::RegistryPath);
    seen.registry_path = Some(Ok("/r".to_owned()));
    assert_eq!(daemon_run("/state", "/data", &seen), RunNext::Prepare { data_dir: "/data".to_owned(), agent_registry_path: "/r".to_owned() });
    seen.prepared = Some(Ok(()));
    assert_eq!(daemon_run("/state", "/data", &seen), RunNext::Launch { state_dir: "/state".to_owned() });
    seen.ran = Some(Ok(()));
    assert_eq!(daemon_run("/state", "/data", &seen), RunNext::Done(Ok(())));
    seen.registry_path = Some(Err(AgentRegistryError::MissingHome));
    assert!(matches!(
        daemon_run("/state", "/data", &seen),
        RunNext::Done(Err(DaemonError::Resource { component: "agent registry path", .. })),
    ));
}

// ── Resumption ───────────────────────────────────────────────────────────────

const ADAPTER: &str = "opus-4-7@direct";

fn open_registry() -> AgentRegistry {
    let seen = RegistryReplies {
        directory: Some(Ok(())),
        stat: Some(Err(not_found())),
        read: None,
    };
    match AgentRegistry::open("/data/identities/agents/registry.toml", &seen) {
        RegistryNext::Done(out) => out.unwrap(),
        other => panic!("expected a registry, got {other:?}"),
    }
}

fn record(name: &str, persona: &str, status: AgentStatus) -> AgentRecord {
    AgentRecord {
        name: ValidatedAgentName::new(name).unwrap(),
        identity_id: IdentityId::new(&format!("id-{name}")),
        inbox_dir: format!("/data/agents/{name}/inbox"),
        persona_name: Some(persona.to_owned()),
        spawned_at: NOW,
        status,
        stopped_reason: None,
    }
}

fn full_access(name: &str) -> CapabilityProfile {
    CapabilityProfile {
        name: name.to_owned(),
        version: 1,
        enabled_categories: None,
        thresholds: Thresholds {
            cost_per_agent_bits: None,
            cost_per_session_bits: None,
            max_concurrent_subordinates: None,
            max_task_duration_secs: None,
        },
    }
}

/// What is kept of the agents that were running.
struct Kept {
    adapter_id: String,
    system_prompt: String,
    /// Profiles by path; one that is `None` is there but cannot be parsed.
    profiles: BTreeMap<String, Option<String>>,
    registered_seed: u8,
    routes: Vec<IdentityId>,
    prompts: Vec<String>,
}

fn kept(prompt: &str) -> Kept {
    Kept {
        adapter_id: ADAPTER.to_owned(),
        system_prompt: prompt.to_owned(),
        profiles: BTreeMap::new(),
        registered_seed: 9,
        routes: Vec::new(),
        prompts: Vec::new(),
    }
}

impl Kept {
    fn profile(&self, path: &str) -> Result<CapabilityProfile, ProfileError> {
        match self.profiles.get(path) {
            Some(Some(name)) => Ok(full_access(name)),
            Some(None) => Err(ProfileError::Parse {
                path: path.to_owned(),
                source: "expected `=`".to_owned(),
            }),
            None => Err(ProfileError::Io { path: path.to_owned(), source: not_found() }),
        }
    }

    fn resume(&mut self, record: &AgentRecord) -> Result<(), ResumeError> {
        let adapters = vec![ADAPTER.to_owned()];
        let mut seen = ResumeReplies {
            keypair: None,
            keys: None,
            snapshot: None,
            persona: None,
            profile: None,
            persona_profile: None,
            profile_written: None,
            launched: None,
        };
        loop {
            match resume_one_subagent("/data", &adapters, record, &seen) {
                ResumeNext::LoadKeypair { path } => {
                    assert_eq!(path, format!("/data/agents/{}/identity.key", record.name.as_str()));
                    seen.keypair = Some(Ok(pair(9)));
                }
                ResumeNext::LookupKeys { id } => {
                    assert_eq!(id, record.identity_id);
                    seen.keys = Some(Ok(Some(vec![pair(self.registered_seed).public().clone()])));
                }
                ResumeNext::ReadSnapshot { path } => {
                    assert_eq!(path, format!("/data/agents/{}/agent.toml", record.name.as_str()));
                    seen.snapshot = Some(SnapshotRead::Snapshot(SpawnSnapshot {
                        adapter_id: self.adapter_id.clone(),
                        persona_name: "worker".to_owned(),
                        system_prompt: self.system_prompt.clone(),
                    }));
                }
                ResumeNext::LoadPersona { path } => {
                    assert_eq!(path, "/data/personas/worker/config.toml");
                    seen.persona = Some(Ok(PersonaConfig {
                        name: "worker".to_owned(),
                        system_prompt: "from the persona".to_owned(),
                        model_preferences: vec!["opus-4-7".to_owned()],
                        capability_profile: None,
                        display_name: None,
                    }));
                }
                ResumeNext::LoadProfile { path } => seen.profile = Some(self.profile(&path)),
                ResumeNext::LoadPersonaProfile { path } => {
                    seen.persona_profile = Some(self.profile(&path));
                }
                ResumeNext::WriteProfile { path, profile } => {
                    assert_eq!(profile, ProfileSource::Persona);
                    assert!(!self.profiles.contains_key(&path));
                    self.profiles.insert(path, Some("written".to_owned()));
                    seen.profile_written = Some(Ok(()));
                }
                ResumeNext::Launch { adapter_id, system_prompt, profile } => {
                    assert_eq!(adapter_id, ADAPTER);
                    assert_eq!(
                        profile,
                        if seen.persona_profile.is_some() { ProfileSource::Persona } else { ProfileSource::Own },
                    );
                    self.routes.push(record.identity_id.clone());
                    self.prompts.push(system_prompt);
                    seen.launched = Some(Ok(()));
                }
                ResumeNext::Done(out) => return out,
            }
        }
    }

    fn resume_all(&mut self, registry: &mut AgentRegistry) {
        let opened = Ok(registry_of(registry.list().clone()));
        let mut outcomes: Vec<AgentOutcome> = Vec::new();
        loop {
            match resume_persisted_subagents(&opened, &outcomes) {
                ResumeAllNext::Resume(record) => {
                    outcomes.push(AgentOutcome { result: self.resume(&record), marked: false });
                }
                ResumeAllNext::MarkStopped { name, reason } => {
                    let owed = mark_stopped(registry, &name, reason);
                    assert!(matches!(owed, FlushNext::Serialize { .. }));
                    let last = outcomes.len() - 1;
                    outcomes[last].marked = true;
                }
                ResumeAllNext::Done => return,
            }
        }
    }
}

fn registry_of(records: Vec<AgentRecord>) -> AgentRegistry {
    let mut registry = open_registry();
    for record in records {
        let _ = registry.register(record);
    }
    registry
}

fn status_of(registry: &AgentRegistry, name: &str) -> (AgentStatus, Option<String>) {
    let record = registry.lookup(name).unwrap();
    (record.status, record.stopped_reason.clone())
}

#[test]
fn resume_persisted_subagents_registers_route_for_persisted_subagent() {
    let mut registry = registry_of(vec![record("worker", "worker", AgentStatus::Running)]);
    let mut kept = kept("You are a worker. Reply with 'ack' to any inbound.");
    kept.profiles.insert("/data/personas/worker/profile.toml".to_owned(), Some("w".to_owned()));
    kept.resume_all(&mut registry);
    assert_eq!(kept.routes, vec![IdentityId::new("id-worker")]);
    assert_eq!(kept.prompts, vec!["You are a worker. Reply with 'ack' to any inbound."]);
    assert!(kept.profiles.contains_key("/data/agents/worker/profile.toml"));
}

#[test]
fn resume_succeeds_for_lead_persona_agent_after_install_defaults() {
    let mut registry = registry_of(vec![record("default-lead", "lead", AgentStatus::Running)]);
    let mut kept = kept("You are a helpful AI assistant.");
    // The profile that the defaults hold.
    kept.profiles.insert("/data/personas/lead/profile.toml".to_owned(), Some("lead".to_owned()));
    kept.resume_all(&mut registry);
    assert_eq!(kept.routes, vec![IdentityId::new("id-default-lead")]);
    assert_eq!(status_of(&registry, "default-lead"), (AgentStatus::Running, None));
}

#[test]
fn resume_marks_profile_missing_when_no_profile_anywhere() {
    let mut registry = registry_of(vec![record("worker", "worker", AgentStatus::Running)]);
    let mut kept = kept("You are a worker.");
    kept.resume_all(&mut registry);
    assert!(kept.routes.is_empty(), "an agent with no recoverable profile must not be routable");
    assert_eq!(
        status_of(&registry, "worker"),
        (AgentStatus::Stopped, Some("profile_missing".to_owned())),
    );
}

#[test]
fn resume_does_not_synthesize_over_corrupt_agent_profile() {
    let mut registry = registry_of(vec![record("worker", "worker", AgentStatus::Running)]);
    let mut kept = kept("You are a worker.");
    kept.profiles.insert("/data/personas/worker/profile.toml".to_owned(), Some("w".to_owned()));
    kept.profiles.insert("/data/agents/worker/profile.toml".to_owned(), None);
    kept.resume_all(&mut registry);
    assert!(kept.routes.is_empty());
    assert_eq!(kept.profiles["/data/agents/worker/profile.toml"], None);
    assert_eq!(status_of(&registry, "worker"), (AgentStatus::Stopped, None));
}

#[test]
fn resume_persisted_subagents_skips_subagent_with_adapter_drift() {
    let mut registry = registry_of(vec![record("worker", "worker", AgentStatus::Running)]);
    let mut kept = kept("ignored");
    kept.adapter_id = "opus-4-7@some-other-route".to_owned();
    let err = kept.resume(registry.lookup("worker").unwrap()).unwrap_err();
    assert_eq!(
        err.to_string(),
        "no running adapter matches snapshot adapter_id 'opus-4-7@some-other-route'; available: [opus-4-7@direct]",
    );
    kept.resume_all(&mut registry);
    assert!(kept.routes.is_empty());
}

#[test]
fn an_agent_whose_key_was_replaced_is_not_resumed() {
    let mut kept = kept("x");
    kept.registered_seed = 8;
    let err = kept.resume(&record("worker", "worker", AgentStatus::Running)).unwrap_err();
    assert_eq!(
        err.to_string(),
        "on-disk identity.key does not match stored public key for this agent",
    );
}

#[test]
fn an_empty_prompt_is_taken_from_the_persona() {
    let mut kept = kept("");
    kept.profiles.insert("/data/agents/worker/profile.toml".to_owned(), Some("w".to_owned()));
    kept.resume(&record("worker", "worker", AgentStatus::Running)).unwrap();
    assert_eq!(kept.prompts, vec!["from the persona"]);
}

#[test]
fn one_failure_stops_no_other_agent() {
    let mut registry = registry_of(vec![
        record("a", "none", AgentStatus::Running),
        record("b", "worker", AgentStatus::Retired),
        record("c", "worker", AgentStatus::Stopped),
    ]);
    let mut kept = kept("x");
    kept.profiles.insert("/data/personas/worker/profile.toml".to_owned(), Some("w".to_owned()));
    kept.resume_all(&mut registry);
    assert_eq!(kept.routes, vec![IdentityId::new("id-c")]);
    assert_eq!(
        status_of(&registry, "a"),
        (AgentStatus::Stopped, Some("profile_missing".to_owned())),
    );
    assert_eq!(status_of(&registry, "b"), (AgentStatus::Retired, None));
    let failed: Result<AgentRegistry, _> = Err(AgentRegistryError::MissingHome);
    assert_eq!(resume_persisted_subagents(&failed, &Vec::new()), ResumeAllNext::Done);
}
