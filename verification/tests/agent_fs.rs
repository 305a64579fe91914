//! The layout of the data directory, agents' directories, and migration.

use std::collections::BTreeMap;

use reeve_runtime::agent_fs::{
    default_data_root, AgentDirs, AgentFsError, AtomicFileWriter, DataRootError, ProvisionNext,
    RuntimeLayout, AGENT_DIR_MODE, AGENT_FILE_MODE,
};
use reeve_runtime::agent_registry::{AgentRecord, AgentRegistryError, AgentStatus, ValidatedAgentName};
use reeve_runtime::atomic_file::{
    atomic_write_file, AtomicNext, StageFailure, WriteStage, WriteStep,
};
use reeve_runtime::conversation::ConversationEntry;
use reeve_runtime::fs_util::FsCheckError;
use reeve_runtime::history::journal_lines;
use reeve_runtime::identity::{IdentityId, Timestamp};
use reeve_runtime::io_error::{IoError, IoKind};
use reeve_runtime::journal::{
    AppendNext, AppendReplies, ConversationThread, ThreadNext, ThreadOpenNext,
};
use reeve_runtime::migration::{
    migrate_legacy_identities_nesting, EntryReplies, MigrationNext, MigrationReplies,
};

// ── Provisioning ─────────────────────────────────────────────────────────────

/// Provisions an agent on a disk that holds the directories `there`.
fn provision(there: &mut Vec<String>, name: &str) -> Result<AgentDirs, AgentFsError> {
    let mut checks = Vec::new();
    loop {
        match AgentDirs::provision("/data", name, &checks) {
            ProvisionNext::EnsureDirectory { path, mode } => {
                assert_eq!(mode, AGENT_DIR_MODE);
                if !there.contains(&path) {
                    there.push(path);
                }
                checks.push(Ok(()));
            }
            ProvisionNext::Done(out) => return out,
        }
    }
}

#[test]
fn provision_creates_all_directories() {
    let mut there = Vec::new();
    let dirs = provision(&mut there, "lead").unwrap();
    let root = dirs.root().to_owned();
    assert_eq!(root, "/data/agents/lead");
    for dir in [
        root.clone(),
        format!("{root}/inbox"),
        format!("{root}/inbox/tmp"),
        format!("{root}/inbox/new"),
        format!("{root}/inbox/cur"),
        format!("{root}/inbox/quarantine"),
        format!("{root}/inbox/archive"),
        format!("{root}/log"),
        "/data/agents".to_owned(),
    ] {
        assert!(there.contains(&dir), "{dir} missing");
    }
    assert_eq!(there.len(), 9);
}

#[test]
fn provision_is_idempotent() {
    let mut there = Vec::new();
    provision(&mut there, "lead").unwrap();
    let first = there.clone();
    provision(&mut there, "lead").unwrap();
    assert_eq!(there, first);
}

#[test]
fn provision_stops_at_the_first_refused_directory() {
    let checks = vec![Ok(()), Err(FsCheckError::Symlink { path: "/data/agents/lead".to_owned() })];
    match AgentDirs::provision("/data", "lead", &checks) {
        ProvisionNext::Done(Err(AgentFsError::Io { path, source })) => {
            assert_eq!(path, "/data/agents/lead");
            assert_eq!(source.kind, IoKind::InvalidInput);
        }
        other => panic!("expected a failure, got {other:?}"),
    }
}

#[test]
fn agent_dirs_open_and_path_accessors() {
    let dirs = provision(&mut Vec::new(), "lead").unwrap();
    let opened = AgentDirs::open("/data", "lead").unwrap();
    assert_eq!(dirs.root(), opened.root());

    let root = dirs.root();
    assert_eq!(dirs.log_dir(), format!("{root}/log"));
    assert_eq!(dirs.conversation_path(), format!("{root}/log/conversation.jsonl"));
    assert_eq!(dirs.status_path(), format!("{root}/status"));
    assert_eq!(dirs.cost_path(), format!("{root}/cost"));
    assert_eq!(dirs.agent_toml_path(), format!("{root}/agent.toml"));
    assert_eq!(dirs.inbox_root(), format!("{root}/inbox"));
    assert_eq!(dirs.profile_path(), format!("{root}/profile.toml"));
}

fn refuses_provision(name: &str) {
    let result = provision(&mut Vec::new(), name);
    assert!(matches!(result, Err(AgentFsError::Io { .. })), "expected Io error, got {result:?}");
}

#[test]
fn provision_rejects_empty_name() {
    refuses_provision("");
}

#[test]
fn provision_rejects_slash_in_name() {
    refuses_provision("foo/bar");
}

#[test]
fn provision_rejects_dotdot_name() {
    refuses_provision("..");
}

#[test]
fn open_rejects_empty_name() {
    let result = AgentDirs::open("/data", "");
    assert!(matches!(result, Err(AgentFsError::Io { .. })), "expected Io error, got {result:?}");
}

#[test]
fn layout_places_everything_under_the_root() {
    let layout = RuntimeLayout::new("/data");
    assert_eq!(layout.root(), "/data");
    assert_eq!(layout.persona_dir("lead"), "/data/personas/lead");
    assert_eq!(layout.persona_config_path("lead"), "/data/personas/lead/config.toml");
    assert_eq!(layout.persona_profile_path("lead"), "/data/personas/lead/profile.toml");
    assert_eq!(layout.personas_root(), "/data/personas");
    assert_eq!(layout.agents_root(), "/data/agents");
    assert_eq!(layout.agent_registry_path(), "/data/agents/registry.toml");
    assert_eq!(layout.agent_dirs("lead").unwrap().root(), "/data/agents/lead");
    assert!(layout.agent_dirs("a/b").is_err());
    assert_eq!(layout.team_config_path("default"), "/data/teams/default.toml");
    assert_eq!(layout.team_config_path("v1.2"), "/data/teams/v1.2.toml");
    assert_eq!(layout.engagements_root(), "/data/engagements");
    assert_eq!(layout.engagement_dir("e"), "/data/engagements/e");
    assert_eq!(layout.engagement_record_path("e"), "/data/engagements/e/record.toml");
    assert_eq!(layout.rosters_root(), "/data/rosters");
    assert_eq!(layout.identities_root(), "/data/identities");
    assert_eq!(layout.blacklist_path(), "/data/blacklist.toml");
    assert_eq!(layout.system_registry_path(), "/data/system/registry.toml");
}

#[test]
fn data_root_comes_from_the_environment() {
    assert_eq!(default_data_root(Some("/srv"), Some("/home/op")).unwrap(), "/srv/reeve");
    assert_eq!(default_data_root(None, Some("/home/op")).unwrap(), "/home/op/.local/share/reeve");
    assert_eq!(default_data_root(Some(""), Some("/home/op")).unwrap(), "/home/op/.local/share/reeve");
    assert_eq!(default_data_root(None, None).unwrap_err(), DataRootError::MissingHome);
    let err = default_data_root(Some("srv"), None).unwrap_err();
    assert!(err.to_string().contains("XDG_DATA_HOME"), "{}", err.to_string());
    assert!(err.to_string().contains("srv"), "{}", err.to_string());
    assert!(!DataRootError::MissingHome.to_string().is_empty());
}

// ── Files ────────────────────────────────────────────────────────────────────

#[test]
fn atomic_file_writer_write_and_overwrite() {
    let mut disk: BTreeMap<String, String> = BTreeMap::new();
    let writer = AtomicFileWriter::new("/data/agents/lead/status".to_owned()).unwrap();
    for text in ["idle", "working"] {
        let write = writer.write(text);
        assert_eq!(write.dir, "/data/agents/lead");
        assert_eq!(write.mode, AGENT_FILE_MODE);
        disk.insert(write.path.clone(), write.content.clone());
        assert_eq!(disk["/data/agents/lead/status"], text);
    }
    assert_eq!(disk.len(), 1);
}

#[test]
fn atomic_file_writer_needs_a_directory() {
    for path in ["status", "/", ""] {
        match AtomicFileWriter::new(path.to_owned()) {
            Err(AgentFsError::Io { path: p, source }) => {
                assert_eq!(p, path);
                assert_eq!(source.kind, IoKind::InvalidInput);
                assert_eq!(source.message, "AtomicFileWriter path must have a parent directory");
            }
            other => panic!("expected a failure, got {other:?}"),
        }
    }
    let writer = AtomicFileWriter::new("/d/status".to_owned()).unwrap();
    let failure = writer.failure(IoError::new(IoKind::Other, "full"));
    assert_eq!(failure.to_string(), "agent fs IO at /d/status: full");
}

#[test]
fn atomic_write_takes_its_stages_in_order() {
    let mut taken = Vec::new();
    let mut steps = Vec::new();
    loop {
        match atomic_write_file("/d/x", "/d", b"new", 0o600, &taken) {
            AtomicNext::Take(step) => {
                steps.push(step);
                taken.push(Ok(()));
            }
            AtomicNext::Done(out) => {
                assert_eq!(out, Ok(()));
                break;
            }
        }
    }
    assert_eq!(
        steps,
        [
            WriteStep::CreateTemp { dir: "/d" },
            WriteStep::SetMode { mode: 0o600 },
            WriteStep::WriteAll { content: b"new" },
            WriteStep::SyncFile,
            WriteStep::Persist { target: "/d/x" },
            WriteStep::SyncDirectory { dir: "/d" },
        ],
    );
}

#[test]
fn atomic_write_ends_at_the_first_failure() {
    let full = || IoError::new(IoKind::Other, "disk full");
    let failed = atomic_write_file("/d/x", "/d", b"new", 0o600, &vec![Ok(()), Ok(()), Err(full())]);
    assert_eq!(
        failed,
        AtomicNext::Done(Err(StageFailure { stage: WriteStage::WriteAll, source: full() })),
    );
    let unsynced = vec![Ok(()), Ok(()), Ok(()), Ok(()), Ok(()), Err(full())];
    let next = atomic_write_file("/d/x", "/d", b"new", 0o600, &unsynced);
    assert_eq!(next, AtomicNext::Done(Ok(())));
}

// ── Journal ──────────────────────────────────────────────────────────────────

const NOW: Timestamp = Timestamp { unix_nanos: 1_760_000_000_000_000_000 };

/// The entry in the file format of the journal.
fn to_json(entry: &ConversationEntry) -> Vec<u8> {
    let mut object = serde_json::Map::new();
    object.insert("type".to_owned(), entry.type_tag().into());
    match entry {
        ConversationEntry::Inbound { message_id, payload, .. } => {
            object.insert("message_id".to_owned(), message_id.as_str().into());
            object.insert("payload".to_owned(), payload.as_str().into());
        }
        ConversationEntry::Outbound { payload, .. } => {
            object.insert("payload".to_owned(), payload.as_str().into());
        }
        ConversationEntry::System { message, .. } => {
            object.insert("message".to_owned(), message.as_str().into());
        }
        _ => {}
    }
    serde_json::to_vec(&serde_json::Value::Object(object)).unwrap()
}

fn open_thread(path: &str) -> ConversationThread {
    match ConversationThread::open(path, &None) {
        ThreadOpenNext::Open { path: p, mode } => {
            assert_eq!(p, path);
            assert_eq!(mode, AGENT_FILE_MODE);
        }
        other => panic!("expected to open, got {other:?}"),
    }
    match ConversationThread::open(path, &Some(Ok(()))) {
        ThreadOpenNext::Done(Ok(thread)) => thread,
        other => panic!("expected a journal, got {other:?}"),
    }
}

fn append(thread: &ConversationThread, file: &mut Vec<u8>, entry: &ConversationEntry) {
    let mut seen = AppendReplies { json: None, written: None, synced: None };
    loop {
        match thread.append(entry, &seen) {
            ThreadNext::Serialize(entry) => seen.json = Some(Ok(to_json(entry))),
            ThreadNext::Append(AppendNext::Write { line }) => {
                file.extend_from_slice(&line);
                seen.written = Some(Ok(()));
            }
            ThreadNext::Append(AppendNext::Sync) => seen.synced = Some(Ok(())),
            ThreadNext::Append(other) => panic!("unmapped step {other:?}"),
            ThreadNext::Done(out) => {
                assert_eq!(out, Ok(()));
                return;
            }
        }
    }
}

fn system(message: &str) -> ConversationEntry {
    ConversationEntry::System { message: message.to_owned(), timestamp_utc: NOW }
}

#[test]
fn conversation_thread_append_and_read() {
    let thread = open_thread("/c.jsonl");
    let mut file = Vec::new();
    append(
        &thread,
        &mut file,
        &ConversationEntry::Inbound {
            message_id: String::from("msg-1"),
            sender_id: None,
            payload: String::from("hello"),
            timestamp_utc: NOW,
        },
    );
    append(
        &thread,
        &mut file,
        &ConversationEntry::Outbound { payload: String::from("world"), timestamp_utc: NOW },
    );

    let content = String::from_utf8(file).unwrap();
    let lines = journal_lines(&content);
    assert_eq!(lines.len(), 2, "expected exactly 2 lines");
    let first: serde_json::Value = serde_json::from_str(lines[0]).unwrap();
    let second: serde_json::Value = serde_json::from_str(lines[1]).unwrap();
    assert_eq!(first["type"], "inbound");
    assert_eq!(second["type"], "outbound");
}

#[test]
fn conversation_thread_is_append_only() {
    let mut file = Vec::new();
    append(&open_thread("/c.jsonl"), &mut file, &system("started"));
    append(&open_thread("/c.jsonl"), &mut file, &system("continued"));
    let content = String::from_utf8(file).unwrap();
    let lines = journal_lines(&content);
    assert_eq!(lines.len(), 2, "expected 2 lines after two opens");
    let first: serde_json::Value = serde_json::from_str(lines[0]).unwrap();
    assert_eq!(first["message"], "started", "first entry was overwritten on second open");
}

#[test]
fn conversation_thread_reports_what_failed() {
    let thread = open_thread("/c.jsonl");
    let full = || IoError::new(IoKind::Other, "disk full");
    let io = AgentFsError::Io { path: "/c.jsonl".to_owned(), source: full() };
    let json = AppendReplies { json: Some(Err("bad".to_owned())), written: None, synced: None };
    let note = system("started");
    assert_eq!(thread.append(&note, &json), ThreadNext::Done(Err(AgentFsError::Json("bad".to_owned()))));
    let write = AppendReplies { json: Some(Ok(vec![1])), written: Some(Err(full())), synced: None };
    assert_eq!(thread.append(&note, &write), ThreadNext::Done(Err(io.clone())));
    let sync = AppendReplies {
        json: Some(Ok(vec![1])),
        written: Some(Ok(())),
        synced: Some(Err(full())),
    };
    assert_eq!(thread.append(&note, &sync), ThreadNext::Done(Err(io.clone())));
    assert_eq!(
        ConversationThread::open("/c.jsonl", &Some(Err(full()))),
        ThreadOpenNext::Done(Err(io)),
    );
}

#[test]
fn conversation_entry_json_has_type_tag() {
    let cases: Vec<(&str, ConversationEntry)> = vec![
        (
            "inbound",
            ConversationEntry::Inbound {
                message_id: String::from("x"),
                sender_id: None,
                payload: String::from("p"),
                timestamp_utc: NOW,
            },
        ),
        ("outbound", ConversationEntry::Outbound { payload: String::from("p"), timestamp_utc: NOW }),
        (
            "model_call",
            ConversationEntry::ModelCall {
                input_tokens: 10,
                output_tokens: 20,
                model: String::from("opus-4-7"),
                timestamp_utc: NOW,
            },
        ),
        ("system", system("ok")),
    ];
    for (expected_type, entry) in cases {
        let value: serde_json::Value = serde_json::from_slice(&to_json(&entry)).unwrap();
        assert_eq!(value["type"].as_str().unwrap(), expected_type);
    }
}

// ── Errors ───────────────────────────────────────────────────────────────────

#[test]
fn agent_fs_error_display_impls() {
    let io_err = AgentFsError::Io {
        path: "synthetic/test-path".to_owned(),
        source: IoError::new(IoKind::PermissionDenied, "permission denied"),
    };
    let rendered = io_err.to_string();
    assert_eq!(rendered, "agent fs IO at synthetic/test-path: permission denied");

    let serde_err = serde_json::from_str::<serde_json::Value>("not json").unwrap_err();
    let rendered = AgentFsError::Json(serde_err.to_string()).to_string();
    assert!(!rendered.is_empty());
    assert!(rendered.contains("json"), "Json: {rendered}");
}

#[test]
fn agent_fs_error_from_fs_all_branches() {
    let path = "p".to_owned();
    let sym_msg = AgentFsError::from_fs(FsCheckError::Symlink { path: path.clone() }).to_string();
    assert!(sym_msg.contains("symlink"), "Symlink branch: {sym_msg}");

    let not_dir_msg =
        AgentFsError::from_fs(FsCheckError::NotADirectory { path: path.clone() }).to_string();
    assert!(not_dir_msg.contains("not a directory"), "NotADirectory branch: {not_dir_msg}");

    let wrong_mode_msg = AgentFsError::from_fs(FsCheckError::WrongMode {
        path: path.clone(),
        actual: 0o755,
        expected: 0o700,
    })
    .to_string();
    assert!(wrong_mode_msg.contains("755"), "WrongMode branch: {wrong_mode_msg}");
    assert!(wrong_mode_msg.contains("mode"), "WrongMode branch: {wrong_mode_msg}");

    let io_msg = AgentFsError::from_fs(FsCheckError::Io {
        path,
        source: IoError::new(IoKind::Other, "other"),
    })
    .to_string();
    assert!(!io_msg.is_empty(), "Io branch: {io_msg}");
}

// ── Migration ────────────────────────────────────────────────────────────────

/// A data root: the paths that are there, and the agent registry's records.
struct Root {
    paths: Vec<String>,
    records: Vec<AgentRecord>,
}

impl Root {
    fn with(paths: &[&str]) -> Root {
        Root { paths: paths.iter().map(|p| (*p).to_owned()).collect(), records: Vec::new() }
    }

    fn has(&self, path: &str) -> bool {
        self.paths.iter().any(|p| p == path || p.starts_with(&format!("{path}/")))
    }

    fn rename(&mut self, from: &str, to: &str) {
        for path in &mut self.paths {
            if path == from {
                *path = to.to_owned();
            } else if let Some(rest) = path.strip_prefix(&format!("{from}/")) {
                *path = format!("{to}/{rest}");
            }
        }
    }

    fn migrate(&mut self) -> Result<Vec<&'static str>, IoError> {
        let mut seen = MigrationReplies {
            entries: Vec::new(),
            registry: None,
            records: None,
            rewritten: None,
        };
        loop {
            match migrate_legacy_identities_nesting("/r", &seen) {
                MigrationNext::LookLegacy { path } => {
                    let legacy = self.has(&path);
                    seen.entries.push(EntryReplies { legacy, destination: None, moved: None });
                }
                MigrationNext::LookDestination { path } => {
                    let there = self.has(&path);
                    seen.entries.last_mut().unwrap().destination = Some(there);
                }
                MigrationNext::Rename { from, to } => {
                    assert!(!self.has(&to), "{to} would be clobbered");
                    self.rename(&from, &to);
                    seen.entries.last_mut().unwrap().moved = Some(Ok(()));
                }
                MigrationNext::LookRegistry { path } => seen.registry = Some(self.has(&path)),
                MigrationNext::OpenRegistry { path } => {
                    assert_eq!(path, "/r/agents/registry.toml");
                    seen.records = Some(Ok(self.records.clone()));
                }
                MigrationNext::Register { path, records } => {
                    assert_eq!(path, "/r/agents/registry.toml");
                    for record in records {
                        self.records.retain(|r| r.name != record.name);
                        self.records.push(record);
                    }
                    seen.rewritten = Some(Ok(()));
                }
                MigrationNext::Done(out) => return out,
            }
        }
    }
}

fn record(name: &str, inbox_dir: &str) -> AgentRecord {
    AgentRecord {
        name: ValidatedAgentName::new(name).unwrap(),
        identity_id: IdentityId::new("id"),
        inbox_dir: inbox_dir.to_owned(),
        persona_name: None,
        spawned_at: NOW,
        status: AgentStatus::Running,
        stopped_reason: None,
    }
}

#[test]
fn migration_moves_legacy_entries_and_keeps_identity_tomls() {
    let mut root = Root::with(&[
        "/r/identities/agents/lead",
        "/r/identities/personas/lead",
        "/r/identities/blacklist.toml",
        "/r/identities/11111111-1111-1111-1111-111111111111.toml",
    ]);
    let moved = root.migrate().unwrap();
    assert_eq!(moved, vec!["agents", "personas", "blacklist.toml"]);
    assert!(root.has("/r/agents/lead"));
    assert!(root.has("/r/personas/lead"));
    assert!(root.has("/r/blacklist.toml"));
    assert!(
        root.has("/r/identities/11111111-1111-1111-1111-111111111111.toml"),
        "identity TOMLs must stay in identities/"
    );
}

#[test]
fn migration_rewrites_registry_inbox_dirs_under_legacy_root() {
    let mut root = Root::with(&[
        "/r/identities/agents/lead/inbox",
        "/r/identities/agents/registry.toml",
    ]);
    root.records = vec![
        record("lead", "/r/identities/agents/lead/inbox"),
        record("elsewhere", "/srv/agents/elsewhere/inbox"),
        record("near", "/r/identities-old/agents/near/inbox"),
    ];
    let moved = root.migrate().unwrap();
    assert!(moved.contains(&"agents"));
    let find = |name: &str| root.records.iter().find(|r| r.name.as_str() == name).unwrap();
    assert_eq!(
        find("lead").inbox_dir,
        "/r/agents/lead/inbox",
        "inbox_dir must be rewritten to the migrated location"
    );
    assert!(root.has(&find("lead").inbox_dir), "rewritten path must exist");
    assert_eq!(find("elsewhere").inbox_dir, "/srv/agents/elsewhere/inbox");
    assert_eq!(find("near").inbox_dir, "/r/identities-old/agents/near/inbox");
}

#[test]
fn migration_is_idempotent_and_never_clobbers_destination() {
    let mut root = Root::with(&["/r/identities/teams/old.toml", "/r/teams/new.toml"]);
    let moved = root.migrate().unwrap();
    assert!(moved.is_empty(), "populated destination must win");
    assert!(root.has("/r/identities/teams/old.toml"));
    assert!(root.has("/r/teams/new.toml"));

    let again = root.migrate().unwrap();
    assert!(again.is_empty());

    let mut legacy = Root::with(&["/r/identities/audit/log.jsonl"]);
    assert_eq!(legacy.migrate().unwrap(), vec!["audit"]);
    assert!(legacy.migrate().unwrap().is_empty());
}

#[test]
fn migration_on_fresh_layout_is_a_no_op() {
    let moved = Root::with(&[]).migrate().unwrap();
    assert!(moved.is_empty());
}

#[test]
fn migration_reports_what_failed() {
    let entry = |legacy| EntryReplies {
        legacy,
        destination: Some(false),
        moved: Some(Ok(())),
    };
    let denied = IoError::new(IoKind::PermissionDenied, "denied");
    let mut seen = MigrationReplies {
        entries: vec![EntryReplies {
            legacy: true,
            destination: Some(false),
            moved: Some(Err(denied.clone())),
        }],
        registry: None,
        records: None,
        rewritten: None,
    };
    match migrate_legacy_identities_nesting("/r", &seen) {
        MigrationNext::Done(Err(err)) => assert_eq!(err, denied),
        other => panic!("expected a failure, got {other:?}"),
    }
    seen.entries = (0..7).map(|i| entry(i == 0)).collect();
    seen.registry = Some(true);
    seen.records = Some(Err(AgentRegistryError::MissingHome));
    match migrate_legacy_identities_nesting("/r", &seen) {
        MigrationNext::Done(Err(err)) => {
            assert_eq!(err.kind, IoKind::Other);
            assert!(err.message.starts_with("open agent registry for migration: "));
        }
        other => panic!("expected a failure, got {other:?}"),
    }
    seen.records = Some(Ok(vec![record("lead", "/r/identities/agents/lead/inbox")]));
    seen.rewritten = Some(Err(AgentRegistryError::NotFound { name: "lead".to_owned() }));
    match migrate_legacy_identities_nesting("/r", &seen) {
        MigrationNext::Done(Err(err)) => {
            assert!(err.message.starts_with("rewrite inbox_dir during migration: "));
            assert!(err.message.contains("lead"));
        }
        other => panic!("expected a failure, got {other:?}"),
    }
}
