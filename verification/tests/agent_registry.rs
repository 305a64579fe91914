//! The agent registry and the keypair of an agent.

use std::collections::BTreeMap;

use reeve_runtime::agent_fs::{AgentDirs, ProvisionNext};
use reeve_runtime::agent_registry::{
    resolve_default_registry_path, AgentRecord, AgentRegistry, AgentRegistryError, AgentStatus,
    FlushNext, FlushReplies, RegistryNext, RegistryRead, RegistryReplies, ValidatedAgentName,
    KEY_SEED_LEN, MAX_REGISTRY_FILE_BYTES, REGISTRY_DIR_MODE, REGISTRY_FILE_MODE,
};
use reeve_runtime::fs_util::{
    ensure_directory, read_nofollow_bounded, DirectoryNext, DirectoryReplies, FileKind,
    FsCheckError, Stat,
};
use reeve_runtime::identity::{IdentityId, Timestamp};
use reeve_runtime::io_error::{IoError, IoKind};
use reeve_runtime::keypair::{generate_or_load_keypair, KeyNext, KeyReplies, Keypair};

// ── A disk in memory ─────────────────────────────────────────────────────────

struct Node {
    kind: FileKind,
    mode: u32,
    bytes: Vec<u8>,
}

#[derive(Default)]
struct Disk {
    nodes: BTreeMap<String, Node>,
    /// The records of registry files, in place of their text.
    registries: BTreeMap<String, Vec<AgentRecord>>,
}

impl Disk {
    fn with_dir(path: &str, mode: u32) -> Disk {
        let mut disk = Disk::default();
        disk.put(path, FileKind::Directory, mode, b"");
        disk
    }

    fn put(&mut self, path: &str, kind: FileKind, mode: u32, bytes: &[u8]) {
        self.nodes.insert(path.to_owned(), Node { kind, mode, bytes: bytes.to_vec() });
    }

    fn stat(&self, path: &str) -> Result<Stat, IoError> {
        match self.nodes.get(path) {
            Some(node) => Ok(Stat {
                kind: node.kind,
                mode: 0o40000 | node.mode,
                len: node.bytes.len() as u64,
            }),
            None => Err(IoError::new(IoKind::NotFound, "no such file")),
        }
    }

    fn ensure(&mut self, path: &str, mode: u32) -> Result<(), FsCheckError> {
        let mut seen = DirectoryReplies { found: None, created: None, rechecked: None };
        loop {
            match ensure_directory(path, mode, &seen) {
                DirectoryNext::Stat { path } => seen.found = Some(self.stat(&path)),
                DirectoryNext::Create { path, mode } => {
                    self.put(&path, FileKind::Directory, mode, b"");
                    seen.created = Some(Ok(()));
                }
                DirectoryNext::Restat { path } => seen.rechecked = Some(self.stat(&path)),
                DirectoryNext::Done(out) => return out,
            }
        }
    }

    fn read_registry(&self, path: &str, max_bytes: u64) -> RegistryRead {
        if let Some(records) = self.registries.get(path) {
            return RegistryRead::Records(records.clone());
        }
        let bytes = self.nodes[path].bytes.clone();
        let cap = reeve_runtime::fs_util::read_cap(max_bytes) as usize;
        let head: Vec<u8> = bytes.into_iter().take(cap).collect();
        match read_nofollow_bounded(head, max_bytes) {
            Err(err) => RegistryRead::Unreadable(err),
            Ok(text) => match toml::from_str::<toml::Value>(&text) {
                Err(err) => RegistryRead::Unparsable(err.to_string()),
                Ok(value) => match names_of(&value) {
                    Err(err) => RegistryRead::Unparsable(err.to_string()),
                    Ok(()) => RegistryRead::Records(Vec::new()),
                },
            },
        }
    }

    fn open(&mut self, path: &str) -> Result<AgentRegistry, AgentRegistryError> {
        let mut seen = RegistryReplies { directory: None, stat: None, read: None };
        loop {
            match AgentRegistry::open(path, &seen) {
                RegistryNext::EnsureDirectory { path, mode } => {
                    seen.directory = Some(self.ensure(&path, mode));
                }
                RegistryNext::Stat { path } => seen.stat = Some(self.stat(&path)),
                RegistryNext::Read { path, max_bytes } => {
                    seen.read = Some(self.read_registry(&path, max_bytes));
                }
                RegistryNext::Done(out) => return out,
            }
        }
    }

    /// Carries out the write that a change owes.
    fn save(&mut self, registry: &AgentRegistry, first: FlushNext) -> Result<(), AgentRegistryError> {
        let mut seen = FlushReplies { body: None, written: None };
        let mut to_write = Vec::new();
        let mut next = first;
        loop {
            match next {
                FlushNext::Serialize { records } => {
                    to_write = records;
                    seen.body = Some(Ok("the records".to_owned()));
                }
                FlushNext::Write { path, dir, mode, body } => {
                    assert!(path.starts_with(&dir));
                    assert_eq!(mode, REGISTRY_FILE_MODE);
                    self.put(&path, FileKind::Other, mode, body.as_bytes());
                    self.registries.insert(path, to_write.clone());
                    seen.written = Some(Ok(()));
                }
                FlushNext::Done(out) => return out,
            }
            next = registry.flush(&seen);
        }
    }

    fn keypair(&mut self, path: &str, fresh: u8) -> Result<Keypair, AgentRegistryError> {
        let mut seen = KeyReplies { stat: None, read: None, fresh_seed: None, persisted: None };
        loop {
            match generate_or_load_keypair(path, &seen) {
                KeyNext::Stat { path } => seen.stat = Some(self.stat(&path)),
                KeyNext::Read { path, max_bytes } => {
                    assert_eq!(max_bytes, KEY_SEED_LEN as u64);
                    seen.read = Some(Ok(self.nodes[&path].bytes.clone()));
                }
                KeyNext::NewSeed { len } => seen.fresh_seed = Some(vec![fresh; len]),
                KeyNext::Persist { path, dir, seed, mode } => {
                    assert_eq!(dir, "/data");
                    self.put(&path, FileKind::Other, mode, &seed);
                    seen.persisted = Some(Ok(()));
                }
                KeyNext::Done(out) => return out,
            }
        }
    }
}

/// Checks the names of a parsed registry as its file format demands.
fn names_of(value: &toml::Value) -> Result<(), String> {
    let records = value.get("records").and_then(|r| r.as_array().cloned()).unwrap_or_default();
    for record in records {
        let name = record.get("name").and_then(|n| n.as_str().map(str::to_owned));
        match ValidatedAgentName::new(&name.unwrap_or_default()) {
            Ok(_) => {}
            Err(err) => return Err(err.to_string()),
        }
    }
    Ok(())
}

const PATH: &str = "/data/registry.toml";

fn sample_record(name: &str) -> AgentRecord {
    AgentRecord {
        name: ValidatedAgentName::new(name).unwrap(),
        identity_id: IdentityId::new(&format!("id-of-{name}")),
        inbox_dir: format!("/data/agents/{name}/inbox"),
        persona_name: None,
        spawned_at: Timestamp { unix_nanos: 1_760_000_000_000_000_000 },
        status: AgentStatus::Running,
        stopped_reason: None,
    }
}

fn registry_at() -> (AgentRegistry, Disk) {
    let mut disk = Disk::with_dir("/data", REGISTRY_DIR_MODE);
    let registry = disk.open(PATH).unwrap();
    (registry, disk)
}

/// Makes a change and carries out the write that it owes.
fn saved(
    disk: &mut Disk,
    registry: &mut AgentRegistry,
    change: impl FnOnce(&mut AgentRegistry) -> FlushNext,
) -> Result<(), AgentRegistryError> {
    let next = change(registry);
    disk.save(registry, next)
}

// ── Registry ─────────────────────────────────────────────────────────────────

#[test]
fn open_missing_file_returns_empty_registry() {
    let (registry, _disk) = registry_at();
    assert_eq!(registry.list().len(), 0);
}

#[test]
fn register_then_lookup_round_trips() {
    let (mut registry, mut disk) = registry_at();
    let record = sample_record("lead");
    let id = record.identity_id.clone();
    saved(&mut disk, &mut registry, |r| r.register(record)).unwrap();
    let found = registry.lookup("lead").unwrap();
    assert_eq!(found.identity_id, id);
}

#[test]
fn register_upserts_existing_record() {
    let (mut registry, mut disk) = registry_at();
    saved(&mut disk, &mut registry, |r| r.register(sample_record("lead"))).unwrap();
    let mut updated = sample_record("lead");
    updated.status = AgentStatus::Stopped;
    saved(&mut disk, &mut registry, |r| r.register(updated)).unwrap();
    assert_eq!(registry.list().len(), 1);
    assert_eq!(registry.lookup("lead").unwrap().status, AgentStatus::Stopped);
}

#[test]
fn update_status_changes_existing_record() {
    let (mut registry, mut disk) = registry_at();
    saved(&mut disk, &mut registry, |r| r.register(sample_record("lead"))).unwrap();
    saved(&mut disk, &mut registry, |r| r.update_status("lead", AgentStatus::Stopped)).unwrap();
    assert_eq!(registry.lookup("lead").unwrap().status, AgentStatus::Stopped);
}

#[test]
fn update_stopped_with_reason_sets_and_clears() {
    let (mut registry, mut disk) = registry_at();
    saved(&mut disk, &mut registry, |r| r.register(sample_record("lead"))).unwrap();

    saved(&mut disk, &mut registry, |r| r.update_stopped_with_reason("lead", "profile_missing")).unwrap();
    let rec = registry.lookup("lead").unwrap();
    assert_eq!(rec.status, AgentStatus::Stopped);
    assert_eq!(rec.stopped_reason.as_deref(), Some("profile_missing"));

    saved(&mut disk, &mut registry, |r| r.update_status("lead", AgentStatus::Running)).unwrap();
    let rec = registry.lookup("lead").unwrap();
    assert_eq!(rec.status, AgentStatus::Running);
    assert_eq!(rec.stopped_reason, None, "plain update clears the reason");
}

#[test]
fn update_status_on_missing_name_returns_not_found() {
    let (mut registry, mut disk) = registry_at();
    let err = saved(&mut disk, &mut registry, |r| r.update_status("ghost", AgentStatus::Stopped)).unwrap_err();
    assert!(matches!(err, AgentRegistryError::NotFound { .. }), "expected NotFound, got {err:?}");
}

#[test]
fn update_stopped_with_reason_on_missing_name_returns_not_found() {
    let (mut registry, mut disk) = registry_at();
    let err = saved(&mut disk, &mut registry, |r| r.update_stopped_with_reason("ghost", "gone")).unwrap_err();
    assert_eq!(err, AgentRegistryError::NotFound { name: "ghost".to_owned() });
}

#[test]
fn list_returns_all_records() {
    let (mut registry, mut disk) = registry_at();
    saved(&mut disk, &mut registry, |r| r.register(sample_record("lead"))).unwrap();
    saved(&mut disk, &mut registry, |r| r.register(sample_record("worker"))).unwrap();
    let mut names: Vec<&str> = registry.list().iter().map(|r| r.name.as_str()).collect();
    names.sort_unstable();
    assert_eq!(names, ["lead", "worker"]);
}

#[test]
fn remove_takes_one_record_and_leaves_the_rest() {
    let (mut registry, mut disk) = registry_at();
    saved(&mut disk, &mut registry, |r| r.register(sample_record("lead"))).unwrap();
    saved(&mut disk, &mut registry, |r| r.register(sample_record("worker"))).unwrap();
    saved(&mut disk, &mut registry, |r| r.remove("lead")).unwrap();
    assert!(registry.lookup("lead").is_none());
    assert!(registry.lookup("worker").is_some());
    let err = saved(&mut disk, &mut registry, |r| r.remove("lead")).unwrap_err();
    assert_eq!(err, AgentRegistryError::NotFound { name: "lead".to_owned() });
}

#[test]
fn toml_round_trip_survives_reopen() {
    let (mut registry, mut disk) = registry_at();
    let record = sample_record("lead");
    let id = record.identity_id.clone();
    saved(&mut disk, &mut registry, |r| r.register(record)).unwrap();

    let registry = disk.open(PATH).unwrap();
    let found = registry.lookup("lead").unwrap();
    assert_eq!(found.identity_id, id);
    assert_eq!(found.status, AgentStatus::Running);
}

#[test]
fn stopped_agents_remain_in_registry() {
    let (mut registry, mut disk) = registry_at();
    saved(&mut disk, &mut registry, |r| r.register(sample_record("lead"))).unwrap();
    saved(&mut disk, &mut registry, |r| r.update_status("lead", AgentStatus::Stopped)).unwrap();

    let registry = disk.open(PATH).unwrap();
    let found = registry.lookup("lead");
    assert!(found.is_some(), "stopped agent must survive reopen");
    assert_eq!(found.unwrap().status, AgentStatus::Stopped);
}

#[test]
fn persona_name_survives_round_trip() {
    let (mut registry, mut disk) = registry_at();
    let mut record = sample_record("lead");
    record.persona_name = Some("maren".to_owned());
    saved(&mut disk, &mut registry, |r| r.register(record)).unwrap();

    let registry = disk.open(PATH).unwrap();
    assert_eq!(registry.lookup("lead").unwrap().persona_name.as_deref(), Some("maren"));
}

#[test]
fn a_change_owes_a_write_of_all_records() {
    let (mut registry, mut disk) = registry_at();
    saved(&mut disk, &mut registry, |r| r.register(sample_record("lead"))).unwrap();
    saved(&mut disk, &mut registry, |r| r.register(sample_record("worker"))).unwrap();
    match registry.update_status("worker", AgentStatus::Stopped) {
        FlushNext::Serialize { records } => {
            assert_eq!(&records, registry.list());
            assert_eq!(records.len(), 2);
        }
        other => panic!("expected a write, got {other:?}"),
    }
    let reopened = disk.open(PATH).unwrap();
    assert_eq!(reopened.lookup("worker").unwrap().status, AgentStatus::Running, "not written yet");
    saved(&mut disk, &mut registry, |r| r.remove("lead")).unwrap();
    let reopened = disk.open(PATH).unwrap();
    assert_eq!(reopened.list(), registry.list());
    assert_eq!(reopened.lookup("worker").unwrap().status, AgentStatus::Stopped);
}

#[test]
fn later_of_two_records_with_one_name_counts() {
    let mut disk = Disk::with_dir("/data", REGISTRY_DIR_MODE);
    disk.put(PATH, FileKind::Other, 0o600, b"");
    let mut second = sample_record("lead");
    second.status = AgentStatus::Stopped;
    disk.registries.insert(PATH.to_owned(), vec![sample_record("lead"), second]);
    let registry = disk.open(PATH).unwrap();
    assert_eq!(registry.list().len(), 1);
    assert_eq!(registry.lookup("lead").unwrap().status, AgentStatus::Stopped);
}

#[test]
fn lookup_unknown_name_returns_none() {
    let (registry, _disk) = registry_at();
    assert!(registry.lookup("nobody").is_none());
}

#[test]
fn agent_status_serializes_lowercase() {
    let running = serde_json::to_string(AgentStatus::Running.as_str()).unwrap();
    let stopped = serde_json::to_string(AgentStatus::Stopped.as_str()).unwrap();
    assert_eq!(running, "\"running\"", "running must serialize lowercase");
    assert_eq!(stopped, "\"stopped\"", "stopped must serialize lowercase");
    assert_eq!(AgentStatus::Retired.as_str(), "retired");
}

#[test]
fn open_rejects_oversized_registry_file() {
    let mut disk = Disk::with_dir("/data", REGISTRY_DIR_MODE);
    let junk = vec![b'x'; usize::try_from(MAX_REGISTRY_FILE_BYTES + 1).unwrap()];
    disk.put(PATH, FileKind::Other, 0o600, &junk);
    let err = disk.open(PATH).unwrap_err();
    assert!(matches!(err, AgentRegistryError::Io { .. }), "expected Io for oversize file, got {err:?}");
}

#[test]
fn open_invalid_toml_returns_parse_error() {
    let mut disk = Disk::with_dir("/data", REGISTRY_DIR_MODE);
    disk.put(PATH, FileKind::Other, 0o600, b"not valid toml :::");
    let err = disk.open(PATH).unwrap_err();
    assert!(matches!(err, AgentRegistryError::Parse { .. }), "expected Parse, got {err:?}");
}

#[test]
fn open_invalid_agent_name_in_toml_returns_parse_error() {
    let mut disk = Disk::with_dir("/data", REGISTRY_DIR_MODE);
    let text = "[[records]]\nname = \"foo/bar\"\nidentity_id = \"01960000-0000-7000-8000-000000000000\"\ninbox_dir = \"/data/agents/foo/inbox\"\nspawned_at = \"2026-01-01T00:00:00Z\"\nstatus = \"stopped\"\n";
    disk.put(PATH, FileKind::Other, 0o600, text.as_bytes());
    let err = disk.open(PATH).unwrap_err();
    assert!(
        matches!(err, AgentRegistryError::Parse { .. }),
        "expected Parse for invalid agent name in TOML, got {err:?}",
    );
}

#[test]
fn open_rejects_symlinked_registry_file() {
    let mut disk = Disk::with_dir("/data", REGISTRY_DIR_MODE);
    disk.put(PATH, FileKind::Symlink, 0o777, b"");
    let err = disk.open(PATH).unwrap_err();
    assert!(
        matches!(err, AgentRegistryError::SymlinkedRegistryFile { .. }),
        "expected SymlinkedRegistryFile, got {err:?}",
    );
}

#[test]
fn open_rejects_symlinked_parent_dir() {
    let mut disk = Disk::default();
    disk.put("/data/linked_agents", FileKind::Symlink, 0o777, b"");
    let err = disk.open("/data/linked_agents/registry.toml").unwrap_err();
    assert!(
        matches!(err, AgentRegistryError::SymlinkedDataDir { .. }),
        "expected SymlinkedDataDir for symlinked parent, got {err:?}",
    );
}

#[test]
fn open_rejects_file_at_parent_dir_path() {
    let mut disk = Disk::default();
    disk.put("/data/agents", FileKind::Other, 0o600, b"not a directory");
    let err = disk.open("/data/agents/registry.toml").unwrap_err();
    assert!(
        matches!(err, AgentRegistryError::NotADirectory { .. }),
        "expected NotADirectory when parent is a file, got {err:?}",
    );
}

#[test]
fn open_rejects_parent_dir_with_wrong_mode() {
    let mut disk = Disk::with_dir("/data/agents", 0o755);
    let err = disk.open("/data/agents/registry.toml").unwrap_err();
    assert_eq!(
        err,
        AgentRegistryError::WrongDirectoryMode {
            path: "/data/agents".to_owned(),
            actual: 0o755,
            expected: 0o700,
        },
    );
}

#[test]
fn open_reports_a_file_that_cannot_be_looked_at() {
    let seen = RegistryReplies {
        directory: Some(Ok(())),
        stat: Some(Err(IoError::new(IoKind::PermissionDenied, "denied"))),
        read: None,
    };
    match AgentRegistry::open(PATH, &seen) {
        RegistryNext::Done(Err(err)) => assert_eq!(
            err,
            AgentRegistryError::Io {
                path: PATH.to_owned(),
                source: IoError::new(IoKind::PermissionDenied, "denied"),
            },
        ),
        other => panic!("expected a failure, got {other:?}"),
    }
}

#[test]
fn open_needs_a_parent_directory() {
    let seen = RegistryReplies { directory: None, stat: None, read: None };
    match AgentRegistry::open("/", &seen) {
        RegistryNext::Done(Err(AgentRegistryError::Io { path, source })) => {
            assert_eq!(path, "/");
            assert_eq!(source.kind, IoKind::InvalidInput);
            assert_eq!(source.message, "registry path must have a parent directory");
        }
        other => panic!("expected a failure, got {other:?}"),
    }
}

#[test]
fn flush_reports_what_failed() {
    let (registry, _disk) = registry_at();
    let unserializable = FlushReplies { body: Some(Err("bad value".to_owned())), written: None };
    assert_eq!(
        registry.flush(&unserializable),
        FlushNext::Done(Err(AgentRegistryError::Serialize {
            path: PATH.to_owned(),
            source: "bad value".to_owned(),
        })),
    );
    let unwritable = FlushReplies {
        body: Some(Ok("x".to_owned())),
        written: Some(Err(IoError::new(IoKind::Other, "disk full"))),
    };
    assert_eq!(
        registry.flush(&unwritable),
        FlushNext::Done(Err(AgentRegistryError::Io {
            path: PATH.to_owned(),
            source: IoError::new(IoKind::Other, "disk full"),
        })),
    );
}

// ── Paths ────────────────────────────────────────────────────────────────────

#[test]
fn resolve_default_registry_path_uses_xdg_when_set() {
    let path = resolve_default_registry_path(Some("/srv/data"), Some("/home/op")).unwrap();
    assert_eq!(path, "/srv/data/reeve/identities/agents/registry.toml");
}

#[test]
fn resolve_default_registry_path_falls_back_to_home() {
    let path = resolve_default_registry_path(None, Some("/home/op")).unwrap();
    assert_eq!(path, "/home/op/.local/share/reeve/identities/agents/registry.toml");
    assert_eq!(AgentRegistry::default_registry_path(None, Some("/home/op")).unwrap(), path);
}

#[test]
fn resolve_default_registry_path_rejects_relative_xdg() {
    let err = resolve_default_registry_path(Some("data/home"), Some("/home/op")).unwrap_err();
    assert!(
        matches!(err, AgentRegistryError::RelativeDataDir { var_name: "XDG_DATA_HOME", .. }),
        "expected RelativeDataDir, got {err:?}",
    );
}

#[test]
fn resolve_default_registry_path_rejects_relative_home() {
    let err = resolve_default_registry_path(None, Some("home/operator")).unwrap_err();
    assert!(
        matches!(err, AgentRegistryError::RelativeDataDir { var_name: "HOME", .. }),
        "expected RelativeDataDir(HOME), got {err:?}",
    );
}

#[test]
fn resolve_default_registry_path_missing_home_returns_error() {
    let err = resolve_default_registry_path(None, None).unwrap_err();
    assert!(matches!(err, AgentRegistryError::MissingHome));
}

#[test]
fn agent_dirs_identity_key_path() {
    let checks = (0..9).map(|_| Ok(())).collect();
    let dirs = match AgentDirs::provision("/data", "lead", &checks) {
        ProvisionNext::Done(Ok(dirs)) => dirs,
        other => panic!("expected directories, got {other:?}"),
    };
    assert_eq!(dirs.identity_key_path(), format!("{}/identity.key", dirs.root()));
}

// ── Errors ───────────────────────────────────────────────────────────────────

#[test]
fn error_display_impls_are_informative() {
    let path = "test/path".to_owned();

    let io_err = AgentRegistryError::Io {
        path: path.clone(),
        source: IoError::new(IoKind::PermissionDenied, "permission denied"),
    };
    assert!(io_err.to_string().contains("test/path"));

    let not_found = AgentRegistryError::NotFound { name: "lead".to_owned() };
    assert!(not_found.to_string().contains("lead"));

    let invalid = AgentRegistryError::InvalidKeyFile { path: path.clone(), len: 16 };
    let s = invalid.to_string();
    assert!(s.contains("16"), "InvalidKeyFile (len): {s}");
    assert!(s.contains("32"), "InvalidKeyFile (expected): {s}");

    let symlink_err = AgentRegistryError::SymlinkedKeyFile { path };
    assert!(symlink_err.to_string().contains("test/path"));
}

#[test]
fn error_display_missing_home_and_relative_dir() {
    let s = AgentRegistryError::MissingHome.to_string();
    assert!(!s.is_empty(), "MissingHome display must be non-empty");

    let rel = AgentRegistryError::RelativeDataDir {
        var_name: "HOME",
        path: "relative/path".to_owned(),
    };
    let s = rel.to_string();
    assert!(s.contains("HOME"), "RelativeDataDir display must name the var: {s}");
    assert!(s.contains("relative/path"), "RelativeDataDir display must hold the path: {s}");

    let parse_err = AgentRegistryError::Parse {
        path: "p".to_owned(),
        source: toml::from_str::<toml::Value>(":::").unwrap_err().to_string(),
    };
    let s = parse_err.to_string();
    assert!(!s.is_empty(), "Parse display must be non-empty");

    let ser_err = AgentRegistryError::Serialize {
        path: "p".to_owned(),
        source: toml::to_string(&f32::INFINITY).unwrap_err().to_string(),
    };
    let s = ser_err.to_string();
    assert!(!s.is_empty(), "Serialize display must be non-empty");
}

#[test]
fn error_display_of_directories_and_names() {
    let mode = AgentRegistryError::WrongDirectoryMode {
        path: "/d".to_owned(),
        actual: 0o755,
        expected: 0o700,
    };
    let s = mode.to_string();
    assert!(s.contains("/d") && s.contains("755") && s.contains("700"), "{s}");
    for err in [
        AgentRegistryError::SymlinkedRegistryFile { path: "/d".to_owned() },
        AgentRegistryError::SymlinkedDataDir { path: "/d".to_owned() },
        AgentRegistryError::NotADirectory { path: "/d".to_owned() },
    ] {
        assert!(err.to_string().contains("/d"), "{err:?}");
    }
    let name = AgentRegistryError::InvalidAgentName { name: "a/b".to_owned() };
    assert!(name.to_string().contains("a/b"));
}

#[test]
fn from_fs_covers_all_variants() {
    let path = "p".to_owned();

    let sym = AgentRegistryError::from_fs(FsCheckError::Symlink { path: path.clone() });
    assert!(matches!(sym, AgentRegistryError::SymlinkedDataDir { .. }), "{sym:?}");

    let not_dir = AgentRegistryError::from_fs(FsCheckError::NotADirectory { path: path.clone() });
    assert!(matches!(not_dir, AgentRegistryError::NotADirectory { .. }), "{not_dir:?}");

    let wrong_mode = AgentRegistryError::from_fs(FsCheckError::WrongMode {
        path: path.clone(),
        actual: 0o755,
        expected: 0o700,
    });
    assert!(matches!(wrong_mode, AgentRegistryError::WrongDirectoryMode { .. }), "{wrong_mode:?}");

    let io = AgentRegistryError::from_fs(FsCheckError::Io {
        path,
        source: IoError::new(IoKind::Other, "other"),
    });
    assert!(matches!(io, AgentRegistryError::Io { .. }), "{io:?}");
}

// ── Names ────────────────────────────────────────────────────────────────────

fn refused(name: &str) {
    let err = ValidatedAgentName::new(name).unwrap_err();
    assert_eq!(err, AgentRegistryError::InvalidAgentName { name: name.to_owned() });
}

#[test]
fn validated_agent_name_rejects_empty_name() {
    refused("");
}

#[test]
fn validated_agent_name_rejects_name_with_slash() {
    refused("foo/bar");
}

#[test]
fn validated_agent_name_rejects_dot_name() {
    refused(".");
}

#[test]
fn validated_agent_name_rejects_dotdot_name() {
    refused("..");
}

#[test]
fn validated_agent_name_rejects_null_byte_name() {
    refused("foo\0bar");
}

#[test]
fn validated_agent_name_rejects_newline() {
    assert!(ValidatedAgentName::new("name\nwith\nnewline").is_err());
}

#[test]
fn validated_agent_name_rejects_carriage_return() {
    assert!(ValidatedAgentName::new("name\rwith\rcr").is_err());
}

#[test]
fn validated_agent_name_rejects_escape() {
    assert!(ValidatedAgentName::new("name\x1bwith\x1bescape").is_err());
}

#[test]
fn validated_agent_name_rejects_tab() {
    assert!(ValidatedAgentName::new("name\twith\ttab").is_err());
}

#[test]
fn validated_agent_name_accepts_plain_names() {
    for name in ["lead", "worker-1", "a.b", "...", "käthe"] {
        assert_eq!(ValidatedAgentName::new(name).unwrap().as_str(), name);
    }
}

// ── Keypair ──────────────────────────────────────────────────────────────────

const KEY: &str = "/data/identity.key";

#[test]
fn generate_or_load_keypair_stable_across_calls() {
    let mut disk = Disk::with_dir("/data", 0o700);
    let kp1 = disk.keypair(KEY, 7).unwrap();
    let kp2 = disk.keypair(KEY, 8).unwrap();
    assert_eq!(kp1.public(), kp2.public(), "public key must be identical across calls");
    assert_ne!(kp1.public(), kp1.to_seed_bytes());
}

#[test]
fn public_key_is_the_one_of_the_seed() {
    let pair = Keypair::from_seed_bytes(vec![0x9d; 32]);
    let expected = ed25519_dalek::SigningKey::from_bytes(&[0x9d; 32]).verifying_key();
    assert_eq!(pair.public().as_slice(), expected.as_bytes().as_slice());
    // The first test vector of RFC 8032.
    let seed: Vec<u8> = vec![
        0x9d, 0x61, 0xb1, 0x9d, 0xef, 0xfd, 0x5a, 0x60, 0xba, 0x84, 0x4a, 0xf4, 0x92, 0xec, 0x2c,
        0xc4, 0x44, 0x49, 0xc5, 0x69, 0x7b, 0x32, 0x69, 0x19, 0x70, 0x3b, 0xac, 0x03, 0x1c, 0xae,
        0x7f, 0x60,
    ];
    let public = Keypair::from_seed_bytes(seed);
    assert_eq!(public.public()[..4], [0xd7, 0x5a, 0x98, 0x01]);
}

#[test]
fn generate_or_load_keypair_wrong_length_returns_invalid_key_file() {
    let mut disk = Disk::with_dir("/data", 0o700);
    disk.put(KEY, FileKind::Other, 0o600, b"too short");
    let err = disk.keypair(KEY, 1).err().unwrap();
    assert_eq!(err, AgentRegistryError::InvalidKeyFile { path: KEY.to_owned(), len: 9 });
}

#[test]
fn generate_or_load_keypair_symlink_returns_symlinked_key_file() {
    let mut disk = Disk::with_dir("/data", 0o700);
    disk.put(KEY, FileKind::Symlink, 0o777, &[0u8; KEY_SEED_LEN]);
    let err = disk.keypair(KEY, 1).err().unwrap();
    assert!(
        matches!(err, AgentRegistryError::SymlinkedKeyFile { .. }),
        "expected SymlinkedKeyFile, got {err:?}",
    );
}

#[test]
fn generate_or_load_keypair_writes_32_byte_file() {
    let mut disk = Disk::with_dir("/data", 0o700);
    disk.keypair(KEY, 3).unwrap();
    assert_eq!(disk.stat(KEY).unwrap().len, u64::try_from(KEY_SEED_LEN).unwrap());
    assert_eq!(disk.nodes[KEY].mode, REGISTRY_FILE_MODE);
}

#[test]
fn key_file_failures_are_reported() {
    let denied = || IoError::new(IoKind::PermissionDenied, "denied");
    let io = AgentRegistryError::Io { path: KEY.to_owned(), source: denied() };
    let missing = || Some(Err(IoError::new(IoKind::NotFound, "gone")));
    let there = Some(Ok(Stat { kind: FileKind::Other, mode: 0o600, len: 32 }));
    for seen in [
        KeyReplies { stat: Some(Err(denied())), read: None, fresh_seed: None, persisted: None },
        KeyReplies { stat: there, read: Some(Err(denied())), fresh_seed: None, persisted: None },
        KeyReplies {
            stat: missing(),
            read: None,
            fresh_seed: Some(vec![1; 32]),
            persisted: Some(Err(denied())),
        },
    ] {
        match generate_or_load_keypair(KEY, &seen) {
            KeyNext::Done(Err(err)) => assert_eq!(err, io),
            _ => panic!("expected a failure"),
        }
    }
}
