//! Configuration, capability profiles and the blacklist.

use std::collections::BTreeMap;

use reeve_runtime::atomic_file::{StageFailure, WriteStage};
use reeve_runtime::blacklist::{
    initial_blacklist, is_hashable, reloaded_blacklist, BlacklistEntry, BlacklistError,
    BlacklistFile, BlacklistRead, BlacklistRegistry,
};
use reeve_runtime::capability::{
    load_capability_profile, write_capability_profile, CapabilityProfile, ProfileError, ProfileRead,
    ProfileWriteNext, Thresholds, ToolCategory, PROFILE_FILE_MODE,
};
use reeve_runtime::config::{
    atomic_write_str, default_persona_toml, install_defaults, load_persona_config,
    load_team_config, write_if_absent, ConfigError, PersonaConfig, PersonaRead, TeamConfig,
    TeamMember, TeamRead, WriteFailure, WriteNext, WriteReplies, CONFIG_DIR_MODE, CONFIG_FILE_MODE,
    DEFAULT_PROFILE_TOML, DEFAULT_TEAM_TOML,
};
use reeve_runtime::fs_util::{FileKind, FsCheckError, Stat};
use reeve_runtime::io_error::{IoError, IoKind};

// ── TOML into plain values ───────────────────────────────────────────────────

fn table(text: &str, known: &[&str]) -> Result<toml::Table, String> {
    let table: toml::Table = toml::from_str(text).map_err(|e| e.to_string())?;
    only(&table, known)?;
    Ok(table)
}

fn only(table: &toml::Table, known: &[&str]) -> Result<(), String> {
    match table.keys().find(|k| !known.contains(&k.as_str())) {
        Some(key) => Err(format!("unknown field `{key}`")),
        None => Ok(()),
    }
}

fn text(table: &toml::Table, key: &str) -> Result<String, String> {
    opt(table, key).ok_or(format!("missing field `{key}`"))
}

fn opt(table: &toml::Table, key: &str) -> Option<String> {
    table.get(key).and_then(|v| v.as_str()).map(str::to_owned)
}

fn number(table: &toml::Table, key: &str) -> Result<u32, String> {
    let value = table.get(key).and_then(|v| v.as_integer());
    u32::try_from(value.ok_or(format!("missing field `{key}`"))?).map_err(|e| e.to_string())
}

fn tables(table: &toml::Table, key: &str) -> Option<Vec<toml::Table>> {
    let list = table.get(key)?.as_array()?;
    Some(list.iter().filter_map(|v| v.as_table().cloned()).collect())
}

fn persona(source: &str) -> Result<PersonaConfig, String> {
    let t = table(
        source,
        &["name", "system_prompt", "model_preferences", "capability_profile", "display_name"],
    )?;
    let models = t.get("model_preferences").and_then(|v| v.as_array()).ok_or("missing field")?;
    Ok(PersonaConfig {
        name: text(&t, "name")?,
        system_prompt: text(&t, "system_prompt")?,
        model_preferences: models.iter().filter_map(|m| m.as_str().map(str::to_owned)).collect(),
        capability_profile: opt(&t, "capability_profile"),
        display_name: opt(&t, "display_name"),
    })
}

fn team(source: &str) -> Result<TeamConfig, String> {
    let t = table(source, &["name", "version", "lead_role", "members"])?;
    let mut members = Vec::new();
    for m in tables(&t, "members").ok_or("missing field `members`")? {
        members.push(TeamMember {
            persona_name: text(&m, "persona_name")?,
            persona_version: number(&m, "persona_version")?,
            count: number(&m, "count")?,
            role_label: text(&m, "role_label")?,
        });
    }
    Ok(TeamConfig {
        name: text(&t, "name")?,
        version: number(&t, "version")?,
        lead_role: text(&t, "lead_role")?,
        members,
    })
}

fn load_persona(source: &str) -> Result<PersonaConfig, ConfigError> {
    let read = match persona(source) {
        Ok(config) => PersonaRead::Persona(config),
        Err(complaint) => PersonaRead::Unparsable(complaint),
    };
    load_persona_config("persona.toml", read)
}

fn load_team(source: &str) -> Result<TeamConfig, ConfigError> {
    let read = match team(source) {
        Ok(config) => TeamRead::Team(config),
        Err(complaint) => TeamRead::Unparsable(complaint),
    };
    load_team_config("team.toml", read)
}

// ── Installing defaults ──────────────────────────────────────────────────────

#[derive(Default)]
struct Disk {
    files: BTreeMap<String, String>,
    links: Vec<String>,
    dirs: Vec<(String, u32)>,
}

impl Disk {
    fn stat(&self, path: &str) -> Result<Stat, IoError> {
        if self.links.iter().any(|l| l == path) {
            return Ok(Stat { kind: FileKind::Symlink, mode: 0o777, len: 0 });
        }
        match self.files.get(path) {
            Some(content) => {
                Ok(Stat { kind: FileKind::Other, mode: 0o600, len: content.len() as u64 })
            }
            None => Err(IoError::new(IoKind::NotFound, "no such file")),
        }
    }

    /// Performs a step; tells where its reply goes.
    fn perform(&mut self, next: WriteNext, seen: &mut WriteReplies) -> Result<(), ConfigError> {
        match next {
            WriteNext::Stat { path } => seen.stat = Some(self.stat(&path)),
            WriteNext::EnsureDirectory { path, mode } => {
                self.dirs.push((path, mode));
                seen.directory = Some(Ok(()));
            }
            WriteNext::Write { path, dir, content, mode } => {
                assert!(path.starts_with(&dir));
                assert_eq!(mode, CONFIG_FILE_MODE);
                self.files.insert(path, content);
                seen.written = Some(Ok(()));
            }
            WriteNext::Done(out) => return out,
        }
        Ok(())
    }

    fn install(&mut self, data_dir: &str, model: &str) -> Result<(), ConfigError> {
        let mut first = WriteReplies { stat: None, directory: None, written: None };
        let mut second = WriteReplies { stat: None, directory: None, written: None };
        let mut third = WriteReplies { stat: None, directory: None, written: None };
        loop {
            let next = install_defaults(data_dir, model, &first, &second, &third);
            if let WriteNext::Done(out) = next {
                return out;
            }
            if first.written.is_none() && !matches!(first.stat, Some(Ok(_))) {
                self.perform(next, &mut first)?;
            } else if second.written.is_none() && !matches!(second.stat, Some(Ok(_))) {
                self.perform(next, &mut second)?;
            } else {
                self.perform(next, &mut third)?;
            }
        }
    }

    fn write_if_absent(&mut self, path: &str, content: &str) -> Result<(), ConfigError> {
        let mut seen = WriteReplies { stat: None, directory: None, written: None };
        loop {
            let next = write_if_absent(path, content, &seen);
            if let WriteNext::Done(out) = next {
                return out;
            }
            self.perform(next, &mut seen)?;
        }
    }
}

const PERSONA: &str = "/data/personas/lead/config.toml";
const TEAM: &str = "/data/teams/default.toml";

#[test]
fn install_defaults_creates_files() {
    let mut disk = Disk::default();
    disk.install("/data", "opus-4-7").unwrap();
    assert_eq!(disk.files.len(), 3);
    assert_eq!(disk.files[PERSONA], default_persona_toml("opus-4-7"));
    assert_eq!(disk.files["/data/personas/lead/profile.toml"], DEFAULT_PROFILE_TOML);
    assert_eq!(disk.files[TEAM], DEFAULT_TEAM_TOML);
    assert!(disk.dirs.iter().all(|(_, mode)| *mode == CONFIG_DIR_MODE));
}

#[test]
fn install_defaults_is_idempotent() {
    let mut disk = Disk::default();
    disk.install("/data", "opus-4-7").unwrap();
    disk.files.insert(PERSONA.to_owned(), "sentinel".to_owned());
    disk.install("/data", "opus-4-7").unwrap();
    assert_eq!(disk.files[PERSONA], "sentinel", "install_defaults overwrote existing file");
}

#[test]
fn install_defaults_stops_at_a_refused_directory() {
    let persona = WriteReplies {
        stat: Some(Err(IoError::new(IoKind::NotFound, "no"))),
        directory: Some(Err(FsCheckError::WrongMode {
            path: "/data/personas/lead".to_owned(),
            actual: 0o755,
            expected: 0o700,
        })),
        written: None,
    };
    let later = WriteReplies { stat: None, directory: None, written: None };
    match install_defaults("/data", "m", &persona, &later, &later) {
        WriteNext::Done(Err(ConfigError::Io { path, source })) => {
            assert_eq!(path, "/data/personas/lead");
            assert_eq!(source.message, "config directory has mode 0o755, expected 0o700");
        }
        other => panic!("expected a failure, got {other:?}"),
    }
}

#[test]
fn write_if_absent_does_not_overwrite() {
    let mut disk = Disk::default();
    disk.files.insert("/d/existing.toml".to_owned(), "original".to_owned());
    disk.write_if_absent("/d/existing.toml", "replacement").unwrap();
    assert_eq!(disk.files["/d/existing.toml"], "original");
}

#[test]
fn write_if_absent_rejects_symlink_target() {
    let mut disk = Disk::default();
    disk.files.insert("/d/real_file.toml".to_owned(), "original content".to_owned());
    disk.links.push("/d/symlink.toml".to_owned());
    let result = disk.write_if_absent("/d/symlink.toml", "new content");
    assert!(
        matches!(result, Err(ConfigError::Io { .. })),
        "expected Io error for symlink target, got {result:?}",
    );
    assert_eq!(disk.files["/d/real_file.toml"], "original content");
}

#[test]
fn default_configs_are_valid_toml() {
    let lead = persona(&default_persona_toml("opus-4-7")).unwrap();
    assert_eq!(lead.name, "lead");
    assert_eq!(lead.model_preferences, vec!["opus-4-7"]);
    assert_eq!(lead.capability_profile.as_deref(), Some("default"));
    assert_eq!(lead.display_name.as_deref(), Some("Lead"));

    let lead = profile(DEFAULT_PROFILE_TOML).unwrap();
    assert_eq!((lead.name.as_str(), lead.version), ("lead", 1));
    assert!(lead.enabled_categories.is_none());

    let default = team(DEFAULT_TEAM_TOML).unwrap();
    assert_eq!(default.name, "default");
    assert_eq!(default.lead_role, "lead");
    assert_eq!(default.members.len(), 1);
    assert_eq!(default.members[0].role_label, "lead");
}

#[test]
fn a_failed_write_tells_its_path() {
    let full = || IoError::new(IoKind::Other, "disk full");
    for (stage, path) in [
        (WriteStage::CreateTemp, "/d"),
        (WriteStage::SetMode, "/d/.tmp1"),
        (WriteStage::WriteAll, "/d/.tmp1"),
        (WriteStage::SyncFile, "/d/.tmp1"),
        (WriteStage::Persist, "/d/x"),
    ] {
        let out = atomic_write_str("/d", "/d/x", "/d/.tmp1", Err(StageFailure { stage, source: full() }));
        assert_eq!(out, Err(WriteFailure { path: path.to_owned(), source: full() }));
    }
    assert_eq!(atomic_write_str("/d", "/d/x", "/d/.tmp1", Ok(())), Ok(()));
}

// ── Personas and teams ───────────────────────────────────────────────────────

#[test]
fn load_persona_config_round_trip() {
    let cfg = load_persona(
        r#"
name = "analyst"
system_prompt = "You are a data analyst."
model_preferences = ["opus-4-7", "sonnet-3-5"]
capability_profile = "restricted"
display_name = "Analyst"
"#,
    )
    .unwrap();
    assert_eq!(cfg.name, "analyst");
    assert_eq!(cfg.system_prompt, "You are a data analyst.");
    assert_eq!(cfg.model_preferences, vec!["opus-4-7", "sonnet-3-5"]);
    assert_eq!(cfg.capability_profile.as_deref(), Some("restricted"));
    assert_eq!(cfg.display_name.as_deref(), Some("Analyst"));
}

#[test]
fn load_team_config_round_trip() {
    let cfg = load_team(
        r#"
name = "core"
version = 2
lead_role = "architect"

[[members]]
persona_name = "architect"
persona_version = 1
count = 1
role_label = "architect"

[[members]]
persona_name = "surveyor"
persona_version = 1
count = 2
role_label = "surveyor"
"#,
    )
    .unwrap();
    assert_eq!(cfg.name, "core");
    assert_eq!(cfg.version, 2);
    assert_eq!(cfg.lead_role, "architect");
    assert_eq!(cfg.members.len(), 2);
    assert_eq!(cfg.members[0].role_label, "architect");
    assert_eq!(cfg.members[0].persona_name, "architect");
    assert_eq!(cfg.members[1].count, 2);
    assert_eq!(cfg.members[1].role_label, "surveyor");
}

#[test]
fn load_persona_config_returns_error_on_missing() {
    let read = PersonaRead::Unreadable(IoError::new(IoKind::NotFound, "no such file"));
    let err = load_persona_config("does_not_exist.toml", read).unwrap_err();
    assert!(matches!(err, ConfigError::Io { .. }), "expected Io error, got {err:?}");
    let read = TeamRead::Unreadable(IoError::new(IoKind::NotFound, "no such file"));
    let err = load_team_config("does_not_exist.toml", read).unwrap_err();
    assert!(matches!(err, ConfigError::Io { .. }), "expected Io error, got {err:?}");
}

#[test]
fn load_persona_config_returns_error_on_invalid_toml() {
    let err = load_persona("this is not valid TOML ===").unwrap_err();
    assert!(matches!(err, ConfigError::Parse { .. }), "expected Parse error, got {err:?}");
    let err = load_team("this is not valid TOML ===").unwrap_err();
    assert!(matches!(err, ConfigError::Parse { .. }), "expected Parse error, got {err:?}");
}

#[test]
fn config_error_display_impls() {
    let path = "synthetic/test-path.toml".to_owned();
    let io_err = ConfigError::Io {
        path: path.clone(),
        source: IoError::new(IoKind::PermissionDenied, "permission denied"),
    };
    assert_eq!(io_err.to_string(), "config IO at synthetic/test-path.toml: permission denied");

    let parse_err = ConfigError::Parse {
        path: path.clone(),
        source: persona("not toml ===").unwrap_err(),
    };
    let rendered = parse_err.to_string();
    assert!(rendered.contains("synthetic/test-path.toml"), "Parse: {rendered}");

    let validation = ConfigError::Validation { path, message: "bad".to_owned() };
    assert_eq!(
        validation.to_string(),
        "config validation failed at synthetic/test-path.toml: bad",
    );
}

#[test]
fn load_persona_config_optional_fields_absent() {
    let cfg = load_persona(
        r#"
name = "minimal"
system_prompt = "Be helpful."
model_preferences = ["opus-4-7"]
"#,
    )
    .unwrap();
    assert_eq!(cfg.name, "minimal");
    assert!(cfg.capability_profile.is_none());
    assert!(cfg.display_name.is_none());
}

fn validation(err: ConfigError) -> String {
    match err {
        ConfigError::Validation { message, .. } => message,
        other => panic!("expected Validation, got {other:?}"),
    }
}

#[test]
fn load_persona_config_rejects_empty_model_preferences() {
    let err = load_persona("name = \"x\"\nsystem_prompt = \"y\"\nmodel_preferences = []\n");
    assert_eq!(validation(err.unwrap_err()), "model_preferences must not be empty");
}

#[test]
fn load_team_config_rejects_empty_members() {
    let err = load_team("name = \"t\"\nversion = 1\nlead_role = \"nobody\"\nmembers = []\n");
    assert_eq!(validation(err.unwrap_err()), "members must not be empty");
}

#[test]
fn load_persona_config_rejects_empty_name() {
    let err = load_persona("name = \"\"\nsystem_prompt = \"y\"\nmodel_preferences = [\"opus-4-7\"]\n");
    assert_eq!(validation(err.unwrap_err()), "name must not be empty");
}

#[test]
fn load_team_config_rejects_empty_name() {
    let content = "name = \"\"\nversion = 1\nlead_role = \"lead\"\n\n[[members]]\npersona_name = \"lead\"\npersona_version = 1\ncount = 1\nrole_label = \"lead\"\n";
    assert_eq!(validation(load_team(content).unwrap_err()), "name must not be empty");
}

#[test]
fn load_team_config_rejects_mismatched_lead_role() {
    let content = "name = \"t\"\nversion = 1\nlead_role = \"nonexistent\"\n\n\
        [[members]]\npersona_name = \"lead\"\npersona_version = 1\ncount = 1\n\
        role_label = \"lead\"\n";
    assert_eq!(
        validation(load_team(content).unwrap_err()),
        "lead_role 'nonexistent' does not match any member role_label",
    );
}

// ── Capability profiles ──────────────────────────────────────────────────────

const UNRESTRICTED: &str = r#"
name = "lead"
version = 1

[thresholds]
cost_per_agent = 10.0
cost_per_session = 50.0
max_concurrent_subordinates = 5
max_task_duration_secs = 3600
"#;

const RESTRICTED: &str = r#"
name = "worker"
version = 1
enabled_categories = ["read_files", "git_read", "message_peers", "spawn_agents"]

[thresholds]
cost_per_agent = 2.0
"#;

const CATEGORIES: [ToolCategory; 10] = [
    ToolCategory::ReadFiles,
    ToolCategory::WriteFiles,
    ToolCategory::ExecuteShell,
    ToolCategory::GitRead,
    ToolCategory::GitWrite,
    ToolCategory::SpawnAgents,
    ToolCategory::MessagePeers,
    ToolCategory::NetworkEgress,
    ToolCategory::WriteMemory,
    ToolCategory::WriteConfiguration,
];

fn profile(source: &str) -> Result<CapabilityProfile, String> {
    let t = table(source, &["name", "version", "enabled_categories", "thresholds"])?;
    let limits = t.get("thresholds").and_then(|v| v.as_table()).cloned().unwrap_or_default();
    let cost = |key: &str| limits.get(key).and_then(|v| v.as_float()).map(f64::to_bits);
    let count = |key: &str| limits.get(key).and_then(|v| v.as_integer());
    let enabled_categories = match t.get("enabled_categories").and_then(|v| v.as_array()) {
        None => None,
        Some(names) => {
            let mut listed = Vec::new();
            for name in names {
                let found = CATEGORIES.iter().find(|c| Some(c.as_str()) == name.as_str());
                listed.push(*found.ok_or("unknown category")?);
            }
            Some(listed)
        }
    };
    Ok(CapabilityProfile {
        name: text(&t, "name")?,
        version: number(&t, "version")?,
        enabled_categories,
        thresholds: Thresholds {
            cost_per_agent_bits: cost("cost_per_agent"),
            cost_per_session_bits: cost("cost_per_session"),
            max_concurrent_subordinates: count("max_concurrent_subordinates").map(|n| n as u32),
            max_task_duration_secs: count("max_task_duration_secs").map(|n| n as u64),
        },
    })
}

#[test]
fn unrestricted_profile_allows_all() {
    let p = profile(UNRESTRICTED).unwrap();
    assert_eq!(p.name, "lead");
    assert_eq!(p.version, 1);
    assert!(p.enabled_categories.is_none());
    for category in CATEGORIES {
        assert!(p.allows(category), "{category:?}");
    }
}

#[test]
fn restricted_profile_denies_unlisted() {
    let p = profile(RESTRICTED).unwrap();
    assert!(p.allows(ToolCategory::ReadFiles));
    assert!(p.allows(ToolCategory::GitRead));
    assert!(p.allows(ToolCategory::MessagePeers));
    assert!(p.allows(ToolCategory::SpawnAgents));
    assert!(!p.allows(ToolCategory::WriteFiles));
    assert!(!p.allows(ToolCategory::ExecuteShell));
    assert!(!p.allows(ToolCategory::GitWrite));
    assert!(!p.allows(ToolCategory::NetworkEgress));
    assert!(!p.allows(ToolCategory::WriteMemory));
    assert!(!p.allows(ToolCategory::WriteConfiguration));
}

#[test]
fn capability_unknown_field_rejected() {
    let bad = "\nname = \"x\"\nversion = 1\nsurprise_field = \"boom\"\n";
    let complaint = profile(bad).unwrap_err();
    let err = load_capability_profile("p", ProfileRead::Unparsable(complaint)).unwrap_err();
    assert!(matches!(err, ProfileError::Parse { .. }), "expected Parse, got {err:?}");
}

#[test]
fn future_schema_version_rejected() {
    let read = ProfileRead::Profile(profile("name = \"x\"\nversion = 999\n").unwrap());
    let err = load_capability_profile("profile.toml", read).unwrap_err();
    assert!(
        matches!(err, ProfileError::UnsupportedVersion { found: 999, .. }),
        "expected UnsupportedVersion; got {err:?}"
    );
    assert_eq!(
        err.to_string(),
        "profile at profile.toml has schema version 999; max supported is 1",
    );
}

#[test]
fn missing_file_returns_io_error() {
    let read = ProfileRead::Unreadable(IoError::new(IoKind::NotFound, "no such file"));
    let err = load_capability_profile("/no/such/profile.toml", read).unwrap_err();
    assert!(matches!(err, ProfileError::Io { .. }));
    assert!(err.is_absent());
}

#[test]
fn capability_round_trip_write_load() {
    let original = profile(RESTRICTED).unwrap();
    match write_capability_profile("/d/profile.toml", &original, &None) {
        ProfileWriteNext::Write { path, dir, mode, profile } => {
            assert_eq!((path.as_str(), dir.as_str(), mode), ("/d/profile.toml", "/d", PROFILE_FILE_MODE));
            assert_eq!(profile, &original);
        }
        other => panic!("expected a write, got {other:?}"),
    }
    assert_eq!(
        write_capability_profile("/d/profile.toml", &original, &Some(Ok(()))),
        ProfileWriteNext::Done(Ok(())),
    );
    let read = ProfileRead::Profile(profile(RESTRICTED).unwrap());
    let loaded = load_capability_profile("/d/profile.toml", read).unwrap();
    assert_eq!(original, loaded);
}

#[test]
fn a_profile_that_cannot_be_written_is_reported() {
    let full = || IoError::new(IoKind::Other, "disk full");
    let unwritten = profile(RESTRICTED).unwrap();
    match write_capability_profile("/d/p", &unwritten, &Some(Err(full()))) {
        ProfileWriteNext::Done(Err(err)) => {
            assert_eq!(err, ProfileError::Io { path: "/d/p".to_owned(), source: full() });
            assert!(!err.is_absent());
        }
        other => panic!("expected a failure, got {other:?}"),
    }
}

#[test]
fn tool_category_display() {
    assert_eq!(ToolCategory::SpawnAgents.to_string(), "spawn_agents");
    assert_eq!(ToolCategory::MessagePeers.to_string(), "message_peers");
    assert_eq!(ToolCategory::ReadFiles.to_string(), "read_files");
}

// ── Blacklist ────────────────────────────────────────────────────────────────

const VALID_TOML: &str = r#"
schema_version = 1

[[entry]]
pattern = "SendMessage(to=worker)"
rationale = "direct messages to worker are not allowed in this context"

[[entry]]
pattern = "SpawnAgent(persona=untrusted)"
rationale = "untrusted persona is not approved for spawning"
"#;

fn read_blacklist(source: &str) -> BlacklistRead {
    fn file(source: &str) -> Result<BlacklistFile, String> {
        let t = table(source, &["schema_version", "entry"])?;
        let mut entry = Vec::new();
        for e in tables(&t, "entry").unwrap_or_default() {
            only(&e, &["pattern", "rationale"])?;
            entry.push(BlacklistEntry {
                pattern: text(&e, "pattern")?,
                rationale: text(&e, "rationale")?,
            });
        }
        Ok(BlacklistFile { schema_version: number(&t, "schema_version")?, entry })
    }
    match file(source) {
        Ok(file) => BlacklistRead::File(file),
        Err(complaint) => BlacklistRead::Unparsable(complaint),
    }
}

fn blacklist(source: &str) -> Result<BlacklistRegistry, BlacklistError> {
    BlacklistRegistry::load_from_path("test.toml", read_blacklist(source))
}

#[test]
fn valid_file_parses() {
    let r = blacklist(VALID_TOML).unwrap();
    assert_eq!(r.len(), 2);
    assert!(!r.version_hash.is_empty());
}

#[test]
fn check_exact_match() {
    let r = blacklist(VALID_TOML).unwrap();
    let hit = r.check("SendMessage(to=worker)");
    assert!(hit.is_some());
    let (pattern, rationale) = hit.unwrap();
    assert_eq!(pattern, "SendMessage(to=worker)");
    assert!(!rationale.is_empty());
}

#[test]
fn check_no_match() {
    let r = blacklist(VALID_TOML).unwrap();
    assert!(r.check("SendMessage(to=lead)").is_none());
    assert!(r.check("SpawnAgent(persona=worker)").is_none());
    assert!(r.check("").is_none());
}

#[test]
fn check_tells_the_first_of_two_equal_patterns() {
    let twice = "schema_version = 1\n[[entry]]\npattern = \"x\"\nrationale = \"one\"\n[[entry]]\npattern = \"x\"\nrationale = \"two\"\n";
    assert_eq!(blacklist(twice).unwrap().check("x"), Some(("x", "one")));
}

#[test]
fn blacklist_unknown_field_rejected() {
    let bad = "schema_version = 1\n[[entry]]\npattern = \"x\"\nrationale = \"y\"\nsurprise = 1\n";
    let err = blacklist(bad).unwrap_err();
    assert!(matches!(err, BlacklistError::Parse { .. }), "{err:?}");
}

#[test]
fn empty_rationale_rejected() {
    let bad = "schema_version = 1\n[[entry]]\npattern = \"x\"\nrationale = \"   \"\n";
    let err = blacklist(bad).unwrap_err();
    assert_eq!(err, BlacklistError::EmptyRationale { pattern: "x".to_owned() });
    assert!(err.to_string().contains('x'));
}

#[test]
fn future_schema_rejected() {
    let err = blacklist("schema_version = 999\n").unwrap_err();
    assert!(matches!(err, BlacklistError::UnsupportedVersion { found: 999, .. }));
    assert!(err.to_string().contains("999"));
}

#[test]
fn empty_file_valid() {
    assert!(blacklist("schema_version = 1\n").unwrap().is_empty());
}

#[test]
fn unreadable_blacklist_is_reported() {
    let denied = IoError::new(IoKind::PermissionDenied, "denied");
    let err = BlacklistRegistry::load_from_path("b.toml", BlacklistRead::Unreadable(denied));
    let err = err.unwrap_err();
    assert!(matches!(err, BlacklistError::Io { .. }));
    assert!(err.to_string().contains("b.toml"));
}

#[test]
fn version_hash_stable() {
    let r1 = blacklist(VALID_TOML).unwrap();
    let r2 = blacklist(VALID_TOML).unwrap();
    assert_eq!(r1.version_hash, r2.version_hash);
}

#[test]
fn version_hash_changes_on_edit() {
    let other = "schema_version = 1\n[[entry]]\npattern = \"X\"\nrationale = \"y\"\n";
    let r1 = blacklist(VALID_TOML).unwrap();
    let r2 = blacklist(other).unwrap();
    assert_ne!(r1.version_hash, r2.version_hash);
}

#[test]
fn empty_registry_has_deterministic_hash() {
    let e1 = BlacklistRegistry::empty();
    let e2 = BlacklistRegistry::empty();
    assert_eq!(e1.version_hash, e2.version_hash);
    assert_eq!(
        e1.version_hash,
        "e3b0c44298fc1c149afbf4c8996fb92427ae41e4649b934ca495991b7852b855",
    );
    let nonempty = blacklist(VALID_TOML).unwrap();
    assert_ne!(e1.version_hash, nonempty.version_hash);
}

fn hash_of(entries: &[(&str, &str)]) -> String {
    let entry = entries
        .iter()
        .map(|(pattern, rationale)| BlacklistEntry {
            pattern: (*pattern).to_owned(),
            rationale: (*rationale).to_owned(),
        })
        .collect();
    BlacklistRegistry::parse_toml(BlacklistFile { schema_version: 1, entry }).unwrap().version_hash
}

#[test]
fn other_entries_have_another_hash() {
    let hashes = [
        hash_of(&[]),
        hash_of(&[("a", "x")]),
        hash_of(&[("a", "y")]),
        hash_of(&[("b", "x")]),
        hash_of(&[("x", "a")]),
        hash_of(&[("a", "x"), ("b", "y")]),
        hash_of(&[("b", "y"), ("a", "x")]),
        hash_of(&[("a", "x"), ("a", "x")]),
        hash_of(&[("a", "x\ny")]),
        hash_of(&[("a", "\nx")]),
        hash_of(&[("a", "x\"\n[[entry]]\npattern = \"b\"\nrationale = \"y")]),
        hash_of(&[("a\"\nrationale = \"x", "y")]),
    ];
    for (i, a) in hashes.iter().enumerate() {
        assert_eq!(a.len(), 64);
        for b in &hashes[i + 1..] {
            assert_ne!(a, b);
        }
    }
    assert_eq!(hash_of(&[("a", "x")]), hash_of(&[("a", "x")]));
}

#[test]
fn a_toml_value_is_told_by_its_line() {
    let mut texts = vec![String::new()];
    let mut from = 0;
    for _ in 0..4 {
        let upto = texts.len();
        for i in from..upto {
            for c in ['\'', '"', '\\', '\n', '\t', '\r', 'n', '\u{7f}'] {
                texts.push(format!("{}{c}", texts[i]));
            }
        }
        from = upto;
    }
    let mut lines: Vec<String> =
        texts.iter().map(|t| format!("{}\n", toml::Value::String(t.clone()))).collect();
    lines.sort_unstable();
    for pair in lines.windows(2) {
        assert!(!pair[1].starts_with(&pair[0]), "{:?} begins {:?}", pair[0], pair[1]);
    }
}

#[test]
fn long_runs_of_quotes_cannot_be_hashed() {
    let file = |version: u32, rationale: String| BlacklistFile {
        schema_version: version,
        entry: vec![BlacklistEntry { pattern: "a".to_owned(), rationale }],
    };
    for quote in ["'", "\""] {
        assert!(is_hashable(&file(1, quote.repeat(255))));
        assert!(is_hashable(&file(1, quote.repeat(255) + "x" + &quote.repeat(255))));
        assert!(!is_hashable(&file(1, quote.repeat(256))));
        assert!(is_hashable(&file(2, quote.repeat(256))));
        assert_eq!(hash_of(&[("a", &quote.repeat(255))]).len(), 64);
    }
}

#[test]
fn blacklist_round_trip_write_load() {
    let loaded = blacklist(VALID_TOML).unwrap();
    let direct = match read_blacklist(VALID_TOML) {
        BlacklistRead::File(file) => BlacklistRegistry::parse_toml(file).unwrap(),
        other => panic!("expected a file, got {other:?}"),
    };
    assert_eq!(loaded.version_hash, direct.version_hash);
    assert_eq!(loaded.len(), direct.len());
}

#[test]
fn a_reload_that_fails_keeps_the_blacklist() {
    let current = || blacklist(VALID_TOML).unwrap();
    let failed = || blacklist("schema_version = 999\n");
    assert_eq!(reloaded_blacklist(current(), failed()), current());
    let fresh = blacklist("schema_version = 1\n");
    assert!(reloaded_blacklist(current(), fresh).is_empty());
    assert!(initial_blacklist(failed()).is_empty());
    assert_eq!(initial_blacklist(Ok(current())), current());
}
