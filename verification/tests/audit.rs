//! The audit log.

use std::collections::BTreeMap;

use reeve_runtime::audit::{
    audit_log_path, AuditError, AuditEvent, AuditLog, AuthorityDisposition, FilenameError, LogNext,
    LogOpenNext, LogReplies, AUDIT_DIR_MODE, AUDIT_FILE_MODE,
};
use reeve_runtime::fs_util::{
    ensure_directory, DirectoryNext, DirectoryReplies, FileKind, FsCheckError, Stat, MODE_BITS_MASK,
};
use reeve_runtime::identity::{IdentityId, Timestamp};
use reeve_runtime::io_error::{IoError, IoKind};
use reeve_runtime::journal::{AppendNext, AppendReplies};
use time::format_description::well_known::Rfc3339;
use time::OffsetDateTime;

const DIRECTORY: u32 = 0o040000;

#[derive(Default)]
struct Disk {
    nodes: BTreeMap<String, (FileKind, u32)>,
    log: Vec<u8>,
}

impl Disk {
    fn stat(&self, path: &str) -> Result<Stat, IoError> {
        match self.nodes.get(path) {
            Some((kind, mode)) => Ok(Stat { kind: *kind, mode: *mode, len: 0 }),
            None => Err(IoError::new(IoKind::NotFound, "no such file")),
        }
    }

    fn ensure(&mut self, path: &str, mode: u32) -> Result<(), FsCheckError> {
        let mut seen = DirectoryReplies { found: None, created: None, rechecked: None };
        loop {
            match ensure_directory(path, mode, &seen) {
                DirectoryNext::Stat { path } => seen.found = Some(self.stat(&path)),
                DirectoryNext::Create { path, mode } => {
                    self.nodes.insert(path.to_owned(), (FileKind::Directory, DIRECTORY | mode));
                    seen.created = Some(Ok(()));
                }
                DirectoryNext::Restat { path } => seen.rechecked = Some(self.stat(&path)),
                DirectoryNext::Done(out) => return out,
            }
        }
    }

    fn open(&mut self) -> Result<AuditLog, AuditError> {
        let mut seen = LogReplies { directory: None, opened: None };
        loop {
            match AuditLog::open("/data", &seen) {
                LogOpenNext::EnsureDirectory { path, mode } => {
                    seen.directory = Some(self.ensure(&path, mode));
                }
                LogOpenNext::Open { path, mode } => {
                    seen.opened = Some(match self.nodes.get(&path) {
                        Some((FileKind::Symlink, _)) => {
                            Err(IoError::new(IoKind::Other, "too many levels of symbolic links"))
                        }
                        Some(_) => Ok(()),
                        None => {
                            self.nodes.insert(path, (FileKind::Other, mode));
                            Ok(())
                        }
                    });
                }
                LogOpenNext::Done(out) => return out,
            }
        }
    }

    fn append(&mut self, log: &AuditLog, event: &AuditEvent) -> Result<(), AuditError> {
        let mut seen = AppendReplies { json: None, written: None, synced: None };
        let mut synced = false;
        loop {
            match log.append(event, &seen) {
                LogNext::Serialize(event) => {
                    seen.json = Some(Ok(json(event).to_string().into_bytes()));
                }
                LogNext::Append(AppendNext::Write { line }) => {
                    self.log.extend(line);
                    seen.written = Some(Ok(()));
                }
                LogNext::Append(AppendNext::Sync) => {
                    synced = true;
                    seen.synced = Some(Ok(()));
                }
                LogNext::Append(other) => panic!("unmapped step {other:?}"),
                LogNext::Done(out) => {
                    assert!(out.is_err() || synced, "an appended event was not synced");
                    return out;
                }
            }
        }
    }

    fn lines(&self) -> Vec<serde_json::Value> {
        let text = String::from_utf8(self.log.clone()).unwrap();
        text.lines().map(|line| serde_json::from_str(line).unwrap()).collect()
    }
}

fn json(event: &AuditEvent) -> serde_json::Value {
    let mut map = serde_json::Map::new();
    let mut put = |key: &str, value: &str| {
        map.insert(key.to_owned(), serde_json::Value::String(value.to_owned()));
    };
    put("kind", event.kind());
    let at = match event {
        AuditEvent::IdentityEnrolled { identity_id, display_name, at } => {
            put("identity_id", &identity_id.text);
            put("display_name", display_name);
            at
        }
        AuditEvent::TransportDelivered { sender_id, sender_key_id, recipient_id, message_id, at } => {
            put("sender_id", &sender_id.text);
            put("sender_key_id", sender_key_id);
            put("recipient_id", &recipient_id.text);
            put("message_id", message_id);
            at
        }
        AuditEvent::TransportQuarantine {
            sender_id, sender_key_id, recipient_id, message_id, reason, at,
        } => {
            if let Some(id) = sender_id {
                put("sender_id", &id.text);
            }
            if let Some(id) = sender_key_id {
                put("sender_key_id", id);
            }
            put("recipient_id", &recipient_id.text);
            put("message_id", message_id);
            put("reason", reason);
            at
        }
        AuditEvent::TransportReplayRejected { sender_id, sender_key_id, message_id, at } => {
            put("sender_id", &sender_id.text);
            put("sender_key_id", sender_key_id);
            put("message_id", message_id);
            at
        }
        AuditEvent::TransportFilenameRejected { agent_id, reason, at } => {
            put("agent_id", &agent_id.text);
            put("reason", &reason.token());
            at
        }
        other => panic!("no JSON for {other:?}"),
    };
    let at = OffsetDateTime::from_unix_timestamp_nanos(at.unix_nanos).unwrap();
    put("at", &at.format(&Rfc3339).unwrap());
    serde_json::Value::Object(map)
}

fn id(text: &str) -> IdentityId {
    IdentityId::new(text)
}

fn at() -> Timestamp {
    Timestamp { unix_nanos: 1_700_000_000_000_000_000 }
}

fn enrolled(name: &str) -> AuditEvent {
    AuditEvent::IdentityEnrolled {
        identity_id: id("0190-ada"),
        display_name: name.to_owned(),
        at: at(),
    }
}

fn delivered() -> AuditEvent {
    AuditEvent::TransportDelivered {
        sender_id: id("0190-sender"),
        sender_key_id: "key-1".to_owned(),
        recipient_id: id("0190-recipient"),
        message_id: "0190-msg-a".to_owned(),
        at: at(),
    }
}

fn quarantined(reason: &str) -> AuditEvent {
    AuditEvent::TransportQuarantine {
        sender_id: Some(id("0190-quarantined")),
        sender_key_id: Some("key-2".to_owned()),
        recipient_id: id("0190-recipient"),
        message_id: "0190-msg-b".to_owned(),
        reason: reason.to_owned(),
        at: at(),
    }
}

fn replayed() -> AuditEvent {
    AuditEvent::TransportReplayRejected {
        sender_id: id("0190-replayer"),
        sender_key_id: "key-3".to_owned(),
        message_id: "0190-msg-c".to_owned(),
        at: at(),
    }
}

#[test]
fn open_creates_audit_dir_and_file_with_correct_modes() {
    let mut disk = Disk::default();
    disk.open().unwrap();
    let (kind, mode) = disk.nodes["/data/audit"];
    assert_eq!(kind, FileKind::Directory, "audit/ directory missing");
    assert_eq!(mode & MODE_BITS_MASK, AUDIT_DIR_MODE, "audit/ mode wrong");
    let (_, mode) = disk.nodes["/data/audit/log.jsonl"];
    assert_eq!(mode & MODE_BITS_MASK, AUDIT_FILE_MODE, "log.jsonl mode wrong");
    assert_eq!((AUDIT_DIR_MODE, AUDIT_FILE_MODE), (0o700, 0o600));
    assert_eq!(audit_log_path("/data"), "/data/audit/log.jsonl");
}

#[test]
fn append_writes_one_jsonl_line() {
    let mut disk = Disk::default();
    let log = disk.open().unwrap();
    disk.append(&log, &enrolled("Ada")).unwrap();
    let lines = disk.lines();
    assert_eq!(lines.len(), 1, "expected exactly one line");
    assert_eq!(lines[0]["kind"], "identity.enrolled");
    assert_eq!(lines[0]["display_name"], "Ada");
    assert_eq!(disk.log.last(), Some(&b'\n'));
}

#[test]
fn multiple_appends_produce_multiple_lines_in_order() {
    let mut disk = Disk::default();
    let log = disk.open().unwrap();
    disk.append(&log, &enrolled("Ada")).unwrap();
    disk.append(&log, &delivered()).unwrap();
    let lines = disk.lines();
    assert_eq!(lines.len(), 2, "expected two lines");
    assert_eq!(lines[0]["kind"], "identity.enrolled");
    assert_eq!(lines[1]["kind"], "transport.delivered");
}

#[test]
fn round_trip_all_event_variants() {
    let mut disk = Disk::default();
    let log = disk.open().unwrap();
    for event in
        [enrolled("Babbage"), delivered(), quarantined("signature_invalid"), replayed()].iter()
    {
        disk.append(&log, event).unwrap();
    }
    let lines = disk.lines();
    assert_eq!(lines.len(), 4);
    assert_eq!(lines[0]["kind"], "identity.enrolled");
    assert_eq!(lines[0]["identity_id"], "0190-ada");
    assert_eq!(lines[0]["display_name"], "Babbage");
    assert_eq!(lines[1]["kind"], "transport.delivered");
    assert_eq!(lines[1]["sender_id"], "0190-sender");
    assert_eq!(lines[1]["sender_key_id"], "key-1");
    assert_eq!(lines[1]["recipient_id"], "0190-recipient");
    assert_eq!(lines[1]["message_id"], "0190-msg-a");
    assert_eq!(lines[2]["kind"], "transport.quarantine");
    assert_eq!(lines[2]["sender_id"], "0190-quarantined");
    assert_eq!(lines[2]["sender_key_id"], "key-2");
    assert_eq!(lines[2]["recipient_id"], "0190-recipient");
    assert_eq!(lines[2]["reason"], "signature_invalid");
    assert_eq!(lines[3]["kind"], "transport.replay-rejected");
    assert_eq!(lines[3]["sender_id"], "0190-replayer");
    assert_eq!(lines[3]["sender_key_id"], "key-3");
    assert_eq!(lines[3]["message_id"], "0190-msg-c");
}

#[test]
fn every_event_has_its_own_kind() {
    let kinds = [
        enrolled("x").kind(),
        delivered().kind(),
        quarantined("x").kind(),
        replayed().kind(),
        AuditEvent::TransportFilenameRejected {
            agent_id: id("a"),
            reason: FilenameError::Reserved,
            at: at(),
        }
        .kind(),
        AuditEvent::AuthorityDecision {
            agent_id: id("a"),
            persona_name: "p".to_owned(),
            profile_version: 1,
            action: "x".to_owned(),
            disposition: AuthorityDisposition::Refuse,
            layer: None,
            rationale: None,
            blacklist_version: None,
            at: at(),
        }
        .kind(),
        AuditEvent::EngagementOpened { sender_id: id("o"), name: "n".to_owned(), root: None, at: at() }
            .kind(),
        AuditEvent::EngagementClosed { sender_id: id("o"), name: "n".to_owned(), at: at() }.kind(),
        AuditEvent::EngagementReopened { sender_id: id("o"), name: "n".to_owned(), at: at() }.kind(),
        AuditEvent::AgentRetired { sender_id: id("o"), name: "n".to_owned(), at: at() }.kind(),
        AuditEvent::TeamDissolved { sender_id: id("o"), name: "n".to_owned(), at: at() }.kind(),
    ];
    assert_eq!(
        kinds,
        [
            "identity.enrolled",
            "transport.delivered",
            "transport.quarantine",
            "transport.replay-rejected",
            "transport.filename-rejected",
            "authority.decision",
            "engagement.opened",
            "engagement.closed",
            "engagement.reopened",
            "agent.retired",
            "team.dissolved",
        ],
    );
}

#[test]
fn idempotent_open_succeeds() {
    let mut disk = Disk::default();
    let log = disk.open().unwrap();
    disk.append(&log, &enrolled("Curie")).unwrap();
    let log = disk.open().unwrap();
    disk.append(&log, &enrolled("Dirac")).unwrap();
    assert_eq!(disk.lines().len(), 2, "both opens should produce persistent records");
}

#[test]
fn appends_from_several_writers_keep_whole_lines() {
    let mut disk = Disk::default();
    let logs: Vec<AuditLog> = (0..4).map(|_| disk.open().unwrap()).collect();
    for i in 0..100 {
        disk.append(&logs[i % 4], &delivered()).unwrap();
    }
    assert_eq!(disk.lines().len(), 100);
}

#[test]
fn open_rejects_symlinked_audit_dir() {
    let mut disk = Disk::default();
    disk.nodes.insert("/data/audit".to_owned(), (FileKind::Symlink, 0o777));
    let err = disk.open().unwrap_err();
    assert!(
        matches!(err, AuditError::Io { .. }),
        "expected Io error for symlinked audit dir, got {err:?}",
    );
}

#[test]
fn open_rejects_audit_dir_with_wrong_mode() {
    let mut disk = Disk::default();
    disk.nodes.insert("/data/audit".to_owned(), (FileKind::Directory, DIRECTORY | 0o755));
    let err = disk.open().unwrap_err();
    assert!(
        matches!(err, AuditError::Io { .. }),
        "expected Io error for wrong-mode audit dir, got {err:?}",
    );
    assert_eq!(
        err.to_string(),
        "audit log IO at /data/audit: audit directory has mode 0o755, expected 0o700",
    );
}

#[test]
fn open_rejects_a_file_in_place_of_the_audit_dir() {
    let mut disk = Disk::default();
    disk.nodes.insert("/data/audit".to_owned(), (FileKind::Other, 0o600));
    let err = disk.open().unwrap_err();
    assert_eq!(
        err.to_string(),
        "audit log IO at /data/audit: audit path exists but is not a directory",
    );
}

#[test]
fn audit_error_display_impls() {
    let io_err = AuditError::Io {
        path: "synthetic/test-path".to_owned(),
        source: IoError::new(IoKind::PermissionDenied, "permission denied"),
    };
    assert_eq!(io_err.to_string(), "audit log IO at synthetic/test-path: permission denied");

    let complaint = serde_json::from_str::<serde_json::Value>("not json").unwrap_err();
    let rendered = AuditError::Serialize(complaint.to_string()).to_string();
    assert!(rendered.contains("serialize"), "Serialize: {rendered}");
}

#[test]
fn each_event_serializes_under_pipe_buf() {
    const PIPE_BUF: usize = 4096;
    let events = [
        enrolled(&"A".repeat(255)),
        delivered(),
        quarantined("signature_invalid"),
        replayed(),
        AuditEvent::TransportFilenameRejected {
            agent_id: id("0190-recipient"),
            reason: FilenameError::NotUtf8,
            at: at(),
        },
    ];
    for event in &events {
        let len = json(event).to_string().len();
        assert!(len < PIPE_BUF, "event {event:?} serializes to {len} bytes");
    }
}

#[test]
fn append_handles_empty_quarantine_reason() {
    let mut disk = Disk::default();
    let log = disk.open().unwrap();
    let event = AuditEvent::TransportQuarantine {
        sender_id: None,
        sender_key_id: None,
        recipient_id: id("0190-recipient"),
        message_id: "0190-msg".to_owned(),
        reason: String::new(),
        at: at(),
    };
    disk.append(&log, &event).unwrap();
    let lines = disk.lines();
    assert_eq!(lines.len(), 1);
    assert_eq!(lines[0]["kind"], "transport.quarantine");
    assert_eq!(lines[0]["reason"], "");
}

#[test]
fn append_handles_unicode_display_name() {
    let mut disk = Disk::default();
    let log = disk.open().unwrap();
    let name = "日本語 🔑 مرحبا";
    disk.append(&log, &enrolled(name)).unwrap();
    let lines = disk.lines();
    assert_eq!(lines.len(), 1);
    assert_eq!(lines[0]["display_name"].as_str().unwrap(), name);
}

#[test]
fn append_handles_far_past_and_far_future_timestamps() {
    let mut disk = Disk::default();
    let log = disk.open().unwrap();
    let far_past = OffsetDateTime::parse("0001-01-01T00:00:00Z", &Rfc3339).unwrap();
    let far_future = OffsetDateTime::parse("9999-12-31T23:59:59Z", &Rfc3339).unwrap();
    for (name, instant) in [("past", far_past), ("future", far_future)] {
        let event = AuditEvent::IdentityEnrolled {
            identity_id: id("0190-ada"),
            display_name: name.to_owned(),
            at: Timestamp { unix_nanos: instant.unix_timestamp_nanos() },
        };
        disk.append(&log, &event).unwrap();
    }
    let lines = disk.lines();
    assert_eq!(lines.len(), 2);
    let decoded = |i: usize| OffsetDateTime::parse(lines[i]["at"].as_str().unwrap(), &Rfc3339);
    assert_eq!(decoded(0).unwrap(), far_past);
    assert_eq!(decoded(1).unwrap(), far_future);
}

#[test]
fn open_rejects_symlinked_log_file() {
    let mut disk = Disk::default();
    disk.nodes.insert("/data/audit".to_owned(), (FileKind::Directory, DIRECTORY | 0o700));
    disk.nodes.insert("/data/audit/log.jsonl".to_owned(), (FileKind::Symlink, 0o777));
    let err = disk.open().unwrap_err();
    assert!(
        matches!(err, AuditError::Io { .. }),
        "expected Io error for symlinked log file, got {err:?}",
    );
}

#[test]
fn a_failed_append_is_reported() {
    let log = Disk::default().open().unwrap();
    let full = || IoError::new(IoKind::Other, "disk full");
    let line = || Some(Ok(b"{}".to_vec()));
    let event = enrolled("Ada");
    let failed = |seen| match log.append(&event, &seen) {
        LogNext::Done(out) => out.unwrap_err(),
        other => panic!("expected a failure, got {other:?}"),
    };
    let io = || AuditError::Io { path: "/data/audit/log.jsonl".to_owned(), source: full() };
    let complaint = Some(Err("too deep".to_owned()));
    assert_eq!(
        failed(AppendReplies { json: complaint, written: None, synced: None }),
        AuditError::Serialize("too deep".to_owned()),
    );
    assert_eq!(failed(AppendReplies { json: line(), written: Some(Err(full())), synced: None }), io());
    let unsynced = AppendReplies { json: line(), written: Some(Ok(())), synced: Some(Err(full())) };
    assert_eq!(failed(unsynced), io());
}

#[test]
fn filename_error_tokens() {
    assert_eq!(FilenameError::NotUtf8.token(), "not_utf8");
    assert_eq!(FilenameError::Reserved.token(), "reserved");
    assert_eq!(FilenameError::ContainsNull.token(), "contains_null");
    assert_eq!(FilenameError::TooLong(300).token(), "too_long(300)");
}
