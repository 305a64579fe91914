//! Deposits, bounded reads, base directories, text and remembered message ids.

use std::collections::BTreeMap;

use reeve_runtime::delivery::{
    deposit_envelope, DepositError, DepositNext, DepositReplies, MessageId, ENVELOPE_FILE_MODE,
};
use reeve_runtime::fs_util::{
    ensure_directory, read_cap, read_nofollow_bounded, resolve_reeve_data_root,
    resolve_xdg_base_dir, DirectoryNext, DirectoryReplies, FileKind, FsCheckError, Stat,
    XdgBaseError,
};
use reeve_runtime::io_error::{IoError, IoKind};
use reeve_runtime::seen_ids::{SeenIds, SEEN_MESSAGE_IDS_CAP};
use reeve_runtime::text::{
    is_blank, is_control_char, truncate_at_char_boundary, write_decimal, write_octal,
};

// ── Deposits ─────────────────────────────────────────────────────────────────

struct Disk {
    nodes: BTreeMap<String, FileKind>,
    files: BTreeMap<String, (Vec<u8>, u32)>,
}

fn disk_with(paths: &[(&str, FileKind)]) -> Disk {
    let nodes = paths.iter().map(|(path, kind)| ((*path).to_owned(), *kind)).collect();
    Disk { nodes, files: BTreeMap::new() }
}

fn provisioned() -> Disk {
    let dir = FileKind::Directory;
    disk_with(&[("/a/inbox", dir), ("/a/inbox/tmp", dir), ("/a/inbox/new", dir)])
}

impl Disk {
    fn deposit(&mut self, inbox: &str, id: &MessageId, bytes: &[u8]) -> Result<(), DepositError> {
        let mut seen = DepositReplies { stats: Vec::new(), written: None };
        loop {
            match deposit_envelope(inbox, id, &bytes.to_vec(), &seen) {
                DepositNext::Stat { path } => seen.stats.push(match self.nodes.get(&path) {
                    Some(kind) => Ok(Stat { kind: *kind, mode: 0o700, len: 0 }),
                    None => Err(IoError::new(IoKind::NotFound, "no such file")),
                }),
                DepositNext::Write { path, dir, mode, bytes } => {
                    assert_eq!(dir, format!("{inbox}/tmp"));
                    self.files.insert(path, (bytes, mode));
                    seen.written = Some(Ok(()));
                }
                DepositNext::Done(out) => return out,
            }
        }
    }
}

fn message_id() -> MessageId {
    MessageId::new("0190b5a4-7c2e-7f00-8000-0123456789ab").unwrap()
}

#[test]
fn deposit_writes_to_new_dir() {
    let mut disk = provisioned();
    let id = message_id();
    disk.deposit("/a/inbox", &id, b"hello world").unwrap();
    assert_eq!(disk.files.len(), 1);
    let (body, mode) = &disk.files[&format!("/a/inbox/new/{}", id.as_str())];
    assert_eq!(body, b"hello world");
    assert_eq!(*mode, 0o600, "envelope file must be 0o600");
    assert_eq!(ENVELOPE_FILE_MODE, 0o600);
}

#[test]
fn deposit_rejects_symlinked_inbox_root() {
    let mut disk = provisioned();
    disk.nodes.insert("/b/inbox".to_owned(), FileKind::Symlink);
    let err = disk.deposit("/b/inbox", &message_id(), b"body").unwrap_err();
    assert_eq!(err, DepositError::SymlinkRejected { path: "/b/inbox".to_owned() });
    assert_eq!(err.to_string(), "inbox path is a symlink (deposit refused): /b/inbox");
    assert!(disk.files.is_empty());
}

#[test]
fn deposit_rejects_symlinked_subdirectories() {
    for part in ["/a/inbox/tmp", "/a/inbox/new"] {
        let mut disk = provisioned();
        disk.nodes.insert(part.to_owned(), FileKind::Symlink);
        let err = disk.deposit("/a/inbox", &message_id(), b"body").unwrap_err();
        assert_eq!(err, DepositError::SymlinkRejected { path: part.to_owned() });
        assert!(disk.files.is_empty());
    }
}

#[test]
fn deposit_returns_io_error_for_missing_inbox() {
    let mut disk = provisioned();
    let err = disk.deposit("/a/no-such-inbox", &message_id(), b"body").unwrap_err();
    assert!(matches!(err, DepositError::Io { .. }), "expected Io error, got {err:?}");
    assert_eq!(err.to_string(), "io error at /a/no-such-inbox: no such file");
}

#[test]
fn message_id_display_is_path_safe_filename() {
    for n in 0..32 {
        let text = format!("0190b5a4-7c2e-7f00-8000-{n:012x}");
        let id = MessageId::new(&text).unwrap();
        let s = id.as_str();
        assert_eq!(s, text);
        assert!(
            s.chars().all(|c| c.is_ascii_hexdigit() || c == '-'),
            "MessageId display must be hex+dash only, got {s:?}"
        );
        assert!(!s.contains('/') && !s.contains('\\') && !s.contains(".."));
    }
    for bad in ["", "..", "a/b", "../a", "a\\b", "g", "A.B"] {
        assert!(MessageId::new(bad).is_none(), "{bad:?}");
    }
}

// ── Directories and bounded reads ────────────────────────────────────────────

#[test]
fn read_nofollow_bounded_rejects_oversized_file() {
    let limit: u64 = 16;
    let read = vec![b'x'; usize::try_from(read_cap(limit)).unwrap()];
    assert_eq!(read.len(), 17);
    let err = read_nofollow_bounded(read, limit).unwrap_err();
    assert_eq!(err.kind, IoKind::InvalidData);
    assert!(err.message.contains("byte limit"), "error: {}", err.message);
}

#[test]
fn read_nofollow_bounded_accepts_exactly_at_limit() {
    let content = read_nofollow_bounded(vec![b'a'; 16], 16).unwrap();
    assert_eq!(content.len(), 16);
    assert_eq!(content, "a".repeat(16));
}

#[test]
fn read_nofollow_bounded_wants_utf8() {
    assert_eq!(read_nofollow_bounded("né".as_bytes().to_vec(), 16).unwrap(), "né");
    let err = read_nofollow_bounded(vec![0x61, 0xff], 16).unwrap_err();
    assert_eq!(err.kind, IoKind::InvalidData);
    assert_eq!(read_cap(u64::MAX), u64::MAX);
}

fn stat(kind: FileKind, mode: u32) -> Stat {
    Stat { kind, mode, len: 0 }
}

#[test]
fn a_directory_created_by_another_is_looked_at_again() {
    let mut seen = DirectoryReplies {
        found: Some(Err(IoError::new(IoKind::NotFound, "no"))),
        created: Some(Ok(())),
        rechecked: None,
    };
    assert_eq!(
        ensure_directory("/d", 0o700, &seen),
        DirectoryNext::Restat { path: "/d".to_owned() },
    );
    seen.created = None;
    assert_eq!(
        ensure_directory("/d", 0o700, &seen),
        DirectoryNext::Create { path: "/d".to_owned(), mode: 0o700 },
    );
    seen.created = Some(Ok(()));
    seen.rechecked = Some(Ok(stat(FileKind::Symlink, 0o777)));
    assert_eq!(
        ensure_directory("/d", 0o700, &seen),
        DirectoryNext::Done(Err(FsCheckError::Symlink { path: "/d".to_owned() })),
    );
    seen.rechecked = Some(Ok(stat(FileKind::Directory, 0o040700)));
    assert_eq!(ensure_directory("/d", 0o700, &seen), DirectoryNext::Done(Ok(())));
}

#[test]
fn base_directories() {
    assert_eq!(resolve_xdg_base_dir(Some("/x"), Some("/h")), Ok("/x".to_owned()));
    assert_eq!(resolve_xdg_base_dir(None, Some("/h")), Ok("/h/.local/share".to_owned()));
    assert_eq!(resolve_xdg_base_dir(Some(""), Some("/h")), Ok("/h/.local/share".to_owned()));
    assert_eq!(resolve_xdg_base_dir(None, None), Err(XdgBaseError::MissingHome));
    assert_eq!(resolve_xdg_base_dir(None, Some("")), Err(XdgBaseError::MissingHome));
    assert_eq!(
        resolve_xdg_base_dir(Some("x"), Some("/h")),
        Err(XdgBaseError::RelativeDir { var_name: "XDG_DATA_HOME", path: "x".to_owned() }),
    );
    assert_eq!(
        resolve_xdg_base_dir(None, Some("h")),
        Err(XdgBaseError::RelativeDir { var_name: "HOME", path: "h".to_owned() }),
    );
    assert_eq!(resolve_reeve_data_root(None, Some("/h")), Ok("/h/.local/share/reeve".to_owned()));
}

// ── Text ─────────────────────────────────────────────────────────────────────

#[test]
fn numerals() {
    assert_eq!(write_decimal(0), "0");
    assert_eq!(write_decimal(u64::MAX), "18446744073709551615");
    assert_eq!(write_octal(0o755), "755");
}

#[test]
fn text_is_cut_between_characters() {
    assert_eq!(truncate_at_char_boundary("abc", 3), "abc");
    assert_eq!(truncate_at_char_boundary("abc", 2), "ab");
    assert_eq!(truncate_at_char_boundary("aé", 2), "a");
    assert_eq!(truncate_at_char_boundary("日本", 5), "日");
    assert_eq!(truncate_at_char_boundary("日本", 2), "");
}

#[test]
fn blanks_and_controls() {
    assert!(is_blank(""));
    assert!(is_blank(" \t\u{3000}\n"));
    assert!(!is_blank(" x "));
    assert!(is_control_char('\n') && is_control_char('\u{7f}') && is_control_char('\u{85}'));
    assert!(!is_control_char('a') && !is_control_char('é'));
}

// ── Remembered message ids ───────────────────────────────────────────────────

#[test]
fn seen_ids_from_vec_truncates_to_cap() {
    let cap = SEEN_MESSAGE_IDS_CAP;
    let ids: Vec<String> = (0..=cap).map(|i| format!("msg-{i}")).collect();
    let oldest = ids[0].clone();
    let newest = ids[cap].clone();

    let seen = SeenIds::from_vec(&ids);

    assert_eq!(
        seen.len(),
        cap,
        "SeenIds must hold exactly SEEN_MESSAGE_IDS_CAP entries after truncation; got {}",
        seen.len()
    );
    assert!(
        !seen.contains(&oldest),
        "oldest entry must have been evicted by cap truncation; oldest = {oldest}"
    );
    assert!(seen.contains(&newest), "newest entry must be retained; newest = {newest}");
}

#[test]
fn the_oldest_id_is_forgotten_first() {
    let mut seen = SeenIds::new();
    assert!(seen.insert("a".to_owned()));
    assert!(seen.insert("b".to_owned()));
    assert!(!seen.insert("a".to_owned()));
    assert_eq!(seen.iter(), vec!["a", "b"]);
    for i in 2..SEEN_MESSAGE_IDS_CAP {
        assert!(seen.insert(format!("m{i}")));
    }
    assert!(seen.contains("a"));
    assert!(seen.insert("new".to_owned()));
    assert!(!seen.contains("a"));
    assert!(seen.contains("b"));
    assert_eq!(seen.len(), SEEN_MESSAGE_IDS_CAP);
}
