//! Engagements: named pieces of work that the estate has taken on.
//!
//! One directory per engagement holds its record. Directories persist after
//! an engagement is closed, so that a name is never used twice, and no
//! operation changes the root that was recorded when it was opened.

use vstd::prelude::*;
use vstd::string::*;

use crate::agent_fs::{is_valid_agent_name, valid_agent_name};
use crate::fs_util::{FileKind, FsCheckError, FsCheckView};
use crate::identity::{copy_opt, opt_text, texts, Timestamp};
use crate::io_error::{IoError, IoErrorView, IoKind};
use crate::paths::{absolute, is_absolute, join, join2, joined_path, parent, parent_path};
use crate::text::{octal, quote, quoted, same_text, to_chars, write_octal};

verus! {

/// Mode of engagement directories.
pub const ENGAGEMENT_DIR_MODE: u32 = 0o700;

/// Mode of engagement records.
pub const ENGAGEMENT_FILE_MODE: u32 = 0o600;

/// Bound on the size of a record.
pub const MAX_RECORD_BYTES: u64 = 65536;

/// Lifecycle state of an engagement.
#[derive(Debug, Clone, Copy, PartialEq, Eq, Structural)]
pub enum EngagementState {
    Open,
    Closed,
}

/// Who works on an engagement: a team, or an agent without one.
#[derive(Debug, PartialEq, Eq)]
pub enum StaffedUnit {
    Team { name: String },
    Agent { name: String },
}

/// What a unit holds.
pub enum StaffedView {
    Team { name: Seq<char> },
    Agent { name: Seq<char> },
}

impl View for StaffedUnit {
    type V = StaffedView;

    open spec fn view(&self) -> StaffedView {
        match *self {
            StaffedUnit::Team { name } => StaffedView::Team { name: name@ },
            StaffedUnit::Agent { name } => StaffedView::Agent { name: name@ },
        }
    }
}

impl Clone for StaffedUnit {
    fn clone(&self) -> (unit: StaffedUnit)
        ensures
            unit@ == self@,
    {
        match self {
            StaffedUnit::Team { name } => StaffedUnit::Team { name: name.clone() },
            StaffedUnit::Agent { name } => StaffedUnit::Agent { name: name.clone() },
        }
    }
}

/// What an optional unit holds.
pub open spec fn opt_unit(unit: Option<StaffedUnit>) -> Option<StaffedView> {
    match unit {
        Some(u) => Some(u@),
        None => None,
    }
}

/// The record of an engagement.
#[derive(Debug, PartialEq, Eq)]
pub struct EngagementRecord {
    pub name: String,
    pub purpose: String,
    /// Working root, where the work is bound to one. Never changes.
    pub root: Option<String>,
    pub state: EngagementState,
    /// When the engagement was first opened.
    pub opened_at: Timestamp,
    pub parent: Option<String>,
    /// Who works on it, at most one unit at a time.
    pub staffed_unit: Option<StaffedUnit>,
}

/// What a record holds.
pub struct EngagementView {
    pub name: Seq<char>,
    pub purpose: Seq<char>,
    pub root: Option<Seq<char>>,
    pub state: EngagementState,
    pub opened_at: Timestamp,
    pub parent: Option<Seq<char>>,
    pub staffed_unit: Option<StaffedView>,
}

impl View for EngagementRecord {
    type V = EngagementView;

    open spec fn view(&self) -> EngagementView {
        EngagementView {
            name: self.name@,
            purpose: self.purpose@,
            root: opt_text(self.root),
            state: self.state,
            opened_at: self.opened_at,
            parent: opt_text(self.parent),
            staffed_unit: opt_unit(self.staffed_unit),
        }
    }
}

impl Clone for EngagementRecord {
    fn clone(&self) -> (record: EngagementRecord)
        ensures
            record@ == self@,
    {
        EngagementRecord {
            name: self.name.clone(),
            purpose: self.purpose.clone(),
            root: copy_opt(&self.root),
            state: self.state,
            opened_at: self.opened_at,
            parent: copy_opt(&self.parent),
            staffed_unit: match &self.staffed_unit {
                Some(unit) => Some(unit.clone()),
                None => None,
            },
        }
    }
}

// ── Errors ───────────────────────────────────────────────────────────────────

/// Failures of the engagement store.
#[derive(Debug, PartialEq, Eq)]
pub enum EngagementError {
    /// No engagement may have this name.
    InvalidName { name: String },
    /// The name was used before.
    NameTaken { name: String },
    /// There is no such engagement.
    NotFound { name: String },
    /// The engagement is in the wrong state.
    WrongState { name: String, actual: EngagementState },
    /// The root is not absolute.
    RelativeRoot { path: String },
    /// A filesystem operation failed.
    Io { path: String, source: IoError },
    /// A record could not be parsed or serialized.
    Toml { path: String, message: String },
}

/// What the failure holds.
pub enum EngagementErrorView {
    InvalidName { name: Seq<char> },
    NameTaken { name: Seq<char> },
    NotFound { name: Seq<char> },
    WrongState { name: Seq<char>, actual: EngagementState },
    RelativeRoot { path: Seq<char> },
    Io { path: Seq<char>, source: IoErrorView },
    Toml { path: Seq<char>, message: Seq<char> },
}

impl View for EngagementError {
    type V = EngagementErrorView;

    open spec fn view(&self) -> EngagementErrorView {
        match *self {
            EngagementError::InvalidName { name } => EngagementErrorView::InvalidName {
                name: name@,
            },
            EngagementError::NameTaken { name } => EngagementErrorView::NameTaken { name: name@ },
            EngagementError::NotFound { name } => EngagementErrorView::NotFound { name: name@ },
            EngagementError::WrongState { name, actual } => EngagementErrorView::WrongState {
                name: name@,
                actual,
            },
            EngagementError::RelativeRoot { path } => EngagementErrorView::RelativeRoot {
                path: path@,
            },
            EngagementError::Io { path, source } => EngagementErrorView::Io {
                path: path@,
                source: source@,
            },
            EngagementError::Toml { path, message } => EngagementErrorView::Toml {
                path: path@,
                message: message@,
            },
        }
    }
}

impl EngagementErrorView {
    /// What a reader is shown.
    pub open spec fn shown(self) -> Seq<char> {
        match self {
            EngagementErrorView::InvalidName { name } => "invalid engagement name "@ + quoted(name),
            EngagementErrorView::NameTaken { name } => "engagement name "@ + quoted(name)
                + " was already used; names are never reused"@,
            EngagementErrorView::NotFound { name } => "no engagement named "@ + quoted(name),
            EngagementErrorView::WrongState { name, actual } => "engagement "@ + quoted(name)
                + " is "@ + (match actual {
                EngagementState::Open => "Open"@,
                EngagementState::Closed => "Closed"@,
            }),
            EngagementErrorView::RelativeRoot { path } => "engagement root must be absolute, got "@
                + path,
            EngagementErrorView::Io { path, source } => path + ": "@ + source.message,
            EngagementErrorView::Toml { path, message } => path + ": "@ + message,
        }
    }

    /// How a failed check of an engagement directory is reported.
    pub open spec fn of_check(err: FsCheckView) -> EngagementErrorView {
        match err {
            FsCheckView::Io { path, source } => EngagementErrorView::Io { path, source },
            FsCheckView::Symlink { path } => EngagementErrorView::Io {
                path,
                source: IoErrorView {
                    kind: IoKind::Other,
                    message: "path is a symlink; refusing to follow"@,
                },
            },
            FsCheckView::NotADirectory { path } => EngagementErrorView::Io {
                path,
                source: IoErrorView {
                    kind: IoKind::Other,
                    message: "path exists but is not a directory"@,
                },
            },
            FsCheckView::WrongMode { path, actual, expected } => EngagementErrorView::Io {
                path,
                source: IoErrorView {
                    kind: IoKind::Other,
                    message: "directory mode "@ + octal(actual as nat)
                        + " does not match required "@ + octal(expected as nat),
                },
            },
        }
    }
}

impl EngagementError {
    /// What a reader is shown.
    pub fn to_string(&self) -> (text: String)
        ensures
            text@ == self@.shown(),
    {
        match self {
            EngagementError::InvalidName { name } => {
                let mut text: String = "invalid engagement name ".to_owned();
                text.append(quote(name.as_str()).as_str());
                text
            },
            EngagementError::NameTaken { name } => {
                let mut text: String = "engagement name ".to_owned();
                text.append(quote(name.as_str()).as_str());
                text.append(" was already used; names are never reused");
                text
            },
            EngagementError::NotFound { name } => {
                let mut text: String = "no engagement named ".to_owned();
                text.append(quote(name.as_str()).as_str());
                text
            },
            EngagementError::WrongState { name, actual } => {
                let mut text: String = "engagement ".to_owned();
                text.append(quote(name.as_str()).as_str());
                text.append(" is ");
                match actual {
                    EngagementState::Open => text.append("Open"),
                    EngagementState::Closed => text.append("Closed"),
                }
                text
            },
            EngagementError::RelativeRoot { path } => {
                let mut text: String = "engagement root must be absolute, got ".to_owned();
                text.append(path.as_str());
                text
            },
            EngagementError::Io { path, source } => {
                let mut text: String = path.clone();
                text.append(": ");
                text.append(source.message.as_str());
                text
            },
            EngagementError::Toml { path, message } => {
                let mut text: String = path.clone();
                text.append(": ");
                text.append(message.as_str());
                text
            },
        }
    }

    /// Reports a failed check of an engagement directory.
    pub fn from_fs(err: FsCheckError) -> (out: EngagementError)
        ensures
            out@ == EngagementErrorView::of_check(err@),
    {
        match err {
            FsCheckError::Io { path, source } => EngagementError::Io { path, source },
            FsCheckError::Symlink { path } => EngagementError::Io {
                path,
                source: IoError::new(IoKind::Other, "path is a symlink; refusing to follow"),
            },
            FsCheckError::NotADirectory { path } => EngagementError::Io {
                path,
                source: IoError::new(IoKind::Other, "path exists but is not a directory"),
            },
            FsCheckError::WrongMode { path, actual, expected } => {
                let mut message: String = "directory mode ".to_owned();
                message.append(write_octal(actual).as_str());
                message.append(" does not match required ");
                message.append(write_octal(expected).as_str());
                EngagementError::Io { path, source: IoError { kind: IoKind::Other, message } }
            },
        }
    }
}

// ── Working roots ────────────────────────────────────────────────────────────

/// The directory `n` levels above `start`.
pub open spec fn ancestor(start: Seq<char>, n: int) -> Option<Seq<char>>
    decreases n,
{
    if n <= 0 {
        Some(start)
    } else {
        match ancestor(start, n - 1) {
            Some(dir) => parent_path(dir),
            None => None,
        }
    }
}

/// What marks the top of a working tree, in the order it is looked for.
pub open spec fn markers() -> Seq<Seq<char>> {
    seq![".jj"@, ".git"@]
}

/// The `k`-th directory from the start upwards holds a marker, when looking
/// for each marker in each directory told `found`.
pub open spec fn marked(found: Seq<bool>, k: int) -> bool {
    found[2 * k] || found[2 * k + 1]
}

/// The outermost marked of the first `n` directories from `start` upwards;
/// `start` where none is marked.
pub open spec fn outermost_marked(start: Seq<char>, found: Seq<bool>, n: int) -> Seq<char>
    decreases n,
{
    if n <= 0 {
        start
    } else if marked(found, n - 1) {
        ancestor(start, n - 1)->0
    } else {
        outermost_marked(start, found, n - 1)
    }
}

/// What to do next to find the top of a working tree.
#[derive(Debug, PartialEq, Eq)]
pub enum ToplevelNext {
    /// Tell the canonical form of this path.
    Canonicalize { path: String },
    /// Look whether there is something at this path.
    Look { path: String },
    /// Nothing: this is the top, or the path has no canonical form.
    Done(Result<String, IoError>),
}

/// What to look at, or the top, from a canonical start.
pub open spec fn toplevel_from(start: Seq<char>, found: Seq<bool>, next: ToplevelNext) -> bool {
    match next {
        ToplevelNext::Canonicalize { .. } => false,
        ToplevelNext::Look { path } => ancestor(start, found.len() as int / 2) matches Some(dir)
            && path@ == joined_path(dir, markers()[found.len() as int % 2]),
        ToplevelNext::Done(Ok(top)) => exists|n: int|
            0 <= 2 * n <= found.len() && #[trigger] ancestor(start, n) is None && (forall|k: int|
                0 <= k < n ==> #[trigger] ancestor(start, k) is Some) && top@ == outermost_marked(
                start,
                found,
                n,
            ),
        ToplevelNext::Done(Err(_)) => false,
    }
}

/// What to do next to find the top of the working tree that holds `start`,
/// when looking for the markers in the directories from its canonical form
/// upwards told `found`. The top is the outermost directory with a marker,
/// else the canonical form itself.
pub fn resolve_vcs_toplevel(
    start: &str,
    canonical: &Option<Result<String, IoError>>,
    found: &Vec<bool>,
) -> (next: ToplevelNext)
    ensures
        match *canonical {
            None => next matches ToplevelNext::Canonicalize { path } && path@ == start@,
            Some(Err(e)) => next matches ToplevelNext::Done(Err(err)) && err@ == e@,
            Some(Ok(dir)) => toplevel_from(dir@, found@, next),
        },
{
    let start: &String = match canonical {
        None => {
            return ToplevelNext::Canonicalize { path: start.to_owned() };
        },
        Some(Err(err)) => {
            return ToplevelNext::Done(Err(err.clone()));
        },
        Some(Ok(dir)) => dir,
    };
    let mut toplevel: String = start.clone();
    let mut dir: String = start.clone();
    let mut i: usize = 0;
    let ghost mut n: int = 0;
    while i + 1 < found.len()
        invariant
            canonical matches Some(Ok(d)) && d == start,
            i == 2 * n,
            i <= found@.len(),
            ancestor(start@, n) == Some(dir@),
            forall|k: int| 0 <= k <= n ==> #[trigger] ancestor(start@, k) is Some,
            toplevel@ == outermost_marked(start@, found@, n),
        decreases found.len() - i,
    {
        if found[i] || found[i + 1] {
            toplevel = dir.clone();
        }
        match parent(dir.as_str()) {
            Some(above) => {
                dir = above;
            },
            None => {
                assert(ancestor(start@, n + 1) is None);
                return ToplevelNext::Done(Ok(toplevel));
            },
        }
        i = i + 2;
        proof {
            n = n + 1;
        }
    }
    if i < found.len() {
        ToplevelNext::Look { path: join(dir.as_str(), ".git") }
    } else {
        ToplevelNext::Look { path: join(dir.as_str(), ".jj") }
    }
}

// ── Store ────────────────────────────────────────────────────────────────────

/// What reading a record came to.
#[derive(Debug, PartialEq, Eq)]
pub enum RecordRead {
    Unreadable(IoError),
    Unparsable(String),
    Record(EngagementRecord),
}

/// What reading a record came to, by content.
pub enum RecordReadView {
    Unreadable(IoErrorView),
    Unparsable(Seq<char>),
    Record(EngagementView),
}

impl View for RecordRead {
    type V = RecordReadView;

    open spec fn view(&self) -> RecordReadView {
        match *self {
            RecordRead::Unreadable(e) => RecordReadView::Unreadable(e@),
            RecordRead::Unparsable(e) => RecordReadView::Unparsable(e@),
            RecordRead::Record(r) => RecordReadView::Record(r@),
        }
    }
}

/// Why a record could not be written.
#[derive(Debug, PartialEq, Eq)]
pub enum RecordWriteError {
    Unserializable(String),
    Io(IoError),
}

/// What has been learned so far about an operation on an engagement.
#[derive(Debug, PartialEq, Eq)]
pub struct StoreReplies {
    /// Whether there is something at the engagement's directory.
    pub taken: Option<bool>,
    /// What making sure of the directory came to.
    pub directory: Option<Result<(), FsCheckError>>,
    /// What reading the record came to.
    pub read: Option<RecordRead>,
    /// What writing the record came to.
    pub written: Option<Result<(), RecordWriteError>>,
}

/// What to do next for an operation on an engagement.
#[derive(Debug, PartialEq, Eq)]
pub enum StoreNext {
    /// Look whether there is something at this path.
    Look { path: String },
    /// Make sure that this directory is there with this mode.
    EnsureDirectory { path: String, mode: u32 },
    /// Read and parse this record, up to so many bytes.
    Read { path: String, max_bytes: u64 },
    /// Write this record at once, by a new file in `dir`.
    Write { path: String, dir: String, mode: u32, record: EngagementRecord },
    /// Nothing: the operation is done, or refused.
    Done(Result<EngagementRecord, EngagementError>),
}

/// What to do next, by content.
#[allow(inconsistent_fields)]
pub enum StoreNextView {
    Look { path: Seq<char> },
    EnsureDirectory { path: Seq<char>, mode: u32 },
    Read { path: Seq<char>, max_bytes: u64 },
    Write { path: Seq<char>, dir: Seq<char>, mode: u32, record: EngagementView },
    Done(EngagementView),
    Refused(EngagementErrorView),
}

impl View for StoreNext {
    type V = StoreNextView;

    open spec fn view(&self) -> StoreNextView {
        match *self {
            StoreNext::Look { path } => StoreNextView::Look { path: path@ },
            StoreNext::EnsureDirectory { path, mode } => StoreNextView::EnsureDirectory {
                path: path@,
                mode,
            },
            StoreNext::Read { path, max_bytes } => StoreNextView::Read { path: path@, max_bytes },
            StoreNext::Write { path, dir, mode, record } => StoreNextView::Write {
                path: path@,
                dir: dir@,
                mode,
                record: record@,
            },
            StoreNext::Done(Ok(record)) => StoreNextView::Done(record@),
            StoreNext::Done(Err(err)) => StoreNextView::Refused(err@),
        }
    }
}

/// Path of an engagement's record.
pub open spec fn record_file(root: Seq<char>, name: Seq<char>) -> Seq<char> {
    joined_path(joined_path(root, name), "record.toml"@)
}

/// The rule for reading a record: the name must be valid, and a record that
/// is not there is an engagement that is not there.
pub open spec fn get_rule(root: Seq<char>, name: Seq<char>, read: Option<RecordRead>) -> StoreNextView {
    if !valid_agent_name(name) {
        StoreNextView::Refused(EngagementErrorView::InvalidName { name })
    } else {
        match read {
            None => StoreNextView::Read {
                path: record_file(root, name),
                max_bytes: MAX_RECORD_BYTES,
            },
            Some(RecordRead::Unreadable(e)) => if e@.kind == IoKind::NotFound {
                StoreNextView::Refused(EngagementErrorView::NotFound { name })
            } else {
                StoreNextView::Refused(
                    EngagementErrorView::Io { path: record_file(root, name), source: e@ },
                )
            },
            Some(RecordRead::Unparsable(complaint)) => StoreNextView::Refused(
                EngagementErrorView::Toml {
                    path: record_file(root, name),
                    message: complaint@,
                },
            ),
            Some(RecordRead::Record(record)) => StoreNextView::Done(record@),
        }
    }
}

/// The rule for writing a record.
pub open spec fn write_record_rule(
    root: Seq<char>,
    record: EngagementView,
    written: Option<Result<(), RecordWriteError>>,
) -> StoreNextView {
    match written {
        None => StoreNextView::Write {
            path: record_file(root, record.name),
            dir: joined_path(root, record.name),
            mode: ENGAGEMENT_FILE_MODE,
            record,
        },
        Some(Err(RecordWriteError::Unserializable(complaint))) => StoreNextView::Refused(
            EngagementErrorView::Toml {
                path: record_file(root, record.name),
                message: complaint@,
            },
        ),
        Some(Err(RecordWriteError::Io(e))) => StoreNextView::Refused(
            EngagementErrorView::Io { path: record_file(root, record.name), source: e@ },
        ),
        Some(Ok(())) => StoreNextView::Done(record),
    }
}

/// The rule for a change of state: an engagement in the expected state gets
/// the next one, and nothing else of its record changes.
pub open spec fn transition_rule(
    root: Seq<char>,
    name: Seq<char>,
    expected: EngagementState,
    next: EngagementState,
    seen: StoreReplies,
) -> StoreNextView {
    match get_rule(root, name, seen.read) {
        StoreNextView::Done(record) => if record.state != expected {
            StoreNextView::Refused(
                EngagementErrorView::WrongState { name, actual: record.state },
            )
        } else {
            write_record_rule(root, EngagementView { state: next, ..record }, seen.written)
        },
        other => other,
    }
}

/// A new engagement.
pub open spec fn opened_record(
    name: Seq<char>,
    purpose: Seq<char>,
    work_root: Option<Seq<char>>,
    at: Timestamp,
) -> EngagementView {
    EngagementView {
        name,
        purpose,
        root: work_root,
        state: EngagementState::Open,
        opened_at: at,
        parent: None,
        staffed_unit: None,
    }
}

/// The rule for opening an engagement: the name must be valid, its root
/// absolute, and the name never used before.
pub open spec fn open_rule(
    root: Seq<char>,
    name: Seq<char>,
    purpose: Seq<char>,
    work_root: Option<Seq<char>>,
    at: Timestamp,
    seen: StoreReplies,
) -> StoreNextView {
    if !valid_agent_name(name) {
        StoreNextView::Refused(EngagementErrorView::InvalidName { name })
    } else if work_root matches Some(path) && !absolute(path) {
        StoreNextView::Refused(EngagementErrorView::RelativeRoot { path: work_root->0 })
    } else {
        match seen.taken {
            None => StoreNextView::Look { path: joined_path(root, name) },
            Some(true) => StoreNextView::Refused(EngagementErrorView::NameTaken { name }),
            Some(false) => match seen.directory {
                None => StoreNextView::EnsureDirectory {
                    path: joined_path(root, name),
                    mode: ENGAGEMENT_DIR_MODE,
                },
                Some(Err(e)) => StoreNextView::Refused(EngagementErrorView::of_check(e@)),
                Some(Ok(())) => write_record_rule(
                    root,
                    opened_record(name, purpose, work_root, at),
                    seen.written,
                ),
            },
        }
    }
}

/// The rule for staffing an engagement: only the unit of its record changes.
pub open spec fn staff_rule(
    root: Seq<char>,
    name: Seq<char>,
    unit: Option<StaffedView>,
    seen: StoreReplies,
) -> StoreNextView {
    match get_rule(root, name, seen.read) {
        StoreNextView::Done(record) => write_record_rule(
            root,
            EngagementView { staffed_unit: unit, ..record },
            seen.written,
        ),
        other => other,
    }
}

/// The engagement store.
#[derive(Debug, PartialEq, Eq)]
pub struct EngagementRegistry {
    engagements_root: String,
}

impl View for EngagementRegistry {
    type V = Seq<char>;

    closed spec fn view(&self) -> Seq<char> {
        self.engagements_root@
    }
}

/// What to do next to open the store.
#[derive(Debug, PartialEq, Eq)]
pub enum OpenStoreNext {
    /// Make sure that this directory is there with this mode.
    EnsureDirectory { path: String, mode: u32 },
    /// Nothing: the store is open, or cannot be opened.
    Done(Result<EngagementRegistry, EngagementError>),
}

/// One entry of the store's directory.
#[derive(Debug, PartialEq, Eq)]
pub enum StoreEntry {
    /// The entry could not be listed.
    Unlisted(IoError),
    /// An entry at `path`, with its name where that is text, and what it is
    /// without following a link.
    Found { path: String, name: Option<String>, kind: Result<FileKind, IoError> },
}

/// The name under which an entry's record is read: that of a directory whose
/// name is text. A link is no directory.
pub open spec fn directory_name(entry: StoreEntry) -> Option<Seq<char>> {
    match entry {
        StoreEntry::Found { name: Some(name), kind: Ok(FileKind::Directory), .. } => Some(name@),
        _ => None,
    }
}

/// Why an entry could not be looked at, where that is so.
pub open spec fn entry_failure(root: Seq<char>, entry: StoreEntry) -> Option<EngagementErrorView> {
    match entry {
        StoreEntry::Unlisted(e) => Some(EngagementErrorView::Io { path: root, source: e@ }),
        StoreEntry::Found { path, kind: Err(e), .. } => Some(
            EngagementErrorView::Io { path: path@, source: e@ },
        ),
        _ => None,
    }
}

/// What to do next to list the store, with what is listed by directory name.
#[allow(inconsistent_fields)]
pub enum ListView {
    Entries { path: Seq<char> },
    Read { path: Seq<char>, max_bytes: u64 },
    Listed(Map<Seq<char>, EngagementView>),
    Failed(EngagementErrorView),
}

/// The rule for listing, from the `i`-th entry and the `k`-th record that was
/// read on, when `listed` is what came before: the record of each directory is
/// read, and the first failure ends the listing.
pub open spec fn list_rule(
    root: Seq<char>,
    entries: Seq<StoreEntry>,
    reads: Seq<RecordRead>,
    i: int,
    k: int,
    listed: Map<Seq<char>, EngagementView>,
) -> ListView
    decreases entries.len() - i,
{
    if i >= entries.len() {
        ListView::Listed(listed)
    } else {
        match (entry_failure(root, entries[i]), directory_name(entries[i])) {
            (Some(err), _) => ListView::Failed(err),
            (None, None) => list_rule(root, entries, reads, i + 1, k, listed),
            (None, Some(name)) => {
                let read = if k < reads.len() {
                    Some(reads[k])
                } else {
                    None
                };
                match get_rule(root, name, read) {
                    StoreNextView::Refused(err) => ListView::Failed(err),
                    StoreNextView::Done(record) => list_rule(
                        root,
                        entries,
                        reads,
                        i + 1,
                        k + 1,
                        listed.insert(name, record),
                    ),
                    _ => ListView::Read {
                        path: record_file(root, name),
                        max_bytes: MAX_RECORD_BYTES,
                    },
                }
            },
        }
    }
}

/// What has been learned so far about a listing.
#[derive(Debug, PartialEq, Eq)]
pub struct ListReplies {
    /// What listing the store's directory told.
    pub entries: Option<Result<Vec<StoreEntry>, IoError>>,
    /// What reading each record came to, in the order asked for.
    pub reads: Vec<RecordRead>,
}

/// What to do next to list the store.
#[derive(Debug, PartialEq, Eq)]
pub enum ListNext {
    /// List the entries of this directory.
    Entries { path: String },
    /// Read and parse the record at `path`, up to so many bytes, without
    /// following a link.
    Read { path: String, max_bytes: u64 },
    /// Nothing: these are all records, or one failed.
    Done(Result<Vec<EngagementRecord>, EngagementError>),
}

/// What a listing comes to.
pub open spec fn listing_rule(root: Seq<char>, seen: ListReplies) -> ListView {
    match seen.entries {
        None => ListView::Entries { path: root },
        Some(Err(e)) => ListView::Failed(EngagementErrorView::Io { path: root, source: e@ }),
        Some(Ok(entries)) => list_rule(root, entries@, seen.reads@, 0, 0, Map::empty()),
    }
}

/// The records are those that are listed, in ascending order of their names.
pub open spec fn sorted_by_name(
    records: Seq<EngagementView>,
    listed: Map<Seq<char>, EngagementView>,
) -> bool {
    exists|names: Seq<Seq<char>>| #[trigger] in_order(records, names, listed)
}

/// The step is the one of the rule; the records come in ascending order of
/// their directories' names, each once.
pub open spec fn lists(next: ListNext, rule: ListView) -> bool {
    match (next, rule) {
        (ListNext::Entries { path: p }, ListView::Entries { path }) => p@ == path,
        (
            ListNext::Read { path: p, max_bytes: n },
            ListView::Read { path, max_bytes },
        ) => p@ == path && n == max_bytes,
        (ListNext::Done(Ok(records)), ListView::Listed(listed)) => sorted_by_name(
            engagements_view(records@),
            listed,
        ),
        (ListNext::Done(Err(err)), ListView::Failed(e)) => err@ == e,
        _ => false,
    }
}

/// One text comes before another in order of code points.
pub open spec fn before(a: Seq<char>, b: Seq<char>) -> bool
    decreases a.len(),
{
    if b.len() == 0 {
        false
    } else if a.len() == 0 {
        true
    } else if a[0] != b[0] {
        a[0] < b[0]
    } else {
        before(a.drop_first(), b.drop_first())
    }
}

/// Names in ascending order, each once.
pub open spec fn ascending(names: Seq<Seq<char>>) -> bool {
    forall|i: int, j: int| 0 <= i < j < names.len() ==> before(#[trigger] names[i], #[trigger] names[j])
}

/// The records of a map, in ascending order of their keys.
pub open spec fn in_order(
    records: Seq<EngagementView>,
    names: Seq<Seq<char>>,
    by_name: Map<Seq<char>, EngagementView>,
) -> bool {
    &&& names.len() == records.len()
    &&& ascending(names)
    &&& forall|n: Seq<char>| names.contains(n) <==> #[trigger] by_name.contains_key(n)
    &&& forall|i: int| 0 <= i < names.len() ==> by_name[#[trigger] names[i]] == records[i]
}

/// What each record of a sequence holds.
pub open spec fn engagements_view(v: Seq<EngagementRecord>) -> Seq<EngagementView> {
    v.map_values(|r: EngagementRecord| r@)
}

proof fn lemma_before_trans(a: Seq<char>, b: Seq<char>, c: Seq<char>)
    requires
        before(a, b),
        before(b, c),
    ensures
        before(a, c),
    decreases a.len(),
{
    if a.len() > 0 && b.len() > 0 && c.len() > 0 && a[0] == b[0] && b[0] == c[0] {
        lemma_before_trans(a.drop_first(), b.drop_first(), c.drop_first());
    }
}

proof fn lemma_before_total(a: Seq<char>, b: Seq<char>)
    ensures
        a == b || before(a, b) || before(b, a),
        !(before(a, b) && before(b, a)),
        before(a, b) ==> a != b,
    decreases a.len(),
{
    if a.len() > 0 && b.len() > 0 && a[0] == b[0] {
        lemma_before_total(a.drop_first(), b.drop_first());
        if a.drop_first() == b.drop_first() {
            assert(a =~= seq![a[0]] + a.drop_first());
            assert(b =~= seq![b[0]] + b.drop_first());
        }
    } else if a.len() == 0 && b.len() == 0 {
        assert(a =~= b);
    }
}

/// Whether `a` comes before `b` in order of code points.
pub fn comes_before(a: &str, b: &str) -> (yes: bool)
    ensures
        yes == before(a@, b@),
{
    let x: Vec<char> = to_chars(a);
    let y: Vec<char> = to_chars(b);
    let mut i: usize = 0;
    assert(a@.skip(0) =~= a@);
    assert(b@.skip(0) =~= b@);
    while i < x.len() && i < y.len()
        invariant
            x@ == a@,
            y@ == b@,
            i <= x@.len(),
            i <= y@.len(),
            before(a@, b@) == before(a@.skip(i as int), b@.skip(i as int)),
        decreases x.len() - i,
    {
        if x[i] != y[i] {
            return x[i] < y[i];
        }
        assert(a@.skip(i as int).drop_first() =~= a@.skip(i + 1));
        assert(b@.skip(i as int).drop_first() =~= b@.skip(i + 1));
        i = i + 1;
    }
    i < y.len()
}

proof fn lemma_insert_in_order(
    records: Seq<EngagementView>,
    names: Seq<Seq<char>>,
    by_name: Map<Seq<char>, EngagementView>,
    p: int,
    name: Seq<char>,
    record: EngagementView,
)
    requires
        in_order(records, names, by_name),
        0 <= p <= names.len(),
        forall|i: int| 0 <= i < p ==> before(#[trigger] names[i], name),
        p < names.len() ==> before(name, names[p]),
    ensures
        in_order(
            records.insert(p, record),
            names.insert(p, name),
            by_name.insert(name, record),
        ),
{
    let names2 = names.insert(p, name);
    let records2 = records.insert(p, record);
    let map2 = by_name.insert(name, record);
    assert forall|i: int| p <= i < names.len() implies before(name, #[trigger] names[i]) by {
        if i > p {
            lemma_before_trans(name, names[p], names[i]);
        }
    }
    assert forall|i: int| 0 <= i < names.len() implies #[trigger] names[i] != name by {
        lemma_before_total(names[i], name);
    }
    assert forall|i: int, j: int| 0 <= i < j < names2.len() implies before(
        #[trigger] names2[i],
        #[trigger] names2[j],
    ) by {
        if i < p && j == p {
            assert(before(names[i], name));
        } else if i == p {
            assert(before(name, names[j - 1]));
        } else if i < p && j > p {
            assert(before(names[i], names[j - 1]));
        } else if i > p {
            assert(before(names[i - 1], names[j - 1]));
        } else {
            assert(before(names[i], names[j]));
        }
    }
    assert forall|n: Seq<char>| names2.contains(n) <==> #[trigger] map2.contains_key(n) by {
        if names2.contains(n) {
            let i = choose|i: int| 0 <= i < names2.len() && names2[i] == n;
            if i < p {
                assert(names[i] == n);
                assert(names.contains(n));
            } else if i > p {
                assert(names[i - 1] == n);
                assert(names.contains(n));
            }
        }
        if map2.contains_key(n) {
            if n == name {
                assert(names2[p] == n);
            } else {
                assert(by_name.contains_key(n));
                assert(names.contains(n));
                let i = choose|i: int| 0 <= i < names.len() && names[i] == n;
                if i < p {
                    assert(names2[i] == n);
                } else {
                    assert(names2[i + 1] == n);
                }
            }
        }
    }
    assert forall|i: int| 0 <= i < names2.len() implies map2[#[trigger] names2[i]] == records2[i] by {
        if i < p {
            assert(names2[i] == names[i]);
            assert(records2[i] == records[i]);
        } else if i > p {
            assert(names2[i] == names[i - 1]);
            assert(records2[i] == records[i - 1]);
        }
    }
}

proof fn lemma_replace_in_order(
    records: Seq<EngagementView>,
    names: Seq<Seq<char>>,
    by_name: Map<Seq<char>, EngagementView>,
    p: int,
    record: EngagementView,
)
    requires
        in_order(records, names, by_name),
        0 <= p < names.len(),
    ensures
        in_order(records.update(p, record), names, by_name.insert(names[p], record)),
{
    let map2 = by_name.insert(names[p], record);
    assert forall|n: Seq<char>| names.contains(n) <==> #[trigger] map2.contains_key(n) by {
        if n == names[p] {
            assert(names.contains(n));
        } else {
            assert(names.contains(n) <==> by_name.contains_key(n));
        }
    }
    assert forall|i: int| 0 <= i < names.len() implies map2[#[trigger] names[i]] == records.update(
        p,
        record,
    )[i] by {
        if i != p {
            if i < p {
                lemma_before_total(names[i], names[p]);
            } else {
                lemma_before_total(names[p], names[i]);
            }
        }
    }
}

impl EngagementRegistry {
    /// What to do next to open the store below `engagements_root`, when
    /// making sure of the directory came to `check`.
    pub fn open(engagements_root: &str, check: &Option<Result<(), FsCheckError>>) -> (next:
        OpenStoreNext)
        ensures
            match (*check, next) {
                (None, OpenStoreNext::EnsureDirectory { path, mode }) => path@ == engagements_root@
                    && mode == ENGAGEMENT_DIR_MODE,
                (Some(Ok(())), OpenStoreNext::Done(Ok(store))) => store@ == engagements_root@,
                (Some(Err(e)), OpenStoreNext::Done(Err(err))) => err@
                    == EngagementErrorView::of_check(e@),
                _ => false,
            },
    {
        match check {
            None => OpenStoreNext::EnsureDirectory {
                path: engagements_root.to_owned(),
                mode: ENGAGEMENT_DIR_MODE,
            },
            Some(Ok(())) => OpenStoreNext::Done(
                Ok(EngagementRegistry { engagements_root: engagements_root.to_owned() }),
            ),
            Some(Err(err)) => OpenStoreNext::Done(Err(EngagementError::from_fs(err.clone()))),
        }
    }

    fn record_path(&self, name: &str) -> (path: String)
        ensures
            path@ == record_file(self@, name@),
    {
        join2(self.engagements_root.as_str(), name, "record.toml")
    }

    fn write_record(
        &self,
        record: EngagementRecord,
        written: &Option<Result<(), RecordWriteError>>,
    ) -> (next: StoreNext)
        ensures
            next@ == write_record_rule(self@, record@, *written),
    {
        let path: String = self.record_path(record.name.as_str());
        match written {
            None => {
                let dir: String = join(self.engagements_root.as_str(), record.name.as_str());
                StoreNext::Write { path, dir, mode: ENGAGEMENT_FILE_MODE, record }
            },
            Some(Err(RecordWriteError::Unserializable(complaint))) => StoreNext::Done(
                Err(EngagementError::Toml { path, message: complaint.clone() }),
            ),
            Some(Err(RecordWriteError::Io(err))) => StoreNext::Done(
                Err(EngagementError::Io { path, source: err.clone() }),
            ),
            Some(Ok(())) => StoreNext::Done(Ok(record)),
        }
    }

    /// What to do next to open an engagement.
    pub fn open_engagement(
        &self,
        name: &str,
        purpose: &str,
        root: &Option<String>,
        opened_at: Timestamp,
        seen: &StoreReplies,
    ) -> (next: StoreNext)
        ensures
            next@ == open_rule(self@, name@, purpose@, opt_text(*root), opened_at, *seen),
    {
        if !is_valid_agent_name(name) {
            return StoreNext::Done(Err(EngagementError::InvalidName { name: name.to_owned() }));
        }
        match root {
            Some(path) => {
                if !is_absolute(path.as_str()) {
                    return StoreNext::Done(
                        Err(EngagementError::RelativeRoot { path: path.clone() }),
                    );
                }
            },
            None => {},
        }
        let dir: String = join(self.engagements_root.as_str(), name);
        match seen.taken {
            None => {
                return StoreNext::Look { path: dir };
            },
            Some(true) => {
                return StoreNext::Done(Err(EngagementError::NameTaken { name: name.to_owned() }));
            },
            Some(false) => {},
        }
        match &seen.directory {
            None => {
                return StoreNext::EnsureDirectory { path: dir, mode: ENGAGEMENT_DIR_MODE };
            },
            Some(Err(err)) => {
                return StoreNext::Done(Err(EngagementError::from_fs(err.clone())));
            },
            Some(Ok(())) => {},
        }
        let record: EngagementRecord = EngagementRecord {
            name: name.to_owned(),
            purpose: purpose.to_owned(),
            root: copy_opt(root),
            state: EngagementState::Open,
            opened_at,
            parent: None,
            staffed_unit: None,
        };
        self.write_record(record, &seen.written)
    }

    /// What to do next to close an open engagement.
    pub fn close(&self, name: &str, seen: &StoreReplies) -> (next: StoreNext)
        ensures
            next@ == transition_rule(
                self@,
                name@,
                EngagementState::Open,
                EngagementState::Closed,
                *seen,
            ),
    {
        self.transition(name, EngagementState::Open, EngagementState::Closed, seen)
    }

    /// What to do next to reopen a closed engagement.
    pub fn reopen(&self, name: &str, seen: &StoreReplies) -> (next: StoreNext)
        ensures
            next@ == transition_rule(
                self@,
                name@,
                EngagementState::Closed,
                EngagementState::Open,
                *seen,
            ),
    {
        self.transition(name, EngagementState::Closed, EngagementState::Open, seen)
    }

    fn transition(
        &self,
        name: &str,
        expected: EngagementState,
        next: EngagementState,
        seen: &StoreReplies,
    ) -> (out: StoreNext)
        ensures
            out@ == transition_rule(self@, name@, expected, next, *seen),
    {
        match self.get(name, &seen.read) {
            StoreNext::Done(Ok(record)) => {
                if record.state != expected {
                    return StoreNext::Done(
                        Err(
                            EngagementError::WrongState {
                                name: name.to_owned(),
                                actual: record.state,
                            },
                        ),
                    );
                }
                let mut changed: EngagementRecord = record;
                changed.state = next;
                self.write_record(changed, &seen.written)
            },
            other => other,
        }
    }

    /// What to do next to set, or clear, who works on an engagement.
    pub fn set_staffed_unit(
        &self,
        name: &str,
        staffed_unit: Option<StaffedUnit>,
        seen: &StoreReplies,
    ) -> (next: StoreNext)
        ensures
            next@ == staff_rule(self@, name@, opt_unit(staffed_unit), *seen),
    {
        match self.get(name, &seen.read) {
            StoreNext::Done(Ok(record)) => {
                let mut changed: EngagementRecord = record;
                changed.staffed_unit = staffed_unit;
                self.write_record(changed, &seen.written)
            },
            other => other,
        }
    }

    /// What to do next to get the record of an engagement.
    pub fn get(&self, name: &str, read: &Option<RecordRead>) -> (next: StoreNext)
        ensures
            next@ == get_rule(self@, name@, *read),
    {
        if !is_valid_agent_name(name) {
            return StoreNext::Done(Err(EngagementError::InvalidName { name: name.to_owned() }));
        }
        match read {
            None => StoreNext::Read { path: self.record_path(name), max_bytes: MAX_RECORD_BYTES },
            Some(read) => match self.settled(name, read) {
                Ok(record) => StoreNext::Done(Ok(record)),
                Err(err) => StoreNext::Done(Err(err)),
            },
        }
    }

    /// What a record that was read comes to.
    fn settled(&self, name: &str, read: &RecordRead) -> (out: Result<
        EngagementRecord,
        EngagementError,
    >)
        requires
            valid_agent_name(name@),
        ensures
            match (out, get_rule(self@, name@, Some(*read))) {
                (Ok(record), StoreNextView::Done(r)) => record@ == r && (*read matches RecordRead::Record(
                    q,
                ) && q@ == r),
                (Err(err), StoreNextView::Refused(e)) => err@ == e,
                _ => false,
            },
    {
        match read {
            RecordRead::Unreadable(err) => {
                if err.is_not_found() {
                    Err(EngagementError::NotFound { name: name.to_owned() })
                } else {
                    Err(EngagementError::Io { path: self.record_path(name), source: err.clone() })
                }
            },
            RecordRead::Unparsable(complaint) => Err(
                EngagementError::Toml { path: self.record_path(name), message: complaint.clone() },
            ),
            RecordRead::Record(record) => Ok(record.clone()),
        }
    }

    /// What to do next to list all records, in ascending order of their
    /// directories' names. Only directories are read, never through a link. An
    /// entry that cannot be looked at or read fails the listing; the first such
    /// entry is reported.
    pub fn list(&self, seen: &ListReplies) -> (next: ListNext)
        ensures
            lists(next, listing_rule(self@, *seen)),
    {
        let es: &Vec<StoreEntry> = match &seen.entries {
            None => {
                return ListNext::Entries { path: self.engagements_root.clone() };
            },
            Some(Err(err)) => {
                return ListNext::Done(
                    Err(
                        EngagementError::Io {
                            path: self.engagements_root.clone(),
                            source: err.clone(),
                        },
                    ),
                );
            },
            Some(Ok(es)) => es,
        };
        let ghost rs: Seq<RecordRead> = seen.reads@;
        let ghost mut listed: Map<Seq<char>, EngagementView> = Map::empty();
        let mut names: Vec<String> = Vec::new();
        let mut records: Vec<EngagementRecord> = Vec::new();
        let mut i: usize = 0;
        let mut k: usize = 0;
        assert(in_order(engagements_view(records@), texts(names@), listed));
        while i < es.len()
            invariant
                rs == seen.reads@,
                i <= es@.len(),
                k <= i,
                k <= rs.len(),
                names@.len() == records@.len(),
                in_order(engagements_view(records@), texts(names@), listed),
                listing_rule(self@, *seen) == list_rule(
                    self@,
                    es@,
                    rs,
                    i as int,
                    k as int,
                    listed,
                ),
            decreases es.len() - i,
        {
            match &es[i] {
                StoreEntry::Unlisted(source) => {
                    return ListNext::Done(
                        Err(
                            EngagementError::Io {
                                path: self.engagements_root.clone(),
                                source: source.clone(),
                            },
                        ),
                    );
                },
                StoreEntry::Found { path, name, kind } => match (kind, name) {
                    (Err(source), _) => {
                        return ListNext::Done(
                            Err(EngagementError::Io { path: path.clone(), source: source.clone() }),
                        );
                    },
                    (Ok(FileKind::Directory), Some(name)) => {
                        if !is_valid_agent_name(name.as_str()) {
                            return ListNext::Done(
                                Err(EngagementError::InvalidName { name: name.clone() }),
                            );
                        }
                        if k >= seen.reads.len() {
                            return ListNext::Read {
                                path: self.record_path(name.as_str()),
                                max_bytes: MAX_RECORD_BYTES,
                            };
                        }
                        match self.settled(name.as_str(), &seen.reads[k]) {
                            Err(err) => {
                                return ListNext::Done(Err(err));
                            },
                            Ok(record) => {
                                insert_sorted(
                                    &mut names,
                                    &mut records,
                                    name,
                                    record,
                                    Ghost(listed),
                                );
                                proof {
                                    listed = listed.insert(name@, record@);
                                }
                            },
                        }
                        k = k + 1;
                    },
                    _ => {},
                },
            }
            i = i + 1;
        }
        assert(listing_rule(self@, *seen) == ListView::Listed(listed));
        assert(in_order(engagements_view(records@), texts(names@), listed));
        assert(sorted_by_name(engagements_view(records@), listed));
        ListNext::Done(Ok(records))
    }
}

/// Puts a record at its place among those in ascending order of their names,
/// in place of one of the same name.
fn insert_sorted(
    names: &mut Vec<String>,
    records: &mut Vec<EngagementRecord>,
    name: &String,
    record: EngagementRecord,
    Ghost(by_name): Ghost<Map<Seq<char>, EngagementView>>,
)
    requires
        old(names)@.len() == old(records)@.len(),
        in_order(engagements_view(old(records)@), texts(old(names)@), by_name),
    ensures
        final(names)@.len() == final(records)@.len(),
        in_order(
            engagements_view(final(records)@),
            texts(final(names)@),
            by_name.insert(name@, record@),
        ),
{
    let ghost ns: Seq<Seq<char>> = texts(names@);
    let ghost rs: Seq<EngagementView> = engagements_view(records@);
    let mut p: usize = 0;
    while p < names.len() && comes_before(names[p].as_str(), name.as_str())
        invariant
            ns == texts(names@),
            rs == engagements_view(records@),
            names@.len() == records@.len(),
            names@ == old(names)@,
            records@ == old(records)@,
            p <= names@.len(),
            forall|k: int| 0 <= k < p ==> before(#[trigger] ns[k], name@),
        decreases names.len() - p,
    {
        assert(ns[p as int] == names@[p as int]@);
        p = p + 1;
    }
    if p < names.len() && same_text(names[p].as_str(), name.as_str()) {
        proof {
            assert(ns[p as int] == name@);
            lemma_replace_in_order(rs, ns, by_name, p as int, record@);
            assert(engagements_view(records@.update(p as int, record)) =~= rs.update(
                p as int,
                record@,
            ));
        }
        records.set(p, record);
    } else {
        proof {
            if p < names@.len() {
                assert(ns[p as int] == names@[p as int]@);
                lemma_before_total(ns[p as int], name@);
            }
            lemma_insert_in_order(rs, ns, by_name, p as int, name@, record@);
            assert(engagements_view(records@.insert(p as int, record)) =~= rs.insert(
                p as int,
                record@,
            ));
            assert(texts(names@.insert(p as int, *name)) =~= ns.insert(p as int, name@));
        }
        names.insert(p, name.clone());
        records.insert(p, record);
    }
}

// ── Laws ─────────────────────────────────────────────────────────────────────

/// Closing and reopening gives back the record as it was: what is written on
/// reopening what was written on closing is the record that was closed.
pub proof fn law_reopen_restores_record(
    root: Seq<char>,
    name: Seq<char>,
    closing: StoreReplies,
    reopening: StoreReplies,
    closed: EngagementView,
)
    requires
        transition_rule(root, name, EngagementState::Open, EngagementState::Closed, closing)
            == StoreNextView::Done(closed),
        reopening.read matches Some(RecordRead::Record(record)) && record@ == closed,
        reopening.written == Some(Ok::<(), RecordWriteError>(())),
    ensures
        closing.read matches Some(RecordRead::Record(before)) && transition_rule(
            root,
            name,
            EngagementState::Closed,
            EngagementState::Open,
            reopening,
        ) == StoreNextView::Done(before@),
{
}

/// No operation on an engagement changes its context: whatever record is
/// written, its name, purpose, root, time of opening and parent are those of
/// the record that was read.
pub proof fn law_context_never_changes(
    root: Seq<char>,
    name: Seq<char>,
    expected: EngagementState,
    next: EngagementState,
    unit: Option<StaffedView>,
    seen: StoreReplies,
)
    ensures
        transition_rule(root, name, expected, next, seen) matches StoreNextView::Write {
            record,
            ..
        } ==> (seen.read matches Some(RecordRead::Record(r)) && record == EngagementView {
            state: record.state,
            ..r@
        }),
        staff_rule(root, name, unit, seen) matches StoreNextView::Write { record, .. } ==> (
        seen.read matches Some(RecordRead::Record(r)) && record == EngagementView {
            staffed_unit: record.staffed_unit,
            ..r@
        }),
{
}

/// A name that was ever used is refused, whatever else is asked: where there
/// is something at the engagement's directory, nothing is made or written.
pub proof fn law_names_are_never_reused(
    root: Seq<char>,
    name: Seq<char>,
    purpose: Seq<char>,
    work_root: Option<Seq<char>>,
    at: Timestamp,
    seen: StoreReplies,
)
    requires
        seen.taken == Some(true),
    ensures
        open_rule(root, name, purpose, work_root, at, seen) is Refused,
        valid_agent_name(name) && (work_root matches Some(path) ==> absolute(path)) ==> open_rule(
            root,
            name,
            purpose,
            work_root,
            at,
            seen,
        ) == StoreNextView::Refused(EngagementErrorView::NameTaken { name }),
{
}

/// A change of state needs the state it starts from: closing what is closed,
/// or reopening what is open, is refused with the state that was found.
pub proof fn law_transitions_need_their_state(
    root: Seq<char>,
    name: Seq<char>,
    expected: EngagementState,
    next: EngagementState,
    seen: StoreReplies,
    record: EngagementRecord,
)
    requires
        valid_agent_name(name),
        seen.read == Some(RecordRead::Record(record)),
        record.state != expected,
    ensures
        transition_rule(root, name, expected, next, seen) == StoreNextView::Refused(
            EngagementErrorView::WrongState { name, actual: record.state },
        ),
{
}

proof fn lemma_reads_directories(
    root: Seq<char>,
    entries: Seq<StoreEntry>,
    reads: Seq<RecordRead>,
    i: int,
    k: int,
    listed: Map<Seq<char>, EngagementView>,
)
    requires
        0 <= i,
    ensures
        list_rule(root, entries, reads, i, k, listed) matches ListView::Read { path, .. }
            ==> exists|j: int|
            i <= j < entries.len() && (#[trigger] directory_name(entries[j]) matches Some(name)
                && path == record_file(root, name)),
    decreases entries.len() - i,
{
    if i < entries.len() {
        match (entry_failure(root, entries[i]), directory_name(entries[i])) {
            (None, None) => lemma_reads_directories(root, entries, reads, i + 1, k, listed),
            (None, Some(name)) => {
                let read = if k < reads.len() {
                    Some(reads[k])
                } else {
                    None
                };
                if let StoreNextView::Done(record) = get_rule(root, name, read) {
                    lemma_reads_directories(
                        root,
                        entries,
                        reads,
                        i + 1,
                        k + 1,
                        listed.insert(name, record),
                    );
                }
            },
            _ => {},
        }
    }
}

/// Nothing is read through a link: whatever the listing reads is the record of
/// an entry that is a directory itself, and stands in that directory.
pub proof fn law_listing_follows_no_link(root: Seq<char>, seen: ListReplies)
    ensures
        listing_rule(root, seen) matches ListView::Read { path, .. } ==> (
        seen.entries matches Some(Ok(entries)) && exists|j: int|
            0 <= j < entries@.len() && (#[trigger] directory_name(entries@[j]) matches Some(name)
                && path == record_file(root, name))),
{
    if let Some(Ok(entries)) = seen.entries {
        lemma_reads_directories(root, entries@, seen.reads@, 0, 0, Map::empty());
    }
}

/// Some of the entries from the `i`-th on is a directory of this name.
pub open spec fn has_directory(entries: Seq<StoreEntry>, i: int, name: Seq<char>) -> bool {
    exists|j: int| i <= j < entries.len() && #[trigger] directory_name(entries[j]) == Some(name)
}

proof fn lemma_lists_directories(
    root: Seq<char>,
    entries: Seq<StoreEntry>,
    reads: Seq<RecordRead>,
    i: int,
    k: int,
    listed: Map<Seq<char>, EngagementView>,
    n: Seq<char>,
)
    requires
        0 <= i,
    ensures
        list_rule(root, entries, reads, i, k, listed) matches ListView::Listed(all) ==> (
        all.contains_key(n) <==> listed.contains_key(n) || has_directory(entries, i, n)),
    decreases entries.len() - i,
{
    if i < entries.len() {
        let own = directory_name(entries[i]);
        match (entry_failure(root, entries[i]), own) {
            (None, None) => {
                lemma_lists_directories(root, entries, reads, i + 1, k, listed, n);
            },
            (None, Some(name)) => {
                let read = if k < reads.len() {
                    Some(reads[k])
                } else {
                    None
                };
                if let StoreNextView::Done(record) = get_rule(root, name, read) {
                    lemma_lists_directories(
                        root,
                        entries,
                        reads,
                        i + 1,
                        k + 1,
                        listed.insert(name, record),
                        n,
                    );
                }
            },
            _ => {},
        }
        if has_directory(entries, i, n) {
            let j = choose|j: int|
                i <= j < entries.len() && #[trigger] directory_name(entries[j]) == Some(n);
            assert(j == i || has_directory(entries, i + 1, n));
        }
        if has_directory(entries, i + 1, n) {
            let j = choose|j: int|
                i + 1 <= j < entries.len() && #[trigger] directory_name(entries[j]) == Some(n);
            assert(has_directory(entries, i, n));
        }
        if own == Some(n) {
            assert(has_directory(entries, i, n));
        }
    }
}

/// A listing that succeeds is whole: it holds a record for every directory of
/// the store whose name is text, closed engagements among them, and for
/// nothing else.
pub proof fn law_listing_is_whole(root: Seq<char>, seen: ListReplies, name: Seq<char>)
    ensures
        listing_rule(root, seen) matches ListView::Listed(all) ==> (seen.entries matches Some(
            Ok(entries),
        ) && (all.contains_key(name) <==> has_directory(entries@, 0, name))),
{
    if let Some(Ok(entries)) = seen.entries {
        lemma_lists_directories(root, entries@, seen.reads@, 0, 0, Map::empty(), name);
    }
}

/// What is read of an engagement is its own record, and what is given back is
/// what was read; a record that is not there, cannot be read or cannot be parsed
/// is told apart.
pub proof fn law_engagements_are_read_from_their_record(
    root: Seq<char>,
    name: Seq<char>,
    read: Option<RecordRead>,
)
    requires
        valid_agent_name(name),
    ensures
        ({
            let path = joined_path(joined_path(root, name), "record.toml"@);
            match read {
                None => get_rule(root, name, read) == (StoreNextView::Read {
                    path,
                    max_bytes: 65536,
                }),
                Some(RecordRead::Record(record)) => get_rule(root, name, read)
                    == StoreNextView::Done(record@),
                Some(RecordRead::Unreadable(e)) => get_rule(root, name, read)
                    == StoreNextView::Refused(
                    if e@.kind == IoKind::NotFound {
                        EngagementErrorView::NotFound { name }
                    } else {
                        EngagementErrorView::Io { path, source: e@ }
                    },
                ),
                Some(RecordRead::Unparsable(complaint)) => get_rule(root, name, read)
                    == StoreNextView::Refused(
                    EngagementErrorView::Toml { path, message: complaint@ },
                ),
            }
        }),
{
}

/// An engagement is staffed as asked: its record is written back with exactly
/// the unit that was given, and nothing else of it changes; once it is written,
/// that is the record given back.
pub proof fn law_engagements_are_staffed_as_asked(
    root: Seq<char>,
    name: Seq<char>,
    unit: Option<StaffedView>,
    seen: StoreReplies,
    record: EngagementRecord,
)
    requires
        valid_agent_name(name),
        seen.read == Some(RecordRead::Record(record)),
    ensures
        ({
            let staffed = EngagementView { staffed_unit: unit, ..record@ };
            let dir = joined_path(root, record@.name);
            match seen.written {
                None => staff_rule(root, name, unit, seen) == (StoreNextView::Write {
                    path: joined_path(dir, "record.toml"@),
                    dir,
                    mode: 0o600,
                    record: staffed,
                }),
                Some(Ok(())) => staff_rule(root, name, unit, seen) == StoreNextView::Done(staffed),
                Some(Err(_)) => staff_rule(root, name, unit, seen) is Refused,
            }
        }),
{
}

/// Looking for one of the two markers in the `k`-th directory found it.
pub open spec fn shows_marker(found: Seq<bool>, k: int) -> bool {
    found[2 * k] || found[2 * k + 1]
}

/// The top of a working tree is the outermost directory with a marker, and the
/// start itself where none has one.
pub proof fn law_outermost_marker_is_the_top(start: Seq<char>, found: Seq<bool>, n: int)
    requires
        0 <= n,
        found.len() >= 2 * n,
        forall|k: int| 0 <= k < n ==> #[trigger] ancestor(start, k) is Some,
    ensures
        ({
            let top = outermost_marked(start, found, n);
            ||| top == start && forall|k: int| 0 <= k < n ==> !#[trigger] shows_marker(found, k)
            ||| exists|k: int|
                {
                    &&& 0 <= k < n
                    &&& #[trigger] shows_marker(found, k)
                    &&& ancestor(start, k) == Some(top)
                    &&& forall|j: int| k < j < n ==> !#[trigger] shows_marker(found, j)
                }
        }),
    decreases n,
{
    if n > 0 {
        let k = n - 1;
        let top = outermost_marked(start, found, n);
        assert(ancestor(start, k) is Some);
        if shows_marker(found, k) {
            assert(ancestor(start, k) == Some(top));
        } else {
            law_outermost_marker_is_the_top(start, found, k);
            if exists|i: int|
                {
                    &&& 0 <= i < k
                    &&& #[trigger] shows_marker(found, i)
                    &&& ancestor(start, i) == Some(top)
                    &&& forall|j: int| i < j < k ==> !#[trigger] shows_marker(found, j)
                } {
                let i = choose|i: int|
                    {
                        &&& 0 <= i < k
                        &&& #[trigger] shows_marker(found, i)
                        &&& ancestor(start, i) == Some(top)
                        &&& forall|j: int| i < j < k ==> !#[trigger] shows_marker(found, j)
                    };
                assert forall|j: int| i < j < n implies !#[trigger] shows_marker(found, j) by {}
            } else {
                assert forall|j: int| 0 <= j < n implies !#[trigger] shows_marker(found, j) by {}
            }
        }
    }
}

/// A directory that was not accepted is told with its path, and a failed look at
/// it just as it came.
pub proof fn law_failed_checks_keep_their_path(err: FsCheckView)
    ensures
        match err {
            FsCheckView::Io { path, source } => EngagementErrorView::of_check(err) == (EngagementErrorView::Io {
                path,
                source,
            }),
            FsCheckView::Symlink { path } => EngagementErrorView::of_check(err) matches EngagementErrorView::Io { path: at, .. }
                && at == path,
            FsCheckView::NotADirectory { path } => EngagementErrorView::of_check(err) matches EngagementErrorView::Io {
                path: at,
                ..
            } && at == path,
            FsCheckView::WrongMode { path, .. } => EngagementErrorView::of_check(err) matches EngagementErrorView::Io {
                path: at,
                ..
            } && at == path,
        },
{
}

/// The names of the directories among entries, in order: those whose name is
/// text, and which are no links.
pub open spec fn directories(entries: Seq<StoreEntry>) -> Seq<Seq<char>>
    decreases entries.len(),
{
    if entries.len() == 0 {
        Seq::empty()
    } else {
        let before = directories(entries.drop_last());
        match entries.last() {
            StoreEntry::Found { name: Some(name), kind: Ok(FileKind::Directory), .. } => before.push(
                name@,
            ),
            _ => before,
        }
    }
}

proof fn lemma_directories_grow(entries: Seq<StoreEntry>, i: int, n: int)
    requires
        0 <= i <= n <= entries.len(),
    ensures
        directories(entries.take(i)).len() <= directories(entries.take(n)).len(),
        forall|x: int|
            0 <= x < directories(entries.take(i)).len() ==> #[trigger] directories(entries.take(i))[x]
                == directories(entries.take(n))[x],
    decreases n,
{
    if i < n {
        lemma_directories_grow(entries, i, n - 1);
        assert(entries.take(n).drop_last() =~= entries.take(n - 1));
        assert forall|x: int| 0 <= x < directories(entries.take(i)).len() implies
            #[trigger] directories(entries.take(i))[x] == directories(entries.take(n))[x] by {
            assert(directories(entries.take(i))[x] == directories(entries.take(n - 1))[x]);
        }
    }
}

proof fn lemma_listing_from(
    root: Seq<char>,
    entries: Seq<StoreEntry>,
    reads: Seq<RecordRead>,
    i: int,
    k: int,
    listed: Map<Seq<char>, EngagementView>,
)
    requires
        directories(entries).no_duplicates(),
        0 <= i <= entries.len(),
        k == directories(entries.take(i)).len(),
        k <= reads.len(),
        forall|x: int|
            0 <= x < k ==> (#[trigger] reads[x] matches RecordRead::Record(r) && listed.contains_key(
                directories(entries)[x],
            ) && listed[directories(entries)[x]] == r@),
    ensures
        match list_rule(root, entries, reads, i, k, listed) {
            ListView::Listed(all) => directories(entries).len() <= reads.len() && forall|x: int|
                0 <= x < directories(entries).len() ==> (
                #[trigger] reads[x] matches RecordRead::Record(r) && all.contains_key(
                    directories(entries)[x],
                ) && all[directories(entries)[x]] == r@),
            ListView::Read { path, max_bytes } => reads.len() < directories(entries).len() && path
                == joined_path(
                joined_path(root, directories(entries)[reads.len() as int]),
                "record.toml"@,
            ) && max_bytes == 65536,
            _ => true,
        },
    decreases entries.len() - i,
{
    let dirs = directories(entries);
    assert(entries.take(entries.len() as int) =~= entries);
    if i < entries.len() {
        assert(entries.take(i + 1).drop_last() =~= entries.take(i));
        assert(entries.take(i + 1).last() == entries[i]);
        match (entry_failure(root, entries[i]), directory_name(entries[i])) {
            (None, None) => {
                lemma_listing_from(root, entries, reads, i + 1, k, listed);
            },
            (None, Some(name)) => {
                lemma_directories_grow(entries, i + 1, entries.len() as int);
                assert(directories(entries.take(i + 1))[k] == name);
                assert(dirs[k] == name);
                let read = if k < reads.len() {
                    Some(reads[k])
                } else {
                    None
                };
                if let StoreNextView::Done(record) = get_rule(root, name, read) {
                    let more = listed.insert(name, record);
                    assert forall|x: int| 0 <= x < k + 1 implies (
                    #[trigger] reads[x] matches RecordRead::Record(r) && more.contains_key(dirs[x])
                        && more[dirs[x]] == r@) by {
                        if x < k {
                            assert(dirs[x] != dirs[k]);
                        }
                    }
                    lemma_listing_from(root, entries, reads, i + 1, k + 1, more);
                }
            },
            _ => {},
        }
    }
}

/// A listing gives each engagement the record that was read for it: directory by
/// directory, each record is read from its own directory, and what is listed
/// under a directory's name is what was read there.
pub proof fn law_listing_holds_what_was_read(
    root: Seq<char>,
    entries: Vec<StoreEntry>,
    seen: ListReplies,
)
    requires
        seen.entries == Some(Ok::<Vec<StoreEntry>, IoError>(entries)),
        directories(entries@).no_duplicates(),
    ensures
        match listing_rule(root, seen) {
            ListView::Listed(all) => directories(entries@).len() <= seen.reads@.len() && forall|
                x: int,
            |
                0 <= x < directories(entries@).len() ==> (
                #[trigger] seen.reads@[x] matches RecordRead::Record(r) && all.contains_key(
                    directories(entries@)[x],
                ) && all[directories(entries@)[x]] == r@),
            ListView::Read { path, max_bytes } => seen.reads@.len() < directories(entries@).len()
                && path == joined_path(
                joined_path(root, directories(entries@)[seen.reads@.len() as int]),
                "record.toml"@,
            ) && max_bytes == 65536,
            _ => true,
        },
{
    assert(entries@.take(0) =~= Seq::empty());
    lemma_listing_from(root, entries@, seen.reads@, 0, 0, Map::empty());
}

/// One name comes before another where it is its beginning, or has the smaller
/// character where the two first differ.
pub proof fn law_names_come_in_order_of_characters(a: Seq<char>, b: Seq<char>)
    ensures
        before(a, b) <==> exists|k: int| #[trigger] first_differ(a, b, k),
    decreases a.len(),
{
    if a.len() > 0 && b.len() > 0 && a[0] == b[0] {
        let x = a.drop_first();
        let y = b.drop_first();
        law_names_come_in_order_of_characters(x, y);
        if before(x, y) {
            let k = choose|k: int| #[trigger] first_differ(x, y, k);
            assert forall|j: int| 0 <= j < k + 1 implies #[trigger] a[j] == b[j] by {
                if j > 0 {
                    assert(x[j - 1] == y[j - 1]);
                }
            }
            assert(first_differ(a, b, k + 1));
        }
        if exists|k: int| #[trigger] first_differ(a, b, k) {
            let k = choose|k: int| #[trigger] first_differ(a, b, k);
            assert forall|j: int| 0 <= j < k - 1 implies #[trigger] x[j] == y[j] by {
                assert(a[j + 1] == b[j + 1]);
            }
            assert(first_differ(x, y, k - 1));
        }
    } else {
        if before(a, b) {
            assert(first_differ(a, b, 0));
        }
        if exists|k: int| #[trigger] first_differ(a, b, k) {
            let k = choose|k: int| #[trigger] first_differ(a, b, k);
            if k > 0 {
                assert(a[0] == b[0]);
            }
        }
    }
}

/// The two agree on their first `k` characters; `b` goes on, and there `a` ends
/// or has the smaller character.
pub open spec fn first_differ(a: Seq<char>, b: Seq<char>, k: int) -> bool {
    &&& 0 <= k <= a.len()
    &&& k < b.len()
    &&& forall|j: int| 0 <= j < k ==> #[trigger] a[j] == b[j]
    &&& k == a.len() || a[k] < b[k]
}

/// What is said of an engagement's record is said of its own parts, each in its place.
pub proof fn law_engagement_record_is_taken_as_it_is(value: EngagementRecord)
    ensures
        value@.name == value.name@,
        value@.purpose == value.purpose@,
        value@.root == opt_text(value.root),
        value@.state == value.state,
        value@.opened_at == value.opened_at,
        value@.parent == opt_text(value.parent),
        value@.staffed_unit == opt_unit(value.staffed_unit),
{
}

/// What is said of a step of the store is said of its own parts, each in its place.
pub proof fn law_store_next_is_taken_as_it_is(value: StoreNext)
    ensures
        match value {
            StoreNext::Look { path } => value@ == (StoreNextView::Look { path: path@ }),
            StoreNext::EnsureDirectory { path, mode } => value@ == (StoreNextView::EnsureDirectory {
                path: path@,
                mode,
            }),
            StoreNext::Read { path, max_bytes } => value@ == (StoreNextView::Read { path: path@, max_bytes }),
            StoreNext::Write { path, dir, mode, record } => value@ == (StoreNextView::Write {
                path: path@,
                dir: dir@,
                mode,
                record: record@,
            }),
            StoreNext::Done(Ok(record)) => value@ == StoreNextView::Done(record@),
            StoreNext::Done(Err(err)) => value@ == StoreNextView::Refused(err@),
        },
{
}

} // verus!
