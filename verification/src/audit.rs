//! Audit events: what the runtime records about security-relevant acts.

use vstd::prelude::*;
use vstd::string::*;

use crate::fs_util::{FsCheckError, FsCheckView};
use crate::identity::{opt_id, opt_text, texts, IdentityId, Timestamp};
use crate::io_error::{IoError, IoErrorView, IoKind};
use crate::journal::{
    append_line, append_rule, AppendError, AppendErrorView, AppendNext, AppendNextView,
    AppendReplies,
};
use crate::paths::{join, join2, joined_path};
use crate::text::{decimal, octal, write_decimal, write_octal};

verus! {

/// Mode of the audit directory.
pub const AUDIT_DIR_MODE: u32 = 0o700;

/// Mode of the audit log file.
pub const AUDIT_FILE_MODE: u32 = 0o600;

/// Why a file name in an inbox was refused.
#[derive(Debug, Clone, Copy, PartialEq, Eq, Structural)]
pub enum FilenameError {
    NotUtf8,
    Reserved,
    ContainsNull,
    TooLong(u64),
}

impl FilenameError {
    /// The token that stands for the error in the log.
    pub open spec fn token_text(self) -> Seq<char> {
        match self {
            FilenameError::NotUtf8 => "not_utf8"@,
            FilenameError::Reserved => "reserved"@,
            FilenameError::ContainsNull => "contains_null"@,
            FilenameError::TooLong(n) => "too_long("@ + decimal(n as nat) + ")"@,
        }
    }

    /// A stable, machine-readable token for the error.
    pub fn token(&self) -> (text: String)
        ensures
            text@ == self.token_text(),
    {
        match self {
            FilenameError::NotUtf8 => "not_utf8".to_owned(),
            FilenameError::Reserved => "reserved".to_owned(),
            FilenameError::ContainsNull => "contains_null".to_owned(),
            FilenameError::TooLong(n) => {
                let mut text: String = "too_long(".to_owned();
                text.append(write_decimal(*n).as_str());
                text.append(")");
                text
            },
        }
    }
}

/// What an authority check decided.
#[derive(Debug, Clone, Copy, PartialEq, Eq, Structural)]
pub enum AuthorityDisposition {
    Permit,
    Refuse,
}

/// A security-relevant event. Key and message ids are held in text form.
#[allow(inconsistent_fields)]
#[non_exhaustive]
#[derive(Debug, PartialEq, Eq)]
pub enum AuditEvent {
    /// An identity was enrolled.
    IdentityEnrolled { identity_id: IdentityId, display_name: String, at: Timestamp },
    /// A message was verified and delivered.
    TransportDelivered {
        sender_id: IdentityId,
        sender_key_id: String,
        recipient_id: IdentityId,
        message_id: String,
        at: Timestamp,
    },
    /// A message was refused and set aside. The sender is absent where the
    /// envelope did not tell.
    TransportQuarantine {
        sender_id: Option<IdentityId>,
        sender_key_id: Option<String>,
        recipient_id: IdentityId,
        message_id: String,
        reason: String,
        at: Timestamp,
    },
    /// A message id was seen before.
    TransportReplayRejected {
        sender_id: IdentityId,
        sender_key_id: String,
        message_id: String,
        at: Timestamp,
    },
    /// A file name in an inbox was malformed; the file was left in place.
    TransportFilenameRejected { agent_id: IdentityId, reason: FilenameError, at: Timestamp },
    /// An authority check decided on an action.
    AuthorityDecision {
        agent_id: IdentityId,
        persona_name: String,
        profile_version: u32,
        action: String,
        disposition: AuthorityDisposition,
        layer: Option<String>,
        rationale: Option<String>,
        blacklist_version: Option<String>,
        at: Timestamp,
    },
    /// An engagement was opened.
    EngagementOpened { sender_id: IdentityId, name: String, root: Option<String>, at: Timestamp },
    /// An engagement was closed.
    EngagementClosed { sender_id: IdentityId, name: String, at: Timestamp },
    /// An engagement was reopened.
    EngagementReopened { sender_id: IdentityId, name: String, at: Timestamp },
    /// An engagement operation was refused.
    EngagementOpRefused {
        sender_id: Option<IdentityId>,
        op: String,
        name: Option<String>,
        reason: String,
        at: Timestamp,
    },
    /// A team or agent operation was refused.
    EstateOpRefused {
        sender_id: Option<IdentityId>,
        op: String,
        name: Option<String>,
        reason: String,
        at: Timestamp,
    },
    /// An agent was minted, for a team or on its own.
    AgentMinted {
        sender_id: IdentityId,
        name: String,
        persona_name: String,
        team: Option<String>,
        at: Timestamp,
    },
    /// An agent was retired.
    AgentRetired { sender_id: IdentityId, name: String, at: Timestamp },
    /// An agent left its team and goes on alone.
    AgentReleased { sender_id: IdentityId, name: String, team: String, at: Timestamp },
    /// A team was formed.
    TeamFormed { sender_id: IdentityId, name: String, members: Vec<String>, at: Timestamp },
    /// A team was dissolved.
    TeamDissolved { sender_id: IdentityId, name: String, at: Timestamp },
}

/// What an event holds.
#[allow(inconsistent_fields)]
pub enum AuditView {
    IdentityEnrolled { identity_id: Seq<char>, display_name: Seq<char>, at: Timestamp },
    TransportDelivered {
        sender_id: Seq<char>,
        sender_key_id: Seq<char>,
        recipient_id: Seq<char>,
        message_id: Seq<char>,
        at: Timestamp,
    },
    TransportQuarantine {
        sender_id: Option<Seq<char>>,
        sender_key_id: Option<Seq<char>>,
        recipient_id: Seq<char>,
        message_id: Seq<char>,
        reason: Seq<char>,
        at: Timestamp,
    },
    TransportReplayRejected {
        sender_id: Seq<char>,
        sender_key_id: Seq<char>,
        message_id: Seq<char>,
        at: Timestamp,
    },
    TransportFilenameRejected { agent_id: Seq<char>, reason: FilenameError, at: Timestamp },
    AuthorityDecision {
        agent_id: Seq<char>,
        persona_name: Seq<char>,
        profile_version: u32,
        action: Seq<char>,
        disposition: AuthorityDisposition,
        layer: Option<Seq<char>>,
        rationale: Option<Seq<char>>,
        blacklist_version: Option<Seq<char>>,
        at: Timestamp,
    },
    EngagementOpened {
        sender_id: Seq<char>,
        name: Seq<char>,
        root: Option<Seq<char>>,
        at: Timestamp,
    },
    EngagementClosed { sender_id: Seq<char>, name: Seq<char>, at: Timestamp },
    EngagementReopened { sender_id: Seq<char>, name: Seq<char>, at: Timestamp },
    EngagementOpRefused {
        sender_id: Option<Seq<char>>,
        op: Seq<char>,
        name: Option<Seq<char>>,
        reason: Seq<char>,
        at: Timestamp,
    },
    EstateOpRefused {
        sender_id: Option<Seq<char>>,
        op: Seq<char>,
        name: Option<Seq<char>>,
        reason: Seq<char>,
        at: Timestamp,
    },
    AgentMinted {
        sender_id: Seq<char>,
        name: Seq<char>,
        persona_name: Seq<char>,
        team: Option<Seq<char>>,
        at: Timestamp,
    },
    AgentRetired { sender_id: Seq<char>, name: Seq<char>, at: Timestamp },
    AgentReleased { sender_id: Seq<char>, name: Seq<char>, team: Seq<char>, at: Timestamp },
    TeamFormed { sender_id: Seq<char>, name: Seq<char>, members: Seq<Seq<char>>, at: Timestamp },
    TeamDissolved { sender_id: Seq<char>, name: Seq<char>, at: Timestamp },
}

impl View for AuditEvent {
    type V = AuditView;

    open spec fn view(&self) -> AuditView {
        match *self {
            AuditEvent::IdentityEnrolled { identity_id, display_name, at } => AuditView::IdentityEnrolled {
                identity_id: identity_id@,
                display_name: display_name@,
                at,
            },
            AuditEvent::TransportDelivered {
                sender_id,
                sender_key_id,
                recipient_id,
                message_id,
                at,
            } => AuditView::TransportDelivered {
                sender_id: sender_id@,
                sender_key_id: sender_key_id@,
                recipient_id: recipient_id@,
                message_id: message_id@,
                at,
            },
            AuditEvent::TransportQuarantine {
                sender_id,
                sender_key_id,
                recipient_id,
                message_id,
                reason,
                at,
            } => AuditView::TransportQuarantine {
                sender_id: opt_id(sender_id),
                sender_key_id: opt_text(sender_key_id),
                recipient_id: recipient_id@,
                message_id: message_id@,
                reason: reason@,
                at,
            },
            AuditEvent::TransportReplayRejected { sender_id, sender_key_id, message_id, at } => AuditView::TransportReplayRejected {
                sender_id: sender_id@,
                sender_key_id: sender_key_id@,
                message_id: message_id@,
                at,
            },
            AuditEvent::TransportFilenameRejected { agent_id, reason, at } => AuditView::TransportFilenameRejected {
                agent_id: agent_id@,
                reason,
                at,
            },
            AuditEvent::AuthorityDecision {
                agent_id,
                persona_name,
                profile_version,
                action,
                disposition,
                layer,
                rationale,
                blacklist_version,
                at,
            } => AuditView::AuthorityDecision {
                agent_id: agent_id@,
                persona_name: persona_name@,
                profile_version,
                action: action@,
                disposition,
                layer: opt_text(layer),
                rationale: opt_text(rationale),
                blacklist_version: opt_text(blacklist_version),
                at,
            },
            AuditEvent::EngagementOpened { sender_id, name, root, at } => AuditView::EngagementOpened {
                sender_id: sender_id@,
                name: name@,
                root: opt_text(root),
                at,
            },
            AuditEvent::EngagementClosed { sender_id, name, at } => AuditView::EngagementClosed {
                sender_id: sender_id@,
                name: name@,
                at,
            },
            AuditEvent::EngagementReopened { sender_id, name, at } => AuditView::EngagementReopened {
                sender_id: sender_id@,
                name: name@,
                at,
            },
            AuditEvent::EngagementOpRefused { sender_id, op, name, reason, at } => AuditView::EngagementOpRefused {
                sender_id: opt_id(sender_id),
                op: op@,
                name: opt_text(name),
                reason: reason@,
                at,
            },
            AuditEvent::EstateOpRefused { sender_id, op, name, reason, at } => AuditView::EstateOpRefused {
                sender_id: opt_id(sender_id),
                op: op@,
                name: opt_text(name),
                reason: reason@,
                at,
            },
            AuditEvent::AgentMinted { sender_id, name, persona_name, team, at } => AuditView::AgentMinted {
                sender_id: sender_id@,
                name: name@,
                persona_name: persona_name@,
                team: opt_text(team),
                at,
            },
            AuditEvent::AgentRetired { sender_id, name, at } => AuditView::AgentRetired {
                sender_id: sender_id@,
                name: name@,
                at,
            },
            AuditEvent::AgentReleased { sender_id, name, team, at } => AuditView::AgentReleased {
                sender_id: sender_id@,
                name: name@,
                team: team@,
                at,
            },
            AuditEvent::TeamFormed { sender_id, name, members, at } => AuditView::TeamFormed {
                sender_id: sender_id@,
                name: name@,
                members: texts(members@),
                at,
            },
            AuditEvent::TeamDissolved { sender_id, name, at } => AuditView::TeamDissolved {
                sender_id: sender_id@,
                name: name@,
                at,
            },
        }
    }
}

/// What each event of a sequence holds.
pub open spec fn events_view(v: Seq<AuditEvent>) -> Seq<AuditView> {
    v.map_values(|e: AuditEvent| e@)
}

/// The last of the events is the one added last.
pub proof fn lemma_events_push(v: Seq<AuditEvent>, e: AuditEvent)
    ensures
        events_view(v.push(e)) == events_view(v).push(e@),
{
    assert(events_view(v.push(e)) =~= events_view(v).push(e@));
}

impl AuditView {
    /// The discriminator that marks the event in the log.
    pub open spec fn kind_text(self) -> Seq<char> {
        match self {
            AuditView::IdentityEnrolled { .. } => "identity.enrolled"@,
            AuditView::TransportDelivered { .. } => "transport.delivered"@,
            AuditView::TransportQuarantine { .. } => "transport.quarantine"@,
            AuditView::TransportReplayRejected { .. } => "transport.replay-rejected"@,
            AuditView::TransportFilenameRejected { .. } => "transport.filename-rejected"@,
            AuditView::AuthorityDecision { .. } => "authority.decision"@,
            AuditView::EngagementOpened { .. } => "engagement.opened"@,
            AuditView::EngagementClosed { .. } => "engagement.closed"@,
            AuditView::EngagementReopened { .. } => "engagement.reopened"@,
            AuditView::EngagementOpRefused { .. } => "engagement.op_refused"@,
            AuditView::EstateOpRefused { .. } => "estate.op_refused"@,
            AuditView::AgentMinted { .. } => "agent.minted"@,
            AuditView::AgentRetired { .. } => "agent.retired"@,
            AuditView::AgentReleased { .. } => "agent.released"@,
            AuditView::TeamFormed { .. } => "team.formed"@,
            AuditView::TeamDissolved { .. } => "team.dissolved"@,
        }
    }
}

impl AuditEvent {
    /// The discriminator that marks the event in the log.
    pub fn kind(&self) -> (kind: &'static str)
        ensures
            kind@ == self@.kind_text(),
    {
        match self {
            AuditEvent::IdentityEnrolled { .. } => "identity.enrolled",
            AuditEvent::TransportDelivered { .. } => "transport.delivered",
            AuditEvent::TransportQuarantine { .. } => "transport.quarantine",
            AuditEvent::TransportReplayRejected { .. } => "transport.replay-rejected",
            AuditEvent::TransportFilenameRejected { .. } => "transport.filename-rejected",
            AuditEvent::AuthorityDecision { .. } => "authority.decision",
            AuditEvent::EngagementOpened { .. } => "engagement.opened",
            AuditEvent::EngagementClosed { .. } => "engagement.closed",
            AuditEvent::EngagementReopened { .. } => "engagement.reopened",
            AuditEvent::EngagementOpRefused { .. } => "engagement.op_refused",
            AuditEvent::EstateOpRefused { .. } => "estate.op_refused",
            AuditEvent::AgentMinted { .. } => "agent.minted",
            AuditEvent::AgentRetired { .. } => "agent.retired",
            AuditEvent::AgentReleased { .. } => "agent.released",
            AuditEvent::TeamFormed { .. } => "team.formed",
            AuditEvent::TeamDissolved { .. } => "team.dissolved",
        }
    }
}

/// Failures of audit log operations.
#[non_exhaustive]
#[derive(Debug, PartialEq, Eq)]
pub enum AuditError {
    /// A filesystem operation failed.
    Io { path: String, source: IoError },
    /// An event could not be serialized; holds the serializer's complaint.
    Serialize(String),
}

/// What an audit failure holds.
pub enum AuditErrorView {
    Io { path: Seq<char>, source: IoErrorView },
    Serialize(Seq<char>),
}

impl View for AuditError {
    type V = AuditErrorView;

    open spec fn view(&self) -> AuditErrorView {
        match *self {
            AuditError::Io { path, source } => AuditErrorView::Io { path: path@, source: source@ },
            AuditError::Serialize(source) => AuditErrorView::Serialize(source@),
        }
    }
}

impl AuditErrorView {
    /// What a reader is shown.
    pub open spec fn shown(self) -> Seq<char> {
        match self {
            AuditErrorView::Io { path, source } => "audit log IO at "@ + path + ": "@
                + source.message,
            AuditErrorView::Serialize(source) => "audit log serialize: "@ + source,
        }
    }

    /// How a failed directory check is reported.
    pub open spec fn of_check(err: FsCheckView) -> AuditErrorView {
        match err {
            FsCheckView::Io { path, source } => AuditErrorView::Io { path, source },
            FsCheckView::Symlink { path } => AuditErrorView::Io {
                path,
                source: IoErrorView {
                    kind: IoKind::InvalidInput,
                    message: "audit directory is a symlink; runtime refuses to follow it"@,
                },
            },
            FsCheckView::NotADirectory { path } => AuditErrorView::Io {
                path,
                source: IoErrorView {
                    kind: IoKind::InvalidInput,
                    message: "audit path exists but is not a directory"@,
                },
            },
            FsCheckView::WrongMode { path, actual, expected } => AuditErrorView::Io {
                path,
                source: IoErrorView {
                    kind: IoKind::PermissionDenied,
                    message: "audit directory has mode 0o"@ + octal(actual as nat)
                        + ", expected 0o"@ + octal(expected as nat),
                },
            },
        }
    }
}

impl AuditError {
    /// What a reader is shown.
    pub fn to_string(&self) -> (text: String)
        ensures
            text@ == self@.shown(),
    {
        match self {
            AuditError::Io { path, source } => {
                let mut text: String = "audit log IO at ".to_owned();
                text.append(path.as_str());
                text.append(": ");
                text.append(source.message.as_str());
                text
            },
            AuditError::Serialize(source) => {
                let mut text: String = "audit log serialize: ".to_owned();
                text.append(source.as_str());
                text
            },
        }
    }

    /// Reports a failed check of the audit directory.
    pub fn from_fs(err: FsCheckError) -> (out: AuditError)
        ensures
            out@ == AuditErrorView::of_check(err@),
    {
        match err {
            FsCheckError::Io { path, source } => AuditError::Io { path, source },
            FsCheckError::Symlink { path } => AuditError::Io {
                path,
                source: IoError::new(
                    IoKind::InvalidInput,
                    "audit directory is a symlink; runtime refuses to follow it",
                ),
            },
            FsCheckError::NotADirectory { path } => AuditError::Io {
                path,
                source: IoError::new(
                    IoKind::InvalidInput,
                    "audit path exists but is not a directory",
                ),
            },
            FsCheckError::WrongMode { path, actual, expected } => {
                let mut message: String = "audit directory has mode 0o".to_owned();
                message.append(write_octal(actual).as_str());
                message.append(", expected 0o");
                message.append(write_octal(expected).as_str());
                AuditError::Io { path, source: IoError { kind: IoKind::PermissionDenied, message } }
            },
        }
    }
}

// ── Log ──────────────────────────────────────────────────────────────────────

/// Where the audit log of a data directory is: `<data_dir>/audit/log.jsonl`.
pub open spec fn audit_log_file(data_dir: Seq<char>) -> Seq<char> {
    joined_path(joined_path(data_dir, "audit"@), "log.jsonl"@)
}

/// Where the audit log of a data directory is: `<data_dir>/audit/log.jsonl`.
pub fn audit_log_path(data_dir: &str) -> (path: String)
    ensures
        path@ == audit_log_file(data_dir@),
{
    join2(data_dir, "audit", "log.jsonl")
}

/// The audit log.
#[derive(Debug, PartialEq, Eq)]
pub struct AuditLog {
    path: String,
}

impl View for AuditLog {
    type V = Seq<char>;

    closed spec fn view(&self) -> Seq<char> {
        self.path@
    }
}

/// What has been learned so far about a log to be opened.
#[derive(Debug, PartialEq, Eq)]
pub struct LogReplies {
    /// What making sure of the directory came to.
    pub directory: Option<Result<(), FsCheckError>>,
    /// What opening the file came to.
    pub opened: Option<Result<(), IoError>>,
}

/// What to do next to open the log.
#[derive(Debug, PartialEq, Eq)]
pub enum LogOpenNext {
    /// Make sure that this directory is there with this mode.
    EnsureDirectory { path: String, mode: u32 },
    /// Open the file for appending with this mode, without following a link.
    Open { path: String, mode: u32 },
    /// Nothing: the log is open, or cannot be opened.
    Done(Result<AuditLog, AuditError>),
}

/// What to do next to open the log.
pub enum LogOpenView {
    EnsureDirectory { path: Seq<char>, mode: u32 },
    Open { path: Seq<char>, mode: u32 },
    Opened { path: Seq<char> },
    Failed(AuditErrorView),
}

impl View for LogOpenNext {
    type V = LogOpenView;

    open spec fn view(&self) -> LogOpenView {
        match *self {
            LogOpenNext::EnsureDirectory { path, mode } => LogOpenView::EnsureDirectory {
                path: path@,
                mode,
            },
            LogOpenNext::Open { path, mode } => LogOpenView::Open { path: path@, mode },
            LogOpenNext::Done(Ok(log)) => LogOpenView::Opened { path: log@ },
            LogOpenNext::Done(Err(err)) => LogOpenView::Failed(err@),
        }
    }
}

/// The rule for opening the log: its directory must be acceptable.
pub open spec fn log_open_rule(data_dir: Seq<char>, seen: LogReplies) -> LogOpenView {
    let path = audit_log_file(data_dir);
    match seen.directory {
        None => LogOpenView::EnsureDirectory {
            path: joined_path(data_dir, "audit"@),
            mode: AUDIT_DIR_MODE,
        },
        Some(Err(e)) => LogOpenView::Failed(AuditErrorView::of_check(e@)),
        Some(Ok(())) => match seen.opened {
            None => LogOpenView::Open { path, mode: AUDIT_FILE_MODE },
            Some(Err(e)) => LogOpenView::Failed(AuditErrorView::Io { path, source: e@ }),
            Some(Ok(())) => LogOpenView::Opened { path },
        },
    }
}

/// What to do next to append an event.
#[derive(Debug, PartialEq, Eq)]
pub enum LogNext<'a> {
    /// Serialize this event as JSON.
    Serialize(&'a AuditEvent),
    /// Take this step.
    Append(AppendNext),
    /// Nothing: the event is durable, or was not appended.
    Done(Result<(), AuditError>),
}

/// What to do next to append an event.
pub enum LogNextView {
    Serialize(AuditView),
    Append(AppendNextView),
    Durable,
    Failed(AuditErrorView),
}

impl<'a> View for LogNext<'a> {
    type V = LogNextView;

    open spec fn view(&self) -> LogNextView {
        match *self {
            LogNext::Serialize(event) => LogNextView::Serialize(event@),
            LogNext::Append(next) => LogNextView::Append(next@),
            LogNext::Done(Ok(())) => LogNextView::Durable,
            LogNext::Done(Err(err)) => LogNextView::Failed(err@),
        }
    }
}

/// The rule for appending an event to the log kept at `path`.
pub open spec fn log_rule(path: Seq<char>, event: AuditView, seen: AppendReplies) -> LogNextView {
    match append_rule(seen) {
        AppendNextView::Serialize => LogNextView::Serialize(event),
        AppendNextView::Durable => LogNextView::Durable,
        AppendNextView::Failed(AppendErrorView::Serialize(source)) => LogNextView::Failed(
            AuditErrorView::Serialize(source),
        ),
        AppendNextView::Failed(AppendErrorView::Io(source)) => LogNextView::Failed(
            AuditErrorView::Io { path, source },
        ),
        next => LogNextView::Append(next),
    }
}

impl AuditLog {
    /// What to do next to open the audit log of a data directory, or to make
    /// it.
    pub fn open(data_dir: &str, seen: &LogReplies) -> (next: LogOpenNext)
        ensures
            next@ == log_open_rule(data_dir@, *seen),
    {
        match &seen.directory {
            None => {
                return LogOpenNext::EnsureDirectory {
                    path: join(data_dir, "audit"),
                    mode: AUDIT_DIR_MODE,
                };
            },
            Some(Err(err)) => {
                return LogOpenNext::Done(Err(AuditError::from_fs(err.clone())));
            },
            Some(Ok(())) => {},
        }
        let path: String = audit_log_path(data_dir);
        match &seen.opened {
            None => LogOpenNext::Open { path, mode: AUDIT_FILE_MODE },
            Some(Err(err)) => LogOpenNext::Done(
                Err(AuditError::Io { path, source: err.clone() }),
            ),
            Some(Ok(())) => LogOpenNext::Done(Ok(AuditLog { path })),
        }
    }

    /// What to do next to append an event.
    pub fn append<'a>(&self, event: &'a AuditEvent, seen: &AppendReplies) -> (next: LogNext<'a>)
        ensures
            next@ == log_rule(self@, event@, *seen),
    {
        match append_line(seen) {
            AppendNext::Serialize => LogNext::Serialize(event),
            AppendNext::Done(Ok(())) => LogNext::Done(Ok(())),
            AppendNext::Done(Err(AppendError::Serialize(source))) => LogNext::Done(
                Err(AuditError::Serialize(source)),
            ),
            AppendNext::Done(Err(AppendError::Io(source))) => LogNext::Done(
                Err(AuditError::Io { path: self.path.clone(), source }),
            ),
            next => LogNext::Append(next),
        }
    }
}

// ── Laws ─────────────────────────────────────────────────────────────────────

/// The event that is put in the log is the one that was given; what is written
/// of it is its JSON and the end of its line; it counts as logged only when that
/// is synced; and a failure is told with the log it failed on.
pub proof fn law_events_are_logged_as_given(
    path: Seq<char>,
    event: AuditView,
    seen: AppendReplies,
)
    ensures
        match log_rule(path, event, seen) {
            LogNextView::Serialize(e) => e == event && seen.json is None,
            LogNextView::Append(AppendNextView::Write { line }) => (
            seen.json matches Some(Ok(json)) && line == json@.push(0x0a)) && seen.written is None,
            LogNextView::Append(next) => next is Sync && (seen.written matches Some(Ok(_)))
                && seen.synced is None,
            LogNextView::Durable => (seen.json matches Some(Ok(_))) && (
            seen.written matches Some(Ok(_))) && (seen.synced matches Some(Ok(_))),
            LogNextView::Failed(AuditErrorView::Serialize(source)) => seen.json matches Some(Err(e))
                && source == e@,
            LogNextView::Failed(AuditErrorView::Io { path: at, source }) => at == path && {
                ||| seen.written matches Some(Err(e)) && source == e@
                ||| seen.synced matches Some(Err(e)) && source == e@
            },
        },
{
}

/// The log of a data directory is `audit/log.jsonl` below it, in a directory and
/// a file that are their owner's alone; it is opened only once the directory is
/// in order, and the log that is open is that one.
pub proof fn law_log_is_below_the_data_directory(data_dir: Seq<char>, seen: LogReplies)
    ensures
        ({
            let dir = joined_path(data_dir, "audit"@);
            let file = joined_path(dir, "log.jsonl"@);
            match (seen.directory, seen.opened) {
                (None, _) => log_open_rule(data_dir, seen) == LogOpenView::EnsureDirectory {
                    path: dir,
                    mode: 0o700,
                },
                (Some(Err(_)), _) => log_open_rule(data_dir, seen) is Failed,
                (Some(Ok(())), None) => log_open_rule(data_dir, seen) == LogOpenView::Open {
                    path: file,
                    mode: 0o600,
                },
                (Some(Ok(())), Some(Err(e))) => log_open_rule(data_dir, seen)
                    == LogOpenView::Failed(AuditErrorView::Io { path: file, source: e@ }),
                (Some(Ok(())), Some(Ok(()))) => log_open_rule(data_dir, seen)
                    == LogOpenView::Opened { path: file },
            }
        }),
{
}

/// Every event says what it is: no two that are of different kinds have one
/// word.
pub proof fn law_kinds_are_told_apart(a: AuditView, b: AuditView)
    requires
        a.kind_text() == b.kind_text(),
    ensures
        a is AgentMinted == b is AgentMinted,
        a is AgentRetired == b is AgentRetired,
        a is AgentReleased == b is AgentReleased,
        a is TeamFormed == b is TeamFormed,
        a is TeamDissolved == b is TeamDissolved,
        a is EngagementOpened == b is EngagementOpened,
        a is EngagementClosed == b is EngagementClosed,
        a is EngagementReopened == b is EngagementReopened,
        a is EngagementOpRefused == b is EngagementOpRefused,
        a is EstateOpRefused == b is EstateOpRefused,
        a is AuthorityDecision == b is AuthorityDecision,
        a is IdentityEnrolled == b is IdentityEnrolled,
        a is TransportDelivered == b is TransportDelivered,
        a is TransportQuarantine == b is TransportQuarantine,
        a is TransportReplayRejected == b is TransportReplayRejected,
        a is TransportFilenameRejected == b is TransportFilenameRejected,
{
    reveal_strlit("identity.enrolled");
    reveal_strlit("transport.delivered");
    reveal_strlit("transport.quarantine");
    reveal_strlit("transport.replay-rejected");
    reveal_strlit("transport.filename-rejected");
    reveal_strlit("authority.decision");
    reveal_strlit("engagement.opened");
    reveal_strlit("engagement.closed");
    reveal_strlit("engagement.reopened");
    reveal_strlit("engagement.op_refused");
    reveal_strlit("estate.op_refused");
    reveal_strlit("agent.minted");
    reveal_strlit("agent.retired");
    reveal_strlit("agent.released");
    reveal_strlit("team.formed");
    reveal_strlit("team.dissolved");
    let x = a.kind_text();
    let y = b.kind_text();
    assert(x.len() == y.len());
    assert(x[0] == y[0] && x[1] == y[1] && x[5] == y[5] && x[6] == y[6] && x[7] == y[7]);
    assert(x.len() > 10 ==> x[10] == y[10]);
    assert(x.len() > 11 ==> x[11] == y[11]);
    assert(x.len() > 13 ==> x[13] == y[13]);
}

/// A directory that was not accepted is told with its path, and a failed look at
/// it just as it came.
pub proof fn law_failed_checks_keep_their_path(err: FsCheckView)
    ensures
        match err {
            FsCheckView::Io { path, source } => AuditErrorView::of_check(err) == (AuditErrorView::Io {
                path,
                source,
            }),
            FsCheckView::Symlink { path } => AuditErrorView::of_check(err) matches AuditErrorView::Io { path: at, .. }
                && at == path,
            FsCheckView::NotADirectory { path } => AuditErrorView::of_check(err) matches AuditErrorView::Io {
                path: at,
                ..
            } && at == path,
            FsCheckView::WrongMode { path, .. } => AuditErrorView::of_check(err) matches AuditErrorView::Io {
                path: at,
                ..
            } && at == path,
        },
{
}

/// What is said of an event is said of its own parts, each in its place.
pub proof fn law_audit_event_is_taken_as_it_is(value: AuditEvent)
    ensures
        match value {
            AuditEvent::IdentityEnrolled { identity_id, display_name, at } => value@ == (AuditView::IdentityEnrolled {
                identity_id: identity_id@,
                display_name: display_name@,
                at,
            }),
            AuditEvent::TransportDelivered {
                sender_id,
                sender_key_id,
                recipient_id,
                message_id,
                at,
            } => value@ == (AuditView::TransportDelivered {
                sender_id: sender_id@,
                sender_key_id: sender_key_id@,
                recipient_id: recipient_id@,
                message_id: message_id@,
                at,
            }),
            AuditEvent::TransportQuarantine {
                sender_id,
                sender_key_id,
                recipient_id,
                message_id,
                reason,
                at,
            } => value@ == (AuditView::TransportQuarantine {
                sender_id: opt_id(sender_id),
                sender_key_id: opt_text(sender_key_id),
                recipient_id: recipient_id@,
                message_id: message_id@,
                reason: reason@,
                at,
            }),
            AuditEvent::TransportReplayRejected { sender_id, sender_key_id, message_id, at } => value@ == (AuditView::TransportReplayRejected {
                sender_id: sender_id@,
                sender_key_id: sender_key_id@,
                message_id: message_id@,
                at,
            }),
            AuditEvent::TransportFilenameRejected { agent_id, reason, at } => value@ == (AuditView::TransportFilenameRejected {
                agent_id: agent_id@,
                reason,
                at,
            }),
            AuditEvent::AuthorityDecision {
                agent_id,
                persona_name,
                profile_version,
                action,
                disposition,
                layer,
                rationale,
                blacklist_version,
                at,
            } => value@ == (AuditView::AuthorityDecision {
                agent_id: agent_id@,
                persona_name: persona_name@,
                profile_version,
                action: action@,
                disposition,
                layer: opt_text(layer),
                rationale: opt_text(rationale),
                blacklist_version: opt_text(blacklist_version),
                at,
            }),
            AuditEvent::EngagementOpened { sender_id, name, root, at } => value@ == (AuditView::EngagementOpened {
                sender_id: sender_id@,
                name: name@,
                root: opt_text(root),
                at,
            }),
            AuditEvent::EngagementClosed { sender_id, name, at } => value@ == (AuditView::EngagementClosed {
                sender_id: sender_id@,
                name: name@,
                at,
            }),
            AuditEvent::EngagementReopened { sender_id, name, at } => value@ == (AuditView::EngagementReopened {
                sender_id: sender_id@,
                name: name@,
                at,
            }),
            AuditEvent::EngagementOpRefused { sender_id, op, name, reason, at } => value@ == (AuditView::EngagementOpRefused {
                sender_id: opt_id(sender_id),
                op: op@,
                name: opt_text(name),
                reason: reason@,
                at,
            }),
            AuditEvent::EstateOpRefused { sender_id, op, name, reason, at } => value@ == (AuditView::EstateOpRefused {
                sender_id: opt_id(sender_id),
                op: op@,
                name: opt_text(name),
                reason: reason@,
                at,
            }),
            AuditEvent::AgentMinted { sender_id, name, persona_name, team, at } => value@ == (AuditView::AgentMinted {
                sender_id: sender_id@,
                name: name@,
                persona_name: persona_name@,
                team: opt_text(team),
                at,
            }),
            AuditEvent::AgentRetired { sender_id, name, at } => value@ == (AuditView::AgentRetired {
                sender_id: sender_id@,
                name: name@,
                at,
            }),
            AuditEvent::AgentReleased { sender_id, name, team, at } => value@ == (AuditView::AgentReleased {
                sender_id: sender_id@,
                name: name@,
                team: team@,
                at,
            }),
            AuditEvent::TeamFormed { sender_id, name, members, at } => value@ == (AuditView::TeamFormed {
                sender_id: sender_id@,
                name: name@,
                members: texts(members@),
                at,
            }),
            AuditEvent::TeamDissolved { sender_id, name, at } => value@ == (AuditView::TeamDissolved {
                sender_id: sender_id@,
                name: name@,
                at,
            }),
        },
{
}

} // verus!
