//! Starting, stopping and querying the runtime's background process.
//!
//! Durations are held in whole nanoseconds or milliseconds, as their names
//! say.

use vstd::prelude::*;
use vstd::string::*;

use crate::fs_util::FileKind;
use crate::identity::{slices, Timestamp};
use crate::io_error::{IoError, IoErrorView, IoKind};
use crate::paths::{join, join2, joined_path};
use crate::text::{decimal, write_decimal};

verus! {

/// Name of the file in the state directory that tells the process id.
pub const PID_FILENAME: &'static str = "runtime.pid";

/// A heartbeat up to this old is fresh: twice the interval between beats.
pub const STALE_THRESHOLD_NANOS: u128 = 2_000_000_000;

/// How long a start is waited for.
pub const SPAWN_CONFIRM_TIMEOUT_MILLIS: u64 = 15_000;

/// How long to sleep between two looks at a start.
pub const SPAWN_POLL_INTERVAL_MILLIS: u64 = 100;

/// How long to sleep between two looks at an exit.
pub const STOP_POLL_INTERVAL_MILLIS: u64 = 100;

/// How long an exit is waited for after a request to terminate.
pub const STOP_TIMEOUT_MILLIS: u64 = 5_000;

/// How long an exit is waited for after a kill.
pub const KILL_TIMEOUT_MILLIS: u64 = 2_000;

// ── Errors ───────────────────────────────────────────────────────────────────

/// Why a process operation failed.
#[allow(inconsistent_fields)]
#[derive(Debug, PartialEq, Eq)]
pub enum DaemonError {
    /// A process is already running; its id, where it could be told.
    AlreadyRunning { pid: Option<u32> },
    /// The runtime lock could not be had; holds the complaint.
    Lock(String),
    /// A filesystem operation failed.
    Io { path: String, source: IoError },
    /// A resource could not be opened; holds the complaint.
    Resource { component: &'static str, source: String },
    /// An operation took too long.
    Timeout { op: &'static str },
    /// A signal could not be sent.
    Signal { pid: u32, source: IoError },
    /// No process is running.
    NoRuntime,
}

/// What the failure holds.
#[allow(inconsistent_fields)]
pub enum DaemonErrorView {
    AlreadyRunning { pid: Option<u32> },
    Lock(Seq<char>),
    Io { path: Seq<char>, source: IoErrorView },
    Resource { component: Seq<char>, source: Seq<char> },
    Timeout { op: Seq<char> },
    Signal { pid: u32, source: IoErrorView },
    NoRuntime,
}

impl View for DaemonError {
    type V = DaemonErrorView;

    open spec fn view(&self) -> DaemonErrorView {
        match *self {
            DaemonError::AlreadyRunning { pid } => DaemonErrorView::AlreadyRunning { pid },
            DaemonError::Lock(source) => DaemonErrorView::Lock(source@),
            DaemonError::Io { path, source } => DaemonErrorView::Io {
                path: path@,
                source: source@,
            },
            DaemonError::Resource { component, source } => DaemonErrorView::Resource {
                component: component@,
                source: source@,
            },
            DaemonError::Timeout { op } => DaemonErrorView::Timeout { op: op@ },
            DaemonError::Signal { pid, source } => DaemonErrorView::Signal { pid, source: source@ },
            DaemonError::NoRuntime => DaemonErrorView::NoRuntime,
        }
    }
}

impl DaemonErrorView {
    /// What a reader is shown.
    pub open spec fn shown(self) -> Seq<char> {
        match self {
            DaemonErrorView::AlreadyRunning { pid: Some(pid) } =>
                "daemon is already running, PID "@ + decimal(pid as nat),
            DaemonErrorView::AlreadyRunning { pid: None } =>
                "daemon is already running (PID unknown)"@,
            DaemonErrorView::Lock(source) => "daemon lock: "@ + source,
            DaemonErrorView::Io { path, source } => "daemon IO at "@ + path + ": "@
                + source.message,
            DaemonErrorView::Resource { component, source } => "failed to open "@ + component
                + ": "@ + source,
            DaemonErrorView::Timeout { op } => op + " timed out"@,
            DaemonErrorView::Signal { pid, source } => "daemon signal to PID "@ + decimal(
                pid as nat,
            ) + ": "@ + source.message,
            DaemonErrorView::NoRuntime => "no daemon is running"@,
        }
    }
}

impl DaemonError {
    /// What a reader is shown.
    pub fn to_string(&self) -> (text: String)
        ensures
            text@ == self@.shown(),
    {
        match self {
            DaemonError::AlreadyRunning { pid: Some(pid) } => {
                let mut text: String = "daemon is already running, PID ".to_owned();
                let number: String = write_decimal(*pid as u64);
                text.append(number.as_str());
                text
            },
            DaemonError::AlreadyRunning { pid: None } =>
                "daemon is already running (PID unknown)".to_owned(),
            DaemonError::Lock(source) => {
                let mut text: String = "daemon lock: ".to_owned();
                text.append(source.as_str());
                text
            },
            DaemonError::Io { path, source } => {
                let mut text: String = "daemon IO at ".to_owned();
                text.append(path.as_str());
                text.append(": ");
                text.append(source.message.as_str());
                text
            },
            DaemonError::Resource { component, source } => {
                let mut text: String = "failed to open ".to_owned();
                text.append(component);
                text.append(": ");
                text.append(source.as_str());
                text
            },
            DaemonError::Timeout { op } => {
                let mut text: String = (*op).to_owned();
                text.append(" timed out");
                text
            },
            DaemonError::Signal { pid, source } => {
                let mut text: String = "daemon signal to PID ".to_owned();
                let number: String = write_decimal(*pid as u64);
                text.append(number.as_str());
                text.append(": ");
                text.append(source.message.as_str());
                text
            },
            DaemonError::NoRuntime => "no daemon is running".to_owned(),
        }
    }
}

impl Clone for DaemonError {
    fn clone(&self) -> (err: DaemonError)
        ensures
            err@ == self@,
    {
        match self {
            DaemonError::AlreadyRunning { pid } => DaemonError::AlreadyRunning { pid: *pid },
            DaemonError::Lock(source) => DaemonError::Lock(source.clone()),
            DaemonError::Io { path, source } => DaemonError::Io {
                path: path.clone(),
                source: source.clone(),
            },
            DaemonError::Resource { component, source } => DaemonError::Resource {
                component,
                source: source.clone(),
            },
            DaemonError::Timeout { op } => DaemonError::Timeout { op },
            DaemonError::Signal { pid, source } => DaemonError::Signal {
                pid: *pid,
                source: source.clone(),
            },
            DaemonError::NoRuntime => DaemonError::NoRuntime,
        }
    }
}

// ── Lock ─────────────────────────────────────────────────────────────────────

/// Why the runtime lock could not be had.
#[derive(Debug, PartialEq, Eq)]
pub enum RuntimeLockError {
    /// A process holds it; its id, where it could be told.
    AlreadyRunning { pid: Option<u32> },
    /// It could not be tried; holds the complaint.
    Failed(String),
}

/// How a lock that could not be had is reported.
pub fn acquire_lock(outcome: Result<(), RuntimeLockError>) -> (out: Result<(), DaemonError>)
    ensures
        match (outcome, out) {
            (Ok(()), Ok(())) => true,
            (Err(RuntimeLockError::AlreadyRunning { pid }), Err(err)) => err@
                == (DaemonErrorView::AlreadyRunning { pid }),
            (Err(RuntimeLockError::Failed(complaint)), Err(err)) => err@ == DaemonErrorView::Lock(
                complaint@,
            ),
            _ => false,
        },
{
    match outcome {
        Ok(()) => Ok(()),
        Err(RuntimeLockError::AlreadyRunning { pid }) => Err(DaemonError::AlreadyRunning { pid }),
        Err(RuntimeLockError::Failed(complaint)) => Err(DaemonError::Lock(complaint)),
    }
}

// ── Status ───────────────────────────────────────────────────────────────────

/// Whether the process lives.
#[derive(Debug, Clone, Copy, PartialEq, Eq, Structural)]
pub enum DaemonStatus {
    /// The process runs, and its heartbeat is fresh.
    Alive { pid: u32, heartbeat_age_nanos: u128 },
    /// The process runs, but its heartbeat is old or absent.
    Stale { pid: u32 },
    /// No process runs.
    NotRunning,
}

/// What looking at the heartbeat file told, without following a link.
#[derive(Debug, Clone, Copy, PartialEq, Eq, Structural)]
pub struct HeartbeatLook {
    /// What is at the path, if anything could be told.
    pub kind: Option<FileKind>,
    /// When it was modified, where that could be told.
    pub modified: Option<Timestamp>,
    /// The time of the look.
    pub now: Timestamp,
}

/// The age of a heartbeat. A link is no heartbeat, and one from the future is
/// new.
pub open spec fn age_of(look: HeartbeatLook) -> Option<nat> {
    match (look.kind, look.modified) {
        (Some(kind), Some(modified)) => if kind == FileKind::Symlink {
            None
        } else if look.now.unix_nanos <= modified.unix_nanos {
            Some(0)
        } else {
            Some((look.now.unix_nanos - modified.unix_nanos) as nat)
        },
        _ => None,
    }
}

/// The heartbeat is there and fresh.
pub open spec fn is_fresh(look: HeartbeatLook) -> bool {
    age_of(look) matches Some(age) && age <= STALE_THRESHOLD_NANOS
}

fn heartbeat_age(look: &HeartbeatLook) -> (age: Option<u128>)
    ensures
        match (age, age_of(*look)) {
            (Some(a), Some(n)) => a == n,
            (None, None) => true,
            _ => false,
        },
{
    let modified: i128 = match (look.kind, look.modified) {
        (Some(kind), Some(modified)) => {
            if kind == FileKind::Symlink {
                return None;
            }
            modified.unix_nanos
        },
        _ => {
            return None;
        },
    };
    let now: i128 = look.now.unix_nanos;
    if now <= modified {
        Some(0)
    } else if modified >= 0 || now < 0 {
        Some((now - modified) as u128)
    } else {
        Some(now as u128 + (-(modified + 1)) as u128 + 1)
    }
}

/// Where the heartbeat is kept: `<state_dir>/runtime/heartbeat`.
pub open spec fn heartbeat_file(state_dir: Seq<char>) -> Seq<char> {
    joined_path(joined_path(state_dir, "runtime"@), "heartbeat"@)
}

/// What to do next to tell whether a heartbeat is fresh.
#[derive(Debug, PartialEq, Eq)]
pub enum FreshNext {
    /// Look at the heartbeat file.
    Look { path: String },
    /// This is the answer.
    Done(bool),
}

/// What to do next to tell whether the heartbeat is fresh.
pub fn heartbeat_fresh(state_dir: &str, look: &Option<HeartbeatLook>) -> (next: FreshNext)
    ensures
        match (*look, next) {
            (None, FreshNext::Look { path }) => path@ == heartbeat_file(state_dir@),
            (Some(look), FreshNext::Done(fresh)) => fresh == is_fresh(look),
            _ => false,
        },
{
    match look {
        None => FreshNext::Look { path: join2(state_dir, "runtime", "heartbeat") },
        Some(look) => match heartbeat_age(look) {
            Some(age) => FreshNext::Done(age <= STALE_THRESHOLD_NANOS),
            None => FreshNext::Done(false),
        },
    }
}

/// What has been learned so far about the process.
#[derive(Debug, PartialEq, Eq)]
pub struct StatusReplies {
    /// The process id that the file tells, if it tells one.
    pub pid: Option<Option<u32>>,
    /// Whether a process of this id runs.
    pub alive: Option<bool>,
    /// What looking at the heartbeat told.
    pub heartbeat: Option<HeartbeatLook>,
}

/// What to do next to tell the status.
#[derive(Debug, PartialEq, Eq)]
pub enum StatusNext {
    /// Read a process id from this file.
    ReadPid { path: String },
    /// Tell whether a process of this id runs.
    CheckProcess { pid: u32 },
    /// Look at the heartbeat file.
    Look { path: String },
    /// This is the status.
    Done(DaemonStatus),
}

/// What to do next to tell the status.
pub enum StatusNextView {
    ReadPid { path: Seq<char> },
    CheckProcess { pid: u32 },
    Look { path: Seq<char> },
    Done(DaemonStatus),
}

impl View for StatusNext {
    type V = StatusNextView;

    open spec fn view(&self) -> StatusNextView {
        match *self {
            StatusNext::ReadPid { path } => StatusNextView::ReadPid { path: path@ },
            StatusNext::CheckProcess { pid } => StatusNextView::CheckProcess { pid },
            StatusNext::Look { path } => StatusNextView::Look { path: path@ },
            StatusNext::Done(status) => StatusNextView::Done(status),
        }
    }
}

/// The rule for the status: a process that runs is alive or stale by its
/// heartbeat.
pub open spec fn status_rule(state_dir: Seq<char>, seen: StatusReplies) -> StatusNextView {
    match seen.pid {
        None => StatusNextView::ReadPid { path: joined_path(state_dir, PID_FILENAME@) },
        Some(None) => StatusNextView::Done(DaemonStatus::NotRunning),
        Some(Some(pid)) => match seen.alive {
            None => StatusNextView::CheckProcess { pid },
            Some(false) => StatusNextView::Done(DaemonStatus::NotRunning),
            Some(true) => match seen.heartbeat {
                None => StatusNextView::Look { path: heartbeat_file(state_dir) },
                Some(look) => if is_fresh(look) {
                    StatusNextView::Done(
                        DaemonStatus::Alive {
                            pid,
                            heartbeat_age_nanos: age_of(look)->0 as u128,
                        },
                    )
                } else {
                    StatusNextView::Done(DaemonStatus::Stale { pid })
                },
            },
        },
    }
}

/// What to do next to tell whether the process runs.
pub fn daemon_status(state_dir: &str, seen: &StatusReplies) -> (next: StatusNext)
    ensures
        next@ == status_rule(state_dir@, *seen),
{
    let pid: u32 = match seen.pid {
        None => {
            return StatusNext::ReadPid { path: join(state_dir, PID_FILENAME) };
        },
        Some(None) => {
            return StatusNext::Done(DaemonStatus::NotRunning);
        },
        Some(Some(pid)) => pid,
    };
    match seen.alive {
        None => StatusNext::CheckProcess { pid },
        Some(false) => StatusNext::Done(DaemonStatus::NotRunning),
        Some(true) => match &seen.heartbeat {
            None => StatusNext::Look { path: join2(state_dir, "runtime", "heartbeat") },
            Some(look) => match heartbeat_age(look) {
                Some(age) => {
                    if age <= STALE_THRESHOLD_NANOS {
                        StatusNext::Done(DaemonStatus::Alive { pid, heartbeat_age_nanos: age })
                    } else {
                        StatusNext::Done(DaemonStatus::Stale { pid })
                    }
                },
                None => StatusNext::Done(DaemonStatus::Stale { pid }),
            },
        },
    }
}

// ── Start ────────────────────────────────────────────────────────────────────

/// What to do next while something is waited for.
#[derive(Debug, PartialEq, Eq)]
pub enum WaitNext {
    /// Sleep, then look again.
    Sleep { millis: u64 },
    /// The wait is over.
    Done(Result<(), DaemonError>),
}

/// What to do next while something is waited for.
pub enum WaitNextView {
    Sleep { millis: u64 },
    Over,
    Failed(DaemonErrorView),
}

impl View for WaitNext {
    type V = WaitNextView;

    open spec fn view(&self) -> WaitNextView {
        match *self {
            WaitNext::Sleep { millis } => WaitNextView::Sleep { millis },
            WaitNext::Done(Ok(())) => WaitNextView::Over,
            WaitNext::Done(Err(err)) => WaitNextView::Failed(err@),
        }
    }
}

/// What to do next about a start, when the status is this after so many
/// milliseconds. Only a process with a fresh heartbeat has started.
pub fn confirm_started(status: &DaemonStatus, elapsed_millis: u64) -> (next: WaitNext)
    ensures
        next@ == (if status is Alive {
            WaitNextView::Over
        } else if elapsed_millis >= SPAWN_CONFIRM_TIMEOUT_MILLIS {
            WaitNextView::Failed(DaemonErrorView::Timeout { op: "daemon start"@ })
        } else {
            WaitNextView::Sleep { millis: SPAWN_POLL_INTERVAL_MILLIS }
        }),
{
    match status {
        DaemonStatus::Alive { .. } => {
            return WaitNext::Done(Ok(()));
        },
        _ => {},
    }
    if elapsed_millis >= SPAWN_CONFIRM_TIMEOUT_MILLIS {
        return WaitNext::Done(Err(DaemonError::Timeout { op: "daemon start" }));
    }
    WaitNext::Sleep { millis: SPAWN_POLL_INTERVAL_MILLIS }
}

/// Mode of the directory that holds the log.
pub const LOG_DIR_MODE: u32 = 0o700;

/// What has been learned so far about a start.
#[derive(Debug, PartialEq, Eq)]
pub struct SpawnReplies {
    /// The status before the start.
    pub status: Option<DaemonStatus>,
    /// The path of this program.
    pub exe: Option<Result<String, IoError>>,
    /// What starting the process came to.
    pub spawned: Option<Result<(), IoError>>,
    /// Whether the start was confirmed in time.
    pub confirmed: Option<bool>,
}

/// What to do next to start the process.
#[derive(Debug, PartialEq, Eq)]
pub enum SpawnNext {
    /// Tell the status of the process of this state directory.
    Status { state_dir: String },
    /// Tell the path of this program.
    CurrentExe,
    /// Start this program detached, with these arguments. Its complaints go to
    /// the end of `log`, in a directory with this mode, or nowhere.
    Spawn { exe: String, args: Vec<&'static str>, log: String, log_dir: String, log_dir_mode: u32 },
    /// Wait for the start to be confirmed by the status of this state
    /// directory.
    Confirm { state_dir: String },
    /// Nothing: the process runs, or could not be started.
    Done(Result<(), DaemonError>),
}

/// What to do next to start the process.
pub enum SpawnNextView {
    Status { state_dir: Seq<char> },
    CurrentExe,
    Spawn {
        exe: Seq<char>,
        args: Seq<Seq<char>>,
        log: Seq<char>,
        log_dir: Seq<char>,
        log_dir_mode: u32,
    },
    Confirm { state_dir: Seq<char> },
    Started,
    Failed(DaemonErrorView),
}

impl View for SpawnNext {
    type V = SpawnNextView;

    open spec fn view(&self) -> SpawnNextView {
        match *self {
            SpawnNext::Status { state_dir } => SpawnNextView::Status { state_dir: state_dir@ },
            SpawnNext::CurrentExe => SpawnNextView::CurrentExe,
            SpawnNext::Spawn { exe, args, log, log_dir, log_dir_mode } => SpawnNextView::Spawn {
                exe: exe@,
                args: slices(args@),
                log: log@,
                log_dir: log_dir@,
                log_dir_mode,
            },
            SpawnNext::Confirm { state_dir } => SpawnNextView::Confirm { state_dir: state_dir@ },
            SpawnNext::Done(Ok(())) => SpawnNextView::Started,
            SpawnNext::Done(Err(err)) => SpawnNextView::Failed(err@),
        }
    }
}

/// The rule for a start: nothing is started where a process runs, stale or
/// not.
pub open spec fn spawn_rule(state_dir: Seq<char>, seen: SpawnReplies) -> SpawnNextView {
    match seen.status {
        None => SpawnNextView::Status { state_dir },
        Some(DaemonStatus::Alive { pid, .. }) => SpawnNextView::Failed(
            DaemonErrorView::AlreadyRunning { pid: Some(pid) },
        ),
        Some(DaemonStatus::Stale { pid }) => SpawnNextView::Failed(
            DaemonErrorView::AlreadyRunning { pid: Some(pid) },
        ),
        Some(DaemonStatus::NotRunning) => match seen.exe {
            None => SpawnNextView::CurrentExe,
            Some(Err(e)) => SpawnNextView::Failed(
                DaemonErrorView::Io { path: "<current_exe>"@, source: e@ },
            ),
            Some(Ok(exe)) => match seen.spawned {
                None => SpawnNextView::Spawn {
                    exe: exe@,
                    args: seq!["daemon"@, "run-internal"@],
                    log: joined_path(state_dir, "daemon.log"@),
                    log_dir: state_dir,
                    log_dir_mode: LOG_DIR_MODE,
                },
                Some(Err(e)) => SpawnNextView::Failed(
                    DaemonErrorView::Io { path: exe@, source: e@ },
                ),
                Some(Ok(())) => match seen.confirmed {
                    None => SpawnNextView::Confirm { state_dir },
                    Some(true) => SpawnNextView::Started,
                    Some(false) => SpawnNextView::Failed(
                        DaemonErrorView::Timeout { op: "daemon start"@ },
                    ),
                },
            },
        },
    }
}

fn run_internal_args() -> (args: Vec<&'static str>)
    ensures
        slices(args@) == seq!["daemon"@, "run-internal"@],
{
    let args: Vec<&'static str> = vec!["daemon", "run-internal"];
    assert(slices(args@) =~= seq!["daemon"@, "run-internal"@]);
    args
}

/// What to do next to start the process in the background.
pub fn daemon_spawn(state_dir: &str, seen: &SpawnReplies) -> (next: SpawnNext)
    ensures
        next@ == spawn_rule(state_dir@, *seen),
{
    match seen.status {
        None => {
            return SpawnNext::Status { state_dir: state_dir.to_owned() };
        },
        Some(DaemonStatus::Alive { pid, .. }) => {
            return SpawnNext::Done(Err(DaemonError::AlreadyRunning { pid: Some(pid) }));
        },
        Some(DaemonStatus::Stale { pid }) => {
            return SpawnNext::Done(Err(DaemonError::AlreadyRunning { pid: Some(pid) }));
        },
        Some(DaemonStatus::NotRunning) => {},
    }
    let exe: &String = match &seen.exe {
        None => {
            return SpawnNext::CurrentExe;
        },
        Some(Err(err)) => {
            return SpawnNext::Done(
                Err(DaemonError::Io { path: "<current_exe>".to_owned(), source: err.clone() }),
            );
        },
        Some(Ok(exe)) => exe,
    };
    match &seen.spawned {
        None => SpawnNext::Spawn {
            exe: exe.clone(),
            args: run_internal_args(),
            log: join(state_dir, "daemon.log"),
            log_dir: state_dir.to_owned(),
            log_dir_mode: LOG_DIR_MODE,
        },
        Some(Err(err)) => SpawnNext::Done(
            Err(DaemonError::Io { path: exe.clone(), source: err.clone() }),
        ),
        Some(Ok(())) => match seen.confirmed {
            None => SpawnNext::Confirm { state_dir: state_dir.to_owned() },
            Some(true) => SpawnNext::Done(Ok(())),
            Some(false) => SpawnNext::Done(Err(DaemonError::Timeout { op: "daemon start" })),
        },
    }
}

// ── Stop ─────────────────────────────────────────────────────────────────────

/// What to do next about an exit, when the process is alive or not after so
/// many milliseconds.
pub fn wait_for_exit(alive: bool, elapsed_millis: u64, timeout_millis: u64) -> (next: WaitNext)
    ensures
        next@ == (if !alive {
            WaitNextView::Over
        } else if elapsed_millis >= timeout_millis {
            WaitNextView::Failed(DaemonErrorView::Timeout { op: "daemon stop"@ })
        } else {
            WaitNextView::Sleep { millis: STOP_POLL_INTERVAL_MILLIS }
        }),
{
    if !alive {
        return WaitNext::Done(Ok(()));
    }
    if elapsed_millis >= timeout_millis {
        return WaitNext::Done(Err(DaemonError::Timeout { op: "daemon stop" }));
    }
    WaitNext::Sleep { millis: STOP_POLL_INTERVAL_MILLIS }
}

/// What asking a process to terminate came to.
#[derive(Debug, PartialEq, Eq)]
pub enum KillOutcome {
    /// The signal was sent.
    Sent,
    /// The command ended otherwise; holds its exit status in words.
    Exited(String),
    /// The command could not be run.
    Unrunnable(IoError),
}

/// The failure to send a signal, if it is one.
pub open spec fn signal_failure(pid: u32, outcome: KillOutcome) -> Option<DaemonErrorView> {
    match outcome {
        KillOutcome::Sent => None,
        KillOutcome::Exited(status) => Some(
            DaemonErrorView::Signal {
                pid,
                source: IoErrorView {
                    kind: IoKind::Other,
                    message: "kill -15 exited with "@ + status@,
                },
            },
        ),
        KillOutcome::Unrunnable(e) => Some(DaemonErrorView::Signal { pid, source: e@ }),
    }
}

fn send_sigterm(pid: u32, outcome: &KillOutcome) -> (out: Result<(), DaemonError>)
    ensures
        match (out, signal_failure(pid, *outcome)) {
            (Ok(()), None) => true,
            (Err(err), Some(e)) => err@ == e,
            _ => false,
        },
{
    match outcome {
        KillOutcome::Sent => Ok(()),
        KillOutcome::Exited(status) => {
            let mut message: String = "kill -15 exited with ".to_owned();
            message.append(status.as_str());
            Err(DaemonError::Signal { pid, source: IoError { kind: IoKind::Other, message } })
        },
        KillOutcome::Unrunnable(err) => Err(DaemonError::Signal { pid, source: err.clone() }),
    }
}

/// What has been learned so far about a stop.
#[derive(Debug, PartialEq, Eq)]
pub struct StopReplies {
    /// The process id that the file tells, if it tells one.
    pub pid: Option<Option<u32>>,
    /// Whether a process of this id runs.
    pub alive: Option<bool>,
    /// What asking it to terminate came to.
    pub terminated: Option<KillOutcome>,
    /// Whether it exited in time.
    pub exited: Option<bool>,
    /// Whether it was killed. What that came to does not matter.
    pub killed: bool,
    /// Whether the wait after that is over. Whether it exited then does not
    /// matter either.
    pub waited_killed: bool,
}

/// What to do next to stop the process.
#[derive(Debug, PartialEq, Eq)]
pub enum StopNext {
    /// Read a process id from this file.
    ReadPid { path: String },
    /// Tell whether a process of this id runs.
    CheckProcess { pid: u32 },
    /// Ask it to terminate.
    Terminate { pid: u32 },
    /// Wait for its exit.
    Wait { pid: u32, timeout_millis: u64 },
    /// Kill it.
    Kill { pid: u32 },
    /// Nothing: the process is gone, or could not be stopped.
    Done(Result<(), DaemonError>),
}

/// What to do next to stop the process.
pub enum StopNextView {
    ReadPid { path: Seq<char> },
    CheckProcess { pid: u32 },
    Terminate { pid: u32 },
    Wait { pid: u32, timeout_millis: u64 },
    Kill { pid: u32 },
    Stopped,
    Failed(DaemonErrorView),
}

impl View for StopNext {
    type V = StopNextView;

    open spec fn view(&self) -> StopNextView {
        match *self {
            StopNext::ReadPid { path } => StopNextView::ReadPid { path: path@ },
            StopNext::CheckProcess { pid } => StopNextView::CheckProcess { pid },
            StopNext::Terminate { pid } => StopNextView::Terminate { pid },
            StopNext::Wait { pid, timeout_millis } => StopNextView::Wait { pid, timeout_millis },
            StopNext::Kill { pid } => StopNextView::Kill { pid },
            StopNext::Done(Ok(())) => StopNextView::Stopped,
            StopNext::Done(Err(err)) => StopNextView::Failed(err@),
        }
    }
}

/// The rule for a stop: a process is asked to terminate. Where it does not
/// exit in time it is killed, and the stop has timed out all the same.
pub open spec fn stop_rule(state_dir: Seq<char>, seen: StopReplies) -> StopNextView {
    match seen.pid {
        None => StopNextView::ReadPid { path: joined_path(state_dir, PID_FILENAME@) },
        Some(None) => StopNextView::Failed(DaemonErrorView::NoRuntime),
        Some(Some(pid)) => match seen.alive {
            None => StopNextView::CheckProcess { pid },
            Some(false) => StopNextView::Failed(DaemonErrorView::NoRuntime),
            Some(true) => match seen.terminated {
                None => StopNextView::Terminate { pid },
                Some(outcome) => match signal_failure(pid, outcome) {
                    Some(err) => StopNextView::Failed(err),
                    None => match seen.exited {
                        None => StopNextView::Wait { pid, timeout_millis: STOP_TIMEOUT_MILLIS },
                        Some(true) => StopNextView::Stopped,
                        Some(false) => if !seen.killed {
                            StopNextView::Kill { pid }
                        } else if !seen.waited_killed {
                            StopNextView::Wait { pid, timeout_millis: KILL_TIMEOUT_MILLIS }
                        } else {
                            StopNextView::Failed(DaemonErrorView::Timeout { op: "daemon stop"@ })
                        },
                    },
                },
            },
        },
    }
}

/// What to do next to stop the process.
pub fn daemon_stop(state_dir: &str, seen: &StopReplies) -> (next: StopNext)
    ensures
        next@ == stop_rule(state_dir@, *seen),
{
    let pid: u32 = match seen.pid {
        None => {
            return StopNext::ReadPid { path: join(state_dir, PID_FILENAME) };
        },
        Some(None) => {
            return StopNext::Done(Err(DaemonError::NoRuntime));
        },
        Some(Some(pid)) => pid,
    };
    match seen.alive {
        None => {
            return StopNext::CheckProcess { pid };
        },
        Some(false) => {
            return StopNext::Done(Err(DaemonError::NoRuntime));
        },
        Some(true) => {},
    }
    match &seen.terminated {
        None => {
            return StopNext::Terminate { pid };
        },
        Some(outcome) => match send_sigterm(pid, outcome) {
            Ok(()) => {},
            Err(err) => {
                return StopNext::Done(Err(err));
            },
        },
    }
    match seen.exited {
        None => {
            return StopNext::Wait { pid, timeout_millis: STOP_TIMEOUT_MILLIS };
        },
        Some(true) => {
            return StopNext::Done(Ok(()));
        },
        Some(false) => {},
    }
    if !seen.killed {
        return StopNext::Kill { pid };
    }
    if !seen.waited_killed {
        return StopNext::Wait { pid, timeout_millis: KILL_TIMEOUT_MILLIS };
    }
    StopNext::Done(Err(DaemonError::Timeout { op: "daemon stop" }))
}

// ── Laws ─────────────────────────────────────────────────────────────────────

/// A process is alive exactly when it runs and its heartbeat is fresh, so the
/// status and the heartbeat never disagree.
pub proof fn law_alive_means_fresh(state_dir: Seq<char>, seen: StatusReplies)
    ensures
        status_rule(state_dir, seen) matches StatusNextView::Done(status) ==> (status is Alive
            <==> {
            &&& seen.pid matches Some(Some(_))
            &&& seen.alive == Some(true)
            &&& seen.heartbeat matches Some(look) && is_fresh(look)
        }),
{
}

/// Only one process is started: where one runs, a start is refused with its
/// id.
pub proof fn law_no_second_start(state_dir: Seq<char>, seen: SpawnReplies)
    ensures
        spawn_rule(state_dir, seen) is Spawn ==> seen.status == Some(DaemonStatus::NotRunning),
        spawn_rule(state_dir, seen) is Started ==> seen.confirmed == Some(true),
{
}

/// A process is killed only after it was asked to terminate and did not exit
/// in time, and a stop succeeds only where it did.
pub proof fn law_kill_is_the_last_resort(state_dir: Seq<char>, seen: StopReplies)
    ensures
        stop_rule(state_dir, seen) is Kill ==> seen.terminated == Some(KillOutcome::Sent)
            && seen.exited == Some(false),
        stop_rule(state_dir, seen) is Stopped ==> seen.exited == Some(true),
{
}

/// How long ago something was modified; nothing is from the future.
pub open spec fn age(now: Timestamp, modified: Timestamp) -> int {
    if now.unix_nanos <= modified.unix_nanos {
        0
    } else {
        now.unix_nanos - modified.unix_nanos
    }
}

/// The status tells of the process whose id the file holds: it is alive where
/// the process runs and its heartbeat, no link, is at most two seconds old, and
/// the age that is told is that one; it is stale where the process runs and the
/// heartbeat is older or absent; and it does not run where there is no id or no
/// such process.
pub proof fn law_status_is_that_of_the_process(state_dir: Seq<char>, seen: StatusReplies)
    ensures
        match (seen.pid, seen.alive, seen.heartbeat) {
            (None, _, _) => status_rule(state_dir, seen) == (StatusNextView::ReadPid {
                path: joined_path(state_dir, "runtime.pid"@),
            }),
            (Some(None), _, _) => status_rule(state_dir, seen) == StatusNextView::Done(
                DaemonStatus::NotRunning,
            ),
            (Some(Some(pid)), None, _) => status_rule(state_dir, seen)
                == (StatusNextView::CheckProcess { pid }),
            (Some(Some(pid)), Some(false), _) => status_rule(state_dir, seen)
                == StatusNextView::Done(DaemonStatus::NotRunning),
            (Some(Some(pid)), Some(true), None) => status_rule(state_dir, seen)
                == (StatusNextView::Look {
                path: joined_path(joined_path(state_dir, "runtime"@), "heartbeat"@),
            }),
            (Some(Some(pid)), Some(true), Some(look)) => match (look.kind, look.modified) {
                (Some(kind), Some(modified)) => if kind != FileKind::Symlink && age(
                    look.now,
                    modified,
                ) <= 2_000_000_000 {
                    status_rule(state_dir, seen) matches StatusNextView::Done(DaemonStatus::Alive {
                        pid: p,
                        heartbeat_age_nanos,
                    }) && p == pid && heartbeat_age_nanos == age(look.now, modified)
                } else {
                    status_rule(state_dir, seen) == StatusNextView::Done(
                        DaemonStatus::Stale { pid },
                    )
                },
                _ => status_rule(state_dir, seen) == StatusNextView::Done(
                    DaemonStatus::Stale { pid },
                ),
            },
        },
{
}

/// A start goes its way step by step: the status is told first, and a process
/// that runs, fresh or stale, is named in the refusal; else this very program is
/// started as the background process, with its log in the state directory, and
/// counts as started only once that is confirmed.
pub proof fn law_starts_go_step_by_step(state_dir: Seq<char>, seen: SpawnReplies)
    ensures
        ({
            let next = spawn_rule(state_dir, seen);
            match (seen.status, seen.exe, seen.spawned, seen.confirmed) {
                (None, _, _, _) => next == (SpawnNextView::Status { state_dir }),
                (Some(DaemonStatus::Alive { pid, .. }), _, _, _) => next == SpawnNextView::Failed(
                    DaemonErrorView::AlreadyRunning { pid: Some(pid) },
                ),
                (Some(DaemonStatus::Stale { pid }), _, _, _) => next == SpawnNextView::Failed(
                    DaemonErrorView::AlreadyRunning { pid: Some(pid) },
                ),
                (Some(DaemonStatus::NotRunning), None, _, _) => next is CurrentExe,
                (Some(DaemonStatus::NotRunning), Some(Err(e)), _, _) => next
                    == SpawnNextView::Failed(
                    DaemonErrorView::Io { path: "<current_exe>"@, source: e@ },
                ),
                (Some(DaemonStatus::NotRunning), Some(Ok(exe)), None, _) => next
                    == SpawnNextView::Spawn {
                    exe: exe@,
                    args: seq!["daemon"@, "run-internal"@],
                    log: joined_path(state_dir, "daemon.log"@),
                    log_dir: state_dir,
                    log_dir_mode: 0o700,
                },
                (Some(DaemonStatus::NotRunning), Some(Ok(exe)), Some(Err(e)), _) => next
                    == SpawnNextView::Failed(DaemonErrorView::Io { path: exe@, source: e@ }),
                (Some(DaemonStatus::NotRunning), Some(Ok(_)), Some(Ok(())), None) => next
                    == (SpawnNextView::Confirm { state_dir }),
                (Some(DaemonStatus::NotRunning), Some(Ok(_)), Some(Ok(())), Some(true)) => next
                    is Started,
                (Some(DaemonStatus::NotRunning), Some(Ok(_)), Some(Ok(())), Some(false)) => next
                    == SpawnNextView::Failed(DaemonErrorView::Timeout { op: "daemon start"@ }),
            }
        }),
{
}

/// A stop goes its way step by step, always about the process whose id the file
/// holds: it is asked to terminate and waited for, five seconds at most; only
/// then is it killed and waited for, two seconds at most, and the stop has timed
/// out.
pub proof fn law_stops_go_step_by_step(state_dir: Seq<char>, seen: StopReplies)
    ensures
        ({
            let next = stop_rule(state_dir, seen);
            match (seen.pid, seen.alive, seen.terminated, seen.exited) {
                (None, _, _, _) => next == (StopNextView::ReadPid {
                    path: joined_path(state_dir, "runtime.pid"@),
                }),
                (Some(None), _, _, _) => next == StopNextView::Failed(DaemonErrorView::NoRuntime),
                (Some(Some(pid)), None, _, _) => next == (StopNextView::CheckProcess { pid }),
                (Some(Some(_)), Some(false), _, _) => next == StopNextView::Failed(
                    DaemonErrorView::NoRuntime,
                ),
                (Some(Some(pid)), Some(true), None, _) => next == (StopNextView::Terminate { pid }),
                (Some(Some(pid)), Some(true), Some(KillOutcome::Exited(status)), _) => next
                    == StopNextView::Failed(
                    DaemonErrorView::Signal {
                        pid,
                        source: IoErrorView {
                            kind: IoKind::Other,
                            message: "kill -15 exited with "@ + status@,
                        },
                    },
                ),
                (Some(Some(pid)), Some(true), Some(KillOutcome::Unrunnable(e)), _) => next
                    == StopNextView::Failed(DaemonErrorView::Signal { pid, source: e@ }),
                (Some(Some(pid)), Some(true), Some(KillOutcome::Sent), None) => next
                    == (StopNextView::Wait { pid, timeout_millis: 5_000 }),
                (Some(Some(_)), Some(true), Some(KillOutcome::Sent), Some(true)) => next is Stopped,
                (Some(Some(pid)), Some(true), Some(KillOutcome::Sent), Some(false)) => if !seen.killed {
                    next == (StopNextView::Kill { pid })
                } else if !seen.waited_killed {
                    next == (StopNextView::Wait { pid, timeout_millis: 2_000 })
                } else {
                    next == StopNextView::Failed(DaemonErrorView::Timeout { op: "daemon stop"@ })
                },
            }
        }),
{
}

} // verus!
