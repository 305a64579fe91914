//! Filesystem layout of the data directory and of an agent's subtree.

use vstd::prelude::*;
use vstd::string::*;

use crate::fs_util::{
    check_view, data_root, resolve_reeve_data_root, set_value, FsCheckError, FsCheckView,
    XdgBaseError, XdgBaseView,
};
use crate::identity::texts;
use crate::io_error::{IoError, IoErrorView, IoKind};
use crate::paths::{join, join2, joined_path, parent, parent_path, plain_component};
use crate::text::{control_char, is_control_char, octal, same_text, to_chars, write_octal};

verus! {

/// Mode of an agent's directories.
pub const AGENT_DIR_MODE: u32 = 0o700;

/// Mode of an agent's files.
pub const AGENT_FILE_MODE: u32 = 0o600;

/// Failures of agent filesystem operations.
#[derive(Debug, PartialEq, Eq)]
pub enum AgentFsError {
    /// A filesystem operation on `path` failed.
    Io { path: String, source: IoError },
    /// JSON could not be written or read; holds the complaint.
    Json(String),
}

/// What an agent filesystem failure holds.
pub enum AgentFsView {
    Io { path: Seq<char>, source: IoErrorView },
    Json(Seq<char>),
}

impl View for AgentFsError {
    type V = AgentFsView;

    open spec fn view(&self) -> AgentFsView {
        match *self {
            AgentFsError::Io { path, source } => AgentFsView::Io { path: path@, source: source@ },
            AgentFsError::Json(source) => AgentFsView::Json(source@),
        }
    }
}

impl AgentFsView {
    /// What a reader is shown.
    pub open spec fn shown(self) -> Seq<char> {
        match self {
            AgentFsView::Io { path, source } => "agent fs IO at "@ + path + ": "@ + source.message,
            AgentFsView::Json(source) => "agent fs json: "@ + source,
        }
    }

    /// How a failed directory check is reported.
    pub open spec fn of_check(err: FsCheckView) -> AgentFsView {
        match err {
            FsCheckView::Io { path, source } => AgentFsView::Io { path, source },
            FsCheckView::Symlink { path } => AgentFsView::Io {
                path,
                source: IoErrorView {
                    kind: IoKind::InvalidInput,
                    message: "agent directory is a symlink; runtime refuses to follow it"@,
                },
            },
            FsCheckView::NotADirectory { path } => AgentFsView::Io {
                path,
                source: IoErrorView {
                    kind: IoKind::InvalidInput,
                    message: "agent path exists but is not a directory"@,
                },
            },
            FsCheckView::WrongMode { path, actual, expected } => AgentFsView::Io {
                path,
                source: IoErrorView {
                    kind: IoKind::PermissionDenied,
                    message: "agent directory has mode 0o"@ + octal(actual as nat)
                        + ", expected 0o"@ + octal(expected as nat),
                },
            },
        }
    }
}

impl AgentFsError {
    /// What a reader is shown.
    pub fn to_string(&self) -> (text: String)
        ensures
            text@ == self@.shown(),
    {
        match self {
            AgentFsError::Io { path, source } => {
                let mut text: String = "agent fs IO at ".to_owned();
                text.append(path.as_str());
                text.append(": ");
                text.append(source.message.as_str());
                text
            },
            AgentFsError::Json(source) => {
                let mut text: String = "agent fs json: ".to_owned();
                text.append(source.as_str());
                text
            },
        }
    }
}

impl AgentFsError {
    /// Reports a failed check of an agent directory.
    pub fn from_fs(err: FsCheckError) -> (out: AgentFsError)
        ensures
            out@ == AgentFsView::of_check(err@),
    {
        match err {
            FsCheckError::Io { path, source } => AgentFsError::Io { path, source },
            FsCheckError::Symlink { path } => AgentFsError::Io {
                path,
                source: IoError::new(
                    IoKind::InvalidInput,
                    "agent directory is a symlink; runtime refuses to follow it",
                ),
            },
            FsCheckError::NotADirectory { path } => AgentFsError::Io {
                path,
                source: IoError::new(
                    IoKind::InvalidInput,
                    "agent path exists but is not a directory",
                ),
            },
            FsCheckError::WrongMode { path, actual, expected } => {
                let mut message: String = "agent directory has mode 0o".to_owned();
                message.append(write_octal(actual).as_str());
                message.append(", expected 0o");
                message.append(write_octal(expected).as_str());
                AgentFsError::Io {
                    path,
                    source: IoError { kind: IoKind::PermissionDenied, message },
                }
            },
        }
    }
}

impl Clone for AgentFsError {
    fn clone(&self) -> (err: AgentFsError)
        ensures
            err@ == self@,
    {
        match self {
            AgentFsError::Io { path, source } => AgentFsError::Io {
                path: path.clone(),
                source: source.clone(),
            },
            AgentFsError::Json(source) => AgentFsError::Json(source.clone()),
        }
    }
}

// ── Agent names ──────────────────────────────────────────────────────────────

/// A name that an agent may have: a single path component without control
/// characters.
pub open spec fn valid_agent_name(name: Seq<char>) -> bool {
    &&& plain_component(name)
    &&& forall|i: int| 0 <= i < name.len() ==> !control_char(#[trigger] name[i])
}

/// The refusal of a name.
pub open spec fn name_refusal(name: Seq<char>) -> AgentFsView {
    AgentFsView::Io {
        path: name,
        source: IoErrorView {
            kind: IoKind::InvalidInput,
            message: "agent name must be a non-empty single path component with no slashes"@,
        },
    }
}

/// Whether `name` may name an agent.
pub fn is_valid_agent_name(name: &str) -> (yes: bool)
    ensures
        yes == valid_agent_name(name@),
{
    if name.is_empty() || same_text(name, ".") || same_text(name, "..") {
        return false;
    }
    let chars: Vec<char> = to_chars(name);
    let mut i: usize = 0;
    while i < chars.len()
        invariant
            chars@ == name@,
            i <= chars@.len(),
            forall|k: int| 0 <= k < i ==> name@[k] != '/' && !control_char(#[trigger] name@[k]),
        decreases chars.len() - i,
    {
        let c: char = chars[i];
        if c == '/' || is_control_char(c) {
            assert(c == '/' ==> name@.contains('/')) by {
                assert(name@[i as int] == c);
            }
            return false;
        }
        i = i + 1;
    }
    true
}

/// Refuses a name that could lead outside of the agents' subtree.
pub fn validate_agent_name(name: &str) -> (out: Result<(), AgentFsError>)
    ensures
        match out {
            Ok(()) => valid_agent_name(name@),
            Err(err) => !valid_agent_name(name@) && err@ == name_refusal(name@),
        },
{
    if is_valid_agent_name(name) {
        return Ok(());
    }
    Err(
        AgentFsError::Io {
            path: name.to_owned(),
            source: IoError::new(
                IoKind::InvalidInput,
                "agent name must be a non-empty single path component with no slashes",
            ),
        },
    )
}

// ── RuntimeLayout ────────────────────────────────────────────────────────────

/// The layout of the data directory.
///
/// ```text
/// <root>/
///   identities/<uuid>.toml
///   personas/<name>/config.toml
///   personas/<name>/profile.toml
///   agents/<name>/...
///   teams/<name>.toml
///   engagements/<name>/record.toml
///   rosters/
///   system/registry.toml
///   blacklist.toml
/// ```
#[derive(Debug, PartialEq, Eq)]
pub struct RuntimeLayout {
    root: String,
}

impl View for RuntimeLayout {
    type V = Seq<char>;

    closed spec fn view(&self) -> Seq<char> {
        self.root@
    }
}

impl RuntimeLayout {
    /// The layout below `root`.
    pub fn new(root: &str) -> (layout: RuntimeLayout)
        ensures
            layout@ == root@,
    {
        RuntimeLayout { root: root.to_owned() }
    }

    /// The data root.
    pub fn root(&self) -> (path: &str)
        ensures
            path@ == self@,
    {
        self.root.as_str()
    }

    /// Directory of a persona: `<root>/personas/<name>`.
    pub fn persona_dir(&self, name: &str) -> (path: String)
        ensures
            path@ == joined_path(joined_path(self@, "personas"@), name@),
    {
        join2(self.root.as_str(), "personas", name)
    }

    /// Configuration of a persona: `<root>/personas/<name>/config.toml`.
    pub fn persona_config_path(&self, name: &str) -> (path: String)
        ensures
            path@ == joined_path(
                joined_path(joined_path(self@, "personas"@), name@),
                "config.toml"@,
            ),
    {
        join(self.persona_dir(name).as_str(), "config.toml")
    }

    /// Capability profile of a persona: `<root>/personas/<name>/profile.toml`.
    pub fn persona_profile_path(&self, name: &str) -> (path: String)
        ensures
            path@ == joined_path(
                joined_path(joined_path(self@, "personas"@), name@),
                "profile.toml"@,
            ),
    {
        join(self.persona_dir(name).as_str(), "profile.toml")
    }

    /// Directory of all personas: `<root>/personas`.
    pub fn personas_root(&self) -> (path: String)
        ensures
            path@ == joined_path(self@, "personas"@),
    {
        join(self.root.as_str(), "personas")
    }

    /// Directory of all agents: `<root>/agents`.
    pub fn agents_root(&self) -> (path: String)
        ensures
            path@ == joined_path(self@, "agents"@),
    {
        join(self.root.as_str(), "agents")
    }

    /// Agent registry: `<root>/agents/registry.toml`.
    pub fn agent_registry_path(&self) -> (path: String)
        ensures
            path@ == joined_path(joined_path(self@, "agents"@), "registry.toml"@),
    {
        join(self.agents_root().as_str(), "registry.toml")
    }

    /// The directories of the named agent; refuses a name that none may have.
    pub fn agent_dirs(&self, name: &str) -> (out: Result<AgentDirs, AgentFsError>)
        ensures
            match out {
                Ok(dirs) => valid_agent_name(name@) && dirs@ == agent_root(self@, name@),
                Err(err) => !valid_agent_name(name@) && err@ == name_refusal(name@),
            },
    {
        AgentDirs::open(self.root.as_str(), name)
    }

    /// Configuration of a team: `<root>/teams/<name>.toml`.
    pub fn team_config_path(&self, name: &str) -> (path: String)
        ensures
            path@ == joined_path(joined_path(self@, "teams"@), name@) + ".toml"@,
    {
        let mut path: String = join2(self.root.as_str(), "teams", name);
        path.append(".toml");
        path
    }

    /// Directory of all engagements: `<root>/engagements`.
    pub fn engagements_root(&self) -> (path: String)
        ensures
            path@ == joined_path(self@, "engagements"@),
    {
        join(self.root.as_str(), "engagements")
    }

    /// Directory of an engagement: `<root>/engagements/<name>`.
    pub fn engagement_dir(&self, name: &str) -> (path: String)
        ensures
            path@ == joined_path(joined_path(self@, "engagements"@), name@),
    {
        join(self.engagements_root().as_str(), name)
    }

    /// Record of an engagement: `<root>/engagements/<name>/record.toml`.
    pub fn engagement_record_path(&self, name: &str) -> (path: String)
        ensures
            path@ == joined_path(
                joined_path(joined_path(self@, "engagements"@), name@),
                "record.toml"@,
            ),
    {
        join(self.engagement_dir(name).as_str(), "record.toml")
    }

    /// Directory of the rosters of formed teams: `<root>/rosters`.
    pub fn rosters_root(&self) -> (path: String)
        ensures
            path@ == joined_path(self@, "rosters"@),
    {
        join(self.root.as_str(), "rosters")
    }

    /// Directory of the identities: `<root>/identities`.
    pub fn identities_root(&self) -> (path: String)
        ensures
            path@ == joined_path(self@, "identities"@),
    {
        join(self.root.as_str(), "identities")
    }

    /// Blacklist: `<root>/blacklist.toml`.
    pub fn blacklist_path(&self) -> (path: String)
        ensures
            path@ == joined_path(self@, "blacklist.toml"@),
    {
        join(self.root.as_str(), "blacklist.toml")
    }

    /// Registry of the runtime's own actors: `<root>/system/registry.toml`.
    pub fn system_registry_path(&self) -> (path: String)
        ensures
            path@ == joined_path(joined_path(self@, "system"@), "registry.toml"@),
    {
        join2(self.root.as_str(), "system", "registry.toml")
    }
}

// ── Data root ────────────────────────────────────────────────────────────────

/// Why the data root could not be found.
#[derive(Debug, PartialEq, Eq)]
pub enum DataRootError {
    /// Neither `$HOME` nor `$XDG_DATA_HOME` was set, or both were empty.
    MissingHome,
    /// The variable named holds a relative path.
    RelativeDir { var_name: &'static str, path: String },
}

impl View for DataRootError {
    type V = XdgBaseView;

    open spec fn view(&self) -> XdgBaseView {
        match *self {
            DataRootError::MissingHome => XdgBaseView::MissingHome,
            DataRootError::RelativeDir { var_name, path } => XdgBaseView::RelativeDir {
                var_name: var_name@,
                path: path@,
            },
        }
    }
}

impl DataRootError {
    /// What a reader is shown.
    pub open spec fn shown(err: XdgBaseView) -> Seq<char> {
        match err {
            XdgBaseView::MissingHome => "resolving the reeve data root requires HOME or XDG_DATA_HOME"@,
            XdgBaseView::RelativeDir { var_name, path } => var_name + " must be absolute, got "@
                + path,
        }
    }

    /// What a reader is shown.
    pub fn to_string(&self) -> (text: String)
        ensures
            text@ == DataRootError::shown(self@),
    {
        match self {
            DataRootError::MissingHome => {
                "resolving the reeve data root requires HOME or XDG_DATA_HOME".to_owned()
            },
            DataRootError::RelativeDir { var_name, path } => {
                let name: &str = var_name;
                let mut text: String = name.to_owned();
                text.append(" must be absolute, got ");
                text.append(path.as_str());
                text
            },
        }
    }
}

/// Finds the data root from the values of `$XDG_DATA_HOME` and `$HOME`:
/// `reeve` under the former, else under `.local/share` of the latter.
pub fn default_data_root(xdg: Option<&str>, home: Option<&str>) -> (out: Result<
    String,
    DataRootError,
>)
    ensures
        match out {
            Ok(root) => data_root(set_value(xdg), set_value(home)) == Ok::<Seq<char>, XdgBaseView>(
                root@,
            ),
            Err(err) => data_root(set_value(xdg), set_value(home)) == Err::<Seq<char>, XdgBaseView>(
                err@,
            ),
        },
{
    match resolve_reeve_data_root(xdg, home) {
        Ok(root) => Ok(root),
        Err(XdgBaseError::MissingHome) => Err(DataRootError::MissingHome),
        Err(XdgBaseError::RelativeDir { var_name, path }) => Err(
            DataRootError::RelativeDir { var_name, path },
        ),
    }
}

// ── AgentDirs ────────────────────────────────────────────────────────────────

/// Root of an agent's directories: `<data_dir>/agents/<name>`.
pub open spec fn agent_root(data_dir: Seq<char>, name: Seq<char>) -> Seq<char> {
    joined_path(joined_path(data_dir, "agents"@), name)
}

/// The directories an agent needs, parents first.
pub open spec fn agent_directories(data_dir: Seq<char>, name: Seq<char>) -> Seq<Seq<char>> {
    let root = agent_root(data_dir, name);
    let inbox = joined_path(root, "inbox"@);
    seq![
        joined_path(data_dir, "agents"@),
        root,
        inbox,
        joined_path(inbox, "tmp"@),
        joined_path(inbox, "new"@),
        joined_path(inbox, "cur"@),
        joined_path(inbox, "quarantine"@),
        joined_path(inbox, "archive"@),
        joined_path(root, "log"@),
    ]
}

fn root_path(data_dir: &str, name: &str) -> (path: String)
    ensures
        path@ == agent_root(data_dir@, name@),
{
    join2(data_dir, "agents", name)
}

fn dirs_to_provision(data_dir: &str, name: &str) -> (dirs: Vec<String>)
    ensures
        texts(dirs@) == agent_directories(data_dir@, name@),
{
    let root: String = root_path(data_dir, name);
    let inbox: String = join(root.as_str(), "inbox");
    let agents: String = join(data_dir, "agents");
    let tmp: String = join(inbox.as_str(), "tmp");
    let new: String = join(inbox.as_str(), "new");
    let cur: String = join(inbox.as_str(), "cur");
    let quarantine: String = join(inbox.as_str(), "quarantine");
    let archive: String = join(inbox.as_str(), "archive");
    let log: String = join(root.as_str(), "log");
    let dirs: Vec<String> = vec![agents, root, inbox, tmp, new, cur, quarantine, archive, log];
    assert(texts(dirs@) =~= agent_directories(data_dir@, name@));
    dirs
}

/// The directories of an agent.
#[derive(Debug, PartialEq, Eq)]
pub struct AgentDirs {
    root: String,
}

impl View for AgentDirs {
    type V = Seq<char>;

    closed spec fn view(&self) -> Seq<char> {
        self.root@
    }
}

/// What to do next to provision an agent's directories.
#[derive(Debug)]
pub enum ProvisionNext {
    /// Make sure that this directory is there with this mode.
    EnsureDirectory { path: String, mode: u32 },
    /// Nothing: the directories are there, or cannot be had.
    Done(Result<AgentDirs, AgentFsError>),
}

/// What each directory check of a sequence came to.
pub open spec fn checks_view(v: Seq<Result<(), FsCheckError>>) -> Seq<Result<(), FsCheckView>> {
    v.map_values(|r: Result<(), FsCheckError>| check_view(r))
}

impl AgentDirs {
    /// What to do next so that all of an agent's directories are there, when
    /// making sure of the first of them came to `checks`. The first that
    /// fails is reported. Directories that are there already are accepted.
    pub fn provision(data_dir: &str, name: &str, checks: &Vec<Result<(), FsCheckError>>) -> (next:
        ProvisionNext)
        ensures
            ({
                let dirs = agent_directories(data_dir@, name@);
                match next {
                    ProvisionNext::Done(Err(err)) => {
                        ||| !valid_agent_name(name@) && err@ == name_refusal(name@)
                        ||| valid_agent_name(name@) && exists|i: int|
                            0 <= i < checks@.len() && (forall|j: int|
                                0 <= j < i ==> checks_view(checks@)[j] is Ok) && (
                            #[trigger] checks_view(checks@)[i] matches Err(e) && err@
                                == AgentFsView::of_check(e))
                    },
                    ProvisionNext::EnsureDirectory { path, mode } => {
                        &&& valid_agent_name(name@)
                        &&& forall|i: int| 0 <= i < checks@.len() ==> checks_view(checks@)[i] is Ok
                        &&& checks@.len() < dirs.len()
                        &&& path@ == dirs[checks@.len() as int]
                        &&& mode == AGENT_DIR_MODE
                    },
                    ProvisionNext::Done(Ok(made)) => {
                        &&& valid_agent_name(name@)
                        &&& forall|i: int| 0 <= i < checks@.len() ==> checks_view(checks@)[i] is Ok
                        &&& checks@.len() >= dirs.len()
                        &&& made@ == agent_root(data_dir@, name@)
                    },
                }
            }),
    {
        match validate_agent_name(name) {
            Ok(()) => {},
            Err(err) => {
                return ProvisionNext::Done(Err(err));
            },
        }
        let mut i: usize = 0;
        while i < checks.len()
            invariant
                i <= checks@.len(),
                valid_agent_name(name@),
                forall|j: int| 0 <= j < i ==> #[trigger] checks_view(checks@)[j] is Ok,
            decreases checks.len() - i,
        {
            assert(checks_view(checks@)[i as int] == check_view(checks@[i as int]));
            match &checks[i] {
                Ok(()) => {},
                Err(err) => {
                    return ProvisionNext::Done(Err(AgentFsError::from_fs(err.clone())));
                },
            }
            i = i + 1;
        }
        let dirs: Vec<String> = dirs_to_provision(data_dir, name);
        assert(dirs@.len() == texts(dirs@).len());
        if checks.len() < dirs.len() {
            assert(texts(dirs@)[checks@.len() as int] == dirs@[checks@.len() as int]@);
            return ProvisionNext::EnsureDirectory {
                path: dirs[checks.len()].clone(),
                mode: AGENT_DIR_MODE,
            };
        }
        ProvisionNext::Done(Ok(AgentDirs { root: root_path(data_dir, name) }))
    }

    /// The directories of an agent that were provisioned before; refuses a
    /// name that none may have.
    pub fn open(data_dir: &str, name: &str) -> (out: Result<AgentDirs, AgentFsError>)
        ensures
            match out {
                Ok(dirs) => valid_agent_name(name@) && dirs@ == agent_root(data_dir@, name@),
                Err(err) => !valid_agent_name(name@) && err@ == name_refusal(name@),
            },
    {
        match validate_agent_name(name) {
            Ok(()) => Ok(AgentDirs { root: root_path(data_dir, name) }),
            Err(err) => Err(err),
        }
    }

    /// Root of the agent's directories.
    pub fn root(&self) -> (path: &str)
        ensures
            path@ == self@,
    {
        self.root.as_str()
    }

    /// Log directory: `<root>/log`.
    pub fn log_dir(&self) -> (path: String)
        ensures
            path@ == joined_path(self@, "log"@),
    {
        join(self.root.as_str(), "log")
    }

    /// Conversation journal: `<root>/log/conversation.jsonl`.
    pub fn conversation_path(&self) -> (path: String)
        ensures
            path@ == joined_path(joined_path(self@, "log"@), "conversation.jsonl"@),
    {
        join2(self.root.as_str(), "log", "conversation.jsonl")
    }

    /// Status file: `<root>/status`.
    pub fn status_path(&self) -> (path: String)
        ensures
            path@ == joined_path(self@, "status"@),
    {
        join(self.root.as_str(), "status")
    }

    /// Cost file: `<root>/cost`.
    pub fn cost_path(&self) -> (path: String)
        ensures
            path@ == joined_path(self@, "cost"@),
    {
        join(self.root.as_str(), "cost")
    }

    /// What the agent was spawned with: `<root>/agent.toml`.
    pub fn agent_toml_path(&self) -> (path: String)
        ensures
            path@ == joined_path(self@, "agent.toml"@),
    {
        join(self.root.as_str(), "agent.toml")
    }

    /// Inbox: `<root>/inbox`.
    pub fn inbox_root(&self) -> (path: String)
        ensures
            path@ == joined_path(self@, "inbox"@),
    {
        join(self.root.as_str(), "inbox")
    }

    /// Seed of the agent's keypair: `<root>/identity.key`.
    pub fn identity_key_path(&self) -> (path: String)
        ensures
            path@ == joined_path(self@, "identity.key"@),
    {
        join(self.root.as_str(), "identity.key")
    }

    /// Capability profile the agent was spawned with: `<root>/profile.toml`.
    pub fn profile_path(&self) -> (path: String)
        ensures
            path@ == joined_path(self@, "profile.toml"@),
    {
        join(self.root.as_str(), "profile.toml")
    }
}

// ── AtomicFileWriter ─────────────────────────────────────────────────────────

/// A file to be overwritten at once: written in full to a new file in `dir`,
/// and renamed to `path`.
#[derive(Debug, PartialEq, Eq)]
pub struct FileWrite {
    pub path: String,
    pub dir: String,
    pub content: String,
    pub mode: u32,
}

/// Overwrites a small text file at once.
#[derive(Debug, PartialEq, Eq)]
pub struct AtomicFileWriter {
    path: String,
    dir: String,
}

impl AtomicFileWriter {
    /// The file that is overwritten.
    pub closed spec fn target(&self) -> Seq<char> {
        self.path@
    }

    /// The directory of the file.
    pub closed spec fn directory(&self) -> Seq<char> {
        self.dir@
    }

    /// A writer for `path`; refuses a path without a parent directory, such as
    /// a bare file name.
    pub fn new(path: String) -> (out: Result<AtomicFileWriter, AgentFsError>)
        ensures
            match out {
                Ok(writer) => writer.target() == path@ && parent_path(path@) == Some(
                    writer.directory(),
                ) && writer.directory().len() > 0,
                Err(err) => (parent_path(path@) is None || parent_path(path@)->0.len() == 0) && err@
                    == (AgentFsView::Io {
                    path: path@,
                    source: IoErrorView {
                        kind: IoKind::InvalidInput,
                        message: "AtomicFileWriter path must have a parent directory"@,
                    },
                }),
            },
    {
        match parent(path.as_str()) {
            Some(dir) if !dir.as_str().is_empty() => Ok(AtomicFileWriter { path, dir }),
            _ => Err(
                AgentFsError::Io {
                    path,
                    source: IoError::new(
                        IoKind::InvalidInput,
                        "AtomicFileWriter path must have a parent directory",
                    ),
                },
            ),
        }
    }

    /// How the file is overwritten with `content`.
    pub fn write(&self, content: &str) -> (write: FileWrite)
        ensures
            write.path@ == self.target(),
            write.dir@ == self.directory(),
            write.content@ == content@,
            write.mode == AGENT_FILE_MODE,
    {
        FileWrite {
            path: self.path.clone(),
            dir: self.dir.clone(),
            content: content.to_owned(),
            mode: AGENT_FILE_MODE,
        }
    }

    /// Reports that overwriting the file failed.
    pub fn failure(&self, source: IoError) -> (err: AgentFsError)
        ensures
            err@ == (AgentFsView::Io { path: self.target(), source: source@ }),
    {
        AgentFsError::Io { path: self.path.clone(), source }
    }
}

// ── Laws ─────────────────────────────────────────────────────────────────────

/// No agent's directories lie outside of the agents' subtree: the root of a
/// valid name is the agents' root, a separator where one is needed, and the
/// name.
pub proof fn law_agent_stays_in_subtree(data_dir: Seq<char>, name: Seq<char>)
    requires
        valid_agent_name(name),
    ensures
        joined_path(data_dir, "agents"@).is_prefix_of(agent_root(data_dir, name)),
        agent_root(data_dir, name) == joined_path(data_dir, "agents"@) + "/"@ + name,
{
    reveal_strlit("/");
    reveal_strlit("agents");
    crate::paths::law_plain_component_stays_below(joined_path(data_dir, "agents"@), name);
    assert(joined_path(data_dir, "agents"@).last() == 's');
}

/// Two agents of different names have different directories.
pub proof fn law_agents_do_not_share_directories(
    data_dir: Seq<char>,
    a: Seq<char>,
    b: Seq<char>,
)
    requires
        valid_agent_name(a),
        valid_agent_name(b),
        a != b,
    ensures
        agent_root(data_dir, a) != agent_root(data_dir, b),
{
    law_agent_stays_in_subtree(data_dir, a);
    law_agent_stays_in_subtree(data_dir, b);
    let base = joined_path(data_dir, "agents"@) + "/"@;
    if agent_root(data_dir, a) == agent_root(data_dir, b) {
        assert(a.len() == b.len());
        assert forall|i: int| 0 <= i < a.len() implies a[i] == b[i] by {
            assert((base + a)[base.len() + i] == (base + b)[base.len() + i]);
        }
        assert(a =~= b);
    }
}

/// An agent has its own place for everything: its directories are the agents'
/// own, its root below it, an inbox with its five parts, and a log, in the order
/// in which each has its parent before it.
pub proof fn law_agent_has_its_directories(data_dir: Seq<char>, name: Seq<char>)
    ensures
        ({
            let agents = joined_path(data_dir, "agents"@);
            let root = joined_path(agents, name);
            let inbox = joined_path(root, "inbox"@);
            agent_directories(data_dir, name) == seq![
                agents,
                root,
                inbox,
                joined_path(inbox, "tmp"@),
                joined_path(inbox, "new"@),
                joined_path(inbox, "cur"@),
                joined_path(inbox, "quarantine"@),
                joined_path(inbox, "archive"@),
                joined_path(root, "log"@),
            ]
        }),
{
}

/// A name that an agent may have is one component of a path: it is not empty,
/// has no separator and no control character, and is neither `.` nor `..`; and
/// any such name is one.
pub proof fn law_agent_names_are_plain(name: Seq<char>)
    ensures
        valid_agent_name(name) <==> {
            &&& name.len() > 0
            &&& name != "."@
            &&& name != ".."@
            &&& forall|i: int|
                0 <= i < name.len() ==> #[trigger] name[i] != '/' && !control_char(name[i])
        },
{
    if forall|i: int|
        0 <= i < name.len() ==> #[trigger] name[i] != '/' && !control_char(name[i]) {
        if name.contains('/') {
            let i = choose|i: int| 0 <= i < name.len() && name[i] == '/';
            assert(name[i] != '/');
        }
    }
    if valid_agent_name(name) {
        assert forall|i: int| 0 <= i < name.len() implies #[trigger] name[i] != '/'
            && !control_char(name[i]) by {
            assert(name.contains(name[i]));
        }
    }
}

/// A directory that was not accepted is told with its path, and a failed look at
/// it just as it came.
pub proof fn law_failed_checks_keep_their_path(err: FsCheckView)
    ensures
        match err {
            FsCheckView::Io { path, source } => AgentFsView::of_check(err) == (AgentFsView::Io {
                path,
                source,
            }),
            FsCheckView::Symlink { path } => AgentFsView::of_check(err) matches AgentFsView::Io { path: at, .. }
                && at == path,
            FsCheckView::NotADirectory { path } => AgentFsView::of_check(err) matches AgentFsView::Io {
                path: at,
                ..
            } && at == path,
            FsCheckView::WrongMode { path, .. } => AgentFsView::of_check(err) matches AgentFsView::Io {
                path: at,
                ..
            } && at == path,
        },
{
}

} // verus!
