//! The agent registry, and the keypairs of agents.

use vstd::prelude::*;
use vstd::string::*;

use crate::agent_fs::{is_valid_agent_name, valid_agent_name};
use crate::fs_util::{
    data_root, resolve_reeve_data_root, set_value, FileKind, FsCheckError, FsCheckView, Stat,
    XdgBaseError, XdgBaseView,
};
use crate::identity::{copy_opt, opt_text, IdentityId, Timestamp};
use crate::io_error::{IoError, IoErrorView, IoKind};
use crate::paths::{join2, joined_path, parent, parent_path};
use crate::text::{decimal, octal, quote, quoted, same_text, write_decimal, write_octal};

verus! {

/// Bound on the size of the registry file.
pub const MAX_REGISTRY_FILE_BYTES: u64 = 1048576;

/// Mode of the registry's directory.
pub const REGISTRY_DIR_MODE: u32 = 0o700;

/// Mode of the registry file and of key files.
pub const REGISTRY_FILE_MODE: u32 = 0o600;

/// Length of the seed that a key file holds.
pub const KEY_SEED_LEN: usize = 32;

// ── Errors ───────────────────────────────────────────────────────────────────

/// Failures of the agent registry and of key files.
#[allow(inconsistent_fields)]
#[derive(Debug, PartialEq, Eq)]
pub enum AgentRegistryError {
    /// A filesystem operation failed.
    Io { path: String, source: IoError },
    /// The registry file could not be parsed; holds the parser's complaint.
    Parse { path: String, source: String },
    /// The registry could not be serialized; holds the complaint.
    Serialize { path: String, source: String },
    /// Neither `$HOME` nor `$XDG_DATA_HOME` was set.
    MissingHome,
    /// The variable named holds a relative path.
    RelativeDataDir { var_name: &'static str, path: String },
    /// The registry has no such agent.
    NotFound { name: String },
    /// The key file does not hold exactly one seed.
    InvalidKeyFile { path: String, len: u64 },
    /// The key file is a symbolic link.
    SymlinkedKeyFile { path: String },
    /// The registry file is a symbolic link.
    SymlinkedRegistryFile { path: String },
    /// The registry's directory is a symbolic link.
    SymlinkedDataDir { path: String },
    /// There is something in place of the registry's directory.
    NotADirectory { path: String },
    /// The registry's directory has the wrong permission bits.
    WrongDirectoryMode { path: String, actual: u32, expected: u32 },
    /// No agent may have this name.
    InvalidAgentName { name: String },
}

/// What a registry failure holds.
#[allow(inconsistent_fields)]
pub enum RegistryErrorView {
    Io { path: Seq<char>, source: IoErrorView },
    Parse { path: Seq<char>, source: Seq<char> },
    Serialize { path: Seq<char>, source: Seq<char> },
    MissingHome,
    RelativeDataDir { var_name: Seq<char>, path: Seq<char> },
    NotFound { name: Seq<char> },
    InvalidKeyFile { path: Seq<char>, len: u64 },
    SymlinkedKeyFile { path: Seq<char> },
    SymlinkedRegistryFile { path: Seq<char> },
    SymlinkedDataDir { path: Seq<char> },
    NotADirectory { path: Seq<char> },
    WrongDirectoryMode { path: Seq<char>, actual: u32, expected: u32 },
    InvalidAgentName { name: Seq<char> },
}

impl View for AgentRegistryError {
    type V = RegistryErrorView;

    open spec fn view(&self) -> RegistryErrorView {
        match *self {
            AgentRegistryError::Io { path, source } => RegistryErrorView::Io {
                path: path@,
                source: source@,
            },
            AgentRegistryError::Parse { path, source } => RegistryErrorView::Parse {
                path: path@,
                source: source@,
            },
            AgentRegistryError::Serialize { path, source } => RegistryErrorView::Serialize {
                path: path@,
                source: source@,
            },
            AgentRegistryError::MissingHome => RegistryErrorView::MissingHome,
            AgentRegistryError::RelativeDataDir { var_name, path } => RegistryErrorView::RelativeDataDir {
                var_name: var_name@,
                path: path@,
            },
            AgentRegistryError::NotFound { name } => RegistryErrorView::NotFound { name: name@ },
            AgentRegistryError::InvalidKeyFile { path, len } => RegistryErrorView::InvalidKeyFile {
                path: path@,
                len,
            },
            AgentRegistryError::SymlinkedKeyFile { path } => RegistryErrorView::SymlinkedKeyFile {
                path: path@,
            },
            AgentRegistryError::SymlinkedRegistryFile { path } => RegistryErrorView::SymlinkedRegistryFile {
                path: path@,
            },
            AgentRegistryError::SymlinkedDataDir { path } => RegistryErrorView::SymlinkedDataDir {
                path: path@,
            },
            AgentRegistryError::NotADirectory { path } => RegistryErrorView::NotADirectory {
                path: path@,
            },
            AgentRegistryError::WrongDirectoryMode { path, actual, expected } => RegistryErrorView::WrongDirectoryMode {
                path: path@,
                actual,
                expected,
            },
            AgentRegistryError::InvalidAgentName { name } => RegistryErrorView::InvalidAgentName {
                name: name@,
            },
        }
    }
}

impl RegistryErrorView {
    /// What a reader is shown.
    pub open spec fn shown(self) -> Seq<char> {
        match self {
            RegistryErrorView::Io { path, source } => "agent registry IO at "@ + path + ": "@
                + source.message,
            RegistryErrorView::Parse { path, source } => "agent registry parse error at "@ + path
                + ": "@ + source,
            RegistryErrorView::Serialize { path, source } => "agent registry serialize error at "@
                + path + ": "@ + source,
            RegistryErrorView::MissingHome => "agent registry default_registry_path requires HOME or XDG_DATA_HOME to be set"@,
            RegistryErrorView::RelativeDataDir { var_name, path } => "$"@ + var_name
                + " is a relative path ("@ + path + "); the data directory must be absolute"@,
            RegistryErrorView::NotFound { name } => "agent registry has no record for agent "@
                + quoted(name),
            RegistryErrorView::InvalidKeyFile { path, len } => "agent key file at "@ + path
                + " is "@ + decimal(len as nat) + " bytes; expected exactly 32"@,
            RegistryErrorView::SymlinkedKeyFile { path } => "agent registry refuses to follow symlinked key file at "@
                + path,
            RegistryErrorView::SymlinkedRegistryFile { path } => "agent registry refuses to follow symlinked registry file at "@
                + path,
            RegistryErrorView::SymlinkedDataDir { path } => "agent registry refuses to follow symlinked data directory at "@
                + path,
            RegistryErrorView::NotADirectory { path } => "agent registry path "@ + path
                + " exists but is not a directory"@,
            RegistryErrorView::WrongDirectoryMode { path, actual, expected } => "agent registry directory at "@
                + path + " has mode 0o"@ + octal(actual as nat) + ", expected 0o"@ + octal(
                expected as nat,
            ),
            RegistryErrorView::InvalidAgentName { name } => "invalid agent name "@ + quoted(name)
                + ": names must not be empty, contain '/', '\\0', or be '.' or '..'"@,
        }
    }

    /// How a failed check of the registry's directory is reported.
    pub open spec fn of_check(err: FsCheckView) -> RegistryErrorView {
        match err {
            FsCheckView::Io { path, source } => RegistryErrorView::Io { path, source },
            FsCheckView::Symlink { path } => RegistryErrorView::SymlinkedDataDir { path },
            FsCheckView::NotADirectory { path } => RegistryErrorView::NotADirectory { path },
            FsCheckView::WrongMode { path, actual, expected } => RegistryErrorView::WrongDirectoryMode {
                path,
                actual,
                expected,
            },
        }
    }
}

impl AgentRegistryError {
    /// What a reader is shown.
    pub fn to_string(&self) -> (text: String)
        ensures
            text@ == self@.shown(),
    {
        match self {
            AgentRegistryError::Io { path, source } => {
                let mut text: String = "agent registry IO at ".to_owned();
                text.append(path.as_str());
                text.append(": ");
                text.append(source.message.as_str());
                text
            },
            AgentRegistryError::Parse { path, source } => {
                let mut text: String = "agent registry parse error at ".to_owned();
                text.append(path.as_str());
                text.append(": ");
                text.append(source.as_str());
                text
            },
            AgentRegistryError::Serialize { path, source } => {
                let mut text: String = "agent registry serialize error at ".to_owned();
                text.append(path.as_str());
                text.append(": ");
                text.append(source.as_str());
                text
            },
            AgentRegistryError::MissingHome => {
                "agent registry default_registry_path requires HOME or XDG_DATA_HOME to be set".to_owned()
            },
            AgentRegistryError::RelativeDataDir { var_name, path } => {
                let mut text: String = "$".to_owned();
                text.append(var_name);
                text.append(" is a relative path (");
                text.append(path.as_str());
                text.append("); the data directory must be absolute");
                text
            },
            AgentRegistryError::NotFound { name } => {
                let mut text: String = "agent registry has no record for agent ".to_owned();
                text.append(quote(name.as_str()).as_str());
                text
            },
            AgentRegistryError::InvalidKeyFile { path, len } => {
                let mut text: String = "agent key file at ".to_owned();
                text.append(path.as_str());
                text.append(" is ");
                text.append(write_decimal(*len).as_str());
                text.append(" bytes; expected exactly 32");
                text
            },
            AgentRegistryError::SymlinkedKeyFile { path } => {
                let mut text: String =
                    "agent registry refuses to follow symlinked key file at ".to_owned();
                text.append(path.as_str());
                text
            },
            AgentRegistryError::SymlinkedRegistryFile { path } => {
                let mut text: String =
                    "agent registry refuses to follow symlinked registry file at ".to_owned();
                text.append(path.as_str());
                text
            },
            AgentRegistryError::SymlinkedDataDir { path } => {
                let mut text: String =
                    "agent registry refuses to follow symlinked data directory at ".to_owned();
                text.append(path.as_str());
                text
            },
            AgentRegistryError::NotADirectory { path } => {
                let mut text: String = "agent registry path ".to_owned();
                text.append(path.as_str());
                text.append(" exists but is not a directory");
                text
            },
            AgentRegistryError::WrongDirectoryMode { path, actual, expected } => {
                let mut text: String = "agent registry directory at ".to_owned();
                text.append(path.as_str());
                text.append(" has mode 0o");
                text.append(write_octal(*actual).as_str());
                text.append(", expected 0o");
                text.append(write_octal(*expected).as_str());
                text
            },
            AgentRegistryError::InvalidAgentName { name } => {
                let mut text: String = "invalid agent name ".to_owned();
                text.append(quote(name.as_str()).as_str());
                text.append(": names must not be empty, contain '/', '\\0', or be '.' or '..'");
                text
            },
        }
    }

    /// Reports a failed check of the registry's directory.
    pub fn from_fs(err: FsCheckError) -> (out: AgentRegistryError)
        ensures
            out@ == RegistryErrorView::of_check(err@),
    {
        match err {
            FsCheckError::Io { path, source } => AgentRegistryError::Io { path, source },
            FsCheckError::Symlink { path } => AgentRegistryError::SymlinkedDataDir { path },
            FsCheckError::NotADirectory { path } => AgentRegistryError::NotADirectory { path },
            FsCheckError::WrongMode { path, actual, expected } => AgentRegistryError::WrongDirectoryMode {
                path,
                actual,
                expected,
            },
        }
    }
}

// ── Records ──────────────────────────────────────────────────────────────────

/// Lifecycle state of a registered agent. A stopped agent may be resumed; a
/// retired one never is.
#[derive(Debug, Clone, Copy, PartialEq, Eq, Structural)]
pub enum AgentStatus {
    Running,
    Stopped,
    Retired,
}

impl AgentStatus {
    /// The word that stands for the state in the registry file.
    pub open spec fn word(self) -> Seq<char> {
        match self {
            AgentStatus::Running => "running"@,
            AgentStatus::Stopped => "stopped"@,
            AgentStatus::Retired => "retired"@,
        }
    }

    /// The word that stands for the state in the registry file.
    pub fn as_str(&self) -> (word: &'static str)
        ensures
            word@ == self.word(),
    {
        match self {
            AgentStatus::Running => "running",
            AgentStatus::Stopped => "stopped",
            AgentStatus::Retired => "retired",
        }
    }
}

/// A name that an agent may have.
#[derive(Debug, PartialEq, Eq)]
pub struct ValidatedAgentName(String);

impl View for ValidatedAgentName {
    type V = Seq<char>;

    closed spec fn view(&self) -> Seq<char> {
        self.0@
    }
}

impl ValidatedAgentName {
    #[verifier::type_invariant]
    spec fn valid(self) -> bool {
        valid_agent_name(self.0@)
    }

    /// Accepts a name that an agent may have.
    pub fn new(s: &str) -> (out: Result<ValidatedAgentName, AgentRegistryError>)
        ensures
            match out {
                Ok(name) => valid_agent_name(s@) && name@ == s@,
                Err(err) => !valid_agent_name(s@) && err@ == (RegistryErrorView::InvalidAgentName {
                    name: s@,
                }),
            },
    {
        if is_valid_agent_name(s) {
            Ok(ValidatedAgentName(s.to_owned()))
        } else {
            Err(AgentRegistryError::InvalidAgentName { name: s.to_owned() })
        }
    }

    /// The name, which is one that an agent may have.
    pub fn as_str(&self) -> (s: &str)
        ensures
            s@ == self@,
            valid_agent_name(self@),
    {
        proof {
            use_type_invariant(self);
        }
        self.0.as_str()
    }
}

impl Clone for ValidatedAgentName {
    fn clone(&self) -> (name: ValidatedAgentName)
        ensures
            name@ == self@,
    {
        proof {
            use_type_invariant(self);
        }
        ValidatedAgentName(self.0.clone())
    }
}

/// What the registry holds of an agent.
#[derive(Debug, PartialEq, Eq)]
pub struct AgentRecord {
    /// Name, by which the agent is found.
    pub name: ValidatedAgentName,
    pub identity_id: IdentityId,
    /// Root of the agent's inbox.
    pub inbox_dir: String,
    pub persona_name: Option<String>,
    /// When the agent was first spawned.
    pub spawned_at: Timestamp,
    pub status: AgentStatus,
    /// Why the agent is stopped, where a reason was recorded.
    pub stopped_reason: Option<String>,
}

/// What a record holds.
pub struct RecordView {
    pub name: Seq<char>,
    pub identity_id: Seq<char>,
    pub inbox_dir: Seq<char>,
    pub persona_name: Option<Seq<char>>,
    pub spawned_at: Timestamp,
    pub status: AgentStatus,
    pub stopped_reason: Option<Seq<char>>,
}

impl View for AgentRecord {
    type V = RecordView;

    open spec fn view(&self) -> RecordView {
        RecordView {
            name: self.name@,
            identity_id: self.identity_id@,
            inbox_dir: self.inbox_dir@,
            persona_name: opt_text(self.persona_name),
            spawned_at: self.spawned_at,
            status: self.status,
            stopped_reason: opt_text(self.stopped_reason),
        }
    }
}

impl Clone for AgentRecord {
    fn clone(&self) -> (record: AgentRecord)
        ensures
            record@ == self@,
    {
        AgentRecord {
            name: self.name.clone(),
            identity_id: self.identity_id.clone(),
            inbox_dir: self.inbox_dir.clone(),
            persona_name: copy_opt(&self.persona_name),
            spawned_at: self.spawned_at,
            status: self.status,
            stopped_reason: copy_opt(&self.stopped_reason),
        }
    }
}

/// What each record of a sequence holds.
pub open spec fn records_view(v: Seq<AgentRecord>) -> Seq<RecordView> {
    v.map_values(|r: AgentRecord| r@)
}

/// The records by name. Where two have one name, the later counts.
pub open spec fn by_name(records: Seq<RecordView>) -> Map<Seq<char>, RecordView>
    decreases records.len(),
{
    if records.len() == 0 {
        Map::empty()
    } else {
        by_name(records.drop_last()).insert(records.last().name, records.last())
    }
}

/// The records when the agent of this name has another status, with the
/// reason where there is one.
pub open spec fn with_status(
    agents: Map<Seq<char>, RecordView>,
    name: Seq<char>,
    status: AgentStatus,
    reason: Option<Seq<char>>,
) -> Map<Seq<char>, RecordView> {
    agents.insert(name, RecordView { status, stopped_reason: reason, ..agents[name] })
}

/// No two records have one name.
pub open spec fn unique_names(records: Seq<RecordView>) -> bool {
    forall|i: int, j: int|
        0 <= i < records.len() && 0 <= j < records.len() && i != j ==> (
        #[trigger] records[i]).name != (#[trigger] records[j]).name
}

/// Where names are unique, the records by name are exactly the records.
pub proof fn lemma_by_name(records: Seq<RecordView>)
    requires
        unique_names(records),
    ensures
        forall|i: int|
            0 <= i < records.len() ==> by_name(records).contains_key(
                (#[trigger] records[i]).name,
            ) && by_name(records)[records[i].name] == records[i],
        forall|n: Seq<char>| #[trigger]
            by_name(records).contains_key(n) ==> exists|i: int|
                0 <= i < records.len() && (#[trigger] records[i]).name == n,
    decreases records.len(),
{
    if records.len() > 0 {
        let rest = records.drop_last();
        assert(unique_names(rest)) by {
            assert forall|i: int, j: int|
                0 <= i < rest.len() && 0 <= j < rest.len() && i != j implies (
            #[trigger] rest[i]).name != (#[trigger] rest[j]).name by {
                assert(records[i].name != records[j].name);
            }
        }
        lemma_by_name(rest);
        assert forall|i: int| 0 <= i < records.len() implies by_name(records).contains_key(
            (#[trigger] records[i]).name,
        ) && by_name(records)[records[i].name] == records[i] by {
            if i < rest.len() {
                assert(rest[i] == records[i]);
                assert(records[i].name != records[records.len() - 1].name);
            }
        }
        assert forall|n: Seq<char>| #[trigger]
            by_name(records).contains_key(n) implies exists|i: int|
            0 <= i < records.len() && (#[trigger] records[i]).name == n by {
            if n == records.last().name {
                assert(records[records.len() - 1].name == n);
            } else {
                assert(by_name(rest).contains_key(n));
                let i = choose|i: int| 0 <= i < rest.len() && (#[trigger] rest[i]).name == n;
                assert(records[i].name == n);
            }
        }
    }
}

// ── Registry ─────────────────────────────────────────────────────────────────

/// The registered agents, by name.
#[derive(Debug)]
pub struct AgentRegistry {
    registry_path: String,
    records: Vec<AgentRecord>,
}

impl View for AgentRegistry {
    type V = Map<Seq<char>, RecordView>;

    closed spec fn view(&self) -> Map<Seq<char>, RecordView> {
        by_name(records_view(self.records@))
    }
}

/// What reading the registry file came to.
#[derive(Debug)]
pub enum RegistryRead {
    /// The file could not be read.
    Unreadable(IoError),
    /// The file could not be parsed; holds the parser's complaint.
    Unparsable(String),
    /// The records of the file, in order.
    Records(Vec<AgentRecord>),
}

/// What has been learned so far about a registry to be opened.
#[derive(Debug)]
pub struct RegistryReplies {
    /// What making sure of the directory came to.
    pub directory: Option<Result<(), FsCheckError>>,
    /// What looking at the file told.
    pub stat: Option<Result<Stat, IoError>>,
    /// What reading the file came to.
    pub read: Option<RegistryRead>,
}

/// What to do next to open a registry.
#[derive(Debug)]
pub enum RegistryNext {
    /// Make sure that this directory is there with this mode.
    EnsureDirectory { path: String, mode: u32 },
    /// Look at the registry file, without following a link.
    Stat { path: String },
    /// Read and parse the registry file, up to so many bytes, without
    /// following a link.
    Read { path: String, max_bytes: u64 },
    /// Nothing: the registry is open, or cannot be opened.
    Done(Result<AgentRegistry, AgentRegistryError>),
}

/// A registry path has no directory to be in.
pub open spec fn no_parent(path: Seq<char>) -> RegistryErrorView {
    RegistryErrorView::Io {
        path,
        source: IoErrorView {
            kind: IoKind::InvalidInput,
            message: "registry path must have a parent directory"@,
        },
    }
}

/// What to do next to open a registry, with the content of what is open.
pub enum RegistryNextView {
    EnsureDirectory { path: Seq<char>, mode: u32 },
    Stat { path: Seq<char> },
    Read { path: Seq<char>, max_bytes: u64 },
    Opened(Map<Seq<char>, RecordView>),
    Refused(RegistryErrorView),
}

/// The rule for opening a registry: its directory must be acceptable, the file
/// must not be a link, and a file that is not there is an empty registry.
pub open spec fn open_rule(path: Seq<char>, seen: RegistryReplies) -> RegistryNextView {
    match parent_path(path) {
        None => RegistryNextView::Refused(no_parent(path)),
        Some(dir) => match seen.directory {
            None => RegistryNextView::EnsureDirectory { path: dir, mode: REGISTRY_DIR_MODE },
            Some(Err(e)) => RegistryNextView::Refused(RegistryErrorView::of_check(e@)),
            Some(Ok(())) => match seen.stat {
                None => RegistryNextView::Stat { path },
                Some(Err(e)) => if e@.kind == IoKind::NotFound {
                    RegistryNextView::Opened(Map::empty())
                } else {
                    RegistryNextView::Refused(RegistryErrorView::Io { path, source: e@ })
                },
                Some(Ok(stat)) => if stat.kind == FileKind::Symlink {
                    RegistryNextView::Refused(RegistryErrorView::SymlinkedRegistryFile { path })
                } else {
                    match seen.read {
                        None => RegistryNextView::Read {
                            path,
                            max_bytes: MAX_REGISTRY_FILE_BYTES,
                        },
                        Some(RegistryRead::Unreadable(e)) => RegistryNextView::Refused(
                            RegistryErrorView::Io { path, source: e@ },
                        ),
                        Some(RegistryRead::Unparsable(complaint)) => RegistryNextView::Refused(
                            RegistryErrorView::Parse { path, source: complaint@ },
                        ),
                        Some(RegistryRead::Records(records)) => RegistryNextView::Opened(
                            by_name(records_view(records@)),
                        ),
                    }
                },
            },
        },
    }
}

impl AgentRegistry {
    /// No two records have one name.
    pub closed spec fn wf(&self) -> bool {
        unique_names(records_view(self.records@))
    }

    /// The records, in the order in which they are listed.
    pub closed spec fn listed(&self) -> Seq<RecordView> {
        records_view(self.records@)
    }

    /// Where the registry is kept.
    pub closed spec fn path(&self) -> Seq<char> {
        self.registry_path@
    }

    /// An empty registry, kept at `path`.
    fn empty(path: &str) -> (registry: AgentRegistry)
        ensures
            registry.wf(),
            registry@ == Map::<Seq<char>, RecordView>::empty(),
            registry.path() == path@,
    {
        let registry: AgentRegistry = AgentRegistry {
            registry_path: path.to_owned(),
            records: Vec::new(),
        };
        assert(records_view(registry.records@) =~= Seq::empty());
        registry
    }

    /// What to do next to open the registry at `path`.
    pub fn open(path: &str, seen: &RegistryReplies) -> (next: RegistryNext)
        ensures
            match (next, open_rule(path@, *seen)) {
                (
                    RegistryNext::EnsureDirectory { path: p, mode: m },
                    RegistryNextView::EnsureDirectory { path, mode },
                ) => p@ == path && m == mode,
                (RegistryNext::Stat { path: p }, RegistryNextView::Stat { path }) => p@ == path,
                (
                    RegistryNext::Read { path: p, max_bytes: n },
                    RegistryNextView::Read { path, max_bytes },
                ) => p@ == path && n == max_bytes,
                (RegistryNext::Done(Ok(registry)), RegistryNextView::Opened(records)) => {
                    registry.wf() && registry@ == records && registry.path() == path@
                },
                (RegistryNext::Done(Err(err)), RegistryNextView::Refused(e)) => err@ == e,
                _ => false,
            },
    {
        let dir: String = match parent(path) {
            Some(dir) => dir,
            None => {
                return RegistryNext::Done(
                    Err(
                        AgentRegistryError::Io {
                            path: path.to_owned(),
                            source: IoError::new(
                                IoKind::InvalidInput,
                                "registry path must have a parent directory",
                            ),
                        },
                    ),
                );
            },
        };
        match &seen.directory {
            None => {
                return RegistryNext::EnsureDirectory { path: dir, mode: REGISTRY_DIR_MODE };
            },
            Some(Err(err)) => {
                return RegistryNext::Done(Err(AgentRegistryError::from_fs(err.clone())));
            },
            Some(Ok(())) => {},
        }
        match &seen.stat {
            None => RegistryNext::Stat { path: path.to_owned() },
            Some(Err(err)) => {
                if err.is_not_found() {
                    RegistryNext::Done(Ok(AgentRegistry::empty(path)))
                } else {
                    RegistryNext::Done(
                        Err(
                            AgentRegistryError::Io { path: path.to_owned(), source: err.clone() },
                        ),
                    )
                }
            },
            Some(Ok(stat)) => {
                if stat.kind == FileKind::Symlink {
                    return RegistryNext::Done(
                        Err(AgentRegistryError::SymlinkedRegistryFile { path: path.to_owned() }),
                    );
                }
                match &seen.read {
                    None => RegistryNext::Read {
                        path: path.to_owned(),
                        max_bytes: MAX_REGISTRY_FILE_BYTES,
                    },
                    Some(RegistryRead::Unreadable(err)) => RegistryNext::Done(
                        Err(
                            AgentRegistryError::Io { path: path.to_owned(), source: err.clone() },
                        ),
                    ),
                    Some(RegistryRead::Unparsable(complaint)) => RegistryNext::Done(
                        Err(
                            AgentRegistryError::Parse {
                                path: path.to_owned(),
                                source: complaint.clone(),
                            },
                        ),
                    ),
                    Some(RegistryRead::Records(records)) => RegistryNext::Done(
                        Ok(AgentRegistry::read_registry(path, records)),
                    ),
                }
            },
        }
    }

    /// The registry that holds `records`, the later of two with one name.
    fn read_registry(path: &str, records: &Vec<AgentRecord>) -> (registry: AgentRegistry)
        ensures
            registry.wf(),
            registry@ == by_name(records_view(records@)),
            registry.path() == path@,
    {
        let ghost rs: Seq<RecordView> = records_view(records@);
        let mut registry: AgentRegistry = AgentRegistry::empty(path);
        let mut i: usize = 0;
        assert(rs.take(0) =~= Seq::empty());
        while i < records.len()
            invariant
                rs == records_view(records@),
                i <= records@.len(),
                registry.wf(),
                registry@ == by_name(rs.take(i as int)),
                registry.path() == path@,
            decreases records.len() - i,
        {
            registry.put(records[i].clone());
            proof {
                let upto = rs.take(i + 1);
                assert(upto.drop_last() =~= rs.take(i as int));
                assert(upto.last() == rs[i as int]);
                assert(rs[i as int] == records@[i as int]@);
            }
            i = i + 1;
        }
        assert(rs.take(i as int) =~= rs);
        registry
    }

    /// Where the record of `name` is.
    fn position(&self, name: &str) -> (at: Option<usize>)
        requires
            self.wf(),
        ensures
            match at {
                Some(i) => i < self.records@.len() && self.records@[i as int]@.name == name@
                    && self@.contains_key(name@) && self@[name@] == self.records@[i as int]@,
                None => !self@.contains_key(name@) && forall|k: int|
                    0 <= k < self.records@.len() ==> (#[trigger] self.records@[k])@.name != name@,
            },
    {
        let ghost rs: Seq<RecordView> = records_view(self.records@);
        let mut i: usize = 0;
        while i < self.records.len()
            invariant
                self.wf(),
                rs == records_view(self.records@),
                i <= self.records@.len(),
                forall|k: int|
                    0 <= k < i ==> (#[trigger] self.records@[k])@.name != name@,
            decreases self.records.len() - i,
        {
            if same_text(self.records[i].name.as_str(), name) {
                proof {
                    lemma_by_name(rs);
                    assert(rs[i as int].name == name@);
                }
                return Some(i);
            }
            i = i + 1;
        }
        proof {
            lemma_by_name(rs);
            if self@.contains_key(name@) {
                let k = choose|k: int| 0 <= k < rs.len() && (#[trigger] rs[k]).name == name@;
                assert(self.records@[k]@.name != name@);
            }
        }
        None
    }

    /// Adds a record, in place of the one of that name. The registry is then
    /// to be written: this is the first step of that, and [`Self::flush`] tells
    /// those that follow.
    #[must_use]
    pub fn register(&mut self, record: AgentRecord) -> (next: FlushNext)
        requires
            old(self).wf(),
        ensures
            final(self).wf(),
            final(self)@ == old(self)@.insert(record@.name, record@),
            final(self).path() == old(self).path(),
            next@ == flush_rule(final(self).path(), final(self).listed(), nothing_flushed()),
    {
        self.put(record);
        self.owed()
    }

    /// The first step of writing the registry.
    fn owed(&self) -> (next: FlushNext)
        ensures
            next@ == flush_rule(self.path(), self.listed(), nothing_flushed()),
    {
        self.flush(&FlushReplies { body: None, written: None })
    }

    /// Adds a record, in place of the one of that name.
    fn put(&mut self, record: AgentRecord)
        requires
            old(self).wf(),
        ensures
            final(self).wf(),
            final(self)@ == old(self)@.insert(record@.name, record@),
            final(self).path() == old(self).path(),
    {
        let ghost before: Seq<RecordView> = records_view(self.records@);
        match self.position(record.name.as_str()) {
            Some(i) => {
                self.records.set(i, record);
                proof {
                    lemma_replace(before, i as int, record@);
                    assert(records_view(self.records@) =~= before.update(i as int, record@));
                }
            },
            None => {
                proof {
                    let after = before.push(record@);
                    assert(records_view(self.records@.push(record)) =~= after);
                    assert(after.drop_last() =~= before);
                    assert forall|i: int, j: int|
                        0 <= i < after.len() && 0 <= j < after.len() && i != j implies (
                    #[trigger] after[i]).name != (#[trigger] after[j]).name by {
                        if i == before.len() {
                            assert(before[j] == self.records@[j]@);
                        } else if j == before.len() {
                            assert(before[i] == self.records@[i]@);
                        } else {
                            assert(before[i].name != before[j].name);
                        }
                    }
                }
                self.records.push(record);
            },
        }
    }

    /// Sets the status of an agent, and forgets why it was stopped. The
    /// registry is then to be written: this is the first step of that, and
    /// [`Self::flush`] tells those that follow.
    #[must_use]
    pub fn update_status(&mut self, name: &str, status: AgentStatus) -> (next: FlushNext)
        requires
            old(self).wf(),
        ensures
            final(self).wf(),
            final(self).path() == old(self).path(),
            changes(
                *old(self),
                *final(self),
                name@,
                with_status(old(self)@, name@, status, None),
                next@,
            ),
    {
        self.set_status(name, status, None)
    }

    /// Marks an agent as stopped, with the reason. The registry is then to be
    /// written: this is the first step of that, and [`Self::flush`] tells those
    /// that follow.
    #[must_use]
    pub fn update_stopped_with_reason(&mut self, name: &str, reason: &str) -> (next: FlushNext)
        requires
            old(self).wf(),
        ensures
            final(self).wf(),
            final(self).path() == old(self).path(),
            changes(
                *old(self),
                *final(self),
                name@,
                with_status(old(self)@, name@, AgentStatus::Stopped, Some(reason@)),
                next@,
            ),
    {
        self.set_status(name, AgentStatus::Stopped, Some(reason.to_owned()))
    }

    fn set_status(
        &mut self,
        name: &str,
        status: AgentStatus,
        stopped_reason: Option<String>,
    ) -> (next: FlushNext)
        requires
            old(self).wf(),
        ensures
            final(self).wf(),
            final(self).path() == old(self).path(),
            changes(
                *old(self),
                *final(self),
                name@,
                with_status(old(self)@, name@, status, opt_text(stopped_reason)),
                next@,
            ),
    {
        match self.position(name) {
            Some(i) => {
                let ghost before: Seq<RecordView> = records_view(self.records@);
                let mut record: AgentRecord = self.records[i].clone();
                record.status = status;
                record.stopped_reason = stopped_reason;
                self.records.set(i, record);
                proof {
                    lemma_replace(before, i as int, record@);
                    assert(records_view(self.records@) =~= before.update(i as int, record@));
                }
                self.owed()
            },
            None => FlushNext::Done(Err(AgentRegistryError::NotFound { name: name.to_owned() })),
        }
    }

    /// Removes the record of an agent. The registry is then to be written: this
    /// is the first step of that, and [`Self::flush`] tells those that follow.
    #[must_use]
    pub fn remove(&mut self, name: &str) -> (next: FlushNext)
        requires
            old(self).wf(),
        ensures
            final(self).wf(),
            final(self).path() == old(self).path(),
            changes(*old(self), *final(self), name@, old(self)@.remove(name@), next@),
    {
        match self.position(name) {
            Some(i) => {
                let ghost before: Seq<RecordView> = records_view(self.records@);
                let _gone: AgentRecord = self.records.remove(i);
                proof {
                    lemma_remove(before, i as int);
                    assert(records_view(self.records@) =~= before.remove(i as int));
                }
                self.owed()
            },
            None => FlushNext::Done(Err(AgentRegistryError::NotFound { name: name.to_owned() })),
        }
    }

    /// The record of an agent.
    pub fn lookup(&self, name: &str) -> (out: Option<&AgentRecord>)
        requires
            self.wf(),
        ensures
            match out {
                Some(record) => self@.contains_key(name@) && self@[name@] == record@,
                None => !self@.contains_key(name@),
            },
    {
        match self.position(name) {
            Some(i) => Some(&self.records[i]),
            None => None,
        }
    }

    /// All records, each once.
    pub fn list(&self) -> (records: &Vec<AgentRecord>)
        requires
            self.wf(),
        ensures
            records_view(records@) == self.listed(),
            unique_names(self.listed()),
            by_name(self.listed()) == self@,
    {
        &self.records
    }

    /// What to do next to write the registry to its file.
    pub fn flush(&self, seen: &FlushReplies) -> (next: FlushNext)
        ensures
            next@ == flush_rule(self.path(), self.listed(), *seen),
    {
        let body: &String = match &seen.body {
            None => {
                return FlushNext::Serialize { records: copy_records(&self.records) };
            },
            Some(Err(source)) => {
                return FlushNext::Done(
                    Err(
                        AgentRegistryError::Serialize {
                            path: self.registry_path.clone(),
                            source: source.clone(),
                        },
                    ),
                );
            },
            Some(Ok(body)) => body,
        };
        match parent(self.registry_path.as_str()) {
            Some(dir) => atomic_write(dir, self.registry_path.as_str(), body, &seen.written),
            None => FlushNext::Done(
                Err(
                    AgentRegistryError::Io {
                        path: self.registry_path.clone(),
                        source: IoError::new(
                            IoKind::InvalidInput,
                            "registry path must have a parent directory",
                        ),
                    },
                ),
            ),
        }
    }

    /// The path of the registry by default, from the values of
    /// `$XDG_DATA_HOME` and `$HOME`.
    pub fn default_registry_path(xdg_data_home: Option<&str>, home: Option<&str>) -> (out: Result<
        String,
        AgentRegistryError,
    >)
        ensures
            match (out, data_root(set_value(xdg_data_home), set_value(home))) {
                (Ok(path), Ok(root)) => path@ == default_registry(root),
                (Err(err), Err(e)) => err@ == (match e {
                    XdgBaseView::MissingHome => RegistryErrorView::MissingHome,
                    XdgBaseView::RelativeDir { var_name, path } => RegistryErrorView::RelativeDataDir {
                        var_name,
                        path,
                    },
                }),
                _ => false,
            },
    {
        resolve_default_registry_path(xdg_data_home, home)
    }
}

/// What has been learned so far about a registry to be written.
#[derive(Debug, PartialEq, Eq)]
pub struct FlushReplies {
    /// The listed records in their file format, or the complaint.
    pub body: Option<Result<String, String>>,
    /// What writing the file came to.
    pub written: Option<Result<(), IoError>>,
}

/// What to do next to write a registry.
#[derive(Debug, PartialEq, Eq)]
pub enum FlushNext {
    /// Put these records in the registry's file format.
    Serialize { records: Vec<AgentRecord> },
    /// Write the file at once, by a new file in `dir`.
    Write { path: String, dir: String, mode: u32, body: String },
    /// Nothing: the registry is written, or could not be.
    Done(Result<(), AgentRegistryError>),
}

/// What to do next to write a registry.
pub enum FlushNextView {
    Serialize { records: Seq<RecordView> },
    Write { path: Seq<char>, dir: Seq<char>, mode: u32, body: Seq<char> },
    Written,
    Failed(RegistryErrorView),
}

impl View for FlushNext {
    type V = FlushNextView;

    open spec fn view(&self) -> FlushNextView {
        match *self {
            FlushNext::Serialize { records } => FlushNextView::Serialize {
                records: records_view(records@),
            },
            FlushNext::Write { path, dir, mode, body } => FlushNextView::Write {
                path: path@,
                dir: dir@,
                mode,
                body: body@,
            },
            FlushNext::Done(Ok(())) => FlushNextView::Written,
            FlushNext::Done(Err(err)) => FlushNextView::Failed(err@),
        }
    }
}

/// Nothing is learned yet about a registry to be written.
pub open spec fn nothing_flushed() -> FlushReplies {
    FlushReplies { body: None, written: None }
}

/// A change to the record of `name`: where there is none, nothing changes and
/// that is told; else `after` is held, and the next step is the first one of
/// writing it.
pub open spec fn changes(
    before: AgentRegistry,
    registry: AgentRegistry,
    name: Seq<char>,
    after: Map<Seq<char>, RecordView>,
    next: FlushNextView,
) -> bool {
    if before@.contains_key(name) {
        &&& registry@ == after
        &&& next == flush_rule(registry.path(), registry.listed(), nothing_flushed())
    } else {
        &&& registry@ == before@
        &&& registry.listed() == before.listed()
        &&& next == FlushNextView::Failed(RegistryErrorView::NotFound { name })
    }
}

/// The rule for writing a registry with these records.
pub open spec fn flush_rule(
    path: Seq<char>,
    records: Seq<RecordView>,
    seen: FlushReplies,
) -> FlushNextView {
    match seen.body {
        None => FlushNextView::Serialize { records },
        Some(Err(source)) => FlushNextView::Failed(
            RegistryErrorView::Serialize { path, source: source@ },
        ),
        Some(Ok(body)) => match parent_path(path) {
            None => FlushNextView::Failed(no_parent(path)),
            Some(dir) => match seen.written {
                None => FlushNextView::Write { path, dir, mode: REGISTRY_FILE_MODE, body: body@ },
                Some(Err(e)) => FlushNextView::Failed(RegistryErrorView::Io { path, source: e@ }),
                Some(Ok(())) => FlushNextView::Written,
            },
        },
    }
}

fn copy_records(records: &Vec<AgentRecord>) -> (copy: Vec<AgentRecord>)
    ensures
        records_view(copy@) == records_view(records@),
{
    let ghost rs: Seq<RecordView> = records_view(records@);
    let mut copy: Vec<AgentRecord> = Vec::new();
    let mut i: usize = 0;
    while i < records.len()
        invariant
            rs == records_view(records@),
            i <= records@.len(),
            records_view(copy@) == rs.take(i as int),
        decreases records.len() - i,
    {
        let ghost before: Seq<AgentRecord> = copy@;
        copy.push(records[i].clone());
        proof {
            assert(records_view(copy@) =~= records_view(before).push(rs[i as int]));
            assert(rs.take(i + 1) =~= rs.take(i as int).push(rs[i as int]));
        }
        i = i + 1;
    }
    assert(rs.take(i as int) =~= rs);
    copy
}

fn atomic_write(
    dir: String,
    target: &str,
    body: &String,
    written: &Option<Result<(), IoError>>,
) -> (next: FlushNext)
    ensures
        next@ == (match *written {
            None => FlushNextView::Write {
                path: target@,
                dir: dir@,
                mode: REGISTRY_FILE_MODE,
                body: body@,
            },
            Some(Err(e)) => FlushNextView::Failed(
                RegistryErrorView::Io { path: target@, source: e@ },
            ),
            Some(Ok(())) => FlushNextView::Written,
        }),
{
    match written {
        None => FlushNext::Write {
            path: target.to_owned(),
            dir,
            mode: REGISTRY_FILE_MODE,
            body: body.clone(),
        },
        Some(Err(err)) => FlushNext::Done(
            Err(AgentRegistryError::Io { path: target.to_owned(), source: err.clone() }),
        ),
        Some(Ok(())) => FlushNext::Done(Ok(())),
    }
}

/// The registry of a data root by default.
pub open spec fn default_registry(root: Seq<char>) -> Seq<char> {
    joined_path(joined_path(joined_path(root, "identities"@), "agents"@), "registry.toml"@)
}

/// The path of the registry by default: under `identities/agents` of the data
/// root, beside the identities that its agents have. Migrating an older layout
/// moves what is there up to the data root, so a run that has migrated begins
/// with an empty registry here.
pub fn resolve_default_registry_path(xdg_data_home: Option<&str>, home: Option<&str>) -> (out:
    Result<String, AgentRegistryError>)
    ensures
        match (out, data_root(set_value(xdg_data_home), set_value(home))) {
            (Ok(path), Ok(root)) => path@ == default_registry(root),
            (Err(err), Err(e)) => err@ == (match e {
                XdgBaseView::MissingHome => RegistryErrorView::MissingHome,
                XdgBaseView::RelativeDir { var_name, path } => RegistryErrorView::RelativeDataDir {
                    var_name,
                    path,
                },
            }),
            _ => false,
        },
{
    match resolve_reeve_data_root(xdg_data_home, home) {
        Ok(root) => {
            let identities: String = crate::paths::join(root.as_str(), "identities");
            Ok(join2(identities.as_str(), "agents", "registry.toml"))
        },
        Err(XdgBaseError::MissingHome) => Err(AgentRegistryError::MissingHome),
        Err(XdgBaseError::RelativeDir { var_name, path }) => Err(
            AgentRegistryError::RelativeDataDir { var_name, path },
        ),
    }
}

proof fn lemma_replace(records: Seq<RecordView>, i: int, record: RecordView)
    requires
        unique_names(records),
        0 <= i < records.len(),
        record.name == records[i].name,
    ensures
        unique_names(records.update(i, record)),
        by_name(records.update(i, record)) == by_name(records).insert(record.name, record),
{
    let after = records.update(i, record);
    assert forall|a: int, b: int|
        0 <= a < after.len() && 0 <= b < after.len() && a != b implies (#[trigger] after[a]).name
        != (#[trigger] after[b]).name by {
        assert(records[a].name != records[b].name);
    }
    lemma_by_name(records);
    lemma_by_name(after);
    let left = by_name(after);
    let right = by_name(records).insert(record.name, record);
    assert forall|n: Seq<char>| left.contains_key(n) == right.contains_key(n) by {
        if left.contains_key(n) {
            let k = choose|k: int| 0 <= k < after.len() && (#[trigger] after[k]).name == n;
            assert(records[k].name == n);
        }
        if right.contains_key(n) && n != record.name {
            let k = choose|k: int| 0 <= k < records.len() && (#[trigger] records[k]).name == n;
            assert(after[k].name == n);
        }
        if n == record.name {
            assert(after[i].name == n);
        }
    }
    assert forall|n: Seq<char>| left.contains_key(n) implies left[n] == right[n] by {
        let k = choose|k: int| 0 <= k < after.len() && (#[trigger] after[k]).name == n;
        assert(left[after[k].name] == after[k]);
        assert(records[k].name == n);
    }
    assert(left =~= right);
}

proof fn lemma_remove(records: Seq<RecordView>, i: int)
    requires
        unique_names(records),
        0 <= i < records.len(),
    ensures
        unique_names(records.remove(i)),
        by_name(records.remove(i)) == by_name(records).remove(records[i].name),
{
    let after = records.remove(i);
    assert forall|a: int, b: int|
        0 <= a < after.len() && 0 <= b < after.len() && a != b implies (#[trigger] after[a]).name
        != (#[trigger] after[b]).name by {
        let x = if a < i {
            a
        } else {
            a + 1
        };
        let y = if b < i {
            b
        } else {
            b + 1
        };
        assert(after[a] == records[x] && after[b] == records[y]);
    }
    lemma_by_name(records);
    lemma_by_name(after);
    let left = by_name(after);
    let right = by_name(records).remove(records[i].name);
    assert forall|n: Seq<char>| left.contains_key(n) == right.contains_key(n) by {
        if left.contains_key(n) {
            let k = choose|k: int| 0 <= k < after.len() && (#[trigger] after[k]).name == n;
            let x = if k < i {
                k
            } else {
                k + 1
            };
            assert(after[k] == records[x]);
            assert(records[x].name != records[i].name);
        }
        if right.contains_key(n) {
            let k = choose|k: int| 0 <= k < records.len() && (#[trigger] records[k]).name == n;
            assert(k != i);
            let x = if k < i {
                k
            } else {
                k - 1
            };
            assert(after[x] == records[k]);
        }
    }
    assert forall|n: Seq<char>| left.contains_key(n) implies left[n] == right[n] by {
        let k = choose|k: int| 0 <= k < after.len() && (#[trigger] after[k]).name == n;
        let x = if k < i {
            k
        } else {
            k + 1
        };
        assert(after[k] == records[x]);
        assert(left[after[k].name] == after[k]);
        assert(by_name(records)[records[x].name] == records[x]);
    }
    assert(left =~= right);
}

// ── Laws ─────────────────────────────────────────────────────────────────────

/// Reading back what is listed gives the same registry: a file with the
/// listed records holds all that the registry does.
pub proof fn law_registry_survives_a_reload(path: Seq<char>, seen: RegistryReplies, registry: AgentRegistry)
    requires
        registry.wf(),
        parent_path(path) is Some,
        seen.directory matches Some(Ok(_)),
        seen.stat matches Some(Ok(stat)) && stat.kind != FileKind::Symlink,
        seen.read matches Some(RegistryRead::Records(records)) && records_view(records@)
            == registry.listed(),
    ensures
        open_rule(path, seen) == RegistryNextView::Opened(registry@),
{
}

/// A change that is reported as made can be read back: once writing a changed
/// registry has succeeded, its file was written, and a registry opened from
/// the records that were to be written holds the change and all else.
pub proof fn law_written_change_is_read_back(
    registry: AgentRegistry,
    flushed: FlushReplies,
    reopened: RegistryReplies,
)
    requires
        registry.wf(),
        flush_rule(registry.path(), registry.listed(), flushed) is Written,
        reopened.directory matches Some(Ok(_)),
        reopened.stat matches Some(Ok(stat)) && stat.kind != FileKind::Symlink,
        reopened.read matches Some(RegistryRead::Records(records)) && flush_rule(
            registry.path(),
            registry.listed(),
            nothing_flushed(),
        ) == (FlushNextView::Serialize { records: records_view(records@) }),
    ensures
        flushed.body matches Some(Ok(_)),
        flushed.written matches Some(Ok(_)),
        open_rule(registry.path(), reopened) == RegistryNextView::Opened(registry@),
{
}

/// No change is reported as made before it is written: what a change hands on
/// is its first step or its refusal, and a write that is reported was made.
pub proof fn law_success_means_written(
    before: AgentRegistry,
    registry: AgentRegistry,
    name: Seq<char>,
    after: Map<Seq<char>, RecordView>,
    next: FlushNextView,
    flushed: FlushReplies,
)
    requires
        changes(before, registry, name, after, next),
    ensures
        next !is Written,
        before@.contains_key(name) ==> next == (FlushNextView::Serialize {
            records: registry.listed(),
        }),
        flush_rule(registry.path(), registry.listed(), flushed) is Written ==> (
        flushed.written matches Some(Ok(_))) && parent_path(registry.path()) is Some,
{
}

/// A change of status keeps the agent: nothing of its record changes but the
/// status and the reason, and no other record does.
pub proof fn law_status_changes_keep_the_agent(
    agents: Map<Seq<char>, RecordView>,
    name: Seq<char>,
    status: AgentStatus,
    reason: Option<Seq<char>>,
    other: Seq<char>,
)
    requires
        agents.contains_key(name),
    ensures
        with_status(agents, name, status, reason).contains_key(other) == agents.contains_key(other),
        other != name && agents.contains_key(other) ==> with_status(
            agents,
            name,
            status,
            reason,
        )[other] == agents[other],
        with_status(agents, name, status, reason)[name] == (RecordView {
            status,
            stopped_reason: reason,
            ..agents[name]
        }),
{
}

/// No link is ever followed to the registry, nor read from its directory.
pub proof fn law_registry_follows_no_link(path: Seq<char>, seen: RegistryReplies)
    ensures
        open_rule(path, seen) is Read ==> {
            &&& seen.directory matches Some(Ok(_))
            &&& seen.stat matches Some(Ok(stat)) && stat.kind != FileKind::Symlink
        },
{
}

/// The registry is written whole and in its place: what is put in its file
/// format are all its records, in order; what is written is exactly that text, to
/// the registry's own path, for its owner alone; and a failure is told with that
/// path.
pub proof fn law_registry_is_written_whole(
    path: Seq<char>,
    records: Seq<RecordView>,
    seen: FlushReplies,
)
    ensures
        match flush_rule(path, records, seen) {
            FlushNextView::Serialize { records: all } => all == records && seen.body is None,
            FlushNextView::Write { path: to, dir, mode, body } => to == path && parent_path(path)
                == Some(dir) && mode == 0o600 && (seen.body matches Some(Ok(text)) && body == text@)
                && seen.written is None,
            FlushNextView::Written => (seen.body matches Some(Ok(_))) && (
            seen.written matches Some(Ok(_))),
            FlushNextView::Failed(RegistryErrorView::Serialize { path: at, source }) => at == path
                && (seen.body matches Some(Err(e)) && source == e@),
            FlushNextView::Failed(err) => err matches RegistryErrorView::Io { path: at, source }
                && at == path && (parent_path(path) is None || (seen.written matches Some(Err(e))
                && source == e@)),
        },
{
}

/// A registry is opened from its own file: its directory is made sure of, the
/// file looked at and read under the path that was given; a file that is not
/// there is an empty registry, and one that is holds exactly the records that
/// were read, the later of two with one name.
pub proof fn law_registry_is_opened_from_its_file(path: Seq<char>, seen: RegistryReplies)
    ensures
        match open_rule(path, seen) {
            RegistryNextView::EnsureDirectory { path: dir, mode } => parent_path(path) == Some(dir)
                && mode == 0o700 && seen.directory is None,
            RegistryNextView::Stat { path: at } => at == path && (seen.directory matches Some(Ok(_)))
                && seen.stat is None,
            RegistryNextView::Read { path: at, max_bytes } => at == path && max_bytes == 1048576
                && seen.read is None,
            RegistryNextView::Opened(agents) => {
                ||| (seen.stat matches Some(Err(e)) && e@.kind == IoKind::NotFound)
                    && agents == Map::<Seq<char>, RecordView>::empty()
                ||| seen.read matches Some(RegistryRead::Records(records)) && agents == by_name(
                    records_view(records@),
                )
            },
            RegistryNextView::Refused(err) => {
                ||| parent_path(path) is None && (err matches RegistryErrorView::Io { path: at, .. }
                    && at == path)
                ||| seen.directory matches Some(Err(_))
                ||| seen.stat matches Some(Err(e)) && e@.kind != IoKind::NotFound && err
                    == (RegistryErrorView::Io { path, source: e@ })
                ||| (seen.stat matches Some(Ok(stat)) && stat.kind == FileKind::Symlink) && err
                    == (RegistryErrorView::SymlinkedRegistryFile { path })
                ||| seen.read matches Some(RegistryRead::Unreadable(e)) && err
                    == (RegistryErrorView::Io { path, source: e@ })
                ||| seen.read matches Some(RegistryRead::Unparsable(complaint)) && err
                    == (RegistryErrorView::Parse { path, source: complaint@ })
            },
        },
{
}

/// Of the records of a file, each agent has the last one under its name.
pub proof fn law_later_records_count(records: Seq<RecordView>, name: Seq<char>)
    ensures
        by_name(records).contains_key(name) <==> exists|i: int|
            0 <= i < records.len() && (#[trigger] records[i]).name == name,
        by_name(records).contains_key(name) ==> exists|i: int|
            0 <= i < records.len() && #[trigger] records[i] == by_name(records)[name]
                && records[i].name == name && forall|j: int|
                i < j < records.len() ==> (#[trigger] records[j]).name != name,
    decreases records.len(),
{
    if records.len() > 0 {
        let last = records.len() - 1;
        let rest = records.drop_last();
        law_later_records_count(rest, name);
        if records[last].name == name {
            assert(by_name(records)[name] == records[last]);
        } else {
            if by_name(rest).contains_key(name) {
                let i = choose|i: int|
                    0 <= i < rest.len() && #[trigger] rest[i] == by_name(rest)[name]
                        && rest[i].name == name && forall|j: int|
                        i < j < rest.len() ==> (#[trigger] rest[j]).name != name;
                assert(records[i] == rest[i]);
                assert forall|j: int| i < j < records.len() implies (#[trigger] records[j]).name
                    != name by {
                    if j < last {
                        assert(rest[j] == records[j]);
                    }
                }
            }
            if exists|i: int| 0 <= i < records.len() && (#[trigger] records[i]).name == name {
                let i = choose|i: int|
                    0 <= i < records.len() && (#[trigger] records[i]).name == name;
                assert(rest[i] == records[i]);
            }
        }
    }
}

/// A directory that was not accepted is told as it was found: the same path, and
/// the same modes.
pub proof fn law_failed_checks_are_told_as_found(err: FsCheckView)
    ensures
        match err {
            FsCheckView::Io { path, source } => RegistryErrorView::of_check(err)
                == (RegistryErrorView::Io { path, source }),
            FsCheckView::Symlink { path } => RegistryErrorView::of_check(err)
                == (RegistryErrorView::SymlinkedDataDir { path }),
            FsCheckView::NotADirectory { path } => RegistryErrorView::of_check(err)
                == (RegistryErrorView::NotADirectory { path }),
            FsCheckView::WrongMode { path, actual, expected } => RegistryErrorView::of_check(err)
                == (RegistryErrorView::WrongDirectoryMode { path, actual, expected }),
        },
{
}

/// What is said of an agent's record is said of its own parts, each in its place.
pub proof fn law_agent_record_is_taken_as_it_is(value: AgentRecord)
    ensures
        value@.name == value.name@,
        value@.identity_id == value.identity_id@,
        value@.inbox_dir == value.inbox_dir@,
        value@.persona_name == opt_text(value.persona_name),
        value@.spawned_at == value.spawned_at,
        value@.status == value.status,
        value@.stopped_reason == opt_text(value.stopped_reason),
{
}

/// What is said of a step of a write is said of its own parts, each in its place.
pub proof fn law_flush_next_is_taken_as_it_is(value: FlushNext)
    ensures
        match value {
            FlushNext::Serialize { records } => value@ == (FlushNextView::Serialize {
                records: records_view(records@),
            }),
            FlushNext::Write { path, dir, mode, body } => value@ == (FlushNextView::Write {
                path: path@,
                dir: dir@,
                mode,
                body: body@,
            }),
            FlushNext::Done(Ok(())) => value@ == FlushNextView::Written,
            FlushNext::Done(Err(err)) => value@ == FlushNextView::Failed(err@),
        },
{
}

} // verus!
