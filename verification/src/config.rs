//! Persona and team configuration, and the defaults installed on first run.

use vstd::prelude::*;
use vstd::string::*;

use crate::atomic_file::{StageFailure, WriteStage};
use crate::fs_util::{FileKind, FsCheckError, FsCheckView, Stat};
use crate::io_error::{IoError, IoErrorView, IoKind};
use crate::paths::{join, join2, joined_path, parent, parent_path};
use crate::text::{blank, is_blank, octal, same_text, write_octal};

verus! {

/// Mode of configuration directories.
pub const CONFIG_DIR_MODE: u32 = 0o700;

/// Mode of configuration files.
pub const CONFIG_FILE_MODE: u32 = 0o600;

/// Bound on the size of a configuration file.
pub const MAX_CONFIG_BYTES: u64 = 65536;

/// The default persona's capability profile, which allows every category.
pub const DEFAULT_PROFILE_TOML: &'static str = "name = \"lead\"\nversion = 1\n";

/// Configuration of the default team that is installed where there is none.
pub const DEFAULT_TEAM_TOML: &'static str = "name = \"default\"\nversion = 1\nlead_role = \"lead\"\n\n[[members]]\npersona_name = \"lead\"\npersona_version = 1\ncount = 1\nrole_label = \"lead\"\n";

// ── Errors ───────────────────────────────────────────────────────────────────

/// Why a configuration was not accepted, or a default not installed.
#[allow(inconsistent_fields)]
#[derive(Debug, PartialEq, Eq)]
pub enum ConfigError {
    /// A filesystem operation failed.
    Io { path: String, source: IoError },
    /// The file could not be parsed; holds the parser's complaint.
    Parse { path: String, source: String },
    /// The file breaks a rule.
    Validation { path: String, message: String },
}

/// What the failure holds.
#[allow(inconsistent_fields)]
pub enum ConfigErrorView {
    Io { path: Seq<char>, source: IoErrorView },
    Parse { path: Seq<char>, source: Seq<char> },
    Validation { path: Seq<char>, message: Seq<char> },
}

impl View for ConfigError {
    type V = ConfigErrorView;

    open spec fn view(&self) -> ConfigErrorView {
        match *self {
            ConfigError::Io { path, source } => ConfigErrorView::Io {
                path: path@,
                source: source@,
            },
            ConfigError::Parse { path, source } => ConfigErrorView::Parse {
                path: path@,
                source: source@,
            },
            ConfigError::Validation { path, message } => ConfigErrorView::Validation {
                path: path@,
                message: message@,
            },
        }
    }
}

impl ConfigErrorView {
    /// What a reader is shown.
    pub open spec fn shown(self) -> Seq<char> {
        match self {
            ConfigErrorView::Io { path, source } => "config IO at "@ + path + ": "@
                + source.message,
            ConfigErrorView::Parse { path, source } => "config parse at "@ + path + ": "@ + source,
            ConfigErrorView::Validation { path, message } => "config validation failed at "@ + path
                + ": "@ + message,
        }
    }

    /// How a failed check of a configuration directory is reported.
    pub open spec fn of_check(err: FsCheckView) -> ConfigErrorView {
        match err {
            FsCheckView::Io { path, source } => ConfigErrorView::Io { path, source },
            FsCheckView::Symlink { path } => ConfigErrorView::Io {
                path,
                source: IoErrorView {
                    kind: IoKind::InvalidInput,
                    message: "config directory is a symlink; runtime refuses to follow it"@,
                },
            },
            FsCheckView::NotADirectory { path } => ConfigErrorView::Io {
                path,
                source: IoErrorView {
                    kind: IoKind::InvalidInput,
                    message: "config path exists but is not a directory"@,
                },
            },
            FsCheckView::WrongMode { path, actual, expected } => ConfigErrorView::Io {
                path,
                source: IoErrorView {
                    kind: IoKind::PermissionDenied,
                    message: "config directory has mode 0o"@ + octal(actual as nat)
                        + ", expected 0o"@ + octal(expected as nat),
                },
            },
        }
    }
}

impl ConfigError {
    /// What a reader is shown.
    pub fn to_string(&self) -> (text: String)
        ensures
            text@ == self@.shown(),
    {
        match self {
            ConfigError::Io { path, source } => {
                let mut text: String = "config IO at ".to_owned();
                text.append(path.as_str());
                text.append(": ");
                text.append(source.message.as_str());
                text
            },
            ConfigError::Parse { path, source } => {
                let mut text: String = "config parse at ".to_owned();
                text.append(path.as_str());
                text.append(": ");
                text.append(source.as_str());
                text
            },
            ConfigError::Validation { path, message } => {
                let mut text: String = "config validation failed at ".to_owned();
                text.append(path.as_str());
                text.append(": ");
                text.append(message.as_str());
                text
            },
        }
    }
}

/// Reports a failed check of a configuration directory.
pub fn ensure_config_dir(check: FsCheckError) -> (err: ConfigError)
    ensures
        err@ == ConfigErrorView::of_check(check@),
{
    match check {
        FsCheckError::Io { path, source } => ConfigError::Io { path, source },
        FsCheckError::Symlink { path } => ConfigError::Io {
            path,
            source: IoError::new(
                IoKind::InvalidInput,
                "config directory is a symlink; runtime refuses to follow it",
            ),
        },
        FsCheckError::NotADirectory { path } => ConfigError::Io {
            path,
            source: IoError::new(IoKind::InvalidInput, "config path exists but is not a directory"),
        },
        FsCheckError::WrongMode { path, actual, expected } => {
            let mut message: String = "config directory has mode 0o".to_owned();
            message.append(write_octal(actual).as_str());
            message.append(", expected 0o");
            message.append(write_octal(expected).as_str());
            ConfigError::Io { path, source: IoError { kind: IoKind::PermissionDenied, message } }
        },
    }
}

// ── Personas ─────────────────────────────────────────────────────────────────

/// Configuration of a persona.
#[derive(Debug, PartialEq, Eq)]
pub struct PersonaConfig {
    pub name: String,
    /// Prompt given to the persona's agents.
    pub system_prompt: String,
    /// Preferred models, best first.
    pub model_preferences: Vec<String>,
    pub capability_profile: Option<String>,
    /// Shown in place of the name.
    pub display_name: Option<String>,
}

/// What reading a persona file came to.
#[derive(Debug, PartialEq, Eq)]
pub enum PersonaRead {
    Unreadable(IoError),
    Unparsable(String),
    Persona(PersonaConfig),
}

/// The rule that a persona breaks, if any: it needs a model, then a name.
pub open spec fn persona_fault(config: PersonaConfig) -> Option<Seq<char>> {
    if config.model_preferences@.len() == 0 {
        Some("model_preferences must not be empty"@)
    } else if blank(config.name@) {
        Some("name must not be empty"@)
    } else {
        None
    }
}

/// Takes a persona from what reading its file came to.
pub fn load_persona_config(path: &str, read: PersonaRead) -> (out: Result<
    PersonaConfig,
    ConfigError,
>)
    ensures
        match read {
            PersonaRead::Unreadable(source) => out matches Err(err) && err@
                == (ConfigErrorView::Io { path: path@, source: source@ }),
            PersonaRead::Unparsable(source) => out matches Err(err) && err@
                == (ConfigErrorView::Parse { path: path@, source: source@ }),
            PersonaRead::Persona(config) => match persona_fault(config) {
                Some(message) => out matches Err(err) && err@ == (ConfigErrorView::Validation {
                    path: path@,
                    message,
                }),
                None => out == Ok::<PersonaConfig, ConfigError>(config),
            },
        },
{
    match read {
        PersonaRead::Unreadable(source) => Err(ConfigError::Io { path: path.to_owned(), source }),
        PersonaRead::Unparsable(source) => Err(
            ConfigError::Parse { path: path.to_owned(), source },
        ),
        PersonaRead::Persona(config) => {
            if config.model_preferences.len() == 0 {
                return Err(
                    ConfigError::Validation {
                        path: path.to_owned(),
                        message: "model_preferences must not be empty".to_owned(),
                    },
                );
            }
            if is_blank(config.name.as_str()) {
                return Err(
                    ConfigError::Validation {
                        path: path.to_owned(),
                        message: "name must not be empty".to_owned(),
                    },
                );
            }
            Ok(config)
        },
    }
}

// ── Teams ────────────────────────────────────────────────────────────────────

/// One line of a team: so many agents of a persona in a role.
#[derive(Debug, PartialEq, Eq)]
pub struct TeamMember {
    pub persona_name: String,
    pub persona_version: u32,
    /// How many agents to mint.
    pub count: u32,
    pub role_label: String,
}

/// What a line of a team holds.
pub struct MemberView {
    pub persona_name: Seq<char>,
    pub persona_version: u32,
    pub count: u32,
    pub role_label: Seq<char>,
}

impl View for TeamMember {
    type V = MemberView;

    open spec fn view(&self) -> MemberView {
        MemberView {
            persona_name: self.persona_name@,
            persona_version: self.persona_version,
            count: self.count,
            role_label: self.role_label@,
        }
    }
}

/// What each line of a team holds.
pub open spec fn members_view(v: Seq<TeamMember>) -> Seq<MemberView> {
    v.map_values(|m: TeamMember| m@)
}

/// Configuration of a team.
#[derive(Debug, PartialEq, Eq)]
pub struct TeamConfig {
    pub name: String,
    pub version: u32,
    /// Role of the member that leads.
    pub lead_role: String,
    pub members: Vec<TeamMember>,
}

/// What a team holds.
pub struct TeamView {
    pub name: Seq<char>,
    pub version: u32,
    pub lead_role: Seq<char>,
    pub members: Seq<MemberView>,
}

impl View for TeamConfig {
    type V = TeamView;

    open spec fn view(&self) -> TeamView {
        TeamView {
            name: self.name@,
            version: self.version,
            lead_role: self.lead_role@,
            members: members_view(self.members@),
        }
    }
}

impl Clone for TeamConfig {
    fn clone(&self) -> (copy: TeamConfig)
        ensures
            copy@ == self@,
    {
        let mut members: Vec<TeamMember> = Vec::new();
        let mut i: usize = 0;
        while i < self.members.len()
            invariant
                i <= self.members@.len(),
                members_view(members@) == members_view(self.members@).take(i as int),
            decreases self.members.len() - i,
        {
            let line: &TeamMember = &self.members[i];
            let ghost before: Seq<TeamMember> = members@;
            members.push(
                TeamMember {
                    persona_name: line.persona_name.clone(),
                    persona_version: line.persona_version,
                    count: line.count,
                    role_label: line.role_label.clone(),
                },
            );
            proof {
                assert(members_view(members@) =~= members_view(before).push(line@));
                assert(members_view(self.members@).take(i + 1) =~= members_view(
                    self.members@,
                ).take(i as int).push(line@));
            }
            i = i + 1;
        }
        assert(members_view(self.members@).take(i as int) =~= members_view(self.members@));
        TeamConfig {
            name: self.name.clone(),
            version: self.version,
            lead_role: self.lead_role.clone(),
            members,
        }
    }
}

/// What reading a team file came to.
#[derive(Debug, PartialEq, Eq)]
pub enum TeamRead {
    Unreadable(IoError),
    Unparsable(String),
    Team(TeamConfig),
}

/// Some member has the given role.
pub open spec fn has_role(members: Seq<MemberView>, role: Seq<char>) -> bool {
    exists|i: int| 0 <= i < members.len() && (#[trigger] members[i]).role_label == role
}

/// The rule that a team breaks, if any: it needs members, then a member in
/// the lead role, then a name.
pub open spec fn team_fault(config: TeamConfig) -> Option<Seq<char>> {
    let members = members_view(config.members@);
    if members.len() == 0 {
        Some("members must not be empty"@)
    } else if !has_role(members, config.lead_role@) {
        Some("lead_role '"@ + config.lead_role@ + "' does not match any member role_label"@)
    } else if blank(config.name@) {
        Some("name must not be empty"@)
    } else {
        None
    }
}

fn any_in_role(members: &Vec<TeamMember>, role: &str) -> (yes: bool)
    ensures
        yes == has_role(members_view(members@), role@),
{
    let mut i: usize = 0;
    while i < members.len()
        invariant
            i <= members@.len(),
            forall|k: int|
                0 <= k < i ==> (#[trigger] members_view(members@)[k]).role_label != role@,
        decreases members.len() - i,
    {
        assert(members_view(members@)[i as int] == members@[i as int]@);
        if same_text(members[i].role_label.as_str(), role) {
            return true;
        }
        i = i + 1;
    }
    false
}

/// Takes a team from what reading its file came to.
pub fn load_team_config(path: &str, read: TeamRead) -> (out: Result<TeamConfig, ConfigError>)
    ensures
        match read {
            TeamRead::Unreadable(source) => out matches Err(err) && err@ == (ConfigErrorView::Io {
                path: path@,
                source: source@,
            }),
            TeamRead::Unparsable(source) => out matches Err(err) && err@
                == (ConfigErrorView::Parse { path: path@, source: source@ }),
            TeamRead::Team(config) => match team_fault(config) {
                Some(message) => out matches Err(err) && err@ == (ConfigErrorView::Validation {
                    path: path@,
                    message,
                }),
                None => out == Ok::<TeamConfig, ConfigError>(config),
            },
        },
{
    match read {
        TeamRead::Unreadable(source) => Err(ConfigError::Io { path: path.to_owned(), source }),
        TeamRead::Unparsable(source) => Err(ConfigError::Parse { path: path.to_owned(), source }),
        TeamRead::Team(config) => {
            if config.members.len() == 0 {
                return Err(
                    ConfigError::Validation {
                        path: path.to_owned(),
                        message: "members must not be empty".to_owned(),
                    },
                );
            }
            if !any_in_role(&config.members, config.lead_role.as_str()) {
                let mut message: String = "lead_role '".to_owned();
                message.append(config.lead_role.as_str());
                message.append("' does not match any member role_label");
                return Err(ConfigError::Validation { path: path.to_owned(), message });
            }
            if is_blank(config.name.as_str()) {
                return Err(
                    ConfigError::Validation {
                        path: path.to_owned(),
                        message: "name must not be empty".to_owned(),
                    },
                );
            }
            Ok(config)
        },
    }
}

// ── Defaults ─────────────────────────────────────────────────────────────────

/// A failed write: the path it failed on, and why.
#[derive(Debug, PartialEq, Eq)]
pub struct WriteFailure {
    pub path: String,
    pub source: IoError,
}

/// On which path a stage of a write works: making the new file on the
/// directory, renaming it on the target, the rest on the new file.
pub open spec fn stage_path(
    stage: WriteStage,
    dir: Seq<char>,
    target: Seq<char>,
    temp: Seq<char>,
) -> Seq<char> {
    match stage {
        WriteStage::CreateTemp => dir,
        WriteStage::Persist => target,
        _ => temp,
    }
}

/// How a write of a configuration file is reported, with the path on which it
/// failed.
pub fn atomic_write_str(
    dir: &str,
    target: &str,
    temp: &str,
    outcome: Result<(), StageFailure>,
) -> (out: Result<(), WriteFailure>)
    ensures
        match (outcome, out) {
            (Ok(()), Ok(())) => true,
            (Err(failure), Err(err)) => err.path@ == stage_path(
                failure.stage,
                dir@,
                target@,
                temp@,
            ) && err.source@ == failure.source@,
            _ => false,
        },
{
    match outcome {
        Ok(()) => Ok(()),
        Err(failure) => {
            let path: &str = match failure.stage {
                WriteStage::CreateTemp => dir,
                WriteStage::Persist => target,
                _ => temp,
            };
            Err(WriteFailure { path: path.to_owned(), source: failure.source })
        },
    }
}

/// What has been learned so far about a file to be installed.
#[derive(Debug, PartialEq, Eq)]
pub struct WriteReplies {
    /// What looking at the file told.
    pub stat: Option<Result<Stat, IoError>>,
    /// What making sure of its directory came to.
    pub directory: Option<Result<(), FsCheckError>>,
    /// What writing it came to.
    pub written: Option<Result<(), WriteFailure>>,
}

/// What to do next about a file to be installed.
#[derive(Debug, PartialEq, Eq)]
pub enum WriteNext {
    /// Look at the file.
    Stat { path: String },
    /// Make sure that this directory is there with this mode.
    EnsureDirectory { path: String, mode: u32 },
    /// Write the file at once, by a new file in `dir`.
    Write { path: String, dir: String, content: String, mode: u32 },
    /// Nothing: the file is there, or cannot be installed.
    Done(Result<(), ConfigError>),
}

/// What to do next, with the content of a refusal.
pub enum WriteNextView {
    Stat { path: Seq<char> },
    EnsureDirectory { path: Seq<char>, mode: u32 },
    Write { path: Seq<char>, dir: Seq<char>, content: Seq<char>, mode: u32 },
    Installed,
    Refused(ConfigErrorView),
}

impl View for WriteNext {
    type V = WriteNextView;

    open spec fn view(&self) -> WriteNextView {
        match *self {
            WriteNext::Stat { path } => WriteNextView::Stat { path: path@ },
            WriteNext::EnsureDirectory { path, mode } => WriteNextView::EnsureDirectory {
                path: path@,
                mode,
            },
            WriteNext::Write { path, dir, content, mode } => WriteNextView::Write {
                path: path@,
                dir: dir@,
                content: content@,
                mode,
            },
            WriteNext::Done(Ok(())) => WriteNextView::Installed,
            WriteNext::Done(Err(err)) => WriteNextView::Refused(err@),
        }
    }
}

/// The rule for installing a file: one that is there is left alone, a link is
/// refused, and one that is not there is written.
pub open spec fn write_rule(path: Seq<char>, content: Seq<char>, seen: WriteReplies) -> WriteNextView {
    match seen.stat {
        None => WriteNextView::Stat { path },
        Some(Ok(stat)) => if stat.kind == FileKind::Symlink {
            WriteNextView::Refused(
                ConfigErrorView::Io {
                    path,
                    source: IoErrorView {
                        kind: IoKind::InvalidData,
                        message: "config path is a symlink; cannot install default"@,
                    },
                },
            )
        } else {
            WriteNextView::Installed
        },
        Some(Err(e)) => if e@.kind != IoKind::NotFound {
            WriteNextView::Refused(ConfigErrorView::Io { path, source: e@ })
        } else {
            match parent_path(path) {
                None => WriteNextView::Refused(no_config_parent(path)),
                Some(dir) => match seen.directory {
                    None => WriteNextView::EnsureDirectory { path: dir, mode: CONFIG_DIR_MODE },
                    Some(Err(e)) => WriteNextView::Refused(ConfigErrorView::of_check(e@)),
                    Some(Ok(())) => match seen.written {
                        None => WriteNextView::Write { path, dir, content, mode: CONFIG_FILE_MODE },
                        Some(Err(e)) => WriteNextView::Refused(
                            ConfigErrorView::Io { path: e.path@, source: e.source@ },
                        ),
                        Some(Ok(())) => WriteNextView::Installed,
                    },
                },
            }
        },
    }
}

/// A configuration path has no directory to be in.
pub open spec fn no_config_parent(path: Seq<char>) -> ConfigErrorView {
    ConfigErrorView::Io {
        path,
        source: IoErrorView {
            kind: IoKind::InvalidInput,
            message: "config path has no parent directory"@,
        },
    }
}

fn parent_of(path: &str) -> (out: Result<String, ConfigError>)
    ensures
        match out {
            Ok(dir) => parent_path(path@) == Some(dir@),
            Err(err) => parent_path(path@) is None && err@ == no_config_parent(path@),
        },
{
    match parent(path) {
        Some(dir) => Ok(dir),
        None => Err(
            ConfigError::Io {
                path: path.to_owned(),
                source: IoError::new(IoKind::InvalidInput, "config path has no parent directory"),
            },
        ),
    }
}

/// What to do next so that a file is there: it is written only where there is
/// nothing at its path.
pub fn write_if_absent(path: &str, content: &str, seen: &WriteReplies) -> (next: WriteNext)
    ensures
        next@ == write_rule(path@, content@, *seen),
{
    match &seen.stat {
        None => {
            return WriteNext::Stat { path: path.to_owned() };
        },
        Some(Ok(stat)) => {
            if stat.kind == FileKind::Symlink {
                return WriteNext::Done(
                    Err(
                        ConfigError::Io {
                            path: path.to_owned(),
                            source: IoError::new(
                                IoKind::InvalidData,
                                "config path is a symlink; cannot install default",
                            ),
                        },
                    ),
                );
            }
            return WriteNext::Done(Ok(()));
        },
        Some(Err(err)) => {
            if !err.is_not_found() {
                return WriteNext::Done(
                    Err(ConfigError::Io { path: path.to_owned(), source: err.clone() }),
                );
            }
        },
    }
    let dir: String = match parent_of(path) {
        Ok(dir) => dir,
        Err(err) => {
            return WriteNext::Done(Err(err));
        },
    };
    match &seen.directory {
        None => WriteNext::EnsureDirectory { path: dir, mode: CONFIG_DIR_MODE },
        Some(Err(err)) => WriteNext::Done(Err(ensure_config_dir(err.clone()))),
        Some(Ok(())) => match &seen.written {
            None => WriteNext::Write {
                path: path.to_owned(),
                dir,
                content: content.to_owned(),
                mode: CONFIG_FILE_MODE,
            },
            Some(Err(failure)) => WriteNext::Done(
                Err(
                    ConfigError::Io {
                        path: failure.path.clone(),
                        source: failure.source.clone(),
                    },
                ),
            ),
            Some(Ok(())) => WriteNext::Done(Ok(())),
        },
    }
}

/// Path of the default persona's configuration.
pub open spec fn default_persona_path(data_dir: Seq<char>) -> Seq<char> {
    joined_path(joined_path(joined_path(data_dir, "personas"@), "lead"@), "config.toml"@)
}

/// Path of the default persona's capability profile.
pub open spec fn default_profile_path(data_dir: Seq<char>) -> Seq<char> {
    joined_path(joined_path(joined_path(data_dir, "personas"@), "lead"@), "profile.toml"@)
}

/// Path of the default team's configuration.
pub open spec fn default_team_path(data_dir: Seq<char>) -> Seq<char> {
    joined_path(joined_path(data_dir, "teams"@), "default.toml"@)
}

/// The default persona, which prefers the given model.
pub open spec fn default_persona(model: Seq<char>) -> Seq<char> {
    "name = \"lead\"\nsystem_prompt = \"You are a helpful AI assistant.\"\nmodel_preferences = [\""@
        + model + "\"]\ncapability_profile = \"default\"\ndisplay_name = \"Lead\"\n"@
}

/// The default persona, which prefers the given model.
pub fn default_persona_toml(model: &str) -> (text: String)
    ensures
        text@ == default_persona(model@),
{
    let mut text: String =
        "name = \"lead\"\nsystem_prompt = \"You are a helpful AI assistant.\"\nmodel_preferences = [\"".to_owned();
    text.append(model);
    text.append("\"]\ncapability_profile = \"default\"\ndisplay_name = \"Lead\"\n");
    text
}

/// The rule for the defaults: the persona, its profile and the team, each once
/// the one before it is there.
pub open spec fn install_rule(
    data_dir: Seq<char>,
    model: Seq<char>,
    persona: WriteReplies,
    profile: WriteReplies,
    team: WriteReplies,
) -> WriteNextView {
    let first = write_rule(default_persona_path(data_dir), default_persona(model), persona);
    let second = write_rule(default_profile_path(data_dir), DEFAULT_PROFILE_TOML@, profile);
    if first !is Installed {
        first
    } else if second !is Installed {
        second
    } else {
        write_rule(default_team_path(data_dir), DEFAULT_TEAM_TOML@, team)
    }
}

/// What to do next so that the default persona, which prefers the given
/// model, its capability profile and the default team are there. What is there
/// already is never overwritten.
///
/// The profile is there so that the default team's lead, which has none of its
/// own after it was minted, can be resumed at the next start.
pub fn install_defaults(
    data_dir: &str,
    model: &str,
    persona: &WriteReplies,
    profile: &WriteReplies,
    team: &WriteReplies,
) -> (next: WriteNext)
    ensures
        next@ == install_rule(data_dir@, model@, *persona, *profile, *team),
{
    let persona_dir: String = join2(data_dir, "personas", "lead");
    let persona_path: String = join(persona_dir.as_str(), "config.toml");
    let profile_path: String = join(persona_dir.as_str(), "profile.toml");
    let team_path: String = join2(data_dir, "teams", "default.toml");
    let persona_text: String = default_persona_toml(model);
    match write_if_absent(persona_path.as_str(), persona_text.as_str(), persona) {
        WriteNext::Done(Ok(())) => {},
        next => {
            return next;
        },
    }
    match write_if_absent(profile_path.as_str(), DEFAULT_PROFILE_TOML, profile) {
        WriteNext::Done(Ok(())) => write_if_absent(team_path.as_str(), DEFAULT_TEAM_TOML, team),
        next => next,
    }
}

/// What is there is never overwritten: a file is written only after the look
/// at its path told that nothing is there.
pub proof fn law_install_never_overwrites(
    path: Seq<char>,
    content: Seq<char>,
    seen: WriteReplies,
)
    requires
        write_rule(path, content, seen) is Write,
    ensures
        seen.stat matches Some(Err(e)) && e@.kind == IoKind::NotFound,
{
}

/// Installing is idempotent: where all files are there and none is a link,
/// nothing is to be done.
pub proof fn law_install_is_idempotent(
    data_dir: Seq<char>,
    model: Seq<char>,
    persona: WriteReplies,
    profile: WriteReplies,
    team: WriteReplies,
)
    requires
        persona.stat matches Some(Ok(stat)) && stat.kind != FileKind::Symlink,
        profile.stat matches Some(Ok(stat)) && stat.kind != FileKind::Symlink,
        team.stat matches Some(Ok(stat)) && stat.kind != FileKind::Symlink,
    ensures
        install_rule(data_dir, model, persona, profile, team) is Installed,
{
}

/// A file is installed as given: where nothing is at its path, the content goes
/// there, by way of its directory and for its owner alone.
pub proof fn law_files_are_installed_as_given(
    path: Seq<char>,
    content: Seq<char>,
    seen: WriteReplies,
)
    ensures
        match write_rule(path, content, seen) {
            WriteNextView::Stat { path: at } => at == path && seen.stat is None,
            WriteNextView::EnsureDirectory { path: dir, mode } => parent_path(path) == Some(dir)
                && mode == 0o700 && seen.directory is None,
            WriteNextView::Write { path: to, dir, content: text, mode } => to == path && text
                == content && parent_path(path) == Some(dir) && mode == 0o600 && (
            seen.directory matches Some(Ok(_))),
            WriteNextView::Installed => (seen.stat matches Some(Ok(_))) || (
            seen.written matches Some(Ok(_))),
            WriteNextView::Refused(_) => (seen.stat matches Some(Ok(stat)) && stat.kind
                == FileKind::Symlink) || (seen.stat matches Some(Err(e)) && (e@.kind
                != IoKind::NotFound || parent_path(path) is None || (
            seen.directory matches Some(Err(_))) || (seen.written matches Some(Err(_))))),
        },
{
}

/// The defaults are what they are said to be: whatever is written is the lead
/// persona, which prefers the model that was given, its profile, or the default
/// team, each at its own path, and each only once those before it are there.
pub proof fn law_defaults_are_installed_in_order(
    data_dir: Seq<char>,
    model: Seq<char>,
    persona: WriteReplies,
    profile: WriteReplies,
    team: WriteReplies,
)
    ensures
        install_rule(data_dir, model, persona, profile, team) matches WriteNextView::Write {
            path,
            content,
            ..
        } ==> {
            let lead = joined_path(joined_path(data_dir, "personas"@), "lead"@);
            ||| path == joined_path(lead, "config.toml"@) && content
                == "name = \"lead\"\nsystem_prompt = \"You are a helpful AI assistant.\"\nmodel_preferences = [\""@
                + model + "\"]\ncapability_profile = \"default\"\ndisplay_name = \"Lead\"\n"@
            ||| path == joined_path(lead, "profile.toml"@) && content
                == "name = \"lead\"\nversion = 1\n"@ && settled(persona)
            ||| path == joined_path(joined_path(data_dir, "teams"@), "default.toml"@) && content
                == "name = \"default\"\nversion = 1\nlead_role = \"lead\"\n\n[[members]]\npersona_name = \"lead\"\npersona_version = 1\ncount = 1\nrole_label = \"lead\"\n"@
                && settled(persona) && settled(profile)
        },
        install_rule(data_dir, model, persona, profile, team) is Installed ==> settled(persona)
            && settled(profile) && settled(team),
{
}

/// The file is there: it was found, or was written.
pub open spec fn settled(seen: WriteReplies) -> bool {
    (seen.stat matches Some(Ok(_))) || (seen.written matches Some(Ok(_)))
}

/// What is accepted can be worked with: a persona has a model and a name, and a
/// team has members, one of them in its lead role, and a name; what lacks one of
/// these is told which.
pub proof fn law_accepted_configurations_are_whole(persona: PersonaConfig, team: TeamConfig)
    ensures
        persona_fault(persona) is None <==> persona.model_preferences@.len() > 0 && !blank(
            persona.name@,
        ),
        persona.model_preferences@.len() == 0 ==> persona_fault(persona) == Some(
            "model_preferences must not be empty"@,
        ),
        persona.model_preferences@.len() > 0 && blank(persona.name@) ==> persona_fault(persona)
            == Some("name must not be empty"@),
        team_fault(team) is None <==> team.members@.len() > 0 && !blank(team.name@) && exists|i: int|
            0 <= i < team.members@.len() && (#[trigger] team.members@[i]).role_label@
                == team.lead_role@,
        team.members@.len() == 0 ==> team_fault(team) == Some("members must not be empty"@),
        team.members@.len() > 0 && !(exists|i: int|
            0 <= i < team.members@.len() && (#[trigger] team.members@[i]).role_label@
                == team.lead_role@) ==> team_fault(team) == Some(
            "lead_role '"@ + team.lead_role@ + "' does not match any member role_label"@,
        ),
{
    let members = members_view(team.members@);
    if has_role(members, team.lead_role@) {
        let i = choose|i: int|
            0 <= i < members.len() && (#[trigger] members[i]).role_label == team.lead_role@;
        assert(team.members@[i].role_label@ == team.lead_role@);
    }
    if exists|i: int|
        0 <= i < team.members@.len() && (#[trigger] team.members@[i]).role_label@
            == team.lead_role@ {
        let i = choose|i: int|
            0 <= i < team.members@.len() && (#[trigger] team.members@[i]).role_label@
                == team.lead_role@;
        assert(members[i].role_label == team.lead_role@);
    }
}

/// A directory that was not accepted is told with its path, and a failed look at
/// it just as it came.
pub proof fn law_failed_checks_keep_their_path(err: FsCheckView)
    ensures
        match err {
            FsCheckView::Io { path, source } => ConfigErrorView::of_check(err) == (ConfigErrorView::Io {
                path,
                source,
            }),
            FsCheckView::Symlink { path } => ConfigErrorView::of_check(err) matches ConfigErrorView::Io { path: at, .. }
                && at == path,
            FsCheckView::NotADirectory { path } => ConfigErrorView::of_check(err) matches ConfigErrorView::Io {
                path: at,
                ..
            } && at == path,
            FsCheckView::WrongMode { path, .. } => ConfigErrorView::of_check(err) matches ConfigErrorView::Io {
                path: at,
                ..
            } && at == path,
        },
{
}

/// A write that failed is told by the file it failed on: the directory where the
/// new file could not be made, the target where it could not take its name, and
/// the new file itself for anything between.
pub proof fn law_failures_name_the_right_file(
    stage: WriteStage,
    dir: Seq<char>,
    target: Seq<char>,
    temp: Seq<char>,
)
    ensures
        stage_path(stage, dir, target, temp) == if stage == WriteStage::CreateTemp {
            dir
        } else if stage == WriteStage::Persist {
            target
        } else {
            temp
        },
{
}

/// What is said of a line of a team is said of its own parts, each in its place.
pub proof fn law_team_member_is_taken_as_it_is(value: TeamMember)
    ensures
        value@.persona_name == value.persona_name@,
        value@.persona_version == value.persona_version,
        value@.count == value.count,
        value@.role_label == value.role_label@,
{
}

/// What is said of a team is said of its own parts, each in its place.
pub proof fn law_team_config_is_taken_as_it_is(value: TeamConfig)
    ensures
        value@.name == value.name@,
        value@.version == value.version,
        value@.lead_role == value.lead_role@,
        value@.members == members_view(value.members@),
{
}

/// What is said of a step of a write is said of its own parts, each in its place.
pub proof fn law_write_next_is_taken_as_it_is(value: WriteNext)
    ensures
        match value {
            WriteNext::Stat { path } => value@ == (WriteNextView::Stat { path: path@ }),
            WriteNext::EnsureDirectory { path, mode } => value@ == (WriteNextView::EnsureDirectory {
                path: path@,
                mode,
            }),
            WriteNext::Write { path, dir, content, mode } => value@ == (WriteNextView::Write {
                path: path@,
                dir: dir@,
                content: content@,
                mode,
            }),
            WriteNext::Done(Ok(())) => value@ == WriteNextView::Installed,
            WriteNext::Done(Err(err)) => value@ == WriteNextView::Refused(err@),
        },
{
}

} // verus!
