//! Capability profiles: which kinds of tool a persona's agents may use.

use vstd::prelude::*;
use vstd::string::*;

use crate::io_error::{IoError, IoErrorView};
use crate::paths::{parent, parent_path};
use crate::text::{decimal, write_decimal};

verus! {

/// Newest version of the profile format that is understood.
pub const MAX_SCHEMA_VERSION: u32 = 1;

/// Bound on the size of a profile file.
pub const MAX_PROFILE_BYTES: u64 = 65536;

/// Mode of a profile file.
pub const PROFILE_FILE_MODE: u32 = 0o600;

/// The kind of a tool.
#[derive(Debug, Clone, Copy, PartialEq, Eq, Structural)]
pub enum ToolCategory {
    ReadFiles,
    WriteFiles,
    ExecuteShell,
    GitRead,
    GitWrite,
    SpawnAgents,
    MessagePeers,
    NetworkEgress,
    WriteMemory,
    WriteConfiguration,
}

impl ToolCategory {
    /// The name of the kind.
    pub open spec fn name_text(self) -> Seq<char> {
        match self {
            ToolCategory::ReadFiles => "read_files"@,
            ToolCategory::WriteFiles => "write_files"@,
            ToolCategory::ExecuteShell => "execute_shell"@,
            ToolCategory::GitRead => "git_read"@,
            ToolCategory::GitWrite => "git_write"@,
            ToolCategory::SpawnAgents => "spawn_agents"@,
            ToolCategory::MessagePeers => "message_peers"@,
            ToolCategory::NetworkEgress => "network_egress"@,
            ToolCategory::WriteMemory => "write_memory"@,
            ToolCategory::WriteConfiguration => "write_configuration"@,
        }
    }

    /// The name of the kind.
    pub fn as_str(&self) -> (name: &'static str)
        ensures
            name@ == self.name_text(),
    {
        match self {
            ToolCategory::ReadFiles => "read_files",
            ToolCategory::WriteFiles => "write_files",
            ToolCategory::ExecuteShell => "execute_shell",
            ToolCategory::GitRead => "git_read",
            ToolCategory::GitWrite => "git_write",
            ToolCategory::SpawnAgents => "spawn_agents",
            ToolCategory::MessagePeers => "message_peers",
            ToolCategory::NetworkEgress => "network_egress",
            ToolCategory::WriteMemory => "write_memory",
            ToolCategory::WriteConfiguration => "write_configuration",
        }
    }

    /// What a reader is shown: the name of the kind.
    pub fn to_string(&self) -> (text: String)
        ensures
            text@ == self.name_text(),
    {
        self.as_str().to_owned()
    }
}

/// Limits on an agent. A limit that is absent does not bound. Costs are in
/// dollars, each held as the bits of an IEEE 754 double.
#[derive(Debug, Clone, Copy, PartialEq, Eq)]
pub struct Thresholds {
    pub cost_per_agent_bits: Option<u64>,
    pub cost_per_session_bits: Option<u64>,
    pub max_concurrent_subordinates: Option<u32>,
    pub max_task_duration_secs: Option<u64>,
}

/// A capability profile. Without a list of categories it allows them all.
#[derive(Debug, PartialEq, Eq)]
pub struct CapabilityProfile {
    pub name: String,
    pub version: u32,
    pub enabled_categories: Option<Vec<ToolCategory>>,
    pub thresholds: Thresholds,
}

impl CapabilityProfile {
    /// Whether the profile allows tools of the given kind.
    pub open spec fn allowing(&self, category: ToolCategory) -> bool {
        match self.enabled_categories {
            None => true,
            Some(categories) => categories@.contains(category),
        }
    }

    /// Whether the profile allows tools of the given kind.
    #[must_use]
    pub fn allows(&self, category: ToolCategory) -> (yes: bool)
        ensures
            yes == self.allowing(category),
    {
        match &self.enabled_categories {
            None => true,
            Some(categories) => {
                let mut i: usize = 0;
                while i < categories.len()
                    invariant
                        self.enabled_categories matches Some(c) && c == categories,
                        i <= categories@.len(),
                        forall|k: int| 0 <= k < i ==> #[trigger] categories@[k] != category,
                    decreases categories.len() - i,
                {
                    if categories[i] == category {
                        assert(categories@[i as int] == category);
                        return true;
                    }
                    i = i + 1;
                }
                false
            },
        }
    }
}

/// Why a profile was not accepted.
#[allow(inconsistent_fields)]
#[derive(Debug, PartialEq, Eq)]
pub enum ProfileError {
    Io { path: String, source: IoError },
    Parse { path: String, source: String },
    UnsupportedVersion { path: String, found: u32, max: u32 },
}

/// What the failure holds.
#[allow(inconsistent_fields)]
pub enum ProfileErrorView {
    Io { path: Seq<char>, source: IoErrorView },
    Parse { path: Seq<char>, source: Seq<char> },
    UnsupportedVersion { path: Seq<char>, found: u32, max: u32 },
}

impl View for ProfileError {
    type V = ProfileErrorView;

    open spec fn view(&self) -> ProfileErrorView {
        match *self {
            ProfileError::Io { path, source } => ProfileErrorView::Io {
                path: path@,
                source: source@,
            },
            ProfileError::Parse { path, source } => ProfileErrorView::Parse {
                path: path@,
                source: source@,
            },
            ProfileError::UnsupportedVersion { path, found, max } => ProfileErrorView::UnsupportedVersion {
                path: path@,
                found,
                max,
            },
        }
    }
}

impl ProfileErrorView {
    /// What a reader is shown.
    pub open spec fn shown(self) -> Seq<char> {
        match self {
            ProfileErrorView::Io { path, source } => "profile I/O error at "@ + path + ": "@
                + source.message,
            ProfileErrorView::Parse { path, source } => "profile parse error at "@ + path + ": "@
                + source,
            ProfileErrorView::UnsupportedVersion { path, found, max } => "profile at "@ + path
                + " has schema version "@ + decimal(found as nat) + "; max supported is "@
                + decimal(max as nat),
        }
    }

    /// The file is not there.
    pub open spec fn absent(self) -> bool {
        self matches ProfileErrorView::Io { source, .. } && source.kind
            == crate::io_error::IoKind::NotFound
    }
}

impl ProfileError {
    /// What a reader is shown.
    pub fn to_string(&self) -> (text: String)
        ensures
            text@ == self@.shown(),
    {
        match self {
            ProfileError::Io { path, source } => {
                let mut text: String = "profile I/O error at ".to_owned();
                text.append(path.as_str());
                text.append(": ");
                text.append(source.message.as_str());
                text
            },
            ProfileError::Parse { path, source } => {
                let mut text: String = "profile parse error at ".to_owned();
                text.append(path.as_str());
                text.append(": ");
                text.append(source.as_str());
                text
            },
            ProfileError::UnsupportedVersion { path, found, max } => {
                let mut text: String = "profile at ".to_owned();
                text.append(path.as_str());
                text.append(" has schema version ");
                text.append(write_decimal(*found as u64).as_str());
                text.append("; max supported is ");
                text.append(write_decimal(*max as u64).as_str());
                text
            },
        }
    }

    /// Whether the failure says that the file is not there.
    pub fn is_absent(&self) -> (yes: bool)
        ensures
            yes == self@.absent(),
    {
        match self {
            ProfileError::Io { source, .. } => source.is_not_found(),
            _ => false,
        }
    }
}

/// What reading a profile file came to.
#[derive(Debug, PartialEq, Eq)]
pub enum ProfileRead {
    /// The file could not be read.
    Unreadable(IoError),
    /// The file could not be parsed; holds the parser's complaint.
    Unparsable(String),
    /// The file was parsed.
    Profile(CapabilityProfile),
}

/// Takes a profile from what reading its file came to. A format that is too
/// new is refused.
pub fn load_capability_profile(path: &str, read: ProfileRead) -> (out: Result<
    CapabilityProfile,
    ProfileError,
>)
    ensures
        match read {
            ProfileRead::Unreadable(source) => out matches Err(err) && err@
                == (ProfileErrorView::Io { path: path@, source: source@ }),
            ProfileRead::Unparsable(source) => out matches Err(err) && err@
                == (ProfileErrorView::Parse { path: path@, source: source@ }),
            ProfileRead::Profile(profile) => if profile.version > MAX_SCHEMA_VERSION {
                out matches Err(err) && err@ == (ProfileErrorView::UnsupportedVersion {
                    path: path@,
                    found: profile.version,
                    max: MAX_SCHEMA_VERSION,
                })
            } else {
                out == Ok::<CapabilityProfile, ProfileError>(profile)
            },
        },
{
    match read {
        ProfileRead::Unreadable(source) => Err(ProfileError::Io { path: path.to_owned(), source }),
        ProfileRead::Unparsable(source) => Err(
            ProfileError::Parse { path: path.to_owned(), source },
        ),
        ProfileRead::Profile(profile) => {
            if profile.version > MAX_SCHEMA_VERSION {
                return Err(
                    ProfileError::UnsupportedVersion {
                        path: path.to_owned(),
                        found: profile.version,
                        max: MAX_SCHEMA_VERSION,
                    },
                );
            }
            Ok(profile)
        },
    }
}

/// What to do next to write a profile.
#[derive(Debug, PartialEq, Eq)]
pub enum ProfileWriteNext<'a> {
    /// Put the profile in its file format and write the file at once, by a new
    /// file in `dir`.
    Write { path: String, dir: String, mode: u32, profile: &'a CapabilityProfile },
    /// Nothing: the profile is written, or could not be.
    Done(Result<(), ProfileError>),
}

/// What to do next to write a profile.
pub enum ProfileWriteView {
    Write { path: Seq<char>, dir: Seq<char>, mode: u32, profile: CapabilityProfile },
    Written,
    Failed(ProfileErrorView),
}

impl<'a> View for ProfileWriteNext<'a> {
    type V = ProfileWriteView;

    open spec fn view(&self) -> ProfileWriteView {
        match *self {
            ProfileWriteNext::Write { path, dir, mode, profile } => ProfileWriteView::Write {
                path: path@,
                dir: dir@,
                mode,
                profile: *profile,
            },
            ProfileWriteNext::Done(Ok(())) => ProfileWriteView::Written,
            ProfileWriteNext::Done(Err(err)) => ProfileWriteView::Failed(err@),
        }
    }
}

/// The rule for writing a profile. A path without a parent is in the current
/// directory.
pub open spec fn profile_write_rule(
    path: Seq<char>,
    profile: CapabilityProfile,
    written: Option<Result<(), IoError>>,
) -> ProfileWriteView {
    match written {
        None => ProfileWriteView::Write {
            path,
            dir: match parent_path(path) {
                Some(dir) => dir,
                None => "."@,
            },
            mode: PROFILE_FILE_MODE,
            profile,
        },
        Some(Err(e)) => ProfileWriteView::Failed(ProfileErrorView::Io { path, source: e@ }),
        Some(Ok(())) => ProfileWriteView::Written,
    }
}

/// What to do next to write a profile to `path`.
pub fn write_capability_profile<'a>(
    path: &str,
    profile: &'a CapabilityProfile,
    written: &Option<Result<(), IoError>>,
) -> (next: ProfileWriteNext<'a>)
    ensures
        next@ == profile_write_rule(path@, *profile, *written),
{
    match written {
        None => {
            let dir: String = match parent(path) {
                Some(dir) => dir,
                None => ".".to_owned(),
            };
            ProfileWriteNext::Write { path: path.to_owned(), dir, mode: PROFILE_FILE_MODE, profile }
        },
        Some(Err(err)) => ProfileWriteNext::Done(
            Err(ProfileError::Io { path: path.to_owned(), source: err.clone() }),
        ),
        Some(Ok(())) => ProfileWriteNext::Done(Ok(())),
    }
}

/// A profile is closed: with a list of categories it allows those and no
/// others, without one it allows them all.
pub proof fn law_unlisted_categories_are_denied(profile: CapabilityProfile, category: ToolCategory)
    ensures
        profile.enabled_categories is None ==> profile.allowing(category),
        profile.enabled_categories matches Some(listed) ==> (profile.allowing(category)
            <==> listed@.contains(category)),
{
}

/// A profile is written as it was given, to the path that was given, by way of
/// that path's directory and for its owner alone; what writing it came to is
/// told.
pub proof fn law_profiles_are_written_as_given(
    path: Seq<char>,
    profile: CapabilityProfile,
    written: Option<Result<(), IoError>>,
)
    ensures
        match written {
            None => profile_write_rule(path, profile, written) == (ProfileWriteView::Write {
                path,
                dir: if parent_path(path) is Some {
                    parent_path(path)->0
                } else {
                    "."@
                },
                mode: 0o600,
                profile,
            }),
            Some(Ok(())) => profile_write_rule(path, profile, written) is Written,
            Some(Err(e)) => profile_write_rule(path, profile, written) == ProfileWriteView::Failed(
                ProfileErrorView::Io { path, source: e@ },
            ),
        },
{
}

} // verus!
