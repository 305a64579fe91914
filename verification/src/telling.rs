//! What the texts of failures tell: each names what it is about, and why.

use vstd::prelude::*;

use crate::agent::AgentErrorView;
use crate::agent_fs::{AgentFsView, DataRootError};
use crate::agent_registry::RegistryErrorView;
use crate::audit::AuditErrorView;
use crate::blacklist::BlacklistErrorView;
use crate::capability::ProfileErrorView;
use crate::config::ConfigErrorView;
use crate::daemon::DaemonErrorView;
use crate::delivery::DepositErrorView;
use crate::dispatcher::SendErrorView;
use crate::engagement::{EngagementErrorView, EngagementState};
use crate::fs_util::XdgBaseView;
use crate::text::{decimal, octal, quoted};

verus! {

/// The part stands in the text at `i`.
pub open spec fn stands_at(text: Seq<char>, part: Seq<char>, i: int) -> bool {
    &&& 0 <= i
    &&& i + part.len() <= text.len()
    &&& text.subrange(i, i + part.len()) == part
}

/// The parts stand in the text one after the other, in order.
pub open spec fn tells(text: Seq<char>, parts: Seq<Seq<char>>) -> bool
    decreases parts.len(),
{
    parts.len() == 0 || exists|i: int| #[trigger]
        stands_at(text, parts.last(), i) && tells(text.take(i), parts.drop_last())
}

proof fn lemma_more(head: Seq<char>, parts: Seq<Seq<char>>, tail: Seq<char>)
    requires
        tells(head, parts),
    ensures
        tells(head + tail, parts),
{
    if parts.len() > 0 {
        let i = choose|i: int| #[trigger]
            stands_at(head, parts.last(), i) && tells(head.take(i), parts.drop_last());
        let n = parts.last().len();
        assert((head + tail).subrange(i, i + n) =~= head.subrange(i, i + n));
        assert((head + tail).take(i) =~= head.take(i));
        assert(stands_at(head + tail, parts.last(), i));
    }
}

proof fn lemma_last(head: Seq<char>, parts: Seq<Seq<char>>, part: Seq<char>)
    requires
        tells(head, parts),
    ensures
        tells(head + part, parts.push(part)),
{
    let all = parts.push(part);
    let i = head.len() as int;
    assert(all.drop_last() =~= parts);
    assert((head + part).subrange(i, i + part.len()) =~= part);
    assert((head + part).take(i) =~= head);
    assert(stands_at(head + part, all.last(), i));
}

proof fn lemma_one(a: Seq<char>, p: Seq<char>, b: Seq<char>)
    ensures
        tells(a + p, seq![p]),
        tells(a + p + b, seq![p]),
{
    lemma_last(a, Seq::empty(), p);
    assert(Seq::<Seq<char>>::empty().push(p) =~= seq![p]);
    lemma_more(a + p, seq![p], b);
}

proof fn lemma_two(a: Seq<char>, p: Seq<char>, b: Seq<char>, q: Seq<char>, c: Seq<char>)
    ensures
        tells(a + p + b + q, seq![p, q]),
        tells(a + p + b + q + c, seq![p, q]),
{
    lemma_one(a, p, b);
    lemma_last(a + p + b, seq![p], q);
    assert(seq![p].push(q) =~= seq![p, q]);
    lemma_more(a + p + b + q, seq![p, q], c);
}

proof fn lemma_three(
    a: Seq<char>,
    p: Seq<char>,
    b: Seq<char>,
    q: Seq<char>,
    c: Seq<char>,
    r: Seq<char>,
)
    ensures
        tells(a + p + b + q + c + r, seq![p, q, r]),
{
    lemma_two(a, p, b, q, c);
    lemma_last(a + p + b + q + c, seq![p, q], r);
    assert(seq![p, q].push(r) =~= seq![p, q, r]);
}

/// What an agent's failure is shown as tells where it happened, and why.
pub proof fn law_agent_failures_tell_all(err: AgentErrorView)
    ensures
        match err {
            AgentErrorView::Fs(source) => tells(err.shown(), seq![source.shown()]),
            AgentErrorView::Adapter(source) => tells(err.shown(), seq![source]),
            AgentErrorView::Io { path, source } => tells(err.shown(), seq![path, source.message]),
            AgentErrorView::Json(source) => tells(err.shown(), seq![source]),
            AgentErrorView::DuplicateToolName(name) => tells(err.shown(), seq![name]),
        },
{
    let no = Seq::<char>::empty();
    match err {
        AgentErrorView::Fs(source) => lemma_one("agent fs error: "@, source.shown(), no),
        AgentErrorView::Adapter(source) => lemma_one("adapter error: "@, source, no),
        AgentErrorView::Io { path, source } => lemma_two(
            "agent IO at "@,
            path,
            ": "@,
            source.message,
            no,
        ),
        AgentErrorView::Json(source) => lemma_one("agent json error: "@, source, no),
        AgentErrorView::DuplicateToolName(name) => lemma_one(
            "duplicate tool name in agent constructor: "@,
            name,
            no,
        ),
    }
}

/// What a failure of an agent's directory is shown as tells where it happened,
/// and why.
pub proof fn law_directory_failures_tell_all(err: AgentFsView)
    ensures
        match err {
            AgentFsView::Io { path, source } => tells(err.shown(), seq![path, source.message]),
            AgentFsView::Json(source) => tells(err.shown(), seq![source]),
        },
{
    let no = Seq::<char>::empty();
    match err {
        AgentFsView::Io { path, source } => lemma_two(
            "agent fs IO at "@,
            path,
            ": "@,
            source.message,
            no,
        ),
        AgentFsView::Json(source) => lemma_one("agent fs json: "@, source, no),
    }
}

/// A refused base directory is told by the variable that gives it, and what
/// it holds.
pub proof fn law_refused_bases_are_told(var_name: Seq<char>, path: Seq<char>)
    ensures
        tells(
            DataRootError::shown(XdgBaseView::RelativeDir { var_name, path }),
            seq![var_name, path],
        ),
{
    let no = Seq::<char>::empty();
    assert(no + var_name =~= var_name);
    lemma_two(no, var_name, " must be absolute, got "@, path, no);
}

/// What a registry's failure is shown as tells where it happened, and why.
pub proof fn law_registry_failures_tell_all(err: RegistryErrorView)
    ensures
        match err {
            RegistryErrorView::Io { path, source } => tells(
                err.shown(),
                seq![path, source.message],
            ),
            RegistryErrorView::Parse { path, source } => tells(err.shown(), seq![path, source]),
            RegistryErrorView::Serialize { path, source } => tells(err.shown(), seq![path, source]),
            RegistryErrorView::MissingHome => true,
            RegistryErrorView::RelativeDataDir { var_name, path } => tells(
                err.shown(),
                seq![var_name, path],
            ),
            RegistryErrorView::NotFound { name } => tells(err.shown(), seq![quoted(name)]),
            RegistryErrorView::InvalidKeyFile { path, len } => tells(
                err.shown(),
                seq![path, decimal(len as nat)],
            ),
            RegistryErrorView::SymlinkedKeyFile { path } => tells(err.shown(), seq![path]),
            RegistryErrorView::SymlinkedRegistryFile { path } => tells(err.shown(), seq![path]),
            RegistryErrorView::SymlinkedDataDir { path } => tells(err.shown(), seq![path]),
            RegistryErrorView::NotADirectory { path } => tells(err.shown(), seq![path]),
            RegistryErrorView::WrongDirectoryMode { path, actual, expected } => tells(
                err.shown(),
                seq![path, octal(actual as nat), octal(expected as nat)],
            ),
            RegistryErrorView::InvalidAgentName { name } => tells(err.shown(), seq![quoted(name)]),
        },
{
    let no = Seq::<char>::empty();
    match err {
        RegistryErrorView::Io { path, source } => lemma_two(
            "agent registry IO at "@,
            path,
            ": "@,
            source.message,
            no,
        ),
        RegistryErrorView::Parse { path, source } => lemma_two(
            "agent registry parse error at "@,
            path,
            ": "@,
            source,
            no,
        ),
        RegistryErrorView::Serialize { path, source } => lemma_two(
            "agent registry serialize error at "@,
            path,
            ": "@,
            source,
            no,
        ),
        RegistryErrorView::MissingHome => {},
        RegistryErrorView::RelativeDataDir { var_name, path } => lemma_two(
            "$"@,
            var_name,
            " is a relative path ("@,
            path,
            "); the data directory must be absolute"@,
        ),
        RegistryErrorView::NotFound { name } => lemma_one(
            "agent registry has no record for agent "@,
            quoted(name),
            no,
        ),
        RegistryErrorView::InvalidKeyFile { path, len } => lemma_two(
            "agent key file at "@,
            path,
            " is "@,
            decimal(len as nat),
            " bytes; expected exactly 32"@,
        ),
        RegistryErrorView::SymlinkedKeyFile { path } => lemma_one(
            "agent registry refuses to follow symlinked key file at "@,
            path,
            no,
        ),
        RegistryErrorView::SymlinkedRegistryFile { path } => lemma_one(
            "agent registry refuses to follow symlinked registry file at "@,
            path,
            no,
        ),
        RegistryErrorView::SymlinkedDataDir { path } => lemma_one(
            "agent registry refuses to follow symlinked data directory at "@,
            path,
            no,
        ),
        RegistryErrorView::NotADirectory { path } => lemma_one(
            "agent registry path "@,
            path,
            " exists but is not a directory"@,
        ),
        RegistryErrorView::WrongDirectoryMode { path, actual, expected } => lemma_three(
            "agent registry directory at "@,
            path,
            " has mode 0o"@,
            octal(actual as nat),
            ", expected 0o"@,
            octal(expected as nat),
        ),
        RegistryErrorView::InvalidAgentName { name } => lemma_one(
            "invalid agent name "@,
            quoted(name),
            ": names must not be empty, contain '/', '\\0', or be '.' or '..'"@,
        ),
    }
}

/// What a failure of the audit log is shown as tells where it happened, and why.
pub proof fn law_audit_failures_tell_all(err: AuditErrorView)
    ensures
        match err {
            AuditErrorView::Io { path, source } => tells(err.shown(), seq![path, source.message]),
            AuditErrorView::Serialize(source) => tells(err.shown(), seq![source]),
        },
{
    let no = Seq::<char>::empty();
    match err {
        AuditErrorView::Io { path, source } => lemma_two(
            "audit log IO at "@,
            path,
            ": "@,
            source.message,
            no,
        ),
        AuditErrorView::Serialize(source) => lemma_one("audit log serialize: "@, source, no),
    }
}

/// What a profile's failure is shown as tells where it happened, and why.
pub proof fn law_profile_failures_tell_all(err: ProfileErrorView)
    ensures
        match err {
            ProfileErrorView::Io { path, source } => tells(err.shown(), seq![path, source.message]),
            ProfileErrorView::Parse { path, source } => tells(err.shown(), seq![path, source]),
            ProfileErrorView::UnsupportedVersion { path, found, max } => tells(
                err.shown(),
                seq![path, decimal(found as nat), decimal(max as nat)],
            ),
        },
{
    let no = Seq::<char>::empty();
    match err {
        ProfileErrorView::Io { path, source } => lemma_two(
            "profile I/O error at "@,
            path,
            ": "@,
            source.message,
            no,
        ),
        ProfileErrorView::Parse { path, source } => lemma_two(
            "profile parse error at "@,
            path,
            ": "@,
            source,
            no,
        ),
        ProfileErrorView::UnsupportedVersion { path, found, max } => lemma_three(
            "profile at "@,
            path,
            " has schema version "@,
            decimal(found as nat),
            "; max supported is "@,
            decimal(max as nat),
        ),
    }
}

/// What a failure of the configuration is shown as tells where it happened, and
/// why.
pub proof fn law_config_failures_tell_all(err: ConfigErrorView)
    ensures
        match err {
            ConfigErrorView::Io { path, source } => tells(err.shown(), seq![path, source.message]),
            ConfigErrorView::Parse { path, source } => tells(err.shown(), seq![path, source]),
            ConfigErrorView::Validation { path, message } => tells(
                err.shown(),
                seq![path, message],
            ),
        },
{
    let no = Seq::<char>::empty();
    match err {
        ConfigErrorView::Io { path, source } => lemma_two(
            "config IO at "@,
            path,
            ": "@,
            source.message,
            no,
        ),
        ConfigErrorView::Parse { path, source } => lemma_two(
            "config parse at "@,
            path,
            ": "@,
            source,
            no,
        ),
        ConfigErrorView::Validation { path, message } => lemma_two(
            "config validation failed at "@,
            path,
            ": "@,
            message,
            no,
        ),
    }
}

/// What a blacklist's failure is shown as tells where it happened, and why.
pub proof fn law_blacklist_failures_tell_all(err: BlacklistErrorView)
    ensures
        match err {
            BlacklistErrorView::Io { path, source } => tells(
                err.shown(),
                seq![path, source.message],
            ),
            BlacklistErrorView::Parse { path, source } => tells(err.shown(), seq![path, source]),
            BlacklistErrorView::UnsupportedVersion { found, max } => tells(
                err.shown(),
                seq![decimal(found as nat), decimal(max as nat)],
            ),
            BlacklistErrorView::EmptyRationale { pattern } => tells(err.shown(), seq![pattern]),
        },
{
    let no = Seq::<char>::empty();
    match err {
        BlacklistErrorView::Io { path, source } => lemma_two(
            "blacklist I/O at "@,
            path,
            ": "@,
            source.message,
            no,
        ),
        BlacklistErrorView::Parse { path, source } => lemma_two(
            "blacklist parse at "@,
            path,
            ": "@,
            source,
            no,
        ),
        BlacklistErrorView::UnsupportedVersion { found, max } => lemma_two(
            "blacklist schema_version "@,
            decimal(found as nat),
            " is newer than supported ("@,
            decimal(max as nat),
            ")"@,
        ),
        BlacklistErrorView::EmptyRationale { pattern } => lemma_one(
            "blacklist entry '"@,
            pattern,
            "' has an empty rationale"@,
        ),
    }
}

/// What the daemon's failure is shown as tells the process, the place or the
/// part it is about, and why.
pub proof fn law_daemon_failures_tell_all(err: DaemonErrorView)
    ensures
        match err {
            DaemonErrorView::AlreadyRunning { pid: Some(pid) } => tells(
                err.shown(),
                seq![decimal(pid as nat)],
            ),
            DaemonErrorView::Lock(source) => tells(err.shown(), seq![source]),
            DaemonErrorView::Io { path, source } => tells(err.shown(), seq![path, source.message]),
            DaemonErrorView::Resource { component, source } => tells(
                err.shown(),
                seq![component, source],
            ),
            DaemonErrorView::Timeout { op } => tells(err.shown(), seq![op]),
            DaemonErrorView::Signal { pid, source } => tells(
                err.shown(),
                seq![decimal(pid as nat), source.message],
            ),
            _ => true,
        },
{
    let no = Seq::<char>::empty();
    match err {
        DaemonErrorView::AlreadyRunning { pid: Some(pid) } => lemma_one(
            "daemon is already running, PID "@,
            decimal(pid as nat),
            no,
        ),
        DaemonErrorView::Lock(source) => lemma_one("daemon lock: "@, source, no),
        DaemonErrorView::Io { path, source } => lemma_two(
            "daemon IO at "@,
            path,
            ": "@,
            source.message,
            no,
        ),
        DaemonErrorView::Resource { component, source } => lemma_two(
            "failed to open "@,
            component,
            ": "@,
            source,
            no,
        ),
        DaemonErrorView::Timeout { op } => {
            lemma_one(no, op, " timed out"@);
            assert(no + op =~= op);
        },
        DaemonErrorView::Signal { pid, source } => lemma_two(
            "daemon signal to PID "@,
            decimal(pid as nat),
            ": "@,
            source.message,
            no,
        ),
        _ => {},
    }
}

/// What a refused deposit is shown as tells where it happened, and why.
pub proof fn law_deposit_failures_tell_all(err: DepositErrorView)
    ensures
        match err {
            DepositErrorView::SymlinkRejected { path } => tells(err.shown(), seq![path]),
            DepositErrorView::Io { path, source } => tells(err.shown(), seq![path, source.message]),
        },
{
    let no = Seq::<char>::empty();
    match err {
        DepositErrorView::SymlinkRejected { path } => lemma_one(
            "inbox path is a symlink (deposit refused): "@,
            path,
            no,
        ),
        DepositErrorView::Io { path, source } => lemma_two(
            "io error at "@,
            path,
            ": "@,
            source.message,
            no,
        ),
    }
}

/// What a message that did not go out is shown as tells whom or what it is
/// about, and why.
pub proof fn law_send_failures_tell_all(err: SendErrorView)
    ensures
        match err {
            SendErrorView::RecipientNotFound { to_name } => tells(err.shown(), seq![to_name]),
            SendErrorView::SenderNotFound { from_id } => tells(err.shown(), seq![from_id]),
            SendErrorView::KeyNotFound { identity_id } => tells(err.shown(), seq![identity_id]),
            SendErrorView::IdentityLookupFailed { source } => tells(err.shown(), seq![source]),
            SendErrorView::KeypairLoad { path, source } => tells(err.shown(), seq![path, source]),
            SendErrorView::SigningFailed(detail) => tells(err.shown(), seq![detail]),
            SendErrorView::Io { path, source } => tells(err.shown(), seq![path, source.message]),
            SendErrorView::BodyTooLarge { len, cap } => tells(
                err.shown(),
                seq![decimal(len), decimal(cap)],
            ),
            SendErrorView::MessageIdFailed(detail) => tells(err.shown(), seq![detail]),
            SendErrorView::SymlinkRejected { path } => tells(err.shown(), seq![path]),
        },
{
    let no = Seq::<char>::empty();
    match err {
        SendErrorView::RecipientNotFound { to_name } => lemma_one(
            "recipient '"@,
            to_name,
            "' not found in agent registry"@,
        ),
        SendErrorView::SenderNotFound { from_id } => lemma_one(
            "sender identity '"@,
            from_id,
            "' not found in agent registry"@,
        ),
        SendErrorView::KeyNotFound { identity_id } => lemma_one(
            "no key record in identity registry for sender "@,
            identity_id,
            no,
        ),
        SendErrorView::IdentityLookupFailed { source } => lemma_one(
            "identity registry lookup failed: "@,
            source,
            no,
        ),
        SendErrorView::KeypairLoad { path, source } => lemma_two(
            "failed to load keypair from "@,
            path,
            ": "@,
            source,
            no,
        ),
        SendErrorView::SigningFailed(detail) => lemma_one(
            "envelope signing failed: "@,
            detail,
            no,
        ),
        SendErrorView::Io { path, source } => lemma_two(
            "envelope write IO at "@,
            path,
            ": "@,
            source.message,
            no,
        ),
        SendErrorView::BodyTooLarge { len, cap } => lemma_two(
            "message body or serialized envelope ("@,
            decimal(len),
            " bytes) exceeds the "@,
            decimal(cap),
            "-byte cap"@,
        ),
        SendErrorView::MessageIdFailed(detail) => lemma_one(
            "failed to generate message ID: "@,
            detail,
            no,
        ),
        SendErrorView::SymlinkRejected { path } => lemma_one(
            "inbox path is a symlink (delivery refused): "@,
            path,
            no,
        ),
    }
}

/// What a failure of an engagement is shown as tells which engagement or place
/// it is about, and why.
pub proof fn law_engagement_failures_tell_all(err: EngagementErrorView)
    ensures
        match err {
            EngagementErrorView::InvalidName { name } => tells(err.shown(), seq![quoted(name)]),
            EngagementErrorView::NameTaken { name } => tells(err.shown(), seq![quoted(name)]),
            EngagementErrorView::NotFound { name } => tells(err.shown(), seq![quoted(name)]),
            EngagementErrorView::WrongState { name, actual } => tells(
                err.shown(),
                seq![
                    quoted(name),
                    if actual == EngagementState::Open {
                        "Open"@
                    } else {
                        "Closed"@
                    },
                ],
            ),
            EngagementErrorView::RelativeRoot { path } => tells(err.shown(), seq![path]),
            EngagementErrorView::Io { path, source } => tells(
                err.shown(),
                seq![path, source.message],
            ),
            EngagementErrorView::Toml { path, message } => tells(err.shown(), seq![path, message]),
        },
{
    let no = Seq::<char>::empty();
    match err {
        EngagementErrorView::InvalidName { name } => lemma_one(
            "invalid engagement name "@,
            quoted(name),
            no,
        ),
        EngagementErrorView::NameTaken { name } => lemma_one(
            "engagement name "@,
            quoted(name),
            " was already used; names are never reused"@,
        ),
        EngagementErrorView::NotFound { name } => lemma_one(
            "no engagement named "@,
            quoted(name),
            no,
        ),
        EngagementErrorView::WrongState { name, actual } => {
            let word = if actual == EngagementState::Open {
                "Open"@
            } else {
                "Closed"@
            };
            lemma_two("engagement "@, quoted(name), " is "@, word, no);
        },
        EngagementErrorView::RelativeRoot { path } => lemma_one(
            "engagement root must be absolute, got "@,
            path,
            no,
        ),
        EngagementErrorView::Io { path, source } => {
            assert(no + path =~= path);
            lemma_two(no, path, ": "@, source.message, no);
        },
        EngagementErrorView::Toml { path, message } => {
            assert(no + path =~= path);
            lemma_two(no, path, ": "@, message, no);
        },
    }
}

} // verus!
