//! Sending a message: from a request to a signed envelope in the recipient's
//! inbox.

use vstd::prelude::*;
use vstd::string::*;
use vstd::utf8::*;

use crate::agent_registry::{
    AgentRecord, AgentRegistry, AgentRegistryError, RecordView, ValidatedAgentName,
};
use crate::delivery::{
    deposit_envelope, deposit_rule, DepositError, DepositErrorView, DepositNext, DepositNextView,
    DepositReplies, MessageId,
};
use crate::fs_util::FileKind;
use crate::identity::IdentityId;
use crate::io_error::{IoError, IoErrorView};
use crate::keypair::Keypair;
use crate::paths::{join, joined_path, parent, parent_path};
use crate::text::{decimal, write_decimal};

verus! {

// ── Errors ───────────────────────────────────────────────────────────────────

/// Why a message was not sent.
#[allow(inconsistent_fields)]
#[derive(Debug, PartialEq, Eq)]
pub enum SendError {
    /// The agent registry has no such recipient.
    RecipientNotFound { to_name: String },
    /// No agent of the registry has the sender's identity.
    SenderNotFound { from_id: IdentityId },
    /// The identity registry has no active key of the sender.
    KeyNotFound { identity_id: IdentityId },
    /// The identity registry itself failed; holds its complaint.
    IdentityLookupFailed { source: String },
    /// The sender's keypair could not be had; holds the complaint.
    KeypairLoad { path: String, source: String },
    /// The envelope could not be signed; holds the complaint.
    SigningFailed(String),
    /// The envelope could not be written.
    Io { path: String, source: IoError },
    /// The body, or the serialized envelope, has `len` bytes, more than the
    /// cap allows.
    BodyTooLarge { len: usize, cap: usize },
    /// No message id could be made; holds the complaint.
    MessageIdFailed(String),
    /// A part of the inbox is a symbolic link.
    SymlinkRejected { path: String },
}

/// What the failure holds.
#[allow(inconsistent_fields)]
pub enum SendErrorView {
    RecipientNotFound { to_name: Seq<char> },
    SenderNotFound { from_id: Seq<char> },
    KeyNotFound { identity_id: Seq<char> },
    IdentityLookupFailed { source: Seq<char> },
    KeypairLoad { path: Seq<char>, source: Seq<char> },
    SigningFailed(Seq<char>),
    Io { path: Seq<char>, source: IoErrorView },
    BodyTooLarge { len: nat, cap: nat },
    MessageIdFailed(Seq<char>),
    SymlinkRejected { path: Seq<char> },
}

impl View for SendError {
    type V = SendErrorView;

    open spec fn view(&self) -> SendErrorView {
        match *self {
            SendError::RecipientNotFound { to_name } => SendErrorView::RecipientNotFound {
                to_name: to_name@,
            },
            SendError::SenderNotFound { from_id } => SendErrorView::SenderNotFound {
                from_id: from_id@,
            },
            SendError::KeyNotFound { identity_id } => SendErrorView::KeyNotFound {
                identity_id: identity_id@,
            },
            SendError::IdentityLookupFailed { source } => SendErrorView::IdentityLookupFailed {
                source: source@,
            },
            SendError::KeypairLoad { path, source } => SendErrorView::KeypairLoad {
                path: path@,
                source: source@,
            },
            SendError::SigningFailed(detail) => SendErrorView::SigningFailed(detail@),
            SendError::Io { path, source } => SendErrorView::Io { path: path@, source: source@ },
            SendError::BodyTooLarge { len, cap } => SendErrorView::BodyTooLarge {
                len: len as nat,
                cap: cap as nat,
            },
            SendError::MessageIdFailed(detail) => SendErrorView::MessageIdFailed(detail@),
            SendError::SymlinkRejected { path } => SendErrorView::SymlinkRejected { path: path@ },
        }
    }
}

impl SendErrorView {
    /// What a reader is shown.
    pub open spec fn shown(self) -> Seq<char> {
        match self {
            SendErrorView::RecipientNotFound { to_name } => "recipient '"@ + to_name
                + "' not found in agent registry"@,
            SendErrorView::SenderNotFound { from_id } => "sender identity '"@ + from_id
                + "' not found in agent registry"@,
            SendErrorView::KeyNotFound { identity_id } =>
                "no key record in identity registry for sender "@ + identity_id,
            SendErrorView::IdentityLookupFailed { source } => "identity registry lookup failed: "@
                + source,
            SendErrorView::KeypairLoad { path, source } => "failed to load keypair from "@ + path
                + ": "@ + source,
            SendErrorView::SigningFailed(detail) => "envelope signing failed: "@ + detail,
            SendErrorView::Io { path, source } => "envelope write IO at "@ + path + ": "@
                + source.message,
            SendErrorView::BodyTooLarge { len, cap } => "message body or serialized envelope ("@
                + decimal(len) + " bytes) exceeds the "@ + decimal(cap) + "-byte cap"@,
            SendErrorView::MessageIdFailed(detail) => "failed to generate message ID: "@ + detail,
            SendErrorView::SymlinkRejected { path } =>
                "inbox path is a symlink (delivery refused): "@ + path,
        }
    }

    /// The name of the failure, which tells nothing of any path.
    pub open spec fn class(self) -> Seq<char> {
        match self {
            SendErrorView::RecipientNotFound { .. } => "RecipientNotFound"@,
            SendErrorView::SenderNotFound { .. } => "SenderNotFound"@,
            SendErrorView::KeyNotFound { .. } => "KeyNotFound"@,
            SendErrorView::IdentityLookupFailed { .. } => "IdentityLookupFailed"@,
            SendErrorView::KeypairLoad { .. } => "KeypairLoad"@,
            SendErrorView::SigningFailed(_) => "SigningFailed"@,
            SendErrorView::Io { .. } => "Io"@,
            SendErrorView::BodyTooLarge { .. } => "BodyTooLarge"@,
            SendErrorView::MessageIdFailed(_) => "MessageIdFailed"@,
            SendErrorView::SymlinkRejected { .. } => "SymlinkRejected"@,
        }
    }

    /// How a refused deposit is reported.
    pub open spec fn of_deposit(err: DepositErrorView) -> SendErrorView {
        match err {
            DepositErrorView::SymlinkRejected { path } => SendErrorView::SymlinkRejected { path },
            DepositErrorView::Io { path, source } => SendErrorView::Io { path, source },
        }
    }
}

fn around(before: &str, middle: &str, after: &str) -> (text: String)
    ensures
        text@ == before@ + middle@ + after@,
{
    let mut text: String = before.to_owned();
    text.append(middle);
    text.append(after);
    text
}

impl SendError {
    /// What a reader is shown.
    pub fn to_string(&self) -> (text: String)
        ensures
            text@ == self@.shown(),
    {
        match self {
            SendError::RecipientNotFound { to_name } => around(
                "recipient '",
                to_name.as_str(),
                "' not found in agent registry",
            ),
            SendError::SenderNotFound { from_id } => around(
                "sender identity '",
                from_id.text.as_str(),
                "' not found in agent registry",
            ),
            SendError::KeyNotFound { identity_id } => {
                let mut text: String =
                    "no key record in identity registry for sender ".to_owned();
                text.append(identity_id.text.as_str());
                text
            },
            SendError::IdentityLookupFailed { source } => {
                let mut text: String = "identity registry lookup failed: ".to_owned();
                text.append(source.as_str());
                text
            },
            SendError::KeypairLoad { path, source } => {
                let mut text: String = around(
                    "failed to load keypair from ",
                    path.as_str(),
                    ": ",
                );
                text.append(source.as_str());
                text
            },
            SendError::SigningFailed(detail) => {
                let mut text: String = "envelope signing failed: ".to_owned();
                text.append(detail.as_str());
                text
            },
            SendError::Io { path, source } => {
                let mut text: String = around("envelope write IO at ", path.as_str(), ": ");
                text.append(source.message.as_str());
                text
            },
            SendError::BodyTooLarge { len, cap } => {
                let size: String = write_decimal(*len as u64);
                let limit: String = write_decimal(*cap as u64);
                let mut text: String = around(
                    "message body or serialized envelope (",
                    size.as_str(),
                    " bytes) exceeds the ",
                );
                text.append(limit.as_str());
                text.append("-byte cap");
                text
            },
            SendError::MessageIdFailed(detail) => {
                let mut text: String = "failed to generate message ID: ".to_owned();
                text.append(detail.as_str());
                text
            },
            SendError::SymlinkRejected { path } => {
                let mut text: String = "inbox path is a symlink (delivery refused): ".to_owned();
                text.append(path.as_str());
                text
            },
        }
    }

    /// The name of the failure. It tells nothing of any path, so it may be
    /// shown to a reader that is not trusted.
    pub fn category(&self) -> (name: &'static str)
        ensures
            name@ == self@.class(),
    {
        match self {
            SendError::RecipientNotFound { .. } => "RecipientNotFound",
            SendError::SenderNotFound { .. } => "SenderNotFound",
            SendError::KeyNotFound { .. } => "KeyNotFound",
            SendError::IdentityLookupFailed { .. } => "IdentityLookupFailed",
            SendError::KeypairLoad { .. } => "KeypairLoad",
            SendError::SigningFailed(_) => "SigningFailed",
            SendError::Io { .. } => "Io",
            SendError::BodyTooLarge { .. } => "BodyTooLarge",
            SendError::MessageIdFailed(_) => "MessageIdFailed",
            SendError::SymlinkRejected { .. } => "SymlinkRejected",
        }
    }

    fn from_deposit(err: DepositError) -> (out: SendError)
        ensures
            out@ == SendErrorView::of_deposit(err@),
    {
        match err {
            DepositError::SymlinkRejected { path } => SendError::SymlinkRejected { path },
            DepositError::Io { path, source } => SendError::Io { path, source },
        }
    }
}

// ── Messages ─────────────────────────────────────────────────────────────────

/// A request to send a signed message.
#[derive(Debug, PartialEq, Eq)]
pub struct SendMessage {
    /// Identity of the sending agent.
    pub from_id: IdentityId,
    /// Name of the recipient.
    pub to_name: ValidatedAgentName,
    pub body: String,
    /// Whether somebody waits for the outcome of a message that was sent.
    pub reply_to: bool,
    /// Whether somebody waits for the failure of one that was not.
    pub error_to: bool,
}

/// The message was sent.
#[derive(Debug, PartialEq, Eq)]
pub struct SendResult {
    /// The id in the deposited envelope.
    pub message_id: MessageId,
}

/// The message was not sent.
#[derive(Debug, PartialEq, Eq)]
pub struct SendFailed {
    pub error: SendError,
}

/// What a request is answered.
#[derive(Debug, PartialEq, Eq)]
pub enum Answer {
    /// To the one who waits for the outcome.
    Reply(SendResult),
    /// To the one who waits for a failure.
    Error(SendFailed),
    /// Nobody waits.
    Silent,
}

// ── Keys ─────────────────────────────────────────────────────────────────────

/// Whether a key may be used.
#[derive(Debug, Clone, Copy, PartialEq, Eq, Structural)]
pub enum KeyState {
    Active,
    Revoked,
}

/// A key of an identity.
#[derive(Debug, PartialEq, Eq)]
pub struct KeyRecord {
    pub key_id: String,
    pub state: KeyState,
}

/// What a key record holds.
pub struct KeyView {
    pub key_id: Seq<char>,
    pub state: KeyState,
}

impl View for KeyRecord {
    type V = KeyView;

    open spec fn view(&self) -> KeyView {
        KeyView { key_id: self.key_id@, state: self.state }
    }
}

/// What each key record of a sequence holds.
pub open spec fn keys_view(v: Seq<KeyRecord>) -> Seq<KeyView> {
    v.map_values(|k: KeyRecord| k@)
}

/// The id of the first active key.
pub open spec fn first_active(keys: Seq<KeyView>) -> Option<Seq<char>>
    decreases keys.len(),
{
    if keys.len() == 0 {
        None
    } else if keys[0].state == KeyState::Active {
        Some(keys[0].key_id)
    } else {
        first_active(keys.drop_first())
    }
}

fn active_key(keys: &Vec<KeyRecord>) -> (out: Option<&KeyRecord>)
    ensures
        match out {
            Some(key) => first_active(keys_view(keys@)) == Some(key@.key_id),
            None => first_active(keys_view(keys@)) is None,
        },
{
    let ghost ks: Seq<KeyView> = keys_view(keys@);
    let mut i: usize = 0;
    assert(ks.skip(0) =~= ks);
    while i < keys.len()
        invariant
            ks == keys_view(keys@),
            i <= keys@.len(),
            first_active(ks) == first_active(ks.skip(i as int)),
        decreases keys.len() - i,
    {
        assert(ks.skip(i as int)[0] == keys@[i as int]@);
        if keys[i].state == KeyState::Active {
            return Some(&keys[i]);
        }
        assert(ks.skip(i as int).drop_first() =~= ks.skip(i + 1));
        i = i + 1;
    }
    None
}

/// The first record with the identity.
pub open spec fn first_with_identity(records: Seq<RecordView>, id: Seq<char>) -> Option<RecordView>
    decreases records.len(),
{
    if records.len() == 0 {
        None
    } else if records[0].identity_id == id {
        Some(records[0])
    } else {
        first_with_identity(records.drop_first(), id)
    }
}

fn find_sender<'a>(registry: &'a AgentRegistry, id: &IdentityId) -> (out: Option<&'a AgentRecord>)
    requires
        registry.wf(),
    ensures
        match out {
            Some(record) => first_with_identity(registry.listed(), id@) == Some(record@),
            None => first_with_identity(registry.listed(), id@) is None,
        },
{
    let records: &Vec<AgentRecord> = registry.list();
    let ghost rs: Seq<RecordView> = registry.listed();
    let mut i: usize = 0;
    assert(rs.skip(0) =~= rs);
    while i < records.len()
        invariant
            rs == registry.listed(),
            rs == crate::agent_registry::records_view(records@),
            i <= records@.len(),
            first_with_identity(rs, id@) == first_with_identity(rs.skip(i as int), id@),
        decreases records.len() - i,
    {
        assert(rs.skip(i as int)[0] == records@[i as int]@);
        if records[i].identity_id.same(id) {
            return Some(&records[i]);
        }
        assert(rs.skip(i as int).drop_first() =~= rs.skip(i + 1));
        i = i + 1;
    }
    None
}

// ── Dispatch ─────────────────────────────────────────────────────────────────

/// What an envelope is sealed from.
#[derive(Debug, PartialEq, Eq)]
pub struct EnvelopeDraft {
    pub message_id: MessageId,
    pub sender_id: IdentityId,
    pub sender_key_id: String,
    pub recipient_id: IdentityId,
    pub body: String,
}

/// What a draft holds.
pub struct DraftView {
    pub message_id: Seq<char>,
    pub sender_id: Seq<char>,
    pub sender_key_id: Seq<char>,
    pub recipient_id: Seq<char>,
    pub body: Seq<char>,
}

impl View for EnvelopeDraft {
    type V = DraftView;

    open spec fn view(&self) -> DraftView {
        DraftView {
            message_id: self.message_id@,
            sender_id: self.sender_id@,
            sender_key_id: self.sender_key_id@,
            recipient_id: self.recipient_id@,
            body: self.body@,
        }
    }
}

/// What has been learned so far about a message to be sent.
pub struct DispatchReplies {
    /// The sender's keys, as the identity registry has them.
    pub keys: Option<Result<Option<Vec<KeyRecord>>, String>>,
    /// The sender's keypair.
    pub keypair: Option<Result<Keypair, AgentRegistryError>>,
    /// A fresh message id.
    pub message_id: Option<Result<MessageId, String>>,
    /// The envelope, signed and serialized.
    pub sealed: Option<Result<Vec<u8>, String>>,
    /// What was learned of the recipient's inbox.
    pub deposit: DepositReplies,
}

/// What to do next to send a message.
#[derive(Debug, PartialEq, Eq)]
pub enum DispatchNext {
    /// Look up the keys of an identity.
    LookupKeys { id: IdentityId },
    /// Load the keypair kept at `path`, or make one.
    LoadKeypair { path: String },
    /// Make a message id.
    NewMessageId,
    /// Sign the envelope with the keypair, and serialize it.
    Seal(EnvelopeDraft),
    /// Look at a part of the recipient's inbox.
    Stat { path: String },
    /// Write the envelope at once to `path`, by a new file in `dir`.
    Write { path: String, dir: String, mode: u32, bytes: Vec<u8> },
    /// Nothing: the message is sent, or refused.
    Done(Result<MessageId, SendError>),
}

/// What to do next, with the content of what is done.
#[allow(inconsistent_fields)]
pub enum DispatchNextView {
    LookupKeys { id: Seq<char> },
    LoadKeypair { path: Seq<char> },
    NewMessageId,
    Seal(DraftView),
    Stat { path: Seq<char> },
    Write { path: Seq<char>, dir: Seq<char>, mode: u32, bytes: Seq<u8> },
    Sent { message_id: Seq<char> },
    Refused(SendErrorView),
}

impl View for DispatchNext {
    type V = DispatchNextView;

    open spec fn view(&self) -> DispatchNextView {
        match *self {
            DispatchNext::LookupKeys { id } => DispatchNextView::LookupKeys { id: id@ },
            DispatchNext::LoadKeypair { path } => DispatchNextView::LoadKeypair { path: path@ },
            DispatchNext::NewMessageId => DispatchNextView::NewMessageId,
            DispatchNext::Seal(draft) => DispatchNextView::Seal(draft@),
            DispatchNext::Stat { path } => DispatchNextView::Stat { path: path@ },
            DispatchNext::Write { path, dir, mode, bytes } => DispatchNextView::Write {
                path: path@,
                dir: dir@,
                mode,
                bytes: bytes@,
            },
            DispatchNext::Done(Ok(id)) => DispatchNextView::Sent { message_id: id@ },
            DispatchNext::Done(Err(err)) => DispatchNextView::Refused(err@),
        }
    }
}

/// Where the keypair of an agent is kept: beside its inbox.
pub open spec fn keypair_rule(inbox: Seq<char>) -> Result<Seq<char>, SendErrorView> {
    match parent_path(inbox) {
        Some(root) => Ok(joined_path(root, "identity.key"@)),
        None => Err(
            SendErrorView::KeypairLoad {
                path: inbox,
                source: "inbox_dir has no parent; cannot locate identity.key"@,
            },
        ),
    }
}

/// What to do with a sealed envelope: it must keep within the cap, and goes
/// into the recipient's inbox under its id.
pub open spec fn sealed_rule(
    inbox: Seq<char>,
    id: Seq<char>,
    bytes: Seq<u8>,
    cap: nat,
    seen: DepositReplies,
) -> DispatchNextView {
    if bytes.len() > cap {
        DispatchNextView::Refused(SendErrorView::BodyTooLarge { len: bytes.len(), cap })
    } else {
        match deposit_rule(inbox, id, bytes, seen, 0) {
            DepositNextView::Stat { path } => DispatchNextView::Stat { path },
            DepositNextView::Write { path, dir, mode, bytes } => DispatchNextView::Write {
                path,
                dir,
                mode,
                bytes,
            },
            DepositNextView::Deposited => DispatchNextView::Sent { message_id: id },
            DepositNextView::Refused(err) => DispatchNextView::Refused(
                SendErrorView::of_deposit(err),
            ),
        }
    }
}

/// What to do with a message whose sender and recipient are known.
pub open spec fn signing_rule(
    sender: RecordView,
    key_id: Seq<char>,
    recipient: RecordView,
    body: Seq<char>,
    cap: nat,
    seen: DispatchReplies,
) -> DispatchNextView {
    if encode_utf8(body).len() >= cap {
        DispatchNextView::Refused(SendErrorView::BodyTooLarge { len: encode_utf8(body).len(), cap })
    } else {
        match keypair_rule(sender.inbox_dir) {
            Err(err) => DispatchNextView::Refused(err),
            Ok(path) => match seen.keypair {
                None => DispatchNextView::LoadKeypair { path },
                Some(Err(err)) => DispatchNextView::Refused(
                    SendErrorView::KeypairLoad { path, source: err@.shown() },
                ),
                Some(Ok(_)) => match seen.message_id {
                    None => DispatchNextView::NewMessageId,
                    Some(Err(detail)) => DispatchNextView::Refused(
                        SendErrorView::MessageIdFailed(detail@),
                    ),
                    Some(Ok(id)) => match seen.sealed {
                        None => DispatchNextView::Seal(
                            DraftView {
                                message_id: id@,
                                sender_id: sender.identity_id,
                                sender_key_id: key_id,
                                recipient_id: recipient.identity_id,
                                body,
                            },
                        ),
                        Some(Err(detail)) => DispatchNextView::Refused(
                            SendErrorView::SigningFailed(detail@),
                        ),
                        Some(Ok(bytes)) => sealed_rule(
                            recipient.inbox_dir,
                            id@,
                            bytes@,
                            cap,
                            seen.deposit,
                        ),
                    },
                },
            },
        }
    }
}

/// The rule for sending: the recipient and the sender must be registered
/// agents, and the sender must have an active key.
pub open spec fn dispatch_rule(
    agents: Map<Seq<char>, RecordView>,
    listed: Seq<RecordView>,
    from_id: Seq<char>,
    to_name: Seq<char>,
    body: Seq<char>,
    cap: nat,
    seen: DispatchReplies,
) -> DispatchNextView {
    if !agents.contains_key(to_name) {
        DispatchNextView::Refused(SendErrorView::RecipientNotFound { to_name })
    } else {
        match first_with_identity(listed, from_id) {
            None => DispatchNextView::Refused(SendErrorView::SenderNotFound { from_id }),
            Some(sender) => match seen.keys {
                None => DispatchNextView::LookupKeys { id: from_id },
                Some(Err(source)) => DispatchNextView::Refused(
                    SendErrorView::IdentityLookupFailed { source: source@ },
                ),
                Some(Ok(None)) => DispatchNextView::Refused(
                    SendErrorView::KeyNotFound { identity_id: from_id },
                ),
                Some(Ok(Some(keys))) => match first_active(keys_view(keys@)) {
                    None => DispatchNextView::Refused(
                        SendErrorView::KeyNotFound { identity_id: from_id },
                    ),
                    Some(key_id) => signing_rule(
                        sender,
                        key_id,
                        agents[to_name],
                        body,
                        cap,
                        seen,
                    ),
                },
            },
        }
    }
}

fn load_keypair(sender: &AgentRecord) -> (out: Result<String, SendError>)
    ensures
        match (out, keypair_rule(sender@.inbox_dir)) {
            (Ok(path), Ok(p)) => path@ == p,
            (Err(err), Err(e)) => err@ == e,
            _ => false,
        },
{
    match parent(sender.inbox_dir.as_str()) {
        Some(root) => Ok(join(root.as_str(), "identity.key")),
        None => Err(
            SendError::KeypairLoad {
                path: sender.inbox_dir.clone(),
                source: "inbox_dir has no parent; cannot locate identity.key".to_owned(),
            },
        ),
    }
}

fn deposit(
    recipient: &AgentRecord,
    id: &MessageId,
    bytes: &Vec<u8>,
    cap: usize,
    seen: &DepositReplies,
) -> (next: DispatchNext)
    ensures
        next@ == sealed_rule(recipient@.inbox_dir, id@, bytes@, cap as nat, *seen),
{
    if bytes.len() > cap {
        return DispatchNext::Done(Err(SendError::BodyTooLarge { len: bytes.len(), cap }));
    }
    match deposit_envelope(recipient.inbox_dir.as_str(), id, bytes, seen) {
        DepositNext::Stat { path } => DispatchNext::Stat { path },
        DepositNext::Write { path, dir, mode, bytes } => DispatchNext::Write {
            path,
            dir,
            mode,
            bytes,
        },
        DepositNext::Done(Ok(())) => DispatchNext::Done(Ok(id.clone())),
        DepositNext::Done(Err(err)) => DispatchNext::Done(Err(SendError::from_deposit(err))),
    }
}

fn seal(
    sender: &AgentRecord,
    key: &KeyRecord,
    recipient: &AgentRecord,
    body: &str,
    cap: usize,
    seen: &DispatchReplies,
) -> (next: DispatchNext)
    ensures
        next@ == signing_rule(sender@, key@.key_id, recipient@, body@, cap as nat, *seen),
{
    let len: usize = body.as_bytes().len();
    if len >= cap {
        return DispatchNext::Done(Err(SendError::BodyTooLarge { len, cap }));
    }
    let path: String = match load_keypair(sender) {
        Ok(path) => path,
        Err(err) => {
            return DispatchNext::Done(Err(err));
        },
    };
    match &seen.keypair {
        None => {
            return DispatchNext::LoadKeypair { path };
        },
        Some(Err(err)) => {
            return DispatchNext::Done(
                Err(SendError::KeypairLoad { path, source: err.to_string() }),
            );
        },
        Some(Ok(_)) => {},
    }
    let id: &MessageId = match &seen.message_id {
        None => {
            return DispatchNext::NewMessageId;
        },
        Some(Err(detail)) => {
            return DispatchNext::Done(Err(SendError::MessageIdFailed(detail.clone())));
        },
        Some(Ok(id)) => id,
    };
    match &seen.sealed {
        None => DispatchNext::Seal(
            EnvelopeDraft {
                message_id: id.clone(),
                sender_id: sender.identity_id.clone(),
                sender_key_id: key.key_id.clone(),
                recipient_id: recipient.identity_id.clone(),
                body: body.to_owned(),
            },
        ),
        Some(Err(detail)) => DispatchNext::Done(Err(SendError::SigningFailed(detail.clone()))),
        Some(Ok(bytes)) => deposit(recipient, id, bytes, cap, &seen.deposit),
    }
}

/// What to do next to send `body` from one agent to another.
pub fn dispatch(
    registry: &AgentRegistry,
    from_id: &IdentityId,
    to_name: &ValidatedAgentName,
    body: &str,
    cap: usize,
    seen: &DispatchReplies,
) -> (next: DispatchNext)
    requires
        registry.wf(),
    ensures
        next@ == dispatch_rule(
            registry@,
            registry.listed(),
            from_id@,
            to_name@,
            body@,
            cap as nat,
            *seen,
        ),
{
    let recipient: &AgentRecord = match registry.lookup(to_name.as_str()) {
        Some(record) => record,
        None => {
            return DispatchNext::Done(
                Err(SendError::RecipientNotFound { to_name: to_name.as_str().to_owned() }),
            );
        },
    };
    let sender: &AgentRecord = match find_sender(registry, from_id) {
        Some(record) => record,
        None => {
            return DispatchNext::Done(Err(SendError::SenderNotFound { from_id: from_id.clone() }));
        },
    };
    let keys: &Vec<KeyRecord> = match &seen.keys {
        None => {
            return DispatchNext::LookupKeys { id: from_id.clone() };
        },
        Some(Err(source)) => {
            return DispatchNext::Done(
                Err(SendError::IdentityLookupFailed { source: source.clone() }),
            );
        },
        Some(Ok(None)) => {
            return DispatchNext::Done(
                Err(SendError::KeyNotFound { identity_id: from_id.clone() }),
            );
        },
        Some(Ok(Some(keys))) => keys,
    };
    match active_key(keys) {
        Some(key) => seal(sender, key, recipient, body, cap, seen),
        None => DispatchNext::Done(Err(SendError::KeyNotFound { identity_id: from_id.clone() })),
    }
}

/// Sends messages between registered agents. Keypairs are not held: each is
/// loaded for the message that it signs.
pub struct MessageDispatcher {
    agent_registry: AgentRegistry,
    max_envelope_bytes: usize,
}

impl MessageDispatcher {
    /// The agents that it knows are in order.
    pub closed spec fn wf(&self) -> bool {
        self.agent_registry.wf()
    }

    /// The agents that it knows, by name.
    pub closed spec fn agents(&self) -> Map<Seq<char>, RecordView> {
        self.agent_registry@
    }

    /// The agents that it knows, in the order in which they are listed.
    pub closed spec fn listed(&self) -> Seq<RecordView> {
        self.agent_registry.listed()
    }

    /// The most bytes that an envelope may have.
    pub closed spec fn cap(&self) -> nat {
        self.max_envelope_bytes as nat
    }

    /// A dispatcher between the agents of `agent_registry`.
    pub fn new(agent_registry: AgentRegistry, max_envelope_bytes: usize) -> (dispatcher:
        MessageDispatcher)
        requires
            agent_registry.wf(),
        ensures
            dispatcher.wf(),
            dispatcher.agents() == agent_registry@,
            dispatcher.listed() == agent_registry.listed(),
            dispatcher.cap() == max_envelope_bytes,
    {
        MessageDispatcher { agent_registry, max_envelope_bytes }
    }

    /// What to do next about a request.
    pub fn step(&self, msg: &SendMessage, seen: &DispatchReplies) -> (next: DispatchNext)
        requires
            self.wf(),
        ensures
            next@ == dispatch_rule(
                self.agents(),
                self.listed(),
                msg.from_id@,
                msg.to_name@,
                msg.body@,
                self.cap(),
                *seen,
            ),
    {
        dispatch(
            &self.agent_registry,
            &msg.from_id,
            &msg.to_name,
            msg.body.as_str(),
            self.max_envelope_bytes,
            seen,
        )
    }

    /// Who is told of the outcome: of a message that was sent the one who
    /// waits for that, of one that was not the one who waits for a failure.
    pub fn handle(msg: &SendMessage, outcome: Result<MessageId, SendError>) -> (answer: Answer)
        ensures
            match (outcome, answer) {
                (Ok(id), Answer::Reply(result)) => msg.reply_to && result.message_id@ == id@,
                (Err(err), Answer::Error(failed)) => msg.error_to && failed.error@ == err@,
                (Ok(_), Answer::Silent) => !msg.reply_to,
                (Err(_), Answer::Silent) => !msg.error_to,
                _ => false,
            },
    {
        match outcome {
            Ok(message_id) => {
                if msg.reply_to {
                    Answer::Reply(SendResult { message_id })
                } else {
                    Answer::Silent
                }
            },
            Err(error) => {
                if msg.error_to {
                    Answer::Error(SendFailed { error })
                } else {
                    Answer::Silent
                }
            },
        }
    }
}

// ── Laws ─────────────────────────────────────────────────────────────────────

/// An envelope is written only to the inbox of a registered recipient, for a
/// registered sender with an active key, within the cap, and past no link;
/// its file has the name of the message id, and its bytes are those that were
/// sealed.
pub proof fn law_envelopes_reach_only_the_recipient(
    agents: Map<Seq<char>, RecordView>,
    listed: Seq<RecordView>,
    from_id: Seq<char>,
    to_name: Seq<char>,
    body: Seq<char>,
    cap: nat,
    seen: DispatchReplies,
)
    ensures
        dispatch_rule(agents, listed, from_id, to_name, body, cap, seen) matches DispatchNextView::Write {
            path,
            dir,
            bytes,
            ..
        } ==> {
            &&& agents.contains_key(to_name)
            &&& first_with_identity(listed, from_id) is Some
            &&& seen.keys matches Some(Ok(Some(keys))) && first_active(keys_view(keys@)) is Some
            &&& seen.message_id matches Some(Ok(id)) && path == joined_path(
                joined_path(agents[to_name].inbox_dir, "new"@),
                id@,
            )
            &&& dir == joined_path(agents[to_name].inbox_dir, "tmp"@)
            &&& seen.sealed matches Some(Ok(sealed)) && sealed@ == bytes
            &&& bytes.len() <= cap
            &&& seen.deposit.stats@.len() >= 3
            &&& forall|i: int|
                0 <= i < 3 ==> (#[trigger] seen.deposit.stats@[i] matches Ok(stat) && stat.kind
                    != FileKind::Symlink)
        },
{
    reveal_with_fuel(deposit_rule, 4);
}

/// A body that reaches the cap is refused whatever else is learned: no
/// keypair is loaded for it, and nothing is signed.
pub proof fn law_oversized_bodies_load_no_key(
    agents: Map<Seq<char>, RecordView>,
    listed: Seq<RecordView>,
    from_id: Seq<char>,
    to_name: Seq<char>,
    body: Seq<char>,
    cap: nat,
    seen: DispatchReplies,
)
    requires
        encode_utf8(body).len() >= cap,
    ensures
        ({
            let next = dispatch_rule(agents, listed, from_id, to_name, body, cap, seen);
            next is Refused || next is LookupKeys
        }),
{
}

/// The sender found for an identity has that identity.
pub proof fn law_sender_has_the_identity(records: Seq<RecordView>, id: Seq<char>)
    ensures
        match first_with_identity(records, id) {
            Some(record) => records.contains(record) && record.identity_id == id,
            None => forall|i: int|
                0 <= i < records.len() ==> (#[trigger] records[i]).identity_id != id,
        },
    decreases records.len(),
{
    if records.len() > 0 && records[0].identity_id != id {
        let rest = records.drop_first();
        law_sender_has_the_identity(rest, id);
        match first_with_identity(records, id) {
            Some(record) => {
                let i = choose|i: int| 0 <= i < rest.len() && rest[i] == record;
                assert(records[i + 1] == record);
            },
            None => {
                assert forall|i: int| 0 <= i < records.len() implies (
                #[trigger] records[i]).identity_id != id by {
                    if i > 0 {
                        assert(rest[i - 1] == records[i]);
                    }
                }
            },
        }
    }
}

/// Two failures of one kind have one category, whatever paths they hold.
pub proof fn law_category_tells_no_path(
    path: Seq<char>,
    source: IoErrorView,
    other: Seq<char>,
    cause: IoErrorView,
)
    ensures
        (SendErrorView::Io { path, source }).class() == (SendErrorView::Io {
            path: other,
            source: cause,
        }).class(),
        (SendErrorView::SymlinkRejected { path }).class() == (SendErrorView::SymlinkRejected {
            path: other,
        }).class(),
        (SendErrorView::KeypairLoad { path, source: source.message }).class() == (
        SendErrorView::KeypairLoad { path: other, source: cause.message }).class(),
{
}

/// The key that signs is the first of the sender's that is active; where none is,
/// there is none.
pub proof fn law_first_active_key_signs(keys: Seq<KeyView>)
    ensures
        match first_active(keys) {
            Some(id) => exists|i: int|
                0 <= i < keys.len() && (#[trigger] keys[i]).state == KeyState::Active && id
                    == keys[i].key_id && forall|j: int|
                    0 <= j < i ==> (#[trigger] keys[j]).state == KeyState::Revoked,
            None => forall|i: int|
                0 <= i < keys.len() ==> (#[trigger] keys[i]).state == KeyState::Revoked,
        },
    decreases keys.len(),
{
    if keys.len() > 0 {
        if keys[0].state == KeyState::Active {
            assert(first_active(keys) == Some(keys[0].key_id));
        } else {
            let rest = keys.drop_first();
            law_first_active_key_signs(rest);
            match first_active(keys) {
                Some(id) => {
                    let i = choose|i: int|
                        0 <= i < rest.len() && (#[trigger] rest[i]).state == KeyState::Active && id
                            == rest[i].key_id && forall|j: int|
                            0 <= j < i ==> (#[trigger] rest[j]).state == KeyState::Revoked;
                    assert(keys[i + 1] == rest[i]);
                    assert forall|j: int| 0 <= j < i + 1 implies (#[trigger] keys[j]).state
                        == KeyState::Revoked by {
                        if j > 0 {
                            assert(rest[j - 1] == keys[j]);
                        }
                    }
                },
                None => {
                    assert forall|i: int| 0 <= i < keys.len() implies (#[trigger] keys[i]).state
                        == KeyState::Revoked by {
                        if i > 0 {
                            assert(rest[i - 1] == keys[i]);
                        }
                    }
                },
            }
        }
    }
}

/// A message goes out as it was asked for: what is sealed is the body that was
/// given, from the sender that was given, signed by that sender's active key, to
/// the identity of the recipient that was named, under the id that was made; what
/// is then written are the sealed bytes, and the id that is reported is that id.
pub proof fn law_messages_go_out_as_asked(
    agents: Map<Seq<char>, RecordView>,
    listed: Seq<RecordView>,
    from_id: Seq<char>,
    to_name: Seq<char>,
    body: Seq<char>,
    cap: nat,
    seen: DispatchReplies,
)
    ensures
        ({
            let inbox = agents[to_name].inbox_dir;
            match dispatch_rule(agents, listed, from_id, to_name, body, cap, seen) {
                DispatchNextView::LookupKeys { id } => id == from_id && seen.keys is None,
                DispatchNextView::LoadKeypair { path } => seen.keypair is None && exists|i: int|
                    0 <= i < listed.len() && (#[trigger] listed[i]).identity_id == from_id
                        && parent_path(listed[i].inbox_dir) is Some && path == joined_path(
                        parent_path(listed[i].inbox_dir)->0,
                        "identity.key"@,
                    ),
                DispatchNextView::NewMessageId => seen.message_id is None,
                DispatchNextView::Seal(draft) => {
                    &&& draft.body == body
                    &&& draft.sender_id == from_id
                    &&& draft.recipient_id == agents[to_name].identity_id
                    &&& seen.message_id matches Some(Ok(id)) && draft.message_id == id@
                    &&& seen.keys matches Some(Ok(Some(keys))) && (exists|i: int|
                        0 <= i < keys@.len() && (#[trigger] keys@[i]).state == KeyState::Active
                            && draft.sender_key_id == keys@[i].key_id@)
                    &&& seen.keypair matches Some(Ok(_))
                    &&& seen.sealed is None
                },
                DispatchNextView::Stat { path } => path == inbox || path == joined_path(
                    inbox,
                    "tmp"@,
                ) || path == joined_path(inbox, "new"@),
                DispatchNextView::Write { path, dir, mode, bytes } => {
                    &&& seen.message_id matches Some(Ok(id)) && path == joined_path(
                        joined_path(inbox, "new"@),
                        id@,
                    )
                    &&& dir == joined_path(inbox, "tmp"@)
                    &&& mode == 0o600
                    &&& seen.sealed matches Some(Ok(sealed)) && bytes == sealed@
                },
                DispatchNextView::Sent { message_id } => (seen.message_id matches Some(Ok(id))
                    && message_id == id@) && (seen.deposit.written matches Some(Ok(_))) && (
                seen.sealed matches Some(Ok(_))),
                DispatchNextView::Refused(err) => match err {
                    SendErrorView::RecipientNotFound { to_name: who } => who == to_name
                        && !agents.contains_key(to_name),
                    SendErrorView::SenderNotFound { from_id: who } => who == from_id && forall|
                        i: int,
                    |
                        0 <= i < listed.len() ==> (#[trigger] listed[i]).identity_id != from_id,
                    SendErrorView::KeyNotFound { identity_id } => identity_id == from_id && (
                    seen.keys matches Some(Ok(_))),
                    SendErrorView::IdentityLookupFailed { source } => seen.keys matches Some(Err(e))
                        && source == e@,
                    SendErrorView::KeypairLoad { path, source } => exists|i: int|
                        0 <= i < listed.len() && (#[trigger] listed[i]).identity_id == from_id
                            && match parent_path(listed[i].inbox_dir) {
                            Some(root) => path == joined_path(root, "identity.key"@) && (
                            seen.keypair matches Some(Err(e)) && source == e@.shown()),
                            None => path == listed[i].inbox_dir && source
                                == "inbox_dir has no parent; cannot locate identity.key"@,
                        },
                    SendErrorView::SigningFailed(detail) => seen.sealed matches Some(Err(e))
                        && detail == e@,
                    SendErrorView::MessageIdFailed(detail) => seen.message_id matches Some(Err(e))
                        && detail == e@,
                    SendErrorView::BodyTooLarge { len, cap: most } => most == cap && {
                        ||| len == encode_utf8(body).len() && len >= cap
                        ||| len > cap && (seen.sealed matches Some(Ok(sealed)) && len
                            == sealed@.len())
                    },
                    SendErrorView::SymlinkRejected { path } => path == inbox || path == joined_path(
                        inbox,
                        "tmp"@,
                    ) || path == joined_path(inbox, "new"@),
                    SendErrorView::Io { path, source } => {
                        ||| path == inbox && (seen.deposit.stats@[0] matches Err(e) && source == e@)
                        ||| path == joined_path(inbox, "tmp"@) && (
                        seen.deposit.stats@[1] matches Err(e) && source == e@)
                        ||| path == joined_path(inbox, "new"@) && (
                        seen.deposit.stats@[2] matches Err(e) && source == e@)
                        ||| (seen.message_id matches Some(Ok(id)) && path == joined_path(
                            joined_path(inbox, "new"@),
                            id@,
                        )) && (seen.deposit.written matches Some(Err(e)) && source == e@)
                    },
                },
            }
        }),
{
    reveal_with_fuel(deposit_rule, 4);
    law_sender_has_the_identity(listed, from_id);
    if let Some(sender) = first_with_identity(listed, from_id) {
        let i = choose|i: int| 0 <= i < listed.len() && listed[i] == sender;
        assert(listed[i].identity_id == from_id);
    }
    if let Some(Ok(Some(keys))) = seen.keys {
        let ks = keys_view(keys@);
        law_first_active_key_signs(ks);
        if let Some(id) = first_active(ks) {
            let i = choose|i: int|
                0 <= i < ks.len() && (#[trigger] ks[i]).state == KeyState::Active && id
                    == ks[i].key_id && forall|j: int|
                    0 <= j < i ==> (#[trigger] ks[j]).state == KeyState::Revoked;
            assert(keys@[i].state == KeyState::Active && keys@[i].key_id@ == id);
        }
    }
}

/// A message between registered agents, from one with an active key and within
/// the cap, is sent: nothing but a failure of a step keeps it back.
pub proof fn law_deliverable_messages_are_sent(
    agents: Map<Seq<char>, RecordView>,
    listed: Seq<RecordView>,
    sender: int,
    key: int,
    to_name: Seq<char>,
    body: Seq<char>,
    cap: nat,
    seen: DispatchReplies,
    keys: Vec<KeyRecord>,
)
    requires
        agents.contains_key(to_name),
        0 <= sender < listed.len(),
        forall|i: int|
            0 <= i < listed.len() ==> parent_path((#[trigger] listed[i]).inbox_dir) is Some,
        seen.keys == Some(Ok::<Option<Vec<KeyRecord>>, String>(Some(keys))),
        0 <= key < keys@.len(),
        keys@[key].state == KeyState::Active,
        encode_utf8(body).len() < cap,
    ensures
        ({
            let next = dispatch_rule(
                agents,
                listed,
                listed[sender].identity_id,
                to_name,
                body,
                cap,
                seen,
            );
            match (seen.keypair, seen.message_id, seen.sealed) {
                (None, _, _) => next is LoadKeypair,
                (Some(Err(_)), _, _) => next is Refused,
                (Some(Ok(_)), None, _) => next is NewMessageId,
                (Some(Ok(_)), Some(Err(_)), _) => next is Refused,
                (Some(Ok(_)), Some(Ok(_)), None) => next is Seal,
                (Some(Ok(_)), Some(Ok(_)), Some(Err(_))) => next is Refused,
                (Some(Ok(_)), Some(Ok(_)), Some(Ok(bytes))) => bytes@.len() <= cap
                    && seen.deposit.stats@.len() >= 3 && (forall|i: int|
                    0 <= i < 3 ==> (#[trigger] seen.deposit.stats@[i] matches Ok(stat) && stat.kind
                        != FileKind::Symlink)) ==> match seen.deposit.written {
                    None => next is Write,
                    Some(Ok(())) => next is Sent,
                    Some(Err(_)) => next is Refused,
                },
            }
        }),
{
    reveal_with_fuel(deposit_rule, 4);
    law_sender_has_the_identity(listed, listed[sender].identity_id);
    if let Some(record) = first_with_identity(listed, listed[sender].identity_id) {
        let i = choose|i: int| 0 <= i < listed.len() && listed[i] == record;
        assert(parent_path(listed[i].inbox_dir) is Some);
    }
    let ks = keys_view(keys@);
    law_first_active_key_signs(ks);
    assert(ks[key].state == KeyState::Active);
    if let Some(Ok(bytes)) = seen.sealed {
        if seen.deposit.stats@.len() >= 3 && forall|i: int|
            0 <= i < 3 ==> (#[trigger] seen.deposit.stats@[i] matches Ok(stat) && stat.kind
                != FileKind::Symlink) {
            assert(seen.deposit.stats@[0] is Ok && seen.deposit.stats@[1] is Ok
                && seen.deposit.stats@[2] is Ok);
        }
    }
}

/// What is said of a draft is said of its own parts, each in its place.
pub proof fn law_envelope_draft_is_taken_as_it_is(value: EnvelopeDraft)
    ensures
        value@.message_id == value.message_id@,
        value@.sender_id == value.sender_id@,
        value@.sender_key_id == value.sender_key_id@,
        value@.recipient_id == value.recipient_id@,
        value@.body == value.body@,
{
}

/// What is said of a step of a dispatch is said of its own parts, each in its place.
pub proof fn law_dispatch_next_is_taken_as_it_is(value: DispatchNext)
    ensures
        match value {
            DispatchNext::LookupKeys { id } => value@ == (DispatchNextView::LookupKeys { id: id@ }),
            DispatchNext::LoadKeypair { path } => value@ == (DispatchNextView::LoadKeypair { path: path@ }),
            DispatchNext::NewMessageId => value@ == DispatchNextView::NewMessageId,
            DispatchNext::Seal(draft) => value@ == DispatchNextView::Seal(draft@),
            DispatchNext::Stat { path } => value@ == (DispatchNextView::Stat { path: path@ }),
            DispatchNext::Write { path, dir, mode, bytes } => value@ == (DispatchNextView::Write {
                path: path@,
                dir: dir@,
                mode,
                bytes: bytes@,
            }),
            DispatchNext::Done(Ok(id)) => value@ == (DispatchNextView::Sent { message_id: id@ }),
            DispatchNext::Done(Err(err)) => value@ == DispatchNextView::Refused(err@),
        },
{
}

/// No two kinds of failure have one name.
pub proof fn law_names_tell_failures_apart(a: SendErrorView, b: SendErrorView)
    requires
        a.class() == b.class(),
    ensures
        a is RecipientNotFound <==> b is RecipientNotFound,
        a is SenderNotFound <==> b is SenderNotFound,
        a is KeyNotFound <==> b is KeyNotFound,
        a is IdentityLookupFailed <==> b is IdentityLookupFailed,
        a is KeypairLoad <==> b is KeypairLoad,
        a is SigningFailed <==> b is SigningFailed,
        a is Io <==> b is Io,
        a is BodyTooLarge <==> b is BodyTooLarge,
        a is MessageIdFailed <==> b is MessageIdFailed,
        a is SymlinkRejected <==> b is SymlinkRejected,
{
    reveal_strlit("RecipientNotFound");
    reveal_strlit("SenderNotFound");
    reveal_strlit("KeyNotFound");
    reveal_strlit("IdentityLookupFailed");
    reveal_strlit("KeypairLoad");
    reveal_strlit("SigningFailed");
    reveal_strlit("Io");
    reveal_strlit("BodyTooLarge");
    reveal_strlit("MessageIdFailed");
    reveal_strlit("SymlinkRejected");
    assert("RecipientNotFound"@.len() == 17);
    assert("SenderNotFound"@.len() == 14);
    assert("KeyNotFound"@.len() == 11);
    assert("IdentityLookupFailed"@.len() == 20);
    assert("KeypairLoad"@.len() == 11);
    assert("SigningFailed"@.len() == 13);
    assert("Io"@.len() == 2);
    assert("BodyTooLarge"@.len() == 12);
    assert("MessageIdFailed"@.len() == 15);
    assert("SymlinkRejected"@.len() == 15);
    assert("KeyNotFound"@[3] == 'N');
    assert("KeypairLoad"@[3] == 'p');
    assert("MessageIdFailed"@[0] == 'M');
    assert("SymlinkRejected"@[0] == 'S');
}

} // verus!
