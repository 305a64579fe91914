//! Sending a message from one agent to another.

use std::collections::BTreeMap;

use ed25519_dalek::{Signature, Signer, SigningKey, Verifier, VerifyingKey};
use reeve_runtime::agent_registry::{
    AgentRecord, AgentRegistry, AgentRegistryError, AgentStatus, RegistryNext, RegistryReplies,
    ValidatedAgentName,
};
use reeve_runtime::delivery::{DepositReplies, MessageId};
use reeve_runtime::dispatcher::{
    dispatch, Answer, DispatchNext, DispatchReplies, EnvelopeDraft, KeyRecord, KeyState,
    MessageDispatcher, SendError, SendFailed, SendMessage, SendResult,
};
use reeve_runtime::fs_util::{FileKind, Stat};
use reeve_runtime::identity::{IdentityId, Timestamp};
use reeve_runtime::io_error::{IoError, IoKind};
use reeve_runtime::keypair::Keypair;

const CAP: usize = 4096;
const MESSAGE_ID: &str = "0190b5a4-7c2e-7f00-8000-0123456789ab";

fn id(name: &str) -> IdentityId {
    IdentityId::new(&format!("id-{name}"))
}

fn record(name: &str) -> AgentRecord {
    AgentRecord {
        name: ValidatedAgentName::new(name).unwrap(),
        identity_id: id(name),
        inbox_dir: format!("/base/{name}/inbox"),
        persona_name: None,
        spawned_at: Timestamp { unix_nanos: 0 },
        status: AgentStatus::Running,
        stopped_reason: None,
    }
}

fn open_registry() -> AgentRegistry {
    let seen = RegistryReplies {
        directory: Some(Ok(())),
        stat: Some(Err(IoError::new(IoKind::NotFound, "no such file"))),
        read: None,
    };
    match AgentRegistry::open("/base/registry.toml", &seen) {
        RegistryNext::Done(out) => out.unwrap(),
        other => panic!("expected a registry, got {other:?}"),
    }
}

fn active() -> KeyRecord {
    KeyRecord { key_id: "key-active".to_owned(), state: KeyState::Active }
}

fn revoked() -> KeyRecord {
    KeyRecord { key_id: "key-revoked".to_owned(), state: KeyState::Revoked }
}

/// The registries, inboxes and key files around a dispatcher.
struct World {
    registry: AgentRegistry,
    identities: BTreeMap<String, Result<Vec<KeyRecord>, String>>,
    nodes: BTreeMap<String, FileKind>,
    key_len: u64,
    key_loads: usize,
    drafts: Vec<EnvelopeDraft>,
    deposits: Vec<(String, Vec<u8>)>,
}

fn world() -> World {
    let mut registry = open_registry();
    let _ = registry.register(record("sender"));
    let _ = registry.register(record("recipient"));
    let mut nodes = BTreeMap::new();
    for part in ["", "/tmp", "/new"] {
        nodes.insert(format!("/base/recipient/inbox{part}"), FileKind::Directory);
    }
    let mut identities = BTreeMap::new();
    identities.insert("id-sender".to_owned(), Ok(vec![revoked(), active()]));
    World {
        registry,
        identities,
        nodes,
        key_len: 32,
        key_loads: 0,
        drafts: Vec::new(),
        deposits: Vec::new(),
    }
}

fn seed() -> Vec<u8> {
    (0..32).collect()
}

fn replies() -> DispatchReplies {
    DispatchReplies {
        keys: None,
        keypair: None,
        message_id: None,
        sealed: None,
        deposit: DepositReplies { stats: Vec::new(), written: None },
    }
}

fn hex(bytes: &[u8]) -> String {
    bytes.iter().map(|b| format!("{b:02x}")).collect()
}

fn unhex(text: &str) -> Vec<u8> {
    (0..text.len() / 2).map(|i| u8::from_str_radix(&text[2 * i..2 * i + 2], 16).unwrap()).collect()
}

/// The envelope in JSON, signed.
fn seal(draft: &EnvelopeDraft, keypair: &Keypair) -> Vec<u8> {
    let seed: [u8; 32] = keypair.to_seed_bytes().as_slice().try_into().unwrap();
    let signature = SigningKey::from_bytes(&seed).sign(draft.body.as_bytes());
    let mut map = serde_json::Map::new();
    for (key, value) in [
        ("message_id", draft.message_id.as_str().to_owned()),
        ("sender_id", draft.sender_id.text.clone()),
        ("sender_key_id", draft.sender_key_id.clone()),
        ("recipient_id", draft.recipient_id.text.clone()),
        ("body", hex(draft.body.as_bytes())),
        ("signature", hex(&signature.to_bytes())),
    ] {
        map.insert(key.to_owned(), serde_json::Value::String(value));
    }
    serde_json::Value::Object(map).to_string().into_bytes()
}

impl World {
    fn perform(&mut self, next: DispatchNext, seen: &mut DispatchReplies) -> Option<Result<MessageId, SendError>> {
        match next {
            DispatchNext::LookupKeys { id } => {
                seen.keys = Some(match self.identities.get(&id.text) {
                    None => Ok(None),
                    Some(Ok(keys)) => Ok(Some(keys.iter().map(|k| KeyRecord {
                        key_id: k.key_id.clone(),
                        state: k.state,
                    }).collect())),
                    Some(Err(complaint)) => Err(complaint.clone()),
                });
            }
            DispatchNext::LoadKeypair { path } => {
                assert_eq!(path, "/base/sender/identity.key");
                self.key_loads += 1;
                seen.keypair = Some(if self.key_len == 32 {
                    Ok(Keypair::from_seed_bytes(seed()))
                } else {
                    Err(AgentRegistryError::InvalidKeyFile { path, len: self.key_len })
                });
            }
            DispatchNext::NewMessageId => {
                seen.message_id = Some(Ok(MessageId::new(MESSAGE_ID).unwrap()));
            }
            DispatchNext::Seal(draft) => {
                seen.sealed = Some(Ok(seal(&draft, &Keypair::from_seed_bytes(seed()))));
                self.drafts.push(draft);
            }
            DispatchNext::Stat { path } => seen.deposit.stats.push(match self.nodes.get(&path) {
                Some(kind) => Ok(Stat { kind: *kind, mode: 0o700, len: 0 }),
                None => Err(IoError::new(IoKind::NotFound, "no such file")),
            }),
            DispatchNext::Write { path, dir, mode, bytes } => {
                assert_eq!(dir, "/base/recipient/inbox/tmp");
                assert_eq!(mode, 0o600);
                self.deposits.push((path, bytes));
                seen.deposit.written = Some(Ok(()));
            }
            DispatchNext::Done(out) => return Some(out),
        }
        None
    }

    fn send(&mut self, from: &IdentityId, to: &str, body: &str) -> Result<MessageId, SendError> {
        let to = ValidatedAgentName::new(to).unwrap();
        let mut seen = replies();
        loop {
            let next = dispatch(&self.registry, from, &to, body, CAP, &seen);
            if let Some(out) = self.perform(next, &mut seen) {
                return out;
            }
        }
    }

    /// Sends through the dispatcher, which answers on the channels given.
    fn send_with(&mut self, from: IdentityId, to: &str, body: &str, reply: bool, error: bool) -> Answer {
        let mut registry = open_registry();
        let _ = registry.register(record("sender"));
        let _ = registry.register(record("recipient"));
        let dispatcher = MessageDispatcher::new(registry, CAP);
        let msg = SendMessage {
            from_id: from,
            to_name: ValidatedAgentName::new(to).unwrap(),
            body: body.to_owned(),
            reply_to: reply,
            error_to: error,
        };
        let mut seen = replies();
        loop {
            let next = dispatcher.step(&msg, &seen);
            if let Some(out) = self.perform(next, &mut seen) {
                return MessageDispatcher::handle(&msg, out);
            }
        }
    }
}

#[test]
fn dispatch_happy_path_deposits_file_and_returns_message_id() {
    let mut world = world();
    let answer = world.send_with(id("sender"), "recipient", "hello from sender", true, false);
    let message_id = match answer {
        Answer::Reply(SendResult { message_id }) => message_id,
        other => panic!("expected a reply, got {other:?}"),
    };
    assert_eq!(world.deposits.len(), 1, "exactly one file should be in recipient inbox/new/");
    let (path, bytes) = &world.deposits[0];
    assert_eq!(
        *path,
        format!("/base/recipient/inbox/new/{}", message_id.as_str()),
        "filename must match the message_id"
    );
    let envelope: serde_json::Value = serde_json::from_slice(bytes).unwrap();
    assert_eq!(envelope["sender_id"], "id-sender");
    assert_eq!(envelope["sender_key_id"], "key-active");
    assert_eq!(envelope["recipient_id"], "id-recipient");
    let body = unhex(envelope["body"].as_str().unwrap());
    assert_eq!(body, b"hello from sender");

    let public: [u8; 32] =
        Keypair::from_seed_bytes(seed()).public().as_slice().try_into().unwrap();
    let signature = Signature::from_slice(&unhex(envelope["signature"].as_str().unwrap())).unwrap();
    assert!(VerifyingKey::from_bytes(&public).unwrap().verify(&body, &signature).is_ok());
}

#[test]
fn dispatch_unknown_recipient_delivers_error() {
    let answer =
        world().send_with(id("sender"), "nonexistent-agent", "should not arrive", false, true);
    match answer {
        Answer::Error(SendFailed { error: SendError::RecipientNotFound { to_name } }) => {
            assert_eq!(to_name, "nonexistent-agent");
        }
        other => panic!("expected RecipientNotFound, got {other:?}"),
    }
}

#[test]
fn dispatch_unknown_sender_delivers_error() {
    let answer = world().send_with(id("unknown"), "recipient", "should not arrive", false, true);
    match answer {
        Answer::Error(SendFailed { error: SendError::SenderNotFound { from_id } }) => {
            assert_eq!(from_id, id("unknown"));
        }
        other => panic!("expected SenderNotFound, got {other:?}"),
    }
}

#[test]
fn an_answer_nobody_waits_for_is_not_sent() {
    let mut world = world();
    assert_eq!(world.send_with(id("sender"), "recipient", "hi", false, true), Answer::Silent);
    assert_eq!(world.send_with(id("unknown"), "recipient", "hi", true, false), Answer::Silent);
}

#[test]
fn dispatch_missing_tmp_dir_returns_io_error() {
    let mut world = world();
    world.nodes.remove("/base/recipient/inbox/tmp");
    let err = world.send(&id("sender"), "recipient", "test body").unwrap_err();
    assert!(
        matches!(err, SendError::Io { .. }),
        "expected SendError::Io when tmp dir is missing, got {err:?}"
    );
    assert_eq!(err.category(), "Io");
}

#[test]
fn dispatch_body_too_large_returns_error() {
    let mut world = world();
    let oversized = "x".repeat(CAP + 1);
    let err = world.send(&id("sender"), "recipient", &oversized).unwrap_err();
    assert!(
        matches!(err, SendError::BodyTooLarge { len, .. } if len > CAP),
        "expected BodyTooLarge with len > CAP, got {err:?}"
    );
    assert_eq!(world.key_loads, 0);
    assert!(world.deposits.is_empty());
}

#[test]
fn dispatch_body_at_envelope_limit_returns_error() {
    let mut world = world();
    let err = world.send(&id("sender"), "recipient", &"x".repeat(CAP)).unwrap_err();
    assert_eq!(err, SendError::BodyTooLarge { len: CAP, cap: CAP });
    assert_eq!(world.key_loads, 0);
}

#[test]
fn dispatch_identity_lookup_error_returns_identity_lookup_failed() {
    let mut world = world();
    world.identities.insert("id-sender".to_owned(), Err("symlinked registry file".to_owned()));
    let err = world.send(&id("sender"), "recipient", "hello").unwrap_err();
    assert_eq!(
        err,
        SendError::IdentityLookupFailed { source: "symlinked registry file".to_owned() },
    );
}

#[test]
fn dispatch_fails_when_sender_not_in_identity_registry() {
    let mut world = world();
    let _ = world.registry.register(record("orphan-sender"));
    let err = world.send(&id("orphan-sender"), "recipient", "hello").unwrap_err();
    assert_eq!(err, SendError::KeyNotFound { identity_id: id("orphan-sender") });
}

#[test]
fn dispatch_fails_when_keypair_file_is_corrupt() {
    let mut world = world();
    world.key_len = b"not-a-valid-seed-this-is-garbage-xyz".len() as u64;
    let err = world.send(&id("sender"), "recipient", "hello").unwrap_err();
    match err {
        SendError::KeypairLoad { path, source } => {
            assert_eq!(path, "/base/sender/identity.key");
            assert!(source.contains("36"), "{source}");
        }
        other => panic!("expected KeypairLoad, got {other:?}"),
    }
}

#[test]
fn dispatch_body_just_under_limit_hits_post_check_returns_error() {
    let mut world = world();
    let err = world.send(&id("sender"), "recipient", &"x".repeat(CAP - 1)).unwrap_err();
    assert!(
        matches!(err, SendError::BodyTooLarge { len, .. } if len > CAP),
        "expected BodyTooLarge with serialized len > CAP, got {err:?}"
    );
    assert_eq!(world.drafts.len(), 1);
    assert!(world.deposits.is_empty());
}

#[test]
fn dispatch_fails_when_sender_has_no_active_key() {
    let mut world = world();
    let _ = world.registry.register(record("revoked-sender"));
    world.identities.insert("id-revoked-sender".to_owned(), Ok(vec![revoked()]));
    let err = world.send(&id("revoked-sender"), "recipient", "hello").unwrap_err();
    assert_eq!(err, SendError::KeyNotFound { identity_id: id("revoked-sender") });
}

#[test]
fn dispatch_inbox_tmp_is_symlink_returns_error() {
    let mut world = world();
    world.nodes.insert("/base/recipient/inbox/tmp".to_owned(), FileKind::Symlink);
    let err = world.send(&id("sender"), "recipient", "hello").unwrap_err();
    assert_eq!(err, SendError::SymlinkRejected { path: "/base/recipient/inbox/tmp".to_owned() });
}

#[test]
fn dispatch_inbox_root_is_symlink_returns_error() {
    let mut world = world();
    world.nodes.insert("/base/recipient/inbox".to_owned(), FileKind::Symlink);
    let err = world.send(&id("sender"), "recipient", "hello").unwrap_err();
    assert_eq!(err, SendError::SymlinkRejected { path: "/base/recipient/inbox".to_owned() });
}

#[test]
fn failed_steps_are_told() {
    let to = ValidatedAgentName::new("recipient").unwrap();
    let failed = |seen: DispatchReplies| {
        match dispatch(&world().registry, &id("sender"), &to, "hi", CAP, &seen) {
            DispatchNext::Done(Err(err)) => err,
            other => panic!("expected a failure, got {other:?}"),
        }
    };
    let known = || {
        let mut seen = replies();
        seen.keys = Some(Ok(Some(vec![active()])));
        seen.keypair = Some(Ok(Keypair::from_seed_bytes(seed())));
        seen
    };
    let mut seen = known();
    seen.message_id = Some(Err("no randomness".to_owned()));
    assert_eq!(failed(seen), SendError::MessageIdFailed("no randomness".to_owned()));
    let mut seen = known();
    seen.message_id = Some(Ok(MessageId::new(MESSAGE_ID).unwrap()));
    seen.sealed = Some(Err("bad key".to_owned()));
    assert_eq!(failed(seen), SendError::SigningFailed("bad key".to_owned()));
}
