//! The keypair of an agent, kept as a 32-byte seed in a file.

use vstd::prelude::*;
use vstd::string::*;

use crate::agent_registry::{
    AgentRegistryError, RegistryErrorView, KEY_SEED_LEN, REGISTRY_FILE_MODE,
};
use crate::fs_util::{FileKind, Stat};
use crate::io_error::{IoError, IoErrorView, IoKind};
use crate::paths::{parent, parent_path};

verus! {

/// The Ed25519 public key of a seed.
pub uninterp spec fn ed25519_public_key(seed: Seq<u8>) -> Seq<u8>;

/// Calls `ed25519_dalek::SigningKey::from_bytes` and hands out the verifying
/// key that it derived, as bytes. Claims that the 32 bytes are a function of
/// the seed.
#[verifier::external_body]
fn public_key_of(seed: &Vec<u8>) -> (public: Vec<u8>)
    requires
        seed@.len() == KEY_SEED_LEN,
    ensures
        public@ == ed25519_public_key(seed@),
        public@.len() == 32,
{
    let mut bytes = [0u8; KEY_SEED_LEN];
    bytes.copy_from_slice(seed);
    ed25519_dalek::SigningKey::from_bytes(&bytes).verifying_key().to_bytes().to_vec()
}

/// An Ed25519 keypair.
pub struct Keypair {
    seed: Vec<u8>,
    public: Vec<u8>,
}

impl Keypair {
    #[verifier::type_invariant]
    spec fn derived(self) -> bool {
        &&& self.seed@.len() == KEY_SEED_LEN
        &&& self.public@ == ed25519_public_key(self.seed@)
    }

    /// The seed of the private key.
    pub closed spec fn seed_bytes(&self) -> Seq<u8> {
        self.seed@
    }

    /// The keypair of a seed.
    pub fn from_seed_bytes(seed: Vec<u8>) -> (pair: Keypair)
        requires
            seed@.len() == KEY_SEED_LEN,
        ensures
            pair.seed_bytes() == seed@,
    {
        let public: Vec<u8> = public_key_of(&seed);
        Keypair { seed, public }
    }

    /// The seed of the private key.
    pub fn to_seed_bytes(&self) -> (seed: &Vec<u8>)
        ensures
            seed@ == self.seed_bytes(),
            seed@.len() == KEY_SEED_LEN,
    {
        proof {
            use_type_invariant(self);
        }
        &self.seed
    }

    /// The public key.
    pub fn public(&self) -> (key: &Vec<u8>)
        ensures
            key@ == ed25519_public_key(self.seed_bytes()),
    {
        proof {
            use_type_invariant(self);
        }
        &self.public
    }
}

/// What has been learned so far about a key file.
pub struct KeyReplies {
    /// What looking at the file told.
    pub stat: Option<Result<Stat, IoError>>,
    /// The bytes that one read of up to 32 gave.
    pub read: Option<Result<Vec<u8>, IoError>>,
    /// A fresh random seed.
    pub fresh_seed: Option<Vec<u8>>,
    /// What writing the fresh seed came to.
    pub persisted: Option<Result<(), IoError>>,
}

/// What to do next to load or make a keypair.
pub enum KeyNext {
    /// Look at the key file, without following a link.
    Stat { path: String },
    /// Read the key file, up to so many bytes, without following a link.
    Read { path: String, max_bytes: u64 },
    /// Draw a random seed of so many bytes.
    NewSeed { len: usize },
    /// Write the seed to the file at once, by a new file in `dir`.
    Persist { path: String, dir: String, seed: Vec<u8>, mode: u32 },
    /// Nothing: the keypair is there, or cannot be had.
    Done(Result<Keypair, AgentRegistryError>),
}

/// What to do next to load or make a keypair, with the seed of one that is
/// there.
pub enum KeyNextView {
    Stat { path: Seq<char> },
    Read { path: Seq<char>, max_bytes: u64 },
    NewSeed { len: usize },
    Persist { path: Seq<char>, dir: Seq<char>, seed: Seq<u8>, mode: u32 },
    Loaded { seed: Seq<u8> },
    Refused(RegistryErrorView),
}

impl View for KeyNext {
    type V = KeyNextView;

    open spec fn view(&self) -> KeyNextView {
        match *self {
            KeyNext::Stat { path } => KeyNextView::Stat { path: path@ },
            KeyNext::Read { path, max_bytes } => KeyNextView::Read { path: path@, max_bytes },
            KeyNext::NewSeed { len } => KeyNextView::NewSeed { len },
            KeyNext::Persist { path, dir, seed, mode } => KeyNextView::Persist {
                path: path@,
                dir: dir@,
                seed: seed@,
                mode,
            },
            KeyNext::Done(Ok(pair)) => KeyNextView::Loaded { seed: pair.seed_bytes() },
            KeyNext::Done(Err(err)) => KeyNextView::Refused(err@),
        }
    }
}

/// The rule for a key file: one that is there must be a plain file of exactly
/// 32 bytes; for one that is not, a fresh seed is written. Nothing that is
/// there is overwritten.
pub open spec fn key_rule(path: Seq<char>, seen: KeyReplies) -> KeyNextView {
    match seen.stat {
        None => KeyNextView::Stat { path },
        Some(Ok(stat)) => if stat.kind == FileKind::Symlink {
            KeyNextView::Refused(RegistryErrorView::SymlinkedKeyFile { path })
        } else if stat.len != KEY_SEED_LEN {
            KeyNextView::Refused(RegistryErrorView::InvalidKeyFile { path, len: stat.len })
        } else {
            match seen.read {
                None => KeyNextView::Read { path, max_bytes: KEY_SEED_LEN as u64 },
                Some(Err(e)) => KeyNextView::Refused(
                    RegistryErrorView::Io { path, source: e@ },
                ),
                Some(Ok(bytes)) => if bytes@.len() != KEY_SEED_LEN {
                    KeyNextView::Refused(
                        RegistryErrorView::InvalidKeyFile { path, len: bytes@.len() as u64 },
                    )
                } else {
                    KeyNextView::Loaded { seed: bytes@ }
                },
            }
        },
        Some(Err(e)) => if e@.kind != IoKind::NotFound {
            KeyNextView::Refused(RegistryErrorView::Io { path, source: e@ })
        } else {
            match seen.fresh_seed {
                None => KeyNextView::NewSeed { len: KEY_SEED_LEN },
                Some(seed) => if seed@.len() != KEY_SEED_LEN {
                    KeyNextView::NewSeed { len: KEY_SEED_LEN }
                } else {
                    match parent_path(path) {
                        None => KeyNextView::Refused(
                            RegistryErrorView::Io {
                                path,
                                source: IoErrorView {
                                    kind: IoKind::InvalidInput,
                                    message: "key file path must have a parent directory"@,
                                },
                            },
                        ),
                        Some(dir) => match seen.persisted {
                            None => KeyNextView::Persist {
                                path,
                                dir,
                                seed: seed@,
                                mode: REGISTRY_FILE_MODE,
                            },
                            Some(Err(e)) => KeyNextView::Refused(
                                RegistryErrorView::Io { path, source: e@ },
                            ),
                            Some(Ok(())) => KeyNextView::Loaded { seed: seed@ },
                        },
                    }
                },
            }
        },
    }
}

/// A copy of a sequence of bytes.
pub fn copy_bytes(bytes: &Vec<u8>) -> (copy: Vec<u8>)
    ensures
        copy@ == bytes@,
{
    let mut copy: Vec<u8> = Vec::new();
    let mut i: usize = 0;
    while i < bytes.len()
        invariant
            i <= bytes@.len(),
            copy@ == bytes@.take(i as int),
        decreases bytes.len() - i,
    {
        copy.push(bytes[i]);
        assert(copy@ =~= bytes@.take(i + 1));
        i = i + 1;
    }
    assert(bytes@.take(i as int) =~= bytes@);
    copy
}

fn load_keypair_from_file(path: &str, read: &Option<Result<Vec<u8>, IoError>>) -> (next: KeyNext)
    ensures
        next@ == (match *read {
            None => KeyNextView::Read { path: path@, max_bytes: KEY_SEED_LEN as u64 },
            Some(Err(e)) => KeyNextView::Refused(
                RegistryErrorView::Io { path: path@, source: e@ },
            ),
            Some(Ok(bytes)) => if bytes@.len() != KEY_SEED_LEN {
                KeyNextView::Refused(
                    RegistryErrorView::InvalidKeyFile { path: path@, len: bytes@.len() as u64 },
                )
            } else {
                KeyNextView::Loaded { seed: bytes@ }
            },
        }),
{
    match read {
        None => KeyNext::Read { path: path.to_owned(), max_bytes: KEY_SEED_LEN as u64 },
        Some(Err(err)) => KeyNext::Done(
            Err(AgentRegistryError::Io { path: path.to_owned(), source: err.clone() }),
        ),
        Some(Ok(bytes)) => {
            if bytes.len() != KEY_SEED_LEN {
                return KeyNext::Done(
                    Err(
                        AgentRegistryError::InvalidKeyFile {
                            path: path.to_owned(),
                            len: bytes.len() as u64,
                        },
                    ),
                );
            }
            KeyNext::Done(Ok(Keypair::from_seed_bytes(copy_bytes(bytes))))
        },
    }
}

fn generate_and_persist_keypair(
    path: &str,
    seed: &Vec<u8>,
    persisted: &Option<Result<(), IoError>>,
) -> (next: KeyNext)
    requires
        seed@.len() == KEY_SEED_LEN,
    ensures
        next@ == (match parent_path(path@) {
            None => KeyNextView::Refused(
                RegistryErrorView::Io {
                    path: path@,
                    source: IoErrorView {
                        kind: IoKind::InvalidInput,
                        message: "key file path must have a parent directory"@,
                    },
                },
            ),
            Some(dir) => match *persisted {
                None => KeyNextView::Persist {
                    path: path@,
                    dir,
                    seed: seed@,
                    mode: REGISTRY_FILE_MODE,
                },
                Some(Err(e)) => KeyNextView::Refused(
                    RegistryErrorView::Io { path: path@, source: e@ },
                ),
                Some(Ok(())) => KeyNextView::Loaded { seed: seed@ },
            },
        }),
{
    match parent(path) {
        None => KeyNext::Done(
            Err(
                AgentRegistryError::Io {
                    path: path.to_owned(),
                    source: IoError::new(
                        IoKind::InvalidInput,
                        "key file path must have a parent directory",
                    ),
                },
            ),
        ),
        Some(dir) => match persisted {
            None => KeyNext::Persist {
                path: path.to_owned(),
                dir,
                seed: copy_bytes(seed),
                mode: REGISTRY_FILE_MODE,
            },
            Some(Err(err)) => KeyNext::Done(
                Err(AgentRegistryError::Io { path: path.to_owned(), source: err.clone() }),
            ),
            Some(Ok(())) => KeyNext::Done(Ok(Keypair::from_seed_bytes(copy_bytes(seed)))),
        },
    }
}

/// What to do next to load the keypair kept at `path`, or to make one where
/// there is none.
pub fn generate_or_load_keypair(path: &str, seen: &KeyReplies) -> (next: KeyNext)
    ensures
        next@ == key_rule(path@, *seen),
{
    match &seen.stat {
        None => KeyNext::Stat { path: path.to_owned() },
        Some(Ok(stat)) => {
            if stat.kind == FileKind::Symlink {
                return KeyNext::Done(
                    Err(AgentRegistryError::SymlinkedKeyFile { path: path.to_owned() }),
                );
            }
            if stat.len != KEY_SEED_LEN as u64 {
                return KeyNext::Done(
                    Err(
                        AgentRegistryError::InvalidKeyFile { path: path.to_owned(), len: stat.len },
                    ),
                );
            }
            load_keypair_from_file(path, &seen.read)
        },
        Some(Err(err)) => {
            if !err.is_not_found() {
                return KeyNext::Done(
                    Err(AgentRegistryError::Io { path: path.to_owned(), source: err.clone() }),
                );
            }
            match &seen.fresh_seed {
                Some(seed) if seed.len() == KEY_SEED_LEN => generate_and_persist_keypair(
                    path,
                    seed,
                    &seen.persisted,
                ),
                _ => KeyNext::NewSeed { len: KEY_SEED_LEN },
            }
        },
    }
}

/// A keypair once written is the one that is read: a file that holds the seed
/// of a keypair gives that keypair.
pub proof fn law_keypair_is_stable(path: Seq<char>, made: KeyReplies, later: KeyReplies)
    requires
        key_rule(path, made) is Loaded,
        made.persisted == Some(Ok::<(), IoError>(())),
        made.stat matches Some(Err(_)),
        later.stat matches Some(Ok(stat)) && stat.kind != FileKind::Symlink && stat.len
            == KEY_SEED_LEN,
        later.read matches Some(Ok(bytes)) && bytes@ == key_rule(path, made)->Loaded_seed,
    ensures
        key_rule(path, later) == key_rule(path, made),
{
}

/// A keypair is the one of its file: its seed is the 32 bytes that were read,
/// or, where there was no file, the fresh seed that was written there first, for
/// its owner alone. Nothing else is ever loaded, and nothing else is written.
pub proof fn law_keypair_is_that_of_its_file(path: Seq<char>, seen: KeyReplies)
    ensures
        match key_rule(path, seen) {
            KeyNextView::Stat { path: at } => at == path && seen.stat is None,
            KeyNextView::Read { path: at, max_bytes } => at == path && max_bytes == 32
                && seen.read is None,
            KeyNextView::NewSeed { len } => len == 32 && (seen.stat matches Some(Err(e)) && e@.kind
                == IoKind::NotFound),
            KeyNextView::Persist { path: to, dir, seed, mode } => to == path && parent_path(path)
                == Some(dir) && mode == 0o600 && seed.len() == 32 && (
            seen.fresh_seed matches Some(fresh) && fresh@ == seed) && (
            seen.stat matches Some(Err(e)) && e@.kind == IoKind::NotFound) && seen.persisted is None,
            KeyNextView::Loaded { seed } => seed.len() == 32 && {
                ||| (seen.stat matches Some(Ok(stat)) && stat.kind != FileKind::Symlink) && (
                seen.read matches Some(Ok(bytes)) && bytes@ == seed)
                ||| (seen.stat matches Some(Err(_))) && (seen.fresh_seed matches Some(fresh)
                    && fresh@ == seed) && (seen.persisted matches Some(Ok(_)))
            },
            KeyNextView::Refused(RegistryErrorView::SymlinkedKeyFile { path: at }) => at == path && (
            seen.stat matches Some(Ok(stat)) && stat.kind == FileKind::Symlink),
            KeyNextView::Refused(RegistryErrorView::InvalidKeyFile { path: at, len }) => at == path
                && len != 32,
            KeyNextView::Refused(err) => err matches RegistryErrorView::Io { path: at, .. } && at
                == path,
        },
{
    if let Some(Ok(bytes)) = seen.read {
        assert(bytes.len() == bytes@.len());
    }
}

} // verus!
