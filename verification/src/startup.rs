//! Bringing the runtime up: the resources it opens, the identities it makes
//! sure of, and the order in which its parts are started.

use vstd::prelude::*;
use vstd::string::*;

use crate::agent_fs::{AgentDirs, AgentFsError, RuntimeLayout};
use crate::agent_registry::AgentRegistryError;
use crate::config::{ConfigError, TeamConfig, TeamView};
use crate::daemon::{DaemonError, DaemonErrorView};
use crate::estate::{EstateOp, OpView, ESTATE_AGENT_NAME};
use crate::identity::{opt_id, IdentityId};
use crate::keypair::{copy_bytes, ed25519_public_key, Keypair};
use crate::paths::joined_path;
use crate::text::same_text;

verus! {

// ── Resources ────────────────────────────────────────────────────────────────

/// A resource that the runtime opens before anything is started.
#[derive(Debug, Clone, Copy, PartialEq, Eq, Structural)]
pub enum Resource {
    IdentityRegistry,
    ReplayLedger,
    DeliveryLedger,
    AuditLog,
}

impl Resource {
    /// The resource in words.
    pub open spec fn component(self) -> Seq<char> {
        match self {
            Resource::IdentityRegistry => "identity registry"@,
            Resource::ReplayLedger => "replay ledger"@,
            Resource::DeliveryLedger => "delivery ledger"@,
            Resource::AuditLog => "audit log"@,
        }
    }

    /// Where the resource is: the identities have a directory of their own,
    /// the rest is at the data root.
    pub open spec fn place(self, data_dir: Seq<char>) -> Seq<char> {
        match self {
            Resource::IdentityRegistry => joined_path(data_dir, "identities"@),
            _ => data_dir,
        }
    }

    fn component_name(self) -> (name: &'static str)
        ensures
            name@ == self.component(),
    {
        match self {
            Resource::IdentityRegistry => "identity registry",
            Resource::ReplayLedger => "replay ledger",
            Resource::DeliveryLedger => "delivery ledger",
            Resource::AuditLog => "audit log",
        }
    }

    fn path(self, data_dir: &str) -> (path: String)
        ensures
            path@ == self.place(data_dir@),
    {
        match self {
            Resource::IdentityRegistry => RuntimeLayout::new(data_dir).identities_root(),
            _ => data_dir.to_owned(),
        }
    }
}

/// The resources, in the order in which they are opened.
pub open spec fn resources() -> Seq<Resource> {
    seq![
        Resource::IdentityRegistry,
        Resource::ReplayLedger,
        Resource::DeliveryLedger,
        Resource::AuditLog,
    ]
}

/// What to do next to open the resources.
#[derive(Debug, PartialEq, Eq)]
pub enum OpenNext {
    /// Open this resource at this path.
    Open { resource: Resource, path: String },
    /// Nothing: all are open, or one could not be opened.
    Done(Result<(), DaemonError>),
}

/// What to do next to open the resources.
pub enum OpenNextView {
    Open { resource: Resource, path: Seq<char> },
    AllOpen,
    Failed(DaemonErrorView),
}

impl View for OpenNext {
    type V = OpenNextView;

    open spec fn view(&self) -> OpenNextView {
        match *self {
            OpenNext::Open { resource, path } => OpenNextView::Open { resource, path: path@ },
            OpenNext::Done(Ok(())) => OpenNextView::AllOpen,
            OpenNext::Done(Err(err)) => OpenNextView::Failed(err@),
        }
    }
}

/// The rule for opening, from the `i`-th resource on: one after the other,
/// and the first that cannot be opened ends it.
pub open spec fn open_rule(
    data_dir: Seq<char>,
    opened: Seq<Result<(), String>>,
    i: int,
) -> OpenNextView
    decreases resources().len() - i,
{
    if i >= resources().len() {
        OpenNextView::AllOpen
    } else if i >= opened.len() {
        OpenNextView::Open { resource: resources()[i], path: resources()[i].place(data_dir) }
    } else {
        match opened[i] {
            Err(source) => OpenNextView::Failed(
                DaemonErrorView::Resource {
                    component: resources()[i].component(),
                    source: source@,
                },
            ),
            Ok(()) => open_rule(data_dir, opened, i + 1),
        }
    }
}

/// What to do next to open the resources, when opening the first ones came
/// to `opened`.
pub fn open_resources(data_dir: &str, opened: &Vec<Result<(), String>>) -> (next: OpenNext)
    ensures
        next@ == open_rule(data_dir@, opened@, 0),
{
    let all: Vec<Resource> = vec![
        Resource::IdentityRegistry,
        Resource::ReplayLedger,
        Resource::DeliveryLedger,
        Resource::AuditLog,
    ];
    assert(all@ =~= resources());
    let mut i: usize = 0;
    while i < all.len()
        invariant
            all@ == resources(),
            i <= all@.len(),
            open_rule(data_dir@, opened@, 0) == open_rule(data_dir@, opened@, i as int),
        decreases all.len() - i,
    {
        if i >= opened.len() {
            return OpenNext::Open { resource: all[i], path: all[i].path(data_dir) };
        }
        match &opened[i] {
            Err(source) => {
                return OpenNext::Done(
                    Err(
                        DaemonError::Resource {
                            component: all[i].component_name(),
                            source: source.clone(),
                        },
                    ),
                );
            },
            Ok(()) => {},
        }
        i = i + 1;
    }
    OpenNext::Done(Ok(()))
}

// ── System identities ────────────────────────────────────────────────────────

/// An actor of the runtime itself: it has an identity and an inbox, but no
/// persona and no incarnation.
#[derive(Debug, PartialEq, Eq)]
pub struct SystemActorRecord {
    pub name: String,
    pub identity_id: IdentityId,
    pub inbox_dir: String,
}

/// What the record holds.
pub struct SystemView {
    pub name: Seq<char>,
    pub identity_id: Seq<char>,
    pub inbox_dir: Seq<char>,
}

impl View for SystemActorRecord {
    type V = SystemView;

    open spec fn view(&self) -> SystemView {
        SystemView {
            name: self.name@,
            identity_id: self.identity_id@,
            inbox_dir: self.inbox_dir@,
        }
    }
}

/// What each record of a sequence holds.
pub open spec fn systems_view(v: Seq<SystemActorRecord>) -> Seq<SystemView> {
    v.map_values(|r: SystemActorRecord| r@)
}

/// The identity of the first actor of this name.
pub open spec fn system_identity(records: Seq<SystemView>, name: Seq<char>) -> Option<Seq<char>>
    decreases records.len(),
{
    if records.len() == 0 {
        None
    } else if records[0].name == name {
        Some(records[0].identity_id)
    } else {
        system_identity(records.drop_first(), name)
    }
}

fn find_system<'a>(records: &'a Vec<SystemActorRecord>, name: &str) -> (out: Option<
    &'a SystemActorRecord,
>)
    ensures
        match out {
            Some(record) => system_identity(systems_view(records@), name@) == Some(
                record@.identity_id,
            ),
            None => system_identity(systems_view(records@), name@) is None,
        },
{
    let ghost rs: Seq<SystemView> = systems_view(records@);
    let mut i: usize = 0;
    assert(rs.skip(0) =~= rs);
    while i < records.len()
        invariant
            rs == systems_view(records@),
            i <= records@.len(),
            system_identity(rs, name@) == system_identity(rs.skip(i as int), name@),
        decreases records.len() - i,
    {
        assert(rs.skip(i as int)[0] == records@[i as int]@);
        if same_text(records[i].name.as_str(), name) {
            return Some(&records[i]);
        }
        assert(rs.skip(i as int).drop_first() =~= rs.skip(i + 1));
        i = i + 1;
    }
    None
}

/// Whether two sequences of bytes are the same.
pub fn same_bytes(a: &Vec<u8>, b: &Vec<u8>) -> (same: bool)
    ensures
        same == (a@ == b@),
{
    if a.len() != b.len() {
        return false;
    }
    let mut i: usize = 0;
    while i < a.len()
        invariant
            a@.len() == b@.len(),
            i <= a@.len(),
            forall|k: int| 0 <= k < i ==> a@[k] == b@[k],
        decreases a.len() - i,
    {
        if a[i] != b[i] {
            return false;
        }
        i = i + 1;
    }
    assert(a@ =~= b@);
    true
}

/// What has been learned so far about a system identity.
#[derive(Debug, PartialEq, Eq)]
pub struct IdentityReplies {
    /// The public keys of the identity, as the identity registry has them.
    pub keys: Option<Result<Option<Vec<Vec<u8>>>, String>>,
    /// A fresh identity.
    pub fresh: Option<Result<IdentityId, String>>,
    /// What making its key record came to.
    pub key_record: Option<Result<(), String>>,
    /// What putting the two together came to.
    pub stored: Option<Result<(), String>>,
    /// What writing them came to.
    pub written: Option<Result<(), String>>,
    /// What registering the actor came to.
    pub registered: Option<Result<(), String>>,
}

/// What to do next to make sure of a system identity.
#[derive(Debug, PartialEq, Eq)]
pub enum IdentityNext {
    /// Look up the public keys of an identity.
    LookupKeys { id: IdentityId },
    /// Make an identity that the operator vouches for.
    NewIdentity { display_name: String, operator_id: IdentityId },
    /// Make a key record of the identity.
    NewKeyRecord { id: IdentityId, public_key: Vec<u8> },
    /// Put the identity and its key record together.
    NewStored { id: IdentityId },
    /// Write the identity to the identity registry.
    WriteIdentity { id: IdentityId },
    /// Register the actor.
    Register(SystemActorRecord),
    /// Nothing: this is the identity, or there is none to be had.
    Done(Result<IdentityId, DaemonError>),
}

/// What to do next to make sure of a system identity.
#[allow(inconsistent_fields)]
pub enum IdentityNextView {
    LookupKeys { id: Seq<char> },
    NewIdentity { display_name: Seq<char>, operator_id: Seq<char> },
    NewKeyRecord { id: Seq<char>, public_key: Seq<u8> },
    NewStored { id: Seq<char> },
    WriteIdentity { id: Seq<char> },
    Register(SystemView),
    Known { id: Seq<char> },
    Failed(DaemonErrorView),
}

impl View for IdentityNext {
    type V = IdentityNextView;

    open spec fn view(&self) -> IdentityNextView {
        match *self {
            IdentityNext::LookupKeys { id } => IdentityNextView::LookupKeys { id: id@ },
            IdentityNext::NewIdentity { display_name, operator_id } => IdentityNextView::NewIdentity {
                display_name: display_name@,
                operator_id: operator_id@,
            },
            IdentityNext::NewKeyRecord { id, public_key } => IdentityNextView::NewKeyRecord {
                id: id@,
                public_key: public_key@,
            },
            IdentityNext::NewStored { id } => IdentityNextView::NewStored { id: id@ },
            IdentityNext::WriteIdentity { id } => IdentityNextView::WriteIdentity { id: id@ },
            IdentityNext::Register(record) => IdentityNextView::Register(record@),
            IdentityNext::Done(Ok(id)) => IdentityNextView::Known { id: id@ },
            IdentityNext::Done(Err(err)) => IdentityNextView::Failed(err@),
        }
    }
}

/// A resource that could not be had.
pub open spec fn resource_failure(component: Seq<char>, source: Seq<char>) -> DaemonErrorView {
    DaemonErrorView::Resource { component, source }
}

fn resource(component: &'static str, source: &str) -> (err: DaemonError)
    ensures
        err@ == resource_failure(component@, source@),
{
    DaemonError::Resource { component, source: source.to_owned() }
}

/// The rule for an identity that is registered: the identity registry must
/// have it, and its first key must be the one of the key file.
pub open spec fn known_identity_rule(
    id: Seq<char>,
    public_key: Seq<u8>,
    seen: IdentityReplies,
) -> IdentityNextView {
    let failed = |component: Seq<char>, source: Seq<char>|
        IdentityNextView::Failed(resource_failure(component, source));
    match seen.keys {
        None => IdentityNextView::LookupKeys { id },
        Some(Err(source)) => failed("identity registry lookup"@, source@),
        Some(Ok(None)) => failed(
            "identity registry lookup"@,
            "agent_id found in system registry but no entry in identity registry"@,
        ),
        Some(Ok(Some(keys))) => if keys@.len() == 0 {
            failed(
                "identity registry lookup"@,
                "stored identity has no key records; registry may be corrupt"@,
            )
        } else if keys@[0]@ != public_key {
            failed(
                "keypair mismatch"@,
                "on-disk identity.key does not match stored public key; restore the correct key file or re-register the agent"@,
            )
        } else {
            IdentityNextView::Known { id }
        },
    }
}

/// The rule for a new identity: it is made and written before the actor is
/// registered under it.
pub open spec fn new_identity_rule(
    name: Seq<char>,
    display_name: Seq<char>,
    inbox_dir: Seq<char>,
    public_key: Seq<u8>,
    operator_id: Seq<char>,
    seen: IdentityReplies,
) -> IdentityNextView {
    let failed = |component: Seq<char>, source: Seq<char>|
        IdentityNextView::Failed(resource_failure(component, source));
    match seen.fresh {
        None => IdentityNextView::NewIdentity { display_name, operator_id },
        Some(Err(source)) => failed("system identity"@, source@),
        Some(Ok(id)) => match seen.key_record {
            None => IdentityNextView::NewKeyRecord { id: id@, public_key },
            Some(Err(source)) => failed("key record"@, source@),
            Some(Ok(())) => match seen.stored {
                None => IdentityNextView::NewStored { id: id@ },
                Some(Err(source)) => failed("stored identity"@, source@),
                Some(Ok(())) => match seen.written {
                    None => IdentityNextView::WriteIdentity { id: id@ },
                    Some(Err(source)) => failed("identity registry write"@, source@),
                    Some(Ok(())) => match seen.registered {
                        None => IdentityNextView::Register(
                            SystemView { name, identity_id: id@, inbox_dir },
                        ),
                        Some(Err(source)) => failed("system registry register"@, source@),
                        Some(Ok(())) => IdentityNextView::Known { id: id@ },
                    },
                },
            },
        },
    }
}

/// The rule for a system identity.
pub open spec fn identity_rule(
    name: Seq<char>,
    display_name: Seq<char>,
    inbox_dir: Seq<char>,
    public_key: Seq<u8>,
    records: Seq<SystemView>,
    operator_id: Seq<char>,
    seen: IdentityReplies,
) -> IdentityNextView {
    match system_identity(records, name) {
        Some(id) => known_identity_rule(id, public_key, seen),
        None => new_identity_rule(name, display_name, inbox_dir, public_key, operator_id, seen),
    }
}

fn reuse_identity(id: &IdentityId, public_key: &Vec<u8>, seen: &IdentityReplies) -> (next:
    IdentityNext)
    ensures
        next@ == known_identity_rule(id@, public_key@, *seen),
{
    match &seen.keys {
        None => IdentityNext::LookupKeys { id: id.clone() },
        Some(Err(source)) => IdentityNext::Done(
            Err(resource("identity registry lookup", source.as_str())),
        ),
        Some(Ok(None)) => IdentityNext::Done(
            Err(
                resource(
                    "identity registry lookup",
                    "agent_id found in system registry but no entry in identity registry",
                ),
            ),
        ),
        Some(Ok(Some(keys))) => {
            if keys.len() == 0 {
                return IdentityNext::Done(
                    Err(
                        resource(
                            "identity registry lookup",
                            "stored identity has no key records; registry may be corrupt",
                        ),
                    ),
                );
            }
            if !same_bytes(&keys[0], public_key) {
                return IdentityNext::Done(
                    Err(
                        resource(
                            "keypair mismatch",
                            "on-disk identity.key does not match stored public key; restore the correct key file or re-register the agent",
                        ),
                    ),
                );
            }
            IdentityNext::Done(Ok(id.clone()))
        },
    }
}

fn bootstrap_identity(
    name: &str,
    display_name: &str,
    inbox_dir: &str,
    public_key: &Vec<u8>,
    operator_id: &IdentityId,
    seen: &IdentityReplies,
) -> (next: IdentityNext)
    ensures
        next@ == new_identity_rule(
            name@,
            display_name@,
            inbox_dir@,
            public_key@,
            operator_id@,
            *seen,
        ),
{
    let id: &IdentityId = match &seen.fresh {
        None => {
            return IdentityNext::NewIdentity {
                display_name: display_name.to_owned(),
                operator_id: operator_id.clone(),
            };
        },
        Some(Err(source)) => {
            return IdentityNext::Done(Err(resource("system identity", source.as_str())));
        },
        Some(Ok(id)) => id,
    };
    match &seen.key_record {
        None => {
            return IdentityNext::NewKeyRecord {
                id: id.clone(),
                public_key: copy_bytes(public_key),
            };
        },
        Some(Err(source)) => {
            return IdentityNext::Done(Err(resource("key record", source.as_str())));
        },
        Some(Ok(())) => {},
    }
    match &seen.stored {
        None => {
            return IdentityNext::NewStored { id: id.clone() };
        },
        Some(Err(source)) => {
            return IdentityNext::Done(Err(resource("stored identity", source.as_str())));
        },
        Some(Ok(())) => {},
    }
    match &seen.written {
        None => {
            return IdentityNext::WriteIdentity { id: id.clone() };
        },
        Some(Err(source)) => {
            return IdentityNext::Done(Err(resource("identity registry write", source.as_str())));
        },
        Some(Ok(())) => {},
    }
    match &seen.registered {
        None => IdentityNext::Register(
            SystemActorRecord {
                name: name.to_owned(),
                identity_id: id.clone(),
                inbox_dir: inbox_dir.to_owned(),
            },
        ),
        Some(Err(source)) => IdentityNext::Done(
            Err(resource("system registry register", source.as_str())),
        ),
        Some(Ok(())) => IdentityNext::Done(Ok(id.clone())),
    }
}

/// What to do next to make sure that the named actor has an identity: one
/// that is registered is kept if its key is still the one of the key file;
/// else one is made and registered.
pub fn ensure_named_system_identity(
    name: &str,
    display_name: &str,
    inbox_dir: &str,
    keypair: &Keypair,
    records: &Vec<SystemActorRecord>,
    operator_id: &IdentityId,
    seen: &IdentityReplies,
) -> (next: IdentityNext)
    ensures
        next@ == identity_rule(
            name@,
            display_name@,
            inbox_dir@,
            ed25519_public_key(keypair.seed_bytes()),
            systems_view(records@),
            operator_id@,
            *seen,
        ),
{
    match find_system(records, name) {
        Some(record) => reuse_identity(&record.identity_id, keypair.public(), seen),
        None => bootstrap_identity(
            name,
            display_name,
            inbox_dir,
            keypair.public(),
            operator_id,
            seen,
        ),
    }
}

// ── Preparation ──────────────────────────────────────────────────────────────

/// What an identity is.
#[derive(Debug, Clone, Copy, PartialEq, Eq, Structural)]
pub enum IdentityType {
    Operator,
    Agent,
    System,
}

/// An identity as the registry lists it.
#[derive(Debug, PartialEq, Eq)]
pub struct IdentityListing {
    pub id: IdentityId,
    pub identity_type: IdentityType,
}

/// What the listing holds.
pub struct ListingView {
    pub id: Seq<char>,
    pub identity_type: IdentityType,
}

impl View for IdentityListing {
    type V = ListingView;

    open spec fn view(&self) -> ListingView {
        ListingView { id: self.id@, identity_type: self.identity_type }
    }
}

/// What each listing of a sequence holds.
pub open spec fn listings_view(v: Seq<IdentityListing>) -> Seq<ListingView> {
    v.map_values(|l: IdentityListing| l@)
}

/// The first operator that is listed.
pub open spec fn first_operator(all: Seq<ListingView>) -> Option<Seq<char>>
    decreases all.len(),
{
    if all.len() == 0 {
        None
    } else if all[0].identity_type == IdentityType::Operator {
        Some(all[0].id)
    } else {
        first_operator(all.drop_first())
    }
}

fn find_operator(all: &Vec<IdentityListing>) -> (out: Option<&IdentityId>)
    ensures
        match out {
            Some(id) => first_operator(listings_view(all@)) == Some(id@),
            None => first_operator(listings_view(all@)) is None,
        },
{
    let ghost ls: Seq<ListingView> = listings_view(all@);
    let mut i: usize = 0;
    assert(ls.skip(0) =~= ls);
    while i < all.len()
        invariant
            ls == listings_view(all@),
            i <= all@.len(),
            first_operator(ls) == first_operator(ls.skip(i as int)),
        decreases all.len() - i,
    {
        assert(ls.skip(i as int)[0] == all@[i as int]@);
        if all[i].identity_type == IdentityType::Operator {
            return Some(&all[i].id);
        }
        assert(ls.skip(i as int).drop_first() =~= ls.skip(i + 1));
        i = i + 1;
    }
    None
}

/// What the parts are started with.
#[derive(Debug, PartialEq, Eq)]
pub struct AgentStartup {
    pub data_dir: String,
    pub agent_registry_path: String,
    pub operator_id: IdentityId,
    /// The default team, whose cap on system prompts holds for every agent.
    pub team: TeamConfig,
    /// Identity of the estate coordinator.
    pub estate_id: IdentityId,
    /// Root of the estate coordinator's inbox.
    pub estate_inbox: String,
}

/// What the start holds.
pub struct StartupView {
    pub data_dir: Seq<char>,
    pub agent_registry_path: Seq<char>,
    pub operator_id: Seq<char>,
    pub team: TeamView,
    pub estate_id: Seq<char>,
    pub estate_inbox: Seq<char>,
}

impl View for AgentStartup {
    type V = StartupView;

    open spec fn view(&self) -> StartupView {
        StartupView {
            data_dir: self.data_dir@,
            agent_registry_path: self.agent_registry_path@,
            operator_id: self.operator_id@,
            team: self.team@,
            estate_id: self.estate_id@,
            estate_inbox: self.estate_inbox@,
        }
    }
}

/// What has been learned so far about the preparation.
pub struct PrepareReplies {
    /// What installing the default configuration came to.
    pub defaults: Option<Result<(), ConfigError>>,
    /// The default team.
    pub team: Option<Result<TeamConfig, ConfigError>>,
    /// The actors of the runtime.
    pub systems: Option<Result<Vec<SystemActorRecord>, String>>,
    /// All identities.
    pub identities: Option<Result<Vec<IdentityListing>, String>>,
    /// What providing the estate coordinator's directories came to.
    pub estate_dirs: Option<Result<AgentDirs, AgentFsError>>,
    /// The estate coordinator's keypair.
    pub keypair: Option<Result<Keypair, AgentRegistryError>>,
    /// What was learned of its identity.
    pub identity: IdentityReplies,
}

/// What to do next to prepare the start.
#[derive(Debug, PartialEq, Eq)]
pub enum PrepareNext {
    /// Install the default configuration.
    InstallDefaults { data_dir: String },
    /// Load the team kept at `path`.
    LoadTeam { path: String },
    /// Open the registry of the runtime's actors.
    OpenSystems { path: String },
    /// List all identities.
    ListIdentities,
    /// Provide the directories of this actor.
    Provision { data_dir: String, name: &'static str },
    /// Load the keypair kept at `path`, or make one.
    LoadKeypair { path: String },
    /// Take this step for the estate coordinator's identity.
    Identity(IdentityNext),
    /// Nothing: all is prepared, or something failed.
    Done(Result<AgentStartup, DaemonError>),
}

/// What to do next to prepare the start.
#[allow(inconsistent_fields)]
pub enum PrepareNextView {
    InstallDefaults { data_dir: Seq<char> },
    LoadTeam { path: Seq<char> },
    OpenSystems { path: Seq<char> },
    ListIdentities,
    Provision { data_dir: Seq<char>, name: Seq<char> },
    LoadKeypair { path: Seq<char> },
    Identity(IdentityNextView),
    Ready(StartupView),
    Failed(DaemonErrorView),
}

impl View for PrepareNext {
    type V = PrepareNextView;

    open spec fn view(&self) -> PrepareNextView {
        match *self {
            PrepareNext::InstallDefaults { data_dir } => PrepareNextView::InstallDefaults {
                data_dir: data_dir@,
            },
            PrepareNext::LoadTeam { path } => PrepareNextView::LoadTeam { path: path@ },
            PrepareNext::OpenSystems { path } => PrepareNextView::OpenSystems { path: path@ },
            PrepareNext::ListIdentities => PrepareNextView::ListIdentities,
            PrepareNext::Provision { data_dir, name } => PrepareNextView::Provision {
                data_dir: data_dir@,
                name: name@,
            },
            PrepareNext::LoadKeypair { path } => PrepareNextView::LoadKeypair { path: path@ },
            PrepareNext::Identity(next) => PrepareNextView::Identity(next@),
            PrepareNext::Done(Ok(startup)) => PrepareNextView::Ready(startup@),
            PrepareNext::Done(Err(err)) => PrepareNextView::Failed(err@),
        }
    }
}

/// What to do once the operator is known: the estate coordinator gets its
/// directories, its keypair and its identity.
pub open spec fn estate_rule(
    data_dir: Seq<char>,
    agent_registry_path: Seq<char>,
    operator_id: Seq<char>,
    team: TeamView,
    systems: Seq<SystemView>,
    seen: PrepareReplies,
) -> PrepareNextView {
    match seen.estate_dirs {
        None => PrepareNextView::Provision { data_dir, name: ESTATE_AGENT_NAME@ },
        Some(Err(err)) => PrepareNextView::Failed(resource_failure("estate dirs"@, err@.shown())),
        Some(Ok(dirs)) => match seen.keypair {
            None => PrepareNextView::LoadKeypair { path: joined_path(dirs@, "identity.key"@) },
            Some(Err(err)) => PrepareNextView::Failed(
                resource_failure("estate keypair"@, err@.shown()),
            ),
            Some(Ok(keypair)) => {
                let inbox = joined_path(dirs@, "inbox"@);
                match identity_rule(
                    ESTATE_AGENT_NAME@,
                    ESTATE_AGENT_NAME@,
                    inbox,
                    ed25519_public_key(keypair.seed_bytes()),
                    systems,
                    operator_id,
                    seen.identity,
                ) {
                    IdentityNextView::Failed(err) => PrepareNextView::Failed(err),
                    IdentityNextView::Known { id } => PrepareNextView::Ready(
                        StartupView {
                            data_dir,
                            agent_registry_path,
                            operator_id,
                            team,
                            estate_id: id,
                            estate_inbox: inbox,
                        },
                    ),
                    next => PrepareNextView::Identity(next),
                }
            },
        },
    }
}

/// The rule for the preparation: configuration, then the registries, then
/// the operator, then the estate coordinator.
pub open spec fn prepare_rule(
    data_dir: Seq<char>,
    agent_registry_path: Seq<char>,
    seen: PrepareReplies,
) -> PrepareNextView {
    let failed = |component: Seq<char>, source: Seq<char>|
        PrepareNextView::Failed(resource_failure(component, source));
    match seen.defaults {
        None => PrepareNextView::InstallDefaults { data_dir },
        Some(Err(err)) => failed("config defaults"@, err@.shown()),
        Some(Ok(())) => match seen.team {
            None => PrepareNextView::LoadTeam {
                path: joined_path(joined_path(data_dir, "teams"@), "default"@) + ".toml"@,
            },
            Some(Err(err)) => failed("team config"@, err@.shown()),
            Some(Ok(team)) => match seen.systems {
                None => PrepareNextView::OpenSystems {
                    path: joined_path(joined_path(data_dir, "system"@), "registry.toml"@),
                },
                Some(Err(source)) => failed("system registry"@, source@),
                Some(Ok(systems)) => match seen.identities {
                    None => PrepareNextView::ListIdentities,
                    Some(Err(source)) => failed("identity registry list"@, source@),
                    Some(Ok(all)) => match first_operator(listings_view(all@)) {
                        None => failed(
                            "operator lookup"@,
                            "no operator identity enrolled; run `reeve identity enroll` before starting the daemon"@,
                        ),
                        Some(operator_id) => estate_rule(
                            data_dir,
                            agent_registry_path,
                            operator_id,
                            team@,
                            systems_view(systems@),
                            seen,
                        ),
                    },
                },
            },
        },
    }
}

fn prepare_estate(
    data_dir: &str,
    agent_registry_path: &str,
    operator_id: &IdentityId,
    team: &TeamConfig,
    systems: &Vec<SystemActorRecord>,
    seen: &PrepareReplies,
) -> (next: PrepareNext)
    ensures
        next@ == estate_rule(
            data_dir@,
            agent_registry_path@,
            operator_id@,
            team@,
            systems_view(systems@),
            *seen,
        ),
{
    let dirs: &AgentDirs = match &seen.estate_dirs {
        None => {
            return PrepareNext::Provision {
                data_dir: data_dir.to_owned(),
                name: ESTATE_AGENT_NAME,
            };
        },
        Some(Err(err)) => {
            return PrepareNext::Done(Err(resource("estate dirs", err.to_string().as_str())));
        },
        Some(Ok(dirs)) => dirs,
    };
    let keypair: &Keypair = match &seen.keypair {
        None => {
            return PrepareNext::LoadKeypair { path: dirs.identity_key_path() };
        },
        Some(Err(err)) => {
            return PrepareNext::Done(Err(resource("estate keypair", err.to_string().as_str())));
        },
        Some(Ok(keypair)) => keypair,
    };
    let inbox: String = dirs.inbox_root();
    match ensure_named_system_identity(
        ESTATE_AGENT_NAME,
        ESTATE_AGENT_NAME,
        inbox.as_str(),
        keypair,
        systems,
        operator_id,
        &seen.identity,
    ) {
        IdentityNext::Done(Err(err)) => PrepareNext::Done(Err(err)),
        IdentityNext::Done(Ok(estate_id)) => PrepareNext::Done(
            Ok(
                AgentStartup {
                    data_dir: data_dir.to_owned(),
                    agent_registry_path: agent_registry_path.to_owned(),
                    operator_id: operator_id.clone(),
                    team: team.clone(),
                    estate_id,
                    estate_inbox: inbox,
                },
            ),
        ),
        next => PrepareNext::Identity(next),
    }
}

/// What to do next to prepare the start.
pub fn prepare_agent_startup(data_dir: &str, agent_registry_path: &str, seen: &PrepareReplies) -> (
next: PrepareNext)
    ensures
        next@ == prepare_rule(data_dir@, agent_registry_path@, *seen),
{
    match &seen.defaults {
        None => {
            return PrepareNext::InstallDefaults { data_dir: data_dir.to_owned() };
        },
        Some(Err(err)) => {
            return PrepareNext::Done(Err(resource("config defaults", err.to_string().as_str())));
        },
        Some(Ok(())) => {},
    }
    let layout: RuntimeLayout = RuntimeLayout::new(data_dir);
    let team: &TeamConfig = match &seen.team {
        None => {
            return PrepareNext::LoadTeam { path: layout.team_config_path("default") };
        },
        Some(Err(err)) => {
            return PrepareNext::Done(Err(resource("team config", err.to_string().as_str())));
        },
        Some(Ok(team)) => team,
    };
    let systems: &Vec<SystemActorRecord> = match &seen.systems {
        None => {
            return PrepareNext::OpenSystems { path: layout.system_registry_path() };
        },
        Some(Err(source)) => {
            return PrepareNext::Done(Err(resource("system registry", source.as_str())));
        },
        Some(Ok(systems)) => systems,
    };
    let all: &Vec<IdentityListing> = match &seen.identities {
        None => {
            return PrepareNext::ListIdentities;
        },
        Some(Err(source)) => {
            return PrepareNext::Done(Err(resource("identity registry list", source.as_str())));
        },
        Some(Ok(all)) => all,
    };
    match find_operator(all) {
        None => PrepareNext::Done(
            Err(
                resource(
                    "operator lookup",
                    "no operator identity enrolled; run `reeve identity enroll` before starting the daemon",
                ),
            ),
        ),
        Some(operator_id) => prepare_estate(
            data_dir,
            agent_registry_path,
            operator_id,
            team,
            systems,
            seen,
        ),
    }
}

// ── Launch ───────────────────────────────────────────────────────────────────

/// A stage of the launch.
#[derive(Debug, Clone, Copy, PartialEq, Eq, Structural)]
pub enum LaunchStage {
    StartHeartbeat,
    LoadBlacklist,
    OpenAuditLog,
    StartWatcher,
    CheckAgentRegistry,
    StartDispatcher,
    StartSpawnCoordinator,
    OpenEngagements,
    OpenRosters,
    ResumeAgents,
    FormDefaultTeam,
    StartEstate,
    WatchEstateInbox,
}

/// The stages, in the order in which they are taken.
pub open spec fn launch_stages() -> Seq<LaunchStage> {
    seq![
        LaunchStage::StartHeartbeat,
        LaunchStage::LoadBlacklist,
        LaunchStage::OpenAuditLog,
        LaunchStage::StartWatcher,
        LaunchStage::CheckAgentRegistry,
        LaunchStage::StartDispatcher,
        LaunchStage::StartSpawnCoordinator,
        LaunchStage::OpenEngagements,
        LaunchStage::OpenRosters,
        LaunchStage::ResumeAgents,
        LaunchStage::FormDefaultTeam,
        LaunchStage::StartEstate,
        LaunchStage::WatchEstateInbox,
    ]
}

/// Where the stage works.
pub open spec fn stage_place(
    stage: LaunchStage,
    state_dir: Seq<char>,
    startup: StartupView,
) -> Seq<char> {
    match stage {
        LaunchStage::StartHeartbeat => state_dir,
        LaunchStage::LoadBlacklist => joined_path(startup.data_dir, "blacklist.toml"@),
        LaunchStage::StartWatcher => joined_path(startup.data_dir, "blacklist.toml"@),
        LaunchStage::CheckAgentRegistry => startup.agent_registry_path,
        LaunchStage::StartDispatcher => startup.agent_registry_path,
        LaunchStage::StartSpawnCoordinator => startup.agent_registry_path,
        LaunchStage::ResumeAgents => startup.agent_registry_path,
        LaunchStage::OpenEngagements => joined_path(startup.data_dir, "engagements"@),
        LaunchStage::OpenRosters => joined_path(startup.data_dir, "rosters"@),
        LaunchStage::WatchEstateInbox => startup.estate_inbox,
        _ => startup.data_dir,
    }
}

/// On whose behalf the stage works: agents are minted and the estate is
/// commanded for the operator, and the coordinator's inbox is its own.
pub open spec fn stage_identity(stage: LaunchStage, startup: StartupView) -> Option<Seq<char>> {
    match stage {
        LaunchStage::StartSpawnCoordinator => Some(startup.operator_id),
        LaunchStage::FormDefaultTeam => Some(startup.operator_id),
        LaunchStage::StartEstate => Some(startup.operator_id),
        LaunchStage::WatchEstateInbox => Some(startup.estate_id),
        _ => None,
    }
}

/// The operation that the stage carries out, where it is one.
pub open spec fn stage_op(stage: LaunchStage) -> Option<OpView> {
    match stage {
        LaunchStage::FormDefaultTeam => Some(
            OpView::FormTeam { name: "default"@, template: "default"@ },
        ),
        _ => None,
    }
}

/// The operation that forms the default team from its template.
pub fn default_team_op() -> (op: EstateOp)
    ensures
        op@ == (OpView::FormTeam { name: "default"@, template: "default"@ }),
{
    EstateOp::FormTeam { name: "default".to_owned(), template: "default".to_owned() }
}

/// What becomes of the launch when a stage fails.
pub enum StageFailure {
    /// It goes on: the stage has a fallback, or does what it can.
    Tolerated,
    /// It ends with this failure.
    Ends(DaemonErrorView),
    /// The process cannot go on at all.
    Fatal(Seq<char>),
}

/// What becomes of the launch when a stage fails with this complaint.
pub open spec fn stage_failure(stage: LaunchStage, source: Seq<char>) -> StageFailure {
    match stage {
        LaunchStage::OpenAuditLog => StageFailure::Fatal("cannot open audit log: "@ + source),
        LaunchStage::CheckAgentRegistry => StageFailure::Ends(
            resource_failure("message dispatcher registry"@, source),
        ),
        LaunchStage::OpenEngagements => StageFailure::Ends(
            resource_failure("engagement registry"@, source),
        ),
        LaunchStage::OpenRosters => StageFailure::Ends(resource_failure("team registry"@, source)),
        _ => StageFailure::Tolerated,
    }
}

/// What to do next for the launch.
#[derive(Debug, PartialEq, Eq)]
pub enum LaunchNext {
    /// Take this stage, at this path. Where it acts for an identity, or
    /// carries out an operation, these are given.
    Take {
        stage: LaunchStage,
        path: String,
        identity: Option<IdentityId>,
        op: Option<EstateOp>,
    },
    /// The launch failed: what was started is to be stopped.
    Failed(DaemonError),
    /// The process cannot go on at all.
    Fatal(String),
    /// Everything runs.
    Running,
}

/// What to do next for the launch.
#[allow(inconsistent_fields)]
pub enum LaunchNextView {
    Take {
        stage: LaunchStage,
        path: Seq<char>,
        identity: Option<Seq<char>>,
        op: Option<OpView>,
    },
    Failed(DaemonErrorView),
    Fatal(Seq<char>),
    Running,
}

impl View for LaunchNext {
    type V = LaunchNextView;

    open spec fn view(&self) -> LaunchNextView {
        match *self {
            LaunchNext::Take { stage, path, identity, op } => LaunchNextView::Take {
                stage,
                path: path@,
                identity: opt_id(identity),
                op: match op {
                    Some(o) => Some(o@),
                    None => None,
                },
            },
            LaunchNext::Failed(err) => LaunchNextView::Failed(err@),
            LaunchNext::Fatal(message) => LaunchNextView::Fatal(message@),
            LaunchNext::Running => LaunchNextView::Running,
        }
    }
}

/// The rule for the launch, from the `i`-th stage on.
pub open spec fn launch_rule(
    state_dir: Seq<char>,
    startup: StartupView,
    taken: Seq<Result<(), String>>,
    i: int,
) -> LaunchNextView
    decreases launch_stages().len() - i,
{
    if i >= launch_stages().len() {
        LaunchNextView::Running
    } else {
        let stage = launch_stages()[i];
        if i >= taken.len() {
            LaunchNextView::Take {
                stage,
                path: stage_place(stage, state_dir, startup),
                identity: stage_identity(stage, startup),
                op: stage_op(stage),
            }
        } else {
            match taken[i] {
                Ok(()) => launch_rule(state_dir, startup, taken, i + 1),
                Err(source) => match stage_failure(stage, source@) {
                    StageFailure::Tolerated => launch_rule(state_dir, startup, taken, i + 1),
                    StageFailure::Ends(err) => LaunchNextView::Failed(err),
                    StageFailure::Fatal(message) => LaunchNextView::Fatal(message),
                },
            }
        }
    }
}

fn stages() -> (all: Vec<LaunchStage>)
    ensures
        all@ == launch_stages(),
{
    let all: Vec<LaunchStage> = vec![
        LaunchStage::StartHeartbeat,
        LaunchStage::LoadBlacklist,
        LaunchStage::OpenAuditLog,
        LaunchStage::StartWatcher,
        LaunchStage::CheckAgentRegistry,
        LaunchStage::StartDispatcher,
        LaunchStage::StartSpawnCoordinator,
        LaunchStage::OpenEngagements,
        LaunchStage::OpenRosters,
        LaunchStage::ResumeAgents,
        LaunchStage::FormDefaultTeam,
        LaunchStage::StartEstate,
        LaunchStage::WatchEstateInbox,
    ];
    assert(all@ =~= launch_stages());
    all
}

fn stage_path(stage: LaunchStage, state_dir: &str, startup: &AgentStartup) -> (path: String)
    ensures
        path@ == stage_place(stage, state_dir@, startup@),
{
    let layout: RuntimeLayout = RuntimeLayout::new(startup.data_dir.as_str());
    match stage {
        LaunchStage::StartHeartbeat => state_dir.to_owned(),
        LaunchStage::LoadBlacklist => layout.blacklist_path(),
        LaunchStage::StartWatcher => layout.blacklist_path(),
        LaunchStage::CheckAgentRegistry => startup.agent_registry_path.clone(),
        LaunchStage::StartDispatcher => startup.agent_registry_path.clone(),
        LaunchStage::StartSpawnCoordinator => startup.agent_registry_path.clone(),
        LaunchStage::ResumeAgents => startup.agent_registry_path.clone(),
        LaunchStage::OpenEngagements => layout.engagements_root(),
        LaunchStage::OpenRosters => layout.rosters_root(),
        LaunchStage::WatchEstateInbox => startup.estate_inbox.clone(),
        _ => startup.data_dir.clone(),
    }
}

fn stage_actor(stage: LaunchStage, startup: &AgentStartup) -> (identity: Option<IdentityId>)
    ensures
        opt_id(identity) == stage_identity(stage, startup@),
{
    match stage {
        LaunchStage::StartSpawnCoordinator => Some(startup.operator_id.clone()),
        LaunchStage::FormDefaultTeam => Some(startup.operator_id.clone()),
        LaunchStage::StartEstate => Some(startup.operator_id.clone()),
        LaunchStage::WatchEstateInbox => Some(startup.estate_id.clone()),
        _ => None,
    }
}

fn take_stage(stage: LaunchStage, state_dir: &str, startup: &AgentStartup) -> (next: LaunchNext)
    ensures
        next@ == (LaunchNextView::Take {
            stage,
            path: stage_place(stage, state_dir@, startup@),
            identity: stage_identity(stage, startup@),
            op: stage_op(stage),
        }),
{
    let op: Option<EstateOp> = match stage {
        LaunchStage::FormDefaultTeam => Some(default_team_op()),
        _ => None,
    };
    LaunchNext::Take {
        stage,
        path: stage_path(stage, state_dir, startup),
        identity: stage_actor(stage, startup),
        op,
    }
}

/// What to do next to launch the parts, when the first stages came to
/// `taken`.
pub fn launch_actors(
    state_dir: &str,
    startup: &AgentStartup,
    taken: &Vec<Result<(), String>>,
) -> (next: LaunchNext)
    ensures
        next@ == launch_rule(state_dir@, startup@, taken@, 0),
{
    let all: Vec<LaunchStage> = stages();
    let mut i: usize = 0;
    while i < all.len()
        invariant
            all@ == launch_stages(),
            i <= all@.len(),
            launch_rule(state_dir@, startup@, taken@, 0) == launch_rule(
                state_dir@,
                startup@,
                taken@,
                i as int,
            ),
        decreases all.len() - i,
    {
        let stage: LaunchStage = all[i];
        if i >= taken.len() {
            return take_stage(stage, state_dir, startup);
        }
        match &taken[i] {
            Ok(()) => {},
            Err(source) => match stage {
                LaunchStage::OpenAuditLog => {
                    let mut message: String = "cannot open audit log: ".to_owned();
                    message.append(source.as_str());
                    return LaunchNext::Fatal(message);
                },
                LaunchStage::CheckAgentRegistry => {
                    return LaunchNext::Failed(
                        resource("message dispatcher registry", source.as_str()),
                    );
                },
                LaunchStage::OpenEngagements => {
                    return LaunchNext::Failed(resource("engagement registry", source.as_str()));
                },
                LaunchStage::OpenRosters => {
                    return LaunchNext::Failed(resource("team registry", source.as_str()));
                },
                _ => {},
            },
        }
        i = i + 1;
    }
    LaunchNext::Running
}

// ── The whole run ────────────────────────────────────────────────────────────

/// What has been learned so far about a run.
#[derive(Debug, PartialEq, Eq)]
pub struct RunReplies {
    /// What taking the runtime lock came to.
    pub lock: Option<Result<(), DaemonError>>,
    /// What migrating the data root came to.
    pub migrated: Option<Result<(), String>>,
    /// What opening the resources came to.
    pub opened: Option<Result<(), DaemonError>>,
    /// The path of the agent registry.
    pub registry_path: Option<Result<String, AgentRegistryError>>,
    /// What preparing the start came to.
    pub prepared: Option<Result<(), DaemonError>>,
    /// What launching the parts, and running until they were stopped, came
    /// to.
    pub ran: Option<Result<(), DaemonError>>,
}

/// What to do next for a run.
#[derive(Debug, PartialEq, Eq)]
pub enum RunNext {
    /// Take the runtime lock of this state directory.
    Lock { state_dir: String },
    /// Migrate this data root.
    Migrate { data_dir: String },
    /// Open the resources of this data root.
    Open { data_dir: String },
    /// Tell the path of the agent registry.
    RegistryPath,
    /// Prepare the start, with the agent registry at this path.
    Prepare { data_dir: String, agent_registry_path: String },
    /// Launch the parts, and wait until they are stopped.
    Launch { state_dir: String },
    /// Nothing: the run ended cleanly, or failed.
    Done(Result<(), DaemonError>),
}

/// What to do next for a run.
#[allow(inconsistent_fields)]
pub enum RunNextView {
    Lock { state_dir: Seq<char> },
    Migrate { data_dir: Seq<char> },
    Open { data_dir: Seq<char> },
    RegistryPath,
    Prepare { data_dir: Seq<char>, agent_registry_path: Seq<char> },
    Launch { state_dir: Seq<char> },
    Stopped,
    Failed(DaemonErrorView),
}

impl View for RunNext {
    type V = RunNextView;

    open spec fn view(&self) -> RunNextView {
        match *self {
            RunNext::Lock { state_dir } => RunNextView::Lock { state_dir: state_dir@ },
            RunNext::Migrate { data_dir } => RunNextView::Migrate { data_dir: data_dir@ },
            RunNext::Open { data_dir } => RunNextView::Open { data_dir: data_dir@ },
            RunNext::RegistryPath => RunNextView::RegistryPath,
            RunNext::Prepare { data_dir, agent_registry_path } => RunNextView::Prepare {
                data_dir: data_dir@,
                agent_registry_path: agent_registry_path@,
            },
            RunNext::Launch { state_dir } => RunNextView::Launch { state_dir: state_dir@ },
            RunNext::Done(Ok(())) => RunNextView::Stopped,
            RunNext::Done(Err(err)) => RunNextView::Failed(err@),
        }
    }
}

/// The rule for a run: each step is taken only when the one before it
/// succeeded.
pub open spec fn run_rule(
    state_dir: Seq<char>,
    data_dir: Seq<char>,
    seen: RunReplies,
) -> RunNextView {
    match seen.lock {
        None => RunNextView::Lock { state_dir },
        Some(Err(err)) => RunNextView::Failed(err@),
        Some(Ok(())) => match seen.migrated {
            None => RunNextView::Migrate { data_dir },
            Some(Err(source)) => RunNextView::Failed(
                resource_failure("data-root layout migration"@, source@),
            ),
            Some(Ok(())) => match seen.opened {
                None => RunNextView::Open { data_dir },
                Some(Err(err)) => RunNextView::Failed(err@),
                Some(Ok(())) => match seen.registry_path {
                    None => RunNextView::RegistryPath,
                    Some(Err(err)) => RunNextView::Failed(
                        resource_failure("agent registry path"@, err@.shown()),
                    ),
                    Some(Ok(path)) => match seen.prepared {
                        None => RunNextView::Prepare { data_dir, agent_registry_path: path@ },
                        Some(Err(err)) => RunNextView::Failed(err@),
                        Some(Ok(())) => match seen.ran {
                            None => RunNextView::Launch { state_dir },
                            Some(Err(err)) => RunNextView::Failed(err@),
                            Some(Ok(())) => RunNextView::Stopped,
                        },
                    },
                },
            },
        },
    }
}

/// What to do next to run in this process until told to stop.
pub fn daemon_run(state_dir: &str, data_dir: &str, seen: &RunReplies) -> (next: RunNext)
    ensures
        next@ == run_rule(state_dir@, data_dir@, *seen),
{
    match &seen.lock {
        None => {
            return RunNext::Lock { state_dir: state_dir.to_owned() };
        },
        Some(Err(err)) => {
            return RunNext::Done(Err(err.clone()));
        },
        Some(Ok(())) => {},
    }
    match &seen.migrated {
        None => {
            return RunNext::Migrate { data_dir: data_dir.to_owned() };
        },
        Some(Err(source)) => {
            return RunNext::Done(Err(resource("data-root layout migration", source.as_str())));
        },
        Some(Ok(())) => {},
    }
    match &seen.opened {
        None => {
            return RunNext::Open { data_dir: data_dir.to_owned() };
        },
        Some(Err(err)) => {
            return RunNext::Done(Err(err.clone()));
        },
        Some(Ok(())) => {},
    }
    let path: &String = match &seen.registry_path {
        None => {
            return RunNext::RegistryPath;
        },
        Some(Err(err)) => {
            return RunNext::Done(Err(resource("agent registry path", err.to_string().as_str())));
        },
        Some(Ok(path)) => path,
    };
    match &seen.prepared {
        None => {
            return RunNext::Prepare {
                data_dir: data_dir.to_owned(),
                agent_registry_path: path.clone(),
            };
        },
        Some(Err(err)) => {
            return RunNext::Done(Err(err.clone()));
        },
        Some(Ok(())) => {},
    }
    match &seen.ran {
        None => RunNext::Launch { state_dir: state_dir.to_owned() },
        Some(Err(err)) => RunNext::Done(Err(err.clone())),
        Some(Ok(())) => RunNext::Done(Ok(())),
    }
}

// ── Laws ─────────────────────────────────────────────────────────────────────

/// The identity of the estate coordinator is durable: once it is registered,
/// a later start with the same key finds the same identity and makes none.
pub proof fn law_system_identity_is_stable(
    name: Seq<char>,
    display_name: Seq<char>,
    inbox_dir: Seq<char>,
    public_key: Seq<u8>,
    records: Seq<SystemView>,
    operator_id: Seq<char>,
    seen: IdentityReplies,
    id: Seq<char>,
)
    requires
        system_identity(records, name) == Some(id),
        seen.keys matches Some(Ok(Some(keys))) && keys@.len() > 0 && keys@[0]@ == public_key,
    ensures
        identity_rule(name, display_name, inbox_dir, public_key, records, operator_id, seen)
            == (IdentityNextView::Known { id }),
{
}

/// A start with another key than the one that is registered is refused, and
/// nothing is made in its place.
pub proof fn law_replaced_key_is_refused(
    name: Seq<char>,
    display_name: Seq<char>,
    inbox_dir: Seq<char>,
    public_key: Seq<u8>,
    records: Seq<SystemView>,
    operator_id: Seq<char>,
    seen: IdentityReplies,
    id: Seq<char>,
)
    requires
        system_identity(records, name) == Some(id),
        seen.keys matches Some(Ok(Some(keys))) && keys@.len() > 0 && keys@[0]@ != public_key,
    ensures
        identity_rule(name, display_name, inbox_dir, public_key, records, operator_id, seen) matches IdentityNextView::Failed(DaemonErrorView::Resource {
            component,
            ..
        }) && component == "keypair mismatch"@,
{
}

/// An actor is registered only under an identity that is already written.
pub proof fn law_identity_is_written_before_it_is_registered(
    name: Seq<char>,
    display_name: Seq<char>,
    inbox_dir: Seq<char>,
    public_key: Seq<u8>,
    records: Seq<SystemView>,
    operator_id: Seq<char>,
    seen: IdentityReplies,
)
    ensures
        identity_rule(name, display_name, inbox_dir, public_key, records, operator_id, seen) matches IdentityNextView::Register(
            record,
        ) ==> (seen.written matches Some(Ok(_))) && (seen.fresh matches Some(Ok(id))
            && record.identity_id == id@) && system_identity(records, name) is None,
{
}

proof fn lemma_launch_from(
    state_dir: Seq<char>,
    startup: StartupView,
    taken: Seq<Result<(), String>>,
    i: int,
)
    requires
        0 <= i <= launch_stages().len(),
        i <= taken.len(),
    ensures
        launch_rule(state_dir, startup, taken, i) matches LaunchNextView::Take { stage, .. } ==> taken.len()
            < launch_stages().len() && stage == launch_stages()[taken.len() as int],
        launch_rule(state_dir, startup, taken, i) is Running ==> taken.len() >= launch_stages().len(),
    decreases launch_stages().len() - i,
{
    if i < launch_stages().len() && i < taken.len() {
        lemma_launch_from(state_dir, startup, taken, i + 1);
    }
}

/// The stages are taken one by one in their order: the one that is taken
/// next is the first that was not.
pub proof fn law_launch_keeps_its_order(
    state_dir: Seq<char>,
    startup: StartupView,
    taken: Seq<Result<(), String>>,
)
    ensures
        launch_rule(state_dir, startup, taken, 0) matches LaunchNextView::Take { stage, .. } ==> taken.len()
            < launch_stages().len() && stage == launch_stages()[taken.len() as int],
        launch_rule(state_dir, startup, taken, 0) is Running ==> taken.len() >= launch_stages().len(),
{
    lemma_launch_from(state_dir, startup, taken, 0);
}

/// Agents of an earlier run are resumed before the default team is formed,
/// and the estate coordinator takes no message before both are done.
pub proof fn law_resume_comes_before_forming(
    state_dir: Seq<char>,
    startup: StartupView,
    taken: Seq<Result<(), String>>,
)
    ensures
        launch_rule(state_dir, startup, taken, 0) matches LaunchNextView::Take {
            stage: LaunchStage::FormDefaultTeam,
            ..
        } ==> taken.len() == 10 && launch_stages()[9] == LaunchStage::ResumeAgents,
        launch_rule(state_dir, startup, taken, 0) matches LaunchNextView::Take {
            stage: LaunchStage::WatchEstateInbox,
            ..
        } ==> taken.len() == 12 && launch_stages()[10] == LaunchStage::FormDefaultTeam
            && launch_stages()[11] == LaunchStage::StartEstate,
{
    law_launch_keeps_its_order(state_dir, startup, taken);
    let all = launch_stages();
    assert forall|k: int| 0 <= k < all.len() && #[trigger] all[k] == LaunchStage::FormDefaultTeam implies k
        == 10 by {}
    assert forall|k: int| 0 <= k < all.len() && #[trigger] all[k] == LaunchStage::WatchEstateInbox implies k
        == 12 by {}
}

proof fn lemma_taken_as_planned(
    state_dir: Seq<char>,
    startup: StartupView,
    taken: Seq<Result<(), String>>,
    i: int,
)
    ensures
        launch_rule(state_dir, startup, taken, i) matches LaunchNextView::Take {
            stage,
            path,
            identity,
            op,
        } ==> path == stage_place(stage, state_dir, startup) && identity == stage_identity(
            stage,
            startup,
        ) && op == stage_op(stage),
    decreases launch_stages().len() - i,
{
    if i < launch_stages().len() && i < taken.len() {
        lemma_taken_as_planned(state_dir, startup, taken, i + 1);
    }
}

/// The default team is formed under its own name, from the template of that
/// name, by the operator.
pub proof fn law_operator_forms_the_default_team(
    state_dir: Seq<char>,
    startup: StartupView,
    taken: Seq<Result<(), String>>,
)
    ensures
        launch_rule(state_dir, startup, taken, 0) matches LaunchNextView::Take {
            stage: LaunchStage::FormDefaultTeam,
            identity,
            op,
            ..
        } ==> identity == Some(startup.operator_id) && op == Some(
            OpView::FormTeam { name: "default"@, template: "default"@ },
        ),
{
    lemma_taken_as_planned(state_dir, startup, taken, 0);
}

/// A start that is ready hands on the default team just as it was loaded,
/// and works for the operator that is listed first.
pub proof fn law_start_holds_the_loaded_team(
    data_dir: Seq<char>,
    agent_registry_path: Seq<char>,
    seen: PrepareReplies,
)
    ensures
        prepare_rule(data_dir, agent_registry_path, seen) matches PrepareNextView::Ready(startup)
            ==> (seen.team matches Some(Ok(team)) && startup.team == team@) && (
        seen.identities matches Some(Ok(all)) && first_operator(listings_view(all@)) == Some(
            startup.operator_id,
        )),
{
}

/// Nothing is opened, migrated or started without the runtime lock, and
/// nothing is launched that was not prepared.
pub proof fn law_nothing_runs_without_the_lock(
    state_dir: Seq<char>,
    data_dir: Seq<char>,
    seen: RunReplies,
)
    ensures
        run_rule(state_dir, data_dir, seen) !is Lock && run_rule(state_dir, data_dir, seen)
            !is Failed ==> seen.lock matches Some(Ok(_)),
        run_rule(state_dir, data_dir, seen) is Launch ==> {
            &&& seen.migrated matches Some(Ok(_))
            &&& seen.opened matches Some(Ok(_))
            &&& seen.prepared matches Some(Ok(_))
        },
{
}

/// The resources are opened one after the other, each in its place: the
/// identities in their own directory, the ledgers and the audit log at the data
/// root; the first that cannot be opened is named, and nothing is opened after
/// it.
pub proof fn law_resources_are_opened_in_their_place(
    data_dir: Seq<char>,
    opened: Seq<Result<(), String>>,
)
    ensures
        ({
            let order = seq![
                (Resource::IdentityRegistry, joined_path(data_dir, "identities"@), "identity registry"@),
                (Resource::ReplayLedger, data_dir, "replay ledger"@),
                (Resource::DeliveryLedger, data_dir, "delivery ledger"@),
                (Resource::AuditLog, data_dir, "audit log"@),
            ];
            match open_rule(data_dir, opened, 0) {
                OpenNextView::Open { resource, path } => opened.len() < 4 && resource
                    == order[opened.len() as int].0 && path == order[opened.len() as int].1,
                OpenNextView::AllOpen => opened.len() >= 4 && forall|k: int|
                    0 <= k < 4 ==> #[trigger] opened[k] is Ok,
                OpenNextView::Failed(err) => exists|k: int|
                    0 <= k < 4 && k < opened.len() && (#[trigger] opened[k] matches Err(e) && err
                        == (DaemonErrorView::Resource { component: order[k].2, source: e@ }))
                        && forall|j: int| 0 <= j < k ==> #[trigger] opened[j] is Ok,
            }
        }),
{
    reveal_with_fuel(open_rule, 5);
    if open_rule(data_dir, opened, 0) is Failed {
        if opened[0] is Err {
        } else if opened[1] is Err {
        } else if opened[2] is Err {
        } else {
            assert(opened[3] is Err);
        }
    }
}

/// An actor's identity is that of the first record under its name.
pub proof fn law_first_record_is_the_actor(records: Seq<SystemView>, name: Seq<char>)
    ensures
        match system_identity(records, name) {
            Some(id) => exists|i: int|
                0 <= i < records.len() && (#[trigger] records[i]).name == name
                    && records[i].identity_id == id && forall|j: int|
                    0 <= j < i ==> (#[trigger] records[j]).name != name,
            None => forall|i: int|
                0 <= i < records.len() ==> (#[trigger] records[i]).name != name,
        },
    decreases records.len(),
{
    if records.len() > 0 {
        if records[0].name == name {
            assert(system_identity(records, name) == Some(records[0].identity_id));
        } else {
            let rest = records.drop_first();
            law_first_record_is_the_actor(rest, name);
            match system_identity(records, name) {
                Some(id) => {
                    let i = choose|i: int|
                        0 <= i < rest.len() && (#[trigger] rest[i]).name == name
                            && rest[i].identity_id == id && forall|j: int|
                            0 <= j < i ==> (#[trigger] rest[j]).name != name;
                    assert(records[i + 1] == rest[i]);
                    assert forall|j: int| 0 <= j < i + 1 implies (#[trigger] records[j]).name
                        != name by {
                        if j > 0 {
                            assert(rest[j - 1] == records[j]);
                        }
                    }
                },
                None => {
                    assert forall|i: int| 0 <= i < records.len() implies (
                    #[trigger] records[i]).name != name by {
                        if i > 0 {
                            assert(rest[i - 1] == records[i]);
                        }
                    }
                },
            }
        }
    }
}

/// The operator is the first identity listed as one.
pub proof fn law_first_operator_commands(all: Seq<ListingView>)
    ensures
        match first_operator(all) {
            Some(id) => exists|i: int|
                0 <= i < all.len() && (#[trigger] all[i]).identity_type == IdentityType::Operator
                    && all[i].id == id && forall|j: int|
                    0 <= j < i ==> (#[trigger] all[j]).identity_type != IdentityType::Operator,
            None => forall|i: int|
                0 <= i < all.len() ==> (#[trigger] all[i]).identity_type != IdentityType::Operator,
        },
    decreases all.len(),
{
    if all.len() > 0 {
        if all[0].identity_type == IdentityType::Operator {
            assert(first_operator(all) == Some(all[0].id));
        } else {
            let rest = all.drop_first();
            law_first_operator_commands(rest);
            match first_operator(all) {
                Some(id) => {
                    let i = choose|i: int|
                        0 <= i < rest.len() && (#[trigger] rest[i]).identity_type
                            == IdentityType::Operator && rest[i].id == id && forall|j: int|
                            0 <= j < i ==> (#[trigger] rest[j]).identity_type
                                != IdentityType::Operator;
                    assert(all[i + 1] == rest[i]);
                    assert forall|j: int| 0 <= j < i + 1 implies (#[trigger] all[j]).identity_type
                        != IdentityType::Operator by {
                        if j > 0 {
                            assert(rest[j - 1] == all[j]);
                        }
                    }
                },
                None => {
                    assert forall|i: int| 0 <= i < all.len() implies (
                    #[trigger] all[i]).identity_type != IdentityType::Operator by {
                        if i > 0 {
                            assert(rest[i - 1] == all[i]);
                        }
                    }
                },
            }
        }
    }
}

/// An actor that is not registered gets an identity of its own: made under its
/// display name and vouched for by the operator, with the key of its key file,
/// put together and written, and only then registered under its name and with
/// its inbox; that identity is the one it has. One that is registered has the
/// identity of its record.
pub proof fn law_identities_are_made_as_asked(
    name: Seq<char>,
    display_name: Seq<char>,
    inbox_dir: Seq<char>,
    public_key: Seq<u8>,
    records: Seq<SystemView>,
    operator_id: Seq<char>,
    seen: IdentityReplies,
)
    ensures
        ({
            let next = identity_rule(
                name,
                display_name,
                inbox_dir,
                public_key,
                records,
                operator_id,
                seen,
            );
            let known = system_identity(records, name);
            match next {
                IdentityNextView::LookupKeys { id } => known == Some(id) && seen.keys is None,
                IdentityNextView::NewIdentity { display_name: shown, operator_id: by } => known
                    is None && shown == display_name && by == operator_id && seen.fresh is None,
                IdentityNextView::NewKeyRecord { id, public_key: key } => known is None && (
                seen.fresh matches Some(Ok(fresh)) && id == fresh@) && key == public_key
                    && seen.key_record is None,
                IdentityNextView::NewStored { id } => known is None && (
                seen.fresh matches Some(Ok(fresh)) && id == fresh@) && seen.stored is None,
                IdentityNextView::WriteIdentity { id } => known is None && (
                seen.fresh matches Some(Ok(fresh)) && id == fresh@) && seen.written is None,
                IdentityNextView::Register(record) => known is None && record.name == name
                    && record.inbox_dir == inbox_dir && (seen.fresh matches Some(Ok(fresh))
                    && record.identity_id == fresh@) && seen.registered is None,
                IdentityNextView::Known { id } => {
                    ||| known == Some(id) && (seen.keys matches Some(Ok(Some(keys))) && keys@.len()
                        > 0 && keys@[0]@ == public_key)
                    ||| known is None && (seen.fresh matches Some(Ok(fresh)) && id == fresh@) && (
                    seen.registered matches Some(Ok(_)))
                },
                IdentityNextView::Failed(err) => err matches DaemonErrorView::Resource {
                    component,
                    source,
                } && if known is Some {
                    ||| seen.keys matches Some(Err(e)) && component == "identity registry lookup"@
                        && source == e@
                    ||| seen.keys matches Some(Ok(None)) && component
                        == "identity registry lookup"@
                    ||| seen.keys matches Some(Ok(Some(keys))) && (if keys@.len() == 0 {
                        component == "identity registry lookup"@
                    } else {
                        keys@[0]@ != public_key && component == "keypair mismatch"@
                    })
                } else {
                    ||| seen.fresh matches Some(Err(e)) && component == "system identity"@ && source
                        == e@
                    ||| seen.key_record matches Some(Err(e)) && component == "key record"@ && source
                        == e@
                    ||| seen.stored matches Some(Err(e)) && component == "stored identity"@
                        && source == e@
                    ||| seen.written matches Some(Err(e)) && component
                        == "identity registry write"@ && source == e@
                    ||| seen.registered matches Some(Err(e)) && component
                        == "system registry register"@ && source == e@
                },
            }
        }),
{
}

/// A start is prepared from what was found: defaults, default team, registry of
/// the runtime's actors, the operator, and the coordinator's directories, key
/// and identity, each under the data directory that was given; what is then
/// handed on is just that.
pub proof fn law_starts_are_prepared_from_what_is_there(
    data_dir: Seq<char>,
    agent_registry_path: Seq<char>,
    seen: PrepareReplies,
)
    ensures
        match prepare_rule(data_dir, agent_registry_path, seen) {
            PrepareNextView::InstallDefaults { data_dir: dir } => dir == data_dir
                && seen.defaults is None,
            PrepareNextView::LoadTeam { path } => path == joined_path(
                joined_path(data_dir, "teams"@),
                "default"@,
            ) + ".toml"@ && (seen.defaults matches Some(Ok(_))) && seen.team is None,
            PrepareNextView::OpenSystems { path } => path == joined_path(
                joined_path(data_dir, "system"@),
                "registry.toml"@,
            ) && (seen.team matches Some(Ok(_))) && seen.systems is None,
            PrepareNextView::ListIdentities => (seen.systems matches Some(Ok(_)))
                && seen.identities is None,
            PrepareNextView::Provision { data_dir: dir, name } => dir == data_dir && name
                == "estate"@ && seen.estate_dirs is None,
            PrepareNextView::LoadKeypair { path } => (seen.estate_dirs matches Some(Ok(dirs))
                && path == joined_path(dirs@, "identity.key"@)) && seen.keypair is None,
            PrepareNextView::Identity(next) => for_the_coordinator(seen, next),
            PrepareNextView::Ready(startup) => {
                &&& startup.data_dir == data_dir
                &&& startup.agent_registry_path == agent_registry_path
                &&& seen.team matches Some(Ok(team)) && startup.team == team@
                &&& seen.identities matches Some(Ok(all)) && (exists|i: int|
                    0 <= i < all@.len() && (#[trigger] all@[i]).identity_type
                        == IdentityType::Operator && startup.operator_id == all@[i].id@)
                &&& seen.estate_dirs matches Some(Ok(dirs)) && startup.estate_inbox == joined_path(
                    dirs@,
                    "inbox"@,
                )
                &&& for_the_coordinator(seen, IdentityNextView::Known { id: startup.estate_id })
            },
            PrepareNextView::Failed(_) => true,
        },
{
    if let Some(Ok(all)) = seen.identities {
        let ls = listings_view(all@);
        law_first_operator_commands(ls);
        if let Some(id) = first_operator(ls) {
            let i = choose|i: int|
                0 <= i < ls.len() && (#[trigger] ls[i]).identity_type == IdentityType::Operator
                    && ls[i].id == id && forall|j: int|
                    0 <= j < i ==> (#[trigger] ls[j]).identity_type != IdentityType::Operator;
            assert(all@[i].identity_type == IdentityType::Operator && all@[i].id@ == id);
        }
    }
}

/// The step is one for the identity of the actor named `estate`, with its inbox
/// and its key, vouched for by the first operator.
pub open spec fn for_the_coordinator(seen: PrepareReplies, next: IdentityNextView) -> bool {
    seen.estate_dirs matches Some(Ok(dirs)) && seen.keypair matches Some(Ok(keypair))
        && seen.systems matches Some(Ok(systems)) && seen.identities matches Some(Ok(all))
        && first_operator(listings_view(all@)) matches Some(operator_id) && next == identity_rule(
        "estate"@,
        "estate"@,
        joined_path(dirs@, "inbox"@),
        ed25519_public_key(keypair.seed_bytes()),
        systems_view(systems@),
        operator_id,
        seen.identity,
    )
}

/// Why a start cannot be prepared is told by what was missing.
pub proof fn law_unprepared_starts_are_told(
    data_dir: Seq<char>,
    agent_registry_path: Seq<char>,
    seen: PrepareReplies,
)
    ensures
        ({
            let next = prepare_rule(data_dir, agent_registry_path, seen);
            let lacks = |component: Seq<char>, source: Seq<char>|
                next == PrepareNextView::Failed(DaemonErrorView::Resource { component, source });
            &&& seen.defaults matches Some(Err(e)) ==> lacks("config defaults"@, e@.shown())
            &&& seen.defaults matches Some(Ok(_)) ==> {
                &&& seen.team matches Some(Err(e)) ==> lacks("team config"@, e@.shown())
                &&& seen.team matches Some(Ok(_)) ==> {
                    &&& seen.systems matches Some(Err(e)) ==> lacks("system registry"@, e@)
                    &&& seen.systems matches Some(Ok(_)) ==> {
                        &&& seen.identities matches Some(Err(e)) ==> lacks(
                            "identity registry list"@,
                            e@,
                        )
                        &&& seen.identities matches Some(Ok(all)) ==> ((forall|i: int|
                            0 <= i < all@.len() ==> (#[trigger] all@[i]).identity_type
                                != IdentityType::Operator) ==> lacks(
                            "operator lookup"@,
                            "no operator identity enrolled; run `reeve identity enroll` before starting the daemon"@,
                        ))
                    }
                }
            }
        }),
{
    if let Some(Ok(all)) = seen.identities {
        let ls = listings_view(all@);
        law_first_operator_commands(ls);
        if forall|i: int|
            0 <= i < all@.len() ==> (#[trigger] all@[i]).identity_type != IdentityType::Operator {
            assert forall|i: int| 0 <= i < ls.len() implies (#[trigger] ls[i]).identity_type
                != IdentityType::Operator by {
                assert(all@[i].identity_type != IdentityType::Operator);
            }
        }
    }
}

/// The parts are launched in their order, each where it works and for whom: the
/// heartbeat in the state directory; the blacklist and its watcher at its file;
/// whatever needs the agents at their registry; engagements and rosters in their
/// directories; agents are minted, the default team is formed and the estate is
/// commanded for the operator; and the coordinator's inbox is watched for the
/// coordinator.
pub proof fn law_parts_are_launched_in_their_place(
    state_dir: Seq<char>,
    startup: StartupView,
    taken: Seq<Result<(), String>>,
)
    ensures
        launch_rule(state_dir, startup, taken, 0) matches LaunchNextView::Take {
            stage,
            path,
            identity,
            op,
        } ==> {
            let blacklist = joined_path(startup.data_dir, "blacklist.toml"@);
            let agents = startup.agent_registry_path;
            let k = taken.len();
            (match stage {
                LaunchStage::StartHeartbeat => k == 0 && path == state_dir && identity is None,
                LaunchStage::LoadBlacklist => k == 1 && path == blacklist && identity is None,
                LaunchStage::OpenAuditLog => k == 2 && path == startup.data_dir && identity is None,
                LaunchStage::StartWatcher => k == 3 && path == blacklist && identity is None,
                LaunchStage::CheckAgentRegistry => k == 4 && path == agents && identity is None,
                LaunchStage::StartDispatcher => k == 5 && path == agents && identity is None,
                LaunchStage::StartSpawnCoordinator => k == 6 && path == agents && identity == Some(
                    startup.operator_id,
                ),
                LaunchStage::OpenEngagements => k == 7 && path == joined_path(
                    startup.data_dir,
                    "engagements"@,
                ) && identity is None,
                LaunchStage::OpenRosters => k == 8 && path == joined_path(
                    startup.data_dir,
                    "rosters"@,
                ) && identity is None,
                LaunchStage::ResumeAgents => k == 9 && path == agents && identity is None,
                LaunchStage::FormDefaultTeam => k == 10 && path == startup.data_dir && identity
                    == Some(startup.operator_id),
                LaunchStage::StartEstate => k == 11 && path == startup.data_dir && identity == Some(
                    startup.operator_id,
                ),
                LaunchStage::WatchEstateInbox => k == 12 && path == startup.estate_inbox && identity
                    == Some(startup.estate_id),
            }) && (op is Some <==> stage == LaunchStage::FormDefaultTeam)
        },
{
    lemma_taken_as_planned(state_dir, startup, taken, 0);
    law_launch_keeps_its_order(state_dir, startup, taken);
}

/// A stage that the runtime cannot do without: the audit log, the agent
/// registry, the engagements and the rosters.
pub open spec fn vital(k: int) -> bool {
    k == 2 || k == 4 || k == 7 || k == 8
}

/// No vital stage before the `n`-th failed.
pub open spec fn nothing_vital_failed(taken: Seq<Result<(), String>>, n: int) -> bool {
    forall|k: int| 0 <= k < n && k < taken.len() && vital(k) ==> #[trigger] taken[k] is Ok
}

/// A launch goes on past the failure of any stage but a vital one; at a vital
/// one it ends, and says which it was and why.
pub proof fn law_launch_ends_only_at_vital_stages(
    state_dir: Seq<char>,
    startup: StartupView,
    taken: Seq<Result<(), String>>,
)
    ensures
        ({
            let next = launch_rule(state_dir, startup, taken, 0);
            &&& nothing_vital_failed(taken, taken.len() as int) ==> if taken.len() < 13 {
                next is Take
            } else {
                next is Running
            }
            &&& nothing_vital_failed(taken, 2) && taken.len() > 2 && taken[2] is Err ==> next == LaunchNextView::Fatal(
                "cannot open audit log: "@ + taken[2]->Err_0@,
            )
            &&& nothing_vital_failed(taken, 4) && taken.len() > 4 && taken[4] is Err ==> next == LaunchNextView::Failed(
                DaemonErrorView::Resource {
                    component: "message dispatcher registry"@,
                    source: taken[4]->Err_0@,
                },
            )
            &&& nothing_vital_failed(taken, 7) && taken.len() > 7 && taken[7] is Err ==> next == LaunchNextView::Failed(
                DaemonErrorView::Resource {
                    component: "engagement registry"@,
                    source: taken[7]->Err_0@,
                },
            )
            &&& nothing_vital_failed(taken, 8) && taken.len() > 8 && taken[8] is Err ==> next == LaunchNextView::Failed(
                DaemonErrorView::Resource {
                    component: "team registry"@,
                    source: taken[8]->Err_0@,
                },
            )
        }),
{
    lemma_launch_passes(state_dir, startup, taken, 13);
    lemma_launch_passes(state_dir, startup, taken, 2);
    lemma_launch_passes(state_dir, startup, taken, 4);
    lemma_launch_passes(state_dir, startup, taken, 7);
    lemma_launch_passes(state_dir, startup, taken, 8);
    if nothing_vital_failed(taken, taken.len() as int) {
        assert(nothing_vital_failed(taken, 13));
        if taken.len() < 13 {
            lemma_launch_passes(state_dir, startup, taken, taken.len() as int);
        }
    }
}

proof fn lemma_launch_passes(
    state_dir: Seq<char>,
    startup: StartupView,
    taken: Seq<Result<(), String>>,
    n: int,
)
    requires
        0 <= n <= 13,
    ensures
        n <= taken.len() && nothing_vital_failed(taken, n) ==> launch_rule(
            state_dir,
            startup,
            taken,
            0,
        ) == launch_rule(state_dir, startup, taken, n),
    decreases n,
{
    if n > 0 && n <= taken.len() && nothing_vital_failed(taken, n) {
        assert(nothing_vital_failed(taken, n - 1));
        lemma_launch_passes(state_dir, startup, taken, n - 1);
        let stage = launch_stages()[n - 1];
        if vital(n - 1) {
            assert(taken[n - 1] is Ok);
        }
    }
}

/// A run goes its way step by step, each for the directories that were given,
/// and each only once the one before it succeeded; what ends it is told as it
/// came.
pub proof fn law_runs_go_step_by_step(
    state_dir: Seq<char>,
    data_dir: Seq<char>,
    seen: RunReplies,
)
    ensures
        ({
            let next = run_rule(state_dir, data_dir, seen);
            match (seen.lock, seen.migrated, seen.opened) {
                (None, _, _) => next == (RunNextView::Lock { state_dir }),
                (Some(Err(err)), _, _) => next == RunNextView::Failed(err@),
                (Some(Ok(())), None, _) => next == (RunNextView::Migrate { data_dir }),
                (Some(Ok(())), Some(Err(source)), _) => next == RunNextView::Failed(
                    DaemonErrorView::Resource {
                        component: "data-root layout migration"@,
                        source: source@,
                    },
                ),
                (Some(Ok(())), Some(Ok(())), None) => next == (RunNextView::Open { data_dir }),
                (Some(Ok(())), Some(Ok(())), Some(Err(err))) => next == RunNextView::Failed(err@),
                (Some(Ok(())), Some(Ok(())), Some(Ok(()))) => match (
                    seen.registry_path,
                    seen.prepared,
                    seen.ran,
                ) {
                    (None, _, _) => next is RegistryPath,
                    (Some(Err(err)), _, _) => next == RunNextView::Failed(
                        DaemonErrorView::Resource {
                            component: "agent registry path"@,
                            source: err@.shown(),
                        },
                    ),
                    (Some(Ok(path)), None, _) => next == RunNextView::Prepare {
                        data_dir,
                        agent_registry_path: path@,
                    },
                    (Some(Ok(_)), Some(Err(err)), _) => next == RunNextView::Failed(err@),
                    (Some(Ok(_)), Some(Ok(())), None) => next == (RunNextView::Launch {
                        state_dir,
                    }),
                    (Some(Ok(_)), Some(Ok(())), Some(Err(err))) => next == RunNextView::Failed(err@),
                    (Some(Ok(_)), Some(Ok(())), Some(Ok(()))) => next is Stopped,
                },
            }
        }),
{
}

/// What is said of an actor's record is said of its own parts, each in its place.
pub proof fn law_system_actor_record_is_taken_as_it_is(value: SystemActorRecord)
    ensures
        value@.name == value.name@,
        value@.identity_id == value.identity_id@,
        value@.inbox_dir == value.inbox_dir@,
{
}

/// What is said of a start is said of its own parts, each in its place.
pub proof fn law_agent_startup_is_taken_as_it_is(value: AgentStartup)
    ensures
        value@.data_dir == value.data_dir@,
        value@.agent_registry_path == value.agent_registry_path@,
        value@.operator_id == value.operator_id@,
        value@.team == value.team@,
        value@.estate_id == value.estate_id@,
        value@.estate_inbox == value.estate_inbox@,
{
}

/// What is said of a step of a preparation is said of its own parts, each in its place.
pub proof fn law_prepare_next_is_taken_as_it_is(value: PrepareNext)
    ensures
        match value {
            PrepareNext::InstallDefaults { data_dir } => value@ == (PrepareNextView::InstallDefaults {
                data_dir: data_dir@,
            }),
            PrepareNext::LoadTeam { path } => value@ == (PrepareNextView::LoadTeam { path: path@ }),
            PrepareNext::OpenSystems { path } => value@ == (PrepareNextView::OpenSystems { path: path@ }),
            PrepareNext::ListIdentities => value@ == PrepareNextView::ListIdentities,
            PrepareNext::Provision { data_dir, name } => value@ == (PrepareNextView::Provision {
                data_dir: data_dir@,
                name: name@,
            }),
            PrepareNext::LoadKeypair { path } => value@ == (PrepareNextView::LoadKeypair { path: path@ }),
            PrepareNext::Identity(next) => value@ == PrepareNextView::Identity(next@),
            PrepareNext::Done(Ok(startup)) => value@ == PrepareNextView::Ready(startup@),
            PrepareNext::Done(Err(err)) => value@ == PrepareNextView::Failed(err@),
        },
{
}

} // verus!
