//! Moving state that older layouts kept below `identities/` up to the data
//! root.

use vstd::prelude::*;
use vstd::string::*;

use crate::agent_fs::RuntimeLayout;
use crate::agent_registry::{records_view, AgentRecord, AgentRegistryError, RecordView};
use crate::identity::slices;
use crate::io_error::{IoError, IoErrorView, IoKind};
use crate::paths::{join, joined_path, path_below, strip_prefix};

verus! {

/// The entries that older layouts kept below `identities/`, in the order in
/// which they are moved.
pub open spec fn legacy_nested_entries() -> Seq<Seq<char>> {
    seq![
        "agents"@,
        "personas"@,
        "teams"@,
        "audit"@,
        "blacklist.toml"@,
        "replay-ledger.jsonl"@,
        "delivery-ledger.jsonl"@,
    ]
}

fn legacy_entries() -> (entries: Vec<&'static str>)
    ensures
        slices(entries@) == legacy_nested_entries(),
{
    let entries: Vec<&'static str> = vec![
        "agents",
        "personas",
        "teams",
        "audit",
        "blacklist.toml",
        "replay-ledger.jsonl",
        "delivery-ledger.jsonl",
    ];
    assert(slices(entries@) =~= legacy_nested_entries());
    entries
}

/// What has been learned so far about one entry.
#[derive(Debug, PartialEq, Eq)]
pub struct EntryReplies {
    /// Whether there is something at the old place.
    pub legacy: bool,
    /// Whether there is something at the new place.
    pub destination: Option<bool>,
    /// What moving the entry came to.
    pub moved: Option<Result<(), IoError>>,
}

/// What has been learned so far about a data root to be migrated.
#[derive(Debug)]
pub struct MigrationReplies {
    /// What was learned of the entries, from the first on.
    pub entries: Vec<EntryReplies>,
    /// Whether the agent registry is at its new place.
    pub registry: Option<bool>,
    /// The records of the agent registry.
    pub records: Option<Result<Vec<AgentRecord>, AgentRegistryError>>,
    /// What registering the records anew came to.
    pub rewritten: Option<Result<(), AgentRegistryError>>,
}

/// What to do next to migrate a data root.
#[derive(Debug)]
pub enum MigrationNext {
    /// Tell whether there is something at the next entry's old place.
    LookLegacy { path: String },
    /// Tell whether there is something at the entry's new place.
    LookDestination { path: String },
    /// Move the entry.
    Rename { from: String, to: String },
    /// Tell whether there is an agent registry.
    LookRegistry { path: String },
    /// Open the agent registry and tell its records.
    OpenRegistry { path: String },
    /// Register these records in the agent registry, in order, writing it
    /// after each.
    Register { path: String, records: Vec<AgentRecord> },
    /// Nothing: the names of the entries that were moved, or why that failed.
    Done(Result<Vec<&'static str>, IoError>),
}

/// What to do next to migrate a data root.
#[verifier::ext_equal]
pub enum MigrationNextView {
    LookLegacy { path: Seq<char> },
    LookDestination { path: Seq<char> },
    Rename { from: Seq<char>, to: Seq<char> },
    LookRegistry { path: Seq<char> },
    OpenRegistry { path: Seq<char> },
    Register { path: Seq<char>, records: Seq<RecordView> },
    Done(Seq<Seq<char>>),
    Failed(IoErrorView),
}

impl View for MigrationNext {
    type V = MigrationNextView;

    open spec fn view(&self) -> MigrationNextView {
        match *self {
            MigrationNext::LookLegacy { path } => MigrationNextView::LookLegacy { path: path@ },
            MigrationNext::LookDestination { path } => MigrationNextView::LookDestination {
                path: path@,
            },
            MigrationNext::Rename { from, to } => MigrationNextView::Rename { from: from@, to: to@ },
            MigrationNext::LookRegistry { path } => MigrationNextView::LookRegistry { path: path@ },
            MigrationNext::OpenRegistry { path } => MigrationNextView::OpenRegistry { path: path@ },
            MigrationNext::Register { path, records } => MigrationNextView::Register {
                path: path@,
                records: records_view(records@),
            },
            MigrationNext::Done(Ok(moved)) => MigrationNextView::Done(slices(moved@)),
            MigrationNext::Done(Err(err)) => MigrationNextView::Failed(err@),
        }
    }
}

/// Where older layouts kept the entries.
pub open spec fn legacy_root(root: Seq<char>) -> Seq<char> {
    joined_path(root, "identities"@)
}

/// What an entry comes to.
pub enum EntryFate {
    /// Something is still to be done.
    Open(MigrationNextView),
    /// The entry is left where it is, or there is none.
    Left,
    /// The entry was moved.
    Moved,
}

/// An entry moves exactly when it is at its old place and nothing is at its
/// new one.
pub open spec fn entry_fate(root: Seq<char>, entry: Seq<char>, seen: EntryReplies) -> EntryFate {
    if !seen.legacy {
        EntryFate::Left
    } else {
        match seen.destination {
            None => EntryFate::Open(
                MigrationNextView::LookDestination { path: joined_path(root, entry) },
            ),
            Some(true) => EntryFate::Left,
            Some(false) => match seen.moved {
                None => EntryFate::Open(
                    MigrationNextView::Rename {
                        from: joined_path(legacy_root(root), entry),
                        to: joined_path(root, entry),
                    },
                ),
                Some(Err(err)) => EntryFate::Open(MigrationNextView::Failed(err@)),
                Some(Ok(())) => EntryFate::Moved,
            },
        }
    }
}

/// The entries among the first `n` that were moved, in order.
pub open spec fn moved_entries(
    root: Seq<char>,
    seen: Seq<EntryReplies>,
    n: int,
) -> Seq<Seq<char>>
    decreases n,
{
    if n <= 0 {
        Seq::empty()
    } else {
        let before = moved_entries(root, seen, n - 1);
        let entry = legacy_nested_entries()[n - 1];
        if entry_fate(root, entry, seen[n - 1]) is Moved {
            before.push(entry)
        } else {
            before
        }
    }
}

/// The records whose inbox is below the old place, each with its inbox below
/// the new one, in order.
pub open spec fn rewritten_records(
    root: Seq<char>,
    legacy: Seq<char>,
    records: Seq<RecordView>,
) -> Seq<RecordView>
    decreases records.len(),
{
    if records.len() == 0 {
        Seq::empty()
    } else {
        let before = rewritten_records(root, legacy, records.drop_last());
        match path_below(records.last().inbox_dir, legacy) {
            None => before,
            Some(below) => before.push(
                RecordView { inbox_dir: joined_path(root, below), ..records.last() },
            ),
        }
    }
}

/// A failure that has no kind of its own.
pub open spec fn other_failure(message: Seq<char>) -> IoErrorView {
    IoErrorView { kind: IoKind::Other, message }
}

/// What to do once the entries have been moved: where the agents were moved
/// and there is a registry, the records that still point below the old place
/// are registered anew.
pub open spec fn registry_rule(
    root: Seq<char>,
    moved: Seq<Seq<char>>,
    seen: MigrationReplies,
) -> MigrationNextView {
    let path = joined_path(joined_path(root, "agents"@), "registry.toml"@);
    if !moved.contains("agents"@) {
        MigrationNextView::Done(moved)
    } else {
        match seen.registry {
            None => MigrationNextView::LookRegistry { path },
            Some(false) => MigrationNextView::Done(moved),
            Some(true) => match seen.records {
                None => MigrationNextView::OpenRegistry { path },
                Some(Err(err)) => MigrationNextView::Failed(
                    other_failure("open agent registry for migration: "@ + err@.shown()),
                ),
                Some(Ok(records)) => {
                    let anew = rewritten_records(root, legacy_root(root), records_view(records@));
                    if anew.len() == 0 {
                        MigrationNextView::Done(moved)
                    } else {
                        match seen.rewritten {
                            None => MigrationNextView::Register { path, records: anew },
                            Some(Err(err)) => MigrationNextView::Failed(
                                other_failure(
                                    "rewrite inbox_dir during migration: "@ + err@.shown(),
                                ),
                            ),
                            Some(Ok(())) => MigrationNextView::Done(moved),
                        }
                    }
                },
            },
        }
    }
}

/// What to do next when the first `i` entries are settled.
pub open spec fn migration_rule_from(
    root: Seq<char>,
    seen: MigrationReplies,
    i: int,
) -> MigrationNextView
    decreases legacy_nested_entries().len() - i,
{
    let entries = legacy_nested_entries();
    if i >= entries.len() {
        registry_rule(root, moved_entries(root, seen.entries@, entries.len() as int), seen)
    } else if i >= seen.entries@.len() {
        MigrationNextView::LookLegacy { path: joined_path(legacy_root(root), entries[i]) }
    } else {
        match entry_fate(root, entries[i], seen.entries@[i]) {
            EntryFate::Open(next) => next,
            _ => migration_rule_from(root, seen, i + 1),
        }
    }
}

/// The rule for migrating a data root: one entry after the other, then the
/// registry.
pub open spec fn migration_rule(root: Seq<char>, seen: MigrationReplies) -> MigrationNextView {
    migration_rule_from(root, seen, 0)
}

/// What to do next about one entry, or whether it was moved.
fn settle_entry(root: &str, legacy: &str, entry: &'static str, seen: &EntryReplies) -> (out: Result<
    bool,
    MigrationNext,
>)
    requires
        legacy@ == legacy_root(root@),
    ensures
        match (out, entry_fate(root@, entry@, *seen)) {
            (Ok(moved), EntryFate::Moved) => moved,
            (Ok(moved), EntryFate::Left) => !moved,
            (Err(next), EntryFate::Open(n)) => next@ == n,
            _ => false,
        },
{
    if !seen.legacy {
        return Ok(false);
    }
    match seen.destination {
        None => Err(MigrationNext::LookDestination { path: join(root, entry) }),
        Some(true) => Ok(false),
        Some(false) => match &seen.moved {
            None => Err(
                MigrationNext::Rename { from: join(legacy, entry), to: join(root, entry) },
            ),
            Some(Err(err)) => Err(MigrationNext::Done(Err(err.clone()))),
            Some(Ok(())) => Ok(true),
        },
    }
}

/// What to do next to move the state that older layouts kept below
/// `<root>/identities/` up to `<root>/`.
pub fn migrate_legacy_identities_nesting(root: &str, seen: &MigrationReplies) -> (next:
    MigrationNext)
    ensures
        next@ == migration_rule(root@, *seen),
{
    let entries: Vec<&'static str> = legacy_entries();
    let legacy: String = join(root, "identities");
    let mut moved: Vec<&'static str> = Vec::new();
    let mut agents: bool = false;
    let mut i: usize = 0;
    assert(slices(moved@) =~= Seq::empty());
    while i < entries.len()
        invariant
            slices(entries@) == legacy_nested_entries(),
            legacy@ == legacy_root(root@),
            i <= entries@.len(),
            slices(moved@) == moved_entries(root@, seen.entries@, i as int),
            agents == slices(moved@).contains("agents"@),
            migration_rule(root@, *seen) == migration_rule_from(root@, *seen, i as int),
        decreases entries.len() - i,
    {
        assert(entries@[i as int]@ == slices(entries@)[i as int]);
        if i >= seen.entries.len() {
            return MigrationNext::LookLegacy { path: join(legacy.as_str(), entries[i]) };
        }
        match settle_entry(root, legacy.as_str(), entries[i], &seen.entries[i]) {
            Err(next) => {
                return next;
            },
            Ok(true) => {
                proof {
                    lemma_moved_push(moved@, entries@[i as int]);
                    lemma_entry_names(i as int);
                }
                if i == 0 {
                    agents = true;
                }
                moved.push(entries[i]);
            },
            Ok(false) => {},
        }
        i = i + 1;
    }
    assert(slices(entries@).len() == entries@.len());
    if !agents {
        return MigrationNext::Done(Ok(moved));
    }
    rewrite_legacy_inbox_dirs(root, legacy.as_str(), moved, seen)
}

proof fn lemma_moved_push(v: Seq<&'static str>, s: &'static str)
    ensures
        slices(v.push(s)) == slices(v).push(s@),
        slices(v.push(s)).contains("agents"@) == (slices(v).contains("agents"@) || s@
            == "agents"@),
{
    assert(slices(v.push(s)) =~= slices(v).push(s@));
    let all = slices(v).push(s@);
    if slices(v).contains("agents"@) {
        let k = choose|k: int| 0 <= k < slices(v).len() && slices(v)[k] == "agents"@;
        assert(all[k] == "agents"@);
    }
    if s@ == "agents"@ {
        assert(all[slices(v).len() as int] == "agents"@);
    }
    if all.contains("agents"@) && s@ != "agents"@ {
        let k = choose|k: int| 0 <= k < all.len() && all[k] == "agents"@;
        assert(slices(v)[k] == "agents"@);
    }
}

/// Only the first entry is that of the agents.
proof fn lemma_entry_names(i: int)
    requires
        0 <= i < legacy_nested_entries().len(),
    ensures
        (legacy_nested_entries()[i] == "agents"@) == (i == 0),
{
    reveal_strlit("agents");
    reveal_strlit("personas");
    reveal_strlit("teams");
    reveal_strlit("audit");
    reveal_strlit("blacklist.toml");
    reveal_strlit("replay-ledger.jsonl");
    reveal_strlit("delivery-ledger.jsonl");
    let names = legacy_nested_entries();
    assert(names[1].len() == 8 && names[2].len() == 5 && names[3].len() == 5 && names[4].len()
        == 14 && names[5].len() == 19 && names[6].len() == 21);
}

/// What to do next about the records of the agent registry, once the agents
/// were moved.
fn rewrite_legacy_inbox_dirs(
    root: &str,
    legacy: &str,
    moved: Vec<&'static str>,
    seen: &MigrationReplies,
) -> (next: MigrationNext)
    requires
        legacy@ == legacy_root(root@),
        slices(moved@).contains("agents"@),
    ensures
        next@ == registry_rule(root@, slices(moved@), *seen),
{
    let path: String = RuntimeLayout::new(root).agent_registry_path();
    match seen.registry {
        None => {
            return MigrationNext::LookRegistry { path };
        },
        Some(false) => {
            return MigrationNext::Done(Ok(moved));
        },
        Some(true) => {},
    }
    match &seen.records {
        None => MigrationNext::OpenRegistry { path },
        Some(Err(err)) => MigrationNext::Done(
            Err(other("open agent registry for migration: ", err)),
        ),
        Some(Ok(records)) => {
            let anew: Vec<AgentRecord> = stale_records(root, legacy, records);
            assert(records_view(anew@).len() == anew@.len());
            if anew.len() == 0 {
                return MigrationNext::Done(Ok(moved));
            }
            match &seen.rewritten {
                None => MigrationNext::Register { path, records: anew },
                Some(Err(err)) => MigrationNext::Done(
                    Err(other("rewrite inbox_dir during migration: ", err)),
                ),
                Some(Ok(())) => MigrationNext::Done(Ok(moved)),
            }
        },
    }
}

fn other(what: &str, err: &AgentRegistryError) -> (out: IoError)
    ensures
        out@ == other_failure(what@ + err@.shown()),
{
    let mut message: String = what.to_owned();
    let shown: String = err.to_string();
    message.append(shown.as_str());
    IoError { kind: IoKind::Other, message }
}

/// The records whose inbox is below the old place, with their new inbox.
fn stale_records(root: &str, legacy: &str, records: &Vec<AgentRecord>) -> (anew: Vec<AgentRecord>)
    ensures
        records_view(anew@) == rewritten_records(root@, legacy@, records_view(records@)),
{
    let ghost rs: Seq<RecordView> = records_view(records@);
    let mut anew: Vec<AgentRecord> = Vec::new();
    let mut i: usize = 0;
    assert(rs.take(0) =~= Seq::empty());
    assert(records_view(anew@) =~= Seq::empty());
    while i < records.len()
        invariant
            rs == records_view(records@),
            i <= records@.len(),
            records_view(anew@) == rewritten_records(root@, legacy@, rs.take(i as int)),
        decreases records.len() - i,
    {
        proof {
            let upto = rs.take(i + 1);
            assert(upto.drop_last() =~= rs.take(i as int));
            assert(upto.last() == records@[i as int]@);
        }
        match strip_prefix(records[i].inbox_dir.as_str(), legacy) {
            None => {},
            Some(below) => {
                let mut record: AgentRecord = records[i].clone();
                record.inbox_dir = join(root, below.as_str());
                assert(records_view(anew@.push(record)) =~= records_view(anew@).push(record@));
                anew.push(record);
            },
        }
        i = i + 1;
    }
    assert(rs.take(i as int) =~= rs);
    anew
}

// ── Laws ─────────────────────────────────────────────────────────────────────

/// Nothing is ever overwritten: an entry is moved only from its old place to
/// its new one, where it was found at the old and nothing at the new.
pub proof fn law_migration_never_clobbers(root: Seq<char>, seen: MigrationReplies)
    ensures
        migration_rule(root, seen) matches MigrationNextView::Rename { from, to } ==> exists|i: int|
            {
                &&& 0 <= i < legacy_nested_entries().len()
                &&& i < seen.entries@.len()
                &&& (#[trigger] seen.entries@[i]).legacy
                &&& seen.entries@[i].destination == Some(false)
                &&& from == joined_path(legacy_root(root), legacy_nested_entries()[i])
                &&& to == joined_path(root, legacy_nested_entries()[i])
            },
{
    lemma_rename_from(root, seen, 0);
}

proof fn lemma_rename_from(root: Seq<char>, seen: MigrationReplies, i: int)
    requires
        0 <= i,
    ensures
        migration_rule_from(root, seen, i) matches MigrationNextView::Rename { from, to } ==> exists|
            k: int,
        |
            {
                &&& 0 <= k < legacy_nested_entries().len()
                &&& k < seen.entries@.len()
                &&& (#[trigger] seen.entries@[k]).legacy
                &&& seen.entries@[k].destination == Some(false)
                &&& from == joined_path(legacy_root(root), legacy_nested_entries()[k])
                &&& to == joined_path(root, legacy_nested_entries()[k])
            },
    decreases legacy_nested_entries().len() - i,
{
    if i < legacy_nested_entries().len() && i < seen.entries@.len() {
        if entry_fate(root, legacy_nested_entries()[i], seen.entries@[i]) is Open {
            assert(seen.entries@[i].legacy == seen.entries@[i].legacy);
        } else {
            lemma_rename_from(root, seen, i + 1);
        }
    }
}

/// A migration that finds each entry gone from its old place, or its new
/// place taken, moves nothing and leaves the registry alone: a populated
/// destination wins.
pub proof fn law_populated_destination_wins(root: Seq<char>, seen: MigrationReplies)
    requires
        seen.entries@.len() == legacy_nested_entries().len(),
        forall|i: int|
            0 <= i < seen.entries@.len() ==> !(#[trigger] seen.entries@[i]).legacy
                || seen.entries@[i].destination == Some(true),
    ensures
        migration_rule(root, seen) == MigrationNextView::Done(Seq::empty()),
{
    lemma_nothing_moves(root, seen, legacy_nested_entries().len() as int);
    lemma_all_left(root, seen, 0);
    assert(!Seq::<Seq<char>>::empty().contains("agents"@));
}

/// A migration after one that succeeded does nothing: an entry that was moved
/// is gone from its old place, and one that was left finds its new place as
/// it was.
pub proof fn law_migration_is_idempotent(
    root: Seq<char>,
    first: MigrationReplies,
    second: MigrationReplies,
)
    requires
        migration_rule(root, first) is Done,
        second.entries@.len() == legacy_nested_entries().len(),
        forall|i: int|
            0 <= i < second.entries@.len() && i < first.entries@.len() ==> {
                let moved = entry_fate(root, legacy_nested_entries()[i], first.entries@[i]) is Moved;
                &&& (#[trigger] second.entries@[i]).legacy == (first.entries@[i].legacy && !moved)
                &&& !moved && first.entries@[i].legacy ==> second.entries@[i].destination
                    == first.entries@[i].destination
            },
    ensures
        migration_rule(root, second) == MigrationNextView::Done(Seq::empty()),
{
    lemma_done_settles(root, first, 0);
    assert forall|i: int| 0 <= i < second.entries@.len() implies !(
    #[trigger] second.entries@[i]).legacy || second.entries@[i].destination == Some(true) by {
        assert(entry_fate(root, legacy_nested_entries()[i], first.entries@[i]) !is Open);
    }
    law_populated_destination_wins(root, second);
}

proof fn lemma_done_settles(root: Seq<char>, seen: MigrationReplies, i: int)
    requires
        0 <= i <= legacy_nested_entries().len(),
        migration_rule_from(root, seen, i) is Done,
    ensures
        i < legacy_nested_entries().len() ==> seen.entries@.len() >= legacy_nested_entries().len(),
        forall|k: int|
            i <= k < legacy_nested_entries().len() ==> #[trigger] entry_fate(
                root,
                legacy_nested_entries()[k],
                seen.entries@[k],
            ) !is Open,
    decreases legacy_nested_entries().len() - i,
{
    if i < legacy_nested_entries().len() {
        let fate = entry_fate(root, legacy_nested_entries()[i], seen.entries@[i]);
        assert(fate matches EntryFate::Open(next) ==> next !is Done);
        lemma_done_settles(root, seen, i + 1);
    }
}

proof fn lemma_nothing_moves(root: Seq<char>, seen: MigrationReplies, n: int)
    requires
        n <= seen.entries@.len(),
        forall|i: int|
            0 <= i < seen.entries@.len() ==> !(#[trigger] seen.entries@[i]).legacy
                || seen.entries@[i].destination == Some(true),
    ensures
        moved_entries(root, seen.entries@, n) == Seq::<Seq<char>>::empty(),
    decreases n,
{
    if n > 0 {
        lemma_nothing_moves(root, seen, n - 1);
        assert(!seen.entries@[n - 1].legacy || seen.entries@[n - 1].destination == Some(true));
    }
}

proof fn lemma_all_left(root: Seq<char>, seen: MigrationReplies, i: int)
    requires
        0 <= i <= legacy_nested_entries().len(),
        seen.entries@.len() == legacy_nested_entries().len(),
        forall|k: int|
            0 <= k < seen.entries@.len() ==> !(#[trigger] seen.entries@[k]).legacy
                || seen.entries@[k].destination == Some(true),
    ensures
        migration_rule_from(root, seen, i) == registry_rule(
            root,
            moved_entries(root, seen.entries@, legacy_nested_entries().len() as int),
            seen,
        ),
    decreases legacy_nested_entries().len() - i,
{
    if i < legacy_nested_entries().len() {
        assert(!seen.entries@[i].legacy || seen.entries@[i].destination == Some(true));
        lemma_all_left(root, seen, i + 1);
    }
}

/// Rewriting changes nothing of a record but its inbox, which keeps its place
/// below the old root at the same place below the new one.
pub proof fn law_rewriting_moves_only_inboxes(
    root: Seq<char>,
    legacy: Seq<char>,
    records: Seq<RecordView>,
    k: int,
)
    requires
        0 <= k < rewritten_records(root, legacy, records).len(),
    ensures
        ({
            let anew = rewritten_records(root, legacy, records)[k];
            exists|i: int|
                {
                    &&& 0 <= i < records.len()
                    &&& path_below((#[trigger] records[i]).inbox_dir, legacy) is Some
                    &&& anew == RecordView {
                        inbox_dir: joined_path(
                            root,
                            path_below(records[i].inbox_dir, legacy)->0,
                        ),
                        ..records[i]
                    }
                }
        }),
    decreases records.len(),
{
    let last = records.len() - 1;
    let rest = records.drop_last();
    let before = rewritten_records(root, legacy, rest);
    if k < before.len() {
        law_rewriting_moves_only_inboxes(root, legacy, rest, k);
        let i = choose|i: int|
            {
                &&& 0 <= i < rest.len()
                &&& path_below((#[trigger] rest[i]).inbox_dir, legacy) is Some
                &&& before[k] == RecordView {
                    inbox_dir: joined_path(root, path_below(rest[i].inbox_dir, legacy)->0),
                    ..rest[i]
                }
            };
        assert(records[i] == rest[i]);
    } else {
        assert(records[last] == records.last());
    }
}

/// The entries that a migration moves, in order.
pub proof fn law_entries_are_the_older_layouts()
    ensures
        legacy_nested_entries() == seq![
            "agents"@,
            "personas"@,
            "teams"@,
            "audit"@,
            "blacklist.toml"@,
            "replay-ledger.jsonl"@,
            "delivery-ledger.jsonl"@,
        ],
{
}

/// A migration looks where it should: at the next entry below `identities`, at
/// its place at the root, and, once the agents were moved, at their registry; a
/// failure is the one that was met.
pub proof fn law_migration_looks_at_its_entries(root: Seq<char>, seen: MigrationReplies)
    ensures
        ({
            let names = legacy_nested_entries();
            let old = joined_path(root, "identities"@);
            let registry = joined_path(joined_path(root, "agents"@), "registry.toml"@);
            let k = seen.entries@.len() as int;
            match migration_rule(root, seen) {
                MigrationNextView::LookLegacy { path } => k < names.len() && path == joined_path(
                    old,
                    names[k],
                ),
                MigrationNextView::LookDestination { path } => exists|i: int|
                    0 <= i < names.len() && i < k && (#[trigger] seen.entries@[i]).legacy
                        && seen.entries@[i].destination is None && path == joined_path(
                        root,
                        names[i],
                    ),
                MigrationNextView::Rename { from, to } => exists|i: int|
                    0 <= i < names.len() && i < k && (#[trigger] seen.entries@[i]).legacy
                        && seen.entries@[i].moved is None && from == joined_path(old, names[i])
                        && to == joined_path(root, names[i]),
                MigrationNextView::LookRegistry { path } => path == registry
                    && seen.registry is None && went(seen.entries@, 0),
                MigrationNextView::OpenRegistry { path } => path == registry && seen.registry
                    == Some(true) && went(seen.entries@, 0),
                MigrationNextView::Register { path, records } => path == registry && went(
                    seen.entries@,
                    0,
                ) && (seen.records matches Some(Ok(before)) && records == rewritten_records(
                    root,
                    old,
                    records_view(before@),
                )) && records.len() > 0 && seen.rewritten is None,
                MigrationNextView::Done(moved) => k >= names.len() && forall|i: int|
                    0 <= i < names.len() ==> (moved.contains(#[trigger] names[i]) <==> went(
                        seen.entries@,
                        i,
                    )),
                MigrationNextView::Failed(err) => {
                    ||| exists|i: int|
                        0 <= i < names.len() && i < k && ((
                        #[trigger] seen.entries@[i]).moved matches Some(Err(e)) && err == e@)
                    ||| seen.records matches Some(Err(e)) && err.message
                        == "open agent registry for migration: "@ + e@.shown()
                    ||| seen.rewritten matches Some(Err(e)) && err.message
                        == "rewrite inbox_dir during migration: "@ + e@.shown()
                },
            }
        }),
{
    lemma_looks_from(root, seen, 0);
}

/// The `i`-th entry was at its old place and not at its new one, and was moved.
pub open spec fn went(entries: Seq<EntryReplies>, i: int) -> bool {
    entries[i].legacy && entries[i].destination == Some(false) && (
    entries[i].moved matches Some(Ok(_)))
}

proof fn lemma_names_differ(i: int, j: int)
    requires
        0 <= i < legacy_nested_entries().len(),
        0 <= j < legacy_nested_entries().len(),
        legacy_nested_entries()[i] == legacy_nested_entries()[j],
    ensures
        i == j,
{
    reveal_strlit("agents");
    reveal_strlit("personas");
    reveal_strlit("teams");
    reveal_strlit("audit");
    reveal_strlit("blacklist.toml");
    reveal_strlit("replay-ledger.jsonl");
    reveal_strlit("delivery-ledger.jsonl");
    let names = legacy_nested_entries();
    assert(names[0].len() == 6 && names[1].len() == 8 && names[2].len() == 5 && names[3].len() == 5
        && names[4].len() == 14 && names[5].len() == 19 && names[6].len() == 21);
    assert(names[2][0] == 't' && names[3][0] == 'a');
}

proof fn lemma_moved_names(root: Seq<char>, seen: Seq<EntryReplies>, n: int, i: int)
    requires
        0 <= n <= legacy_nested_entries().len(),
        0 <= i < legacy_nested_entries().len(),
    ensures
        moved_entries(root, seen, n).contains(legacy_nested_entries()[i]) <==> i < n && went(seen, i),
    decreases n,
{
    let names = legacy_nested_entries();
    if n > 0 {
        lemma_moved_names(root, seen, n - 1, i);
        let before = moved_entries(root, seen, n - 1);
        let after = moved_entries(root, seen, n);
        if entry_fate(root, names[n - 1], seen[n - 1]) is Moved {
            assert(went(seen, n - 1));
            if i == n - 1 {
                assert(after[before.len() as int] == names[i]);
            }
            if before.contains(names[i]) {
                let k = choose|k: int| 0 <= k < before.len() && before[k] == names[i];
                assert(after[k] == names[i]);
            }
            if after.contains(names[i]) {
                let k = choose|k: int| 0 <= k < after.len() && after[k] == names[i];
                if k < before.len() {
                    assert(before[k] == names[i]);
                } else {
                    lemma_names_differ(i, n - 1);
                }
            }
        } else {
            assert(!went(seen, n - 1));
        }
    }
}

proof fn lemma_looks_from(root: Seq<char>, seen: MigrationReplies, i: int)
    requires
        0 <= i <= legacy_nested_entries().len(),
        i <= seen.entries@.len(),
    ensures
        ({
            let names = legacy_nested_entries();
            let old = joined_path(root, "identities"@);
            let registry = joined_path(joined_path(root, "agents"@), "registry.toml"@);
            let k = seen.entries@.len() as int;
            match migration_rule_from(root, seen, i) {
                MigrationNextView::LookLegacy { path } => k < names.len() && path == joined_path(
                    old,
                    names[k],
                ),
                MigrationNextView::LookDestination { path } => exists|i: int|
                    0 <= i < names.len() && i < k && (#[trigger] seen.entries@[i]).legacy
                        && seen.entries@[i].destination is None && path == joined_path(
                        root,
                        names[i],
                    ),
                MigrationNextView::Rename { from, to } => exists|i: int|
                    0 <= i < names.len() && i < k && (#[trigger] seen.entries@[i]).legacy
                        && seen.entries@[i].moved is None && from == joined_path(old, names[i])
                        && to == joined_path(root, names[i]),
                MigrationNextView::LookRegistry { path } => path == registry
                    && seen.registry is None && went(seen.entries@, 0),
                MigrationNextView::OpenRegistry { path } => path == registry && seen.registry
                    == Some(true) && went(seen.entries@, 0),
                MigrationNextView::Register { path, records } => path == registry && went(
                    seen.entries@,
                    0,
                ) && (seen.records matches Some(Ok(before)) && records == rewritten_records(
                    root,
                    old,
                    records_view(before@),
                )) && records.len() > 0 && seen.rewritten is None,
                MigrationNextView::Done(moved) => k >= names.len() && forall|i: int|
                    0 <= i < names.len() ==> (moved.contains(#[trigger] names[i]) <==> went(
                        seen.entries@,
                        i,
                    )),
                MigrationNextView::Failed(err) => {
                    ||| exists|i: int|
                        0 <= i < names.len() && i < k && ((
                        #[trigger] seen.entries@[i]).moved matches Some(Err(e)) && err == e@)
                    ||| seen.records matches Some(Err(e)) && err.message
                        == "open agent registry for migration: "@ + e@.shown()
                    ||| seen.rewritten matches Some(Err(e)) && err.message
                        == "rewrite inbox_dir during migration: "@ + e@.shown()
                },
            }
        }),
    decreases legacy_nested_entries().len() - i,
{
    let names = legacy_nested_entries();
    if i >= names.len() {
        assert forall|x: int| 0 <= x < names.len() implies (moved_entries(
            root,
            seen.entries@,
            names.len() as int,
        ).contains(#[trigger] names[x]) <==> went(seen.entries@, x)) by {
            lemma_moved_names(root, seen.entries@, names.len() as int, x);
        }
        lemma_moved_names(root, seen.entries@, names.len() as int, 0);
        assert(names[0] == "agents"@);
    } else if i < seen.entries@.len() {
        match entry_fate(root, names[i], seen.entries@[i]) {
            EntryFate::Open(next) => {
                assert(seen.entries@[i].legacy);
            },
            _ => {
                lemma_looks_from(root, seen, i + 1);
            },
        }
    }
}

/// Every record below the old place is registered anew, in order, and no other.
pub proof fn law_all_old_inboxes_are_rewritten(
    root: Seq<char>,
    legacy: Seq<char>,
    records: Seq<RecordView>,
)
    ensures
        rewritten_records(root, legacy, records) == records.filter(
            |r: RecordView| path_below(r.inbox_dir, legacy) is Some,
        ).map_values(
            |r: RecordView|
                RecordView {
                    inbox_dir: joined_path(root, path_below(r.inbox_dir, legacy)->0),
                    ..r
                },
        ),
    decreases records.len(),
{
    reveal(Seq::filter);
    let old = |r: RecordView| path_below(r.inbox_dir, legacy) is Some;
    let anew = |r: RecordView|
        RecordView { inbox_dir: joined_path(root, path_below(r.inbox_dir, legacy)->0), ..r };
    if records.len() > 0 {
        law_all_old_inboxes_are_rewritten(root, legacy, records.drop_last());
        let rest = records.drop_last().filter(old);
        if old(records.last()) {
            assert(rest.push(records.last()).map_values(anew) =~= rest.map_values(anew).push(
                anew(records.last()),
            ));
        }
    }
    assert(rewritten_records(root, legacy, records) =~= records.filter(old).map_values(anew));
}

} // verus!
