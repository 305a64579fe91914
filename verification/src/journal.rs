//! Append-only files of one JSON value a line.

use vstd::prelude::*;
use vstd::string::*;

use crate::agent_fs::{AgentFsError, AgentFsView, AGENT_FILE_MODE};
use crate::conversation::{ConversationEntry, EntryView};
use crate::history::{lemma_line_end, nonempty_lines, without_cr};
use crate::io_error::{IoError, IoErrorView};
use crate::keypair::copy_bytes;

verus! {

/// The line of a serialized value: its bytes and a line feed.
pub open spec fn framed(json: Seq<u8>) -> Seq<u8> {
    json.push(0x0a)
}

/// What has been learned so far about a value to be appended.
#[derive(Debug, PartialEq, Eq)]
pub struct AppendReplies {
    /// The value in JSON, or the serializer's complaint.
    pub json: Option<Result<Vec<u8>, String>>,
    /// What writing the line came to.
    pub written: Option<Result<(), IoError>>,
    /// What syncing the file came to.
    pub synced: Option<Result<(), IoError>>,
}

/// Why a value was not appended.
#[derive(Debug, PartialEq, Eq)]
pub enum AppendError {
    Serialize(String),
    Io(IoError),
}

/// What the failure holds.
pub enum AppendErrorView {
    Serialize(Seq<char>),
    Io(IoErrorView),
}

impl View for AppendError {
    type V = AppendErrorView;

    open spec fn view(&self) -> AppendErrorView {
        match *self {
            AppendError::Serialize(source) => AppendErrorView::Serialize(source@),
            AppendError::Io(source) => AppendErrorView::Io(source@),
        }
    }
}

/// What to do next to append a value.
#[derive(Debug, PartialEq, Eq)]
pub enum AppendNext {
    /// Serialize the value as JSON.
    Serialize,
    /// Write this line, in one call.
    Write { line: Vec<u8> },
    /// Sync the file's data.
    Sync,
    /// Nothing: the value is durable, or was not appended.
    Done(Result<(), AppendError>),
}

/// What to do next to append a value.
pub enum AppendNextView {
    Serialize,
    Write { line: Seq<u8> },
    Sync,
    Durable,
    Failed(AppendErrorView),
}

impl View for AppendNext {
    type V = AppendNextView;

    open spec fn view(&self) -> AppendNextView {
        match *self {
            AppendNext::Serialize => AppendNextView::Serialize,
            AppendNext::Write { line } => AppendNextView::Write { line: line@ },
            AppendNext::Sync => AppendNextView::Sync,
            AppendNext::Done(Ok(())) => AppendNextView::Durable,
            AppendNext::Done(Err(err)) => AppendNextView::Failed(err@),
        }
    }
}

/// The rule for appending: a value counts as appended only when its line is
/// written and synced.
pub open spec fn append_rule(seen: AppendReplies) -> AppendNextView {
    match seen.json {
        None => AppendNextView::Serialize,
        Some(Err(source)) => AppendNextView::Failed(AppendErrorView::Serialize(source@)),
        Some(Ok(json)) => match seen.written {
            None => AppendNextView::Write { line: framed(json@) },
            Some(Err(e)) => AppendNextView::Failed(AppendErrorView::Io(e@)),
            Some(Ok(())) => match seen.synced {
                None => AppendNextView::Sync,
                Some(Err(e)) => AppendNextView::Failed(AppendErrorView::Io(e@)),
                Some(Ok(())) => AppendNextView::Durable,
            },
        },
    }
}

/// What to do next to append a value.
pub fn append_line(seen: &AppendReplies) -> (next: AppendNext)
    ensures
        next@ == append_rule(*seen),
{
    match &seen.json {
        None => AppendNext::Serialize,
        Some(Err(source)) => AppendNext::Done(Err(AppendError::Serialize(source.clone()))),
        Some(Ok(json)) => match &seen.written {
            None => {
                let mut line: Vec<u8> = copy_bytes(json);
                line.push(0x0a);
                AppendNext::Write { line }
            },
            Some(Err(err)) => AppendNext::Done(Err(AppendError::Io(err.clone()))),
            Some(Ok(())) => match &seen.synced {
                None => AppendNext::Sync,
                Some(Err(err)) => AppendNext::Done(Err(AppendError::Io(err.clone()))),
                Some(Ok(())) => AppendNext::Done(Ok(())),
            },
        },
    }
}

/// The conversation journal of an agent.
#[derive(Debug, PartialEq, Eq)]
pub struct ConversationThread {
    path: String,
}

impl View for ConversationThread {
    type V = Seq<char>;

    closed spec fn view(&self) -> Seq<char> {
        self.path@
    }
}

/// What to do next to open a journal.
#[derive(Debug, PartialEq, Eq)]
pub enum ThreadOpenNext {
    /// Open the file for appending with this mode, without following a link.
    Open { path: String, mode: u32 },
    /// Nothing: the journal is open, or cannot be opened.
    Done(Result<ConversationThread, AgentFsError>),
}

/// What to do next to append an entry.
#[derive(Debug, PartialEq, Eq)]
pub enum ThreadNext<'a> {
    /// Serialize this entry as JSON.
    Serialize(&'a ConversationEntry),
    /// Take this step.
    Append(AppendNext),
    /// Nothing: the entry is durable, or was not appended.
    Done(Result<(), AgentFsError>),
}

/// What to do next to append an entry.
pub enum ThreadNextView {
    Serialize(EntryView),
    Append(AppendNextView),
    Durable,
    Failed(AgentFsView),
}

impl<'a> View for ThreadNext<'a> {
    type V = ThreadNextView;

    open spec fn view(&self) -> ThreadNextView {
        match *self {
            ThreadNext::Serialize(entry) => ThreadNextView::Serialize(entry@),
            ThreadNext::Append(next) => ThreadNextView::Append(next@),
            ThreadNext::Done(Ok(())) => ThreadNextView::Durable,
            ThreadNext::Done(Err(err)) => ThreadNextView::Failed(err@),
        }
    }
}

/// The rule for appending an entry to the journal kept at `path`.
pub open spec fn thread_rule(
    path: Seq<char>,
    entry: EntryView,
    seen: AppendReplies,
) -> ThreadNextView {
    match append_rule(seen) {
        AppendNextView::Serialize => ThreadNextView::Serialize(entry),
        AppendNextView::Durable => ThreadNextView::Durable,
        AppendNextView::Failed(AppendErrorView::Serialize(source)) => ThreadNextView::Failed(
            AgentFsView::Json(source),
        ),
        AppendNextView::Failed(AppendErrorView::Io(source)) => ThreadNextView::Failed(
            AgentFsView::Io { path, source },
        ),
        next => ThreadNextView::Append(next),
    }
}

impl ConversationThread {
    /// What to do next to open the journal at `path`, or to make it.
    pub fn open(path: &str, opened: &Option<Result<(), IoError>>) -> (next: ThreadOpenNext)
        ensures
            match (*opened, next) {
                (None, ThreadOpenNext::Open { path: p, mode }) => p@ == path@ && mode
                    == AGENT_FILE_MODE,
                (Some(Ok(())), ThreadOpenNext::Done(Ok(thread))) => thread@ == path@,
                (Some(Err(e)), ThreadOpenNext::Done(Err(err))) => err@ == (AgentFsView::Io {
                    path: path@,
                    source: e@,
                }),
                _ => false,
            },
    {
        match opened {
            None => ThreadOpenNext::Open { path: path.to_owned(), mode: AGENT_FILE_MODE },
            Some(Ok(())) => ThreadOpenNext::Done(Ok(ConversationThread { path: path.to_owned() })),
            Some(Err(err)) => ThreadOpenNext::Done(
                Err(AgentFsError::Io { path: path.to_owned(), source: err.clone() }),
            ),
        }
    }

    /// What to do next to append an entry.
    #[must_use]
    pub fn append<'a>(&self, entry: &'a ConversationEntry, seen: &AppendReplies) -> (next:
        ThreadNext<'a>)
        ensures
            next@ == thread_rule(self@, entry@, *seen),
    {
        match append_line(seen) {
            AppendNext::Serialize => ThreadNext::Serialize(entry),
            AppendNext::Done(Ok(())) => ThreadNext::Done(Ok(())),
            AppendNext::Done(Err(AppendError::Serialize(source))) => ThreadNext::Done(
                Err(AgentFsError::Json(source)),
            ),
            AppendNext::Done(Err(AppendError::Io(source))) => ThreadNext::Done(
                Err(AgentFsError::Io { path: self.path.clone(), source }),
            ),
            next => ThreadNext::Append(next),
        }
    }
}

// ── Laws ─────────────────────────────────────────────────────────────────────

/// The bytes of a file to which these values were appended.
pub open spec fn appended(values: Seq<Seq<u8>>) -> Seq<u8>
    decreases values.len(),
{
    if values.len() == 0 {
        Seq::empty()
    } else {
        framed(values[0]) + appended(values.drop_first())
    }
}

/// A value that takes one line: it is not empty, holds no line feed, and does
/// not end in a carriage return.
pub open spec fn one_line(json: Seq<u8>) -> bool {
    &&& json.len() > 0
    &&& json.last() != 0x0d
    &&& forall|i: int| 0 <= i < json.len() ==> #[trigger] json[i] != 0x0a
}

/// What was appended is what is read: the lines of the file are the values,
/// each once and in order.
pub proof fn law_appended_values_are_read_back(values: Seq<Seq<u8>>)
    requires
        forall|i: int| 0 <= i < values.len() ==> one_line(#[trigger] values[i]),
    ensures
        nonempty_lines(appended(values)) == values,
    decreases values.len(),
{
    if values.len() == 0 {
        assert(nonempty_lines(appended(values)) =~= values);
    } else {
        let first = values[0];
        let rest = values.drop_first();
        let bytes = appended(values);
        let end = first.len() as int;
        assert forall|i: int| 0 <= i < rest.len() implies one_line(#[trigger] rest[i]) by {
            assert(rest[i] == values[i + 1]);
        }
        law_appended_values_are_read_back(rest);
        assert(one_line(first));
        assert forall|k: int| 0 <= k < end implies #[trigger] bytes[k] != 0x0a by {
            assert(bytes[k] == first[k]);
        }
        assert(bytes[end] == 0x0a);
        lemma_line_end(bytes, 0, end);
        assert(bytes.subrange(0, end) =~= first);
        assert(bytes.subrange(end + 1, bytes.len() as int) =~= appended(rest));
        assert(without_cr(first) == first);
        assert(seq![first] + rest =~= values);
    }
}

/// Appending keeps all that was there.
pub proof fn law_appending_keeps_what_was_there(values: Seq<Seq<u8>>, value: Seq<u8>)
    ensures
        appended(values.push(value)) == appended(values) + framed(value),
    decreases values.len(),
{
    if values.len() == 0 {
        let rest = values.push(value).drop_first();
        assert(rest.len() == 0);
        assert(appended(rest) == Seq::<u8>::empty());
        assert(values.push(value)[0] == value);
        assert(appended(values.push(value)) =~= appended(values) + framed(value));
    } else {
        assert(values.push(value).drop_first() =~= values.drop_first().push(value));
        law_appending_keeps_what_was_there(values.drop_first(), value);
        assert(appended(values.push(value)) =~= appended(values) + framed(value));
    }
}

/// An entry is durable only when its line was written and synced.
pub proof fn law_durable_means_synced(seen: AppendReplies)
    ensures
        append_rule(seen) is Durable ==> {
            &&& seen.json matches Some(Ok(_))
            &&& seen.written matches Some(Ok(_))
            &&& seen.synced matches Some(Ok(_))
        },
{
}

/// What is written for a value is that value and the end of its line; what is to
/// be put in JSON is the entry that was given; and a failure is told with what
/// failed.
pub proof fn law_entries_are_written_as_given(
    path: Seq<char>,
    entry: EntryView,
    seen: AppendReplies,
)
    ensures
        match thread_rule(path, entry, seen) {
            ThreadNextView::Serialize(e) => e == entry && seen.json is None,
            ThreadNextView::Append(AppendNextView::Write { line }) => {
                &&& seen.json matches Some(Ok(json)) && line.len() == json@.len() + 1
                    && line.drop_last() == json@
                &&& line.last() == 0x0a
                &&& seen.written is None
            },
            ThreadNextView::Append(next) => next is Sync && (seen.written matches Some(Ok(_)))
                && seen.synced is None,
            ThreadNextView::Durable => seen.synced matches Some(Ok(_)),
            ThreadNextView::Failed(AgentFsView::Json(source)) => seen.json matches Some(Err(e))
                && source == e@,
            ThreadNextView::Failed(AgentFsView::Io { path: at, source }) => at == path && {
                ||| seen.written matches Some(Err(e)) && source == e@
                ||| seen.synced matches Some(Err(e)) && source == e@
            },
        },
        append_rule(seen) matches AppendNextView::Write { line } ==> (
        seen.json matches Some(Ok(json)) && line == json@.push(0x0a)),
{
    if let Some(Ok(json)) = seen.json {
        assert(json@.push(0x0a).drop_last() =~= json@);
    }
}

/// A value that could be put in JSON, written and synced is appended.
pub proof fn law_entries_are_appended(path: Seq<char>, entry: EntryView, seen: AppendReplies)
    requires
        seen.json matches Some(Ok(_)),
    ensures
        seen.written is None ==> (thread_rule(path, entry, seen) matches ThreadNextView::Append(next)
            && next is Write),
        seen.written matches Some(Ok(_)) && seen.synced is None ==> thread_rule(path, entry, seen)
            == ThreadNextView::Append(AppendNextView::Sync),
        seen.written matches Some(Ok(_)) && (seen.synced matches Some(Ok(_))) ==> thread_rule(
            path,
            entry,
            seen,
        ) is Durable,
{
}

} // verus!
