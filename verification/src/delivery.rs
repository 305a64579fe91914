//! Depositing a signed envelope into an inbox.

use vstd::prelude::*;
use vstd::string::*;

use crate::fs_util::{FileKind, Stat};
use crate::io_error::{IoError, IoErrorView};
use crate::keypair::copy_bytes;
use crate::paths::{join, joined_path, plain_component};
use crate::text::to_chars;

verus! {

/// Mode of a deposited envelope.
pub const ENVELOPE_FILE_MODE: u32 = 0o600;

/// A character of a message id: a lower-case hexadecimal digit or a hyphen.
pub open spec fn id_char(c: char) -> bool {
    ('0' <= c <= '9') || ('a' <= c <= 'f') || c == '-'
}

/// A text that a message id may have.
pub open spec fn id_text(s: Seq<char>) -> bool {
    s.len() > 0 && forall|i: int| 0 <= i < s.len() ==> id_char(#[trigger] s[i])
}

/// The id of a message. Its text names a file and nothing else.
#[derive(Debug, PartialEq, Eq)]
pub struct MessageId(String);

impl View for MessageId {
    type V = Seq<char>;

    closed spec fn view(&self) -> Seq<char> {
        self.0@
    }
}

impl MessageId {
    #[verifier::type_invariant]
    spec fn well_formed(self) -> bool {
        id_text(self.0@)
    }

    /// Accepts a text that a message id may have.
    pub fn new(text: &str) -> (out: Option<MessageId>)
        ensures
            match out {
                Some(id) => id_text(text@) && id@ == text@,
                None => !id_text(text@),
            },
    {
        if text.is_empty() {
            return None;
        }
        let chars: Vec<char> = to_chars(text);
        let mut i: usize = 0;
        while i < chars.len()
            invariant
                chars@ == text@,
                i <= chars@.len(),
                forall|k: int| 0 <= k < i ==> id_char(#[trigger] text@[k]),
            decreases chars.len() - i,
        {
            let c: char = chars[i];
            if !(('0' <= c && c <= '9') || ('a' <= c && c <= 'f') || c == '-') {
                assert(!id_char(text@[i as int]));
                return None;
            }
            i = i + 1;
        }
        Some(MessageId(text.to_owned()))
    }

    /// The text of the id.
    pub fn as_str(&self) -> (text: &str)
        ensures
            text@ == self@,
            id_text(self@),
    {
        proof {
            use_type_invariant(self);
        }
        self.0.as_str()
    }
}

impl Clone for MessageId {
    fn clone(&self) -> (id: MessageId)
        ensures
            id@ == self@,
    {
        proof {
            use_type_invariant(self);
        }
        MessageId(self.0.clone())
    }
}

/// Why an envelope was not deposited.
#[non_exhaustive]
#[derive(Debug, PartialEq, Eq)]
pub enum DepositError {
    /// A part of the inbox is a symbolic link.
    SymlinkRejected { path: String },
    /// A filesystem operation failed.
    Io { path: String, source: IoError },
}

/// What the failure holds.
pub enum DepositErrorView {
    SymlinkRejected { path: Seq<char> },
    Io { path: Seq<char>, source: IoErrorView },
}

impl View for DepositError {
    type V = DepositErrorView;

    open spec fn view(&self) -> DepositErrorView {
        match *self {
            DepositError::SymlinkRejected { path } => DepositErrorView::SymlinkRejected {
                path: path@,
            },
            DepositError::Io { path, source } => DepositErrorView::Io {
                path: path@,
                source: source@,
            },
        }
    }
}

impl DepositErrorView {
    /// What a reader is shown.
    pub open spec fn shown(self) -> Seq<char> {
        match self {
            DepositErrorView::SymlinkRejected { path } => "inbox path is a symlink (deposit refused): "@
                + path,
            DepositErrorView::Io { path, source } => "io error at "@ + path + ": "@
                + source.message,
        }
    }
}

impl DepositError {
    /// What a reader is shown.
    pub fn to_string(&self) -> (text: String)
        ensures
            text@ == self@.shown(),
    {
        match self {
            DepositError::SymlinkRejected { path } => {
                let mut text: String = "inbox path is a symlink (deposit refused): ".to_owned();
                text.append(path.as_str());
                text
            },
            DepositError::Io { path, source } => {
                let mut text: String = "io error at ".to_owned();
                text.append(path.as_str());
                text.append(": ");
                text.append(source.message.as_str());
                text
            },
        }
    }
}

/// What has been learned so far about a deposit.
#[derive(Debug, PartialEq, Eq)]
pub struct DepositReplies {
    /// What looking at the inbox, its `tmp` and its `new` told, in this order.
    pub stats: Vec<Result<Stat, IoError>>,
    /// What writing the envelope came to.
    pub written: Option<Result<(), IoError>>,
}

/// What to do next to deposit an envelope.
#[derive(Debug, PartialEq, Eq)]
pub enum DepositNext {
    /// Look at a part of the inbox.
    Stat { path: String },
    /// Write the envelope at once to `path`, by a new file in `dir`.
    Write { path: String, dir: String, mode: u32, bytes: Vec<u8> },
    /// Nothing: the envelope is deposited, or refused.
    Done(Result<(), DepositError>),
}

/// What to do next, with the content of a refusal.
pub enum DepositNextView {
    Stat { path: Seq<char> },
    Write { path: Seq<char>, dir: Seq<char>, mode: u32, bytes: Seq<u8> },
    Deposited,
    Refused(DepositErrorView),
}

impl View for DepositNext {
    type V = DepositNextView;

    open spec fn view(&self) -> DepositNextView {
        match *self {
            DepositNext::Stat { path } => DepositNextView::Stat { path: path@ },
            DepositNext::Write { path, dir, mode, bytes } => DepositNextView::Write {
                path: path@,
                dir: dir@,
                mode,
                bytes: bytes@,
            },
            DepositNext::Done(Ok(())) => DepositNextView::Deposited,
            DepositNext::Done(Err(err)) => DepositNextView::Refused(err@),
        }
    }
}

/// The parts of an inbox that must not be links, in the order they are looked
/// at.
pub open spec fn inbox_parts(inbox: Seq<char>) -> Seq<Seq<char>> {
    seq![inbox, joined_path(inbox, "tmp"@), joined_path(inbox, "new"@)]
}

/// The rule for a deposit from the `i`-th part of the inbox on: each part must
/// be there and not be a link; then the envelope is staged in `tmp` and moved
/// to `new` under its id.
pub open spec fn deposit_rule(
    inbox: Seq<char>,
    id: Seq<char>,
    bytes: Seq<u8>,
    seen: DepositReplies,
    i: int,
) -> DepositNextView
    decreases 3 - i,
{
    if 0 <= i < 3 {
        if i >= seen.stats@.len() {
            DepositNextView::Stat { path: inbox_parts(inbox)[i] }
        } else {
            match seen.stats@[i] {
                Err(e) => DepositNextView::Refused(
                    DepositErrorView::Io { path: inbox_parts(inbox)[i], source: e@ },
                ),
                Ok(stat) => if stat.kind == FileKind::Symlink {
                    DepositNextView::Refused(
                        DepositErrorView::SymlinkRejected { path: inbox_parts(inbox)[i] },
                    )
                } else {
                    deposit_rule(inbox, id, bytes, seen, i + 1)
                },
            }
        }
    } else {
        let path = joined_path(joined_path(inbox, "new"@), id);
        match seen.written {
            None => DepositNextView::Write {
                path,
                dir: joined_path(inbox, "tmp"@),
                mode: ENVELOPE_FILE_MODE,
                bytes,
            },
            Some(Err(e)) => DepositNextView::Refused(DepositErrorView::Io { path, source: e@ }),
            Some(Ok(())) => DepositNextView::Deposited,
        }
    }
}

/// What to do next to deposit the bytes of an envelope with the given id into
/// the inbox.
pub fn deposit_envelope(
    inbox_dir: &str,
    message_id: &MessageId,
    bytes: &Vec<u8>,
    seen: &DepositReplies,
) -> (next: DepositNext)
    ensures
        next@ == deposit_rule(inbox_dir@, message_id@, bytes@, *seen, 0),
{
    let tmp_dir: String = join(inbox_dir, "tmp");
    let new_dir: String = join(inbox_dir, "new");
    let parts: Vec<String> = vec![inbox_dir.to_owned(), tmp_dir, new_dir];
    let mut i: usize = 0;
    while i < parts.len()
        invariant
            parts@.len() == 3,
            parts@[0]@ == inbox_parts(inbox_dir@)[0],
            parts@[1]@ == inbox_parts(inbox_dir@)[1],
            parts@[2]@ == inbox_parts(inbox_dir@)[2],
            i <= 3,
            deposit_rule(inbox_dir@, message_id@, bytes@, *seen, 0) == deposit_rule(
                inbox_dir@,
                message_id@,
                bytes@,
                *seen,
                i as int,
            ),
        decreases parts.len() - i,
    {
        assert(parts@[i as int]@ == inbox_parts(inbox_dir@)[i as int]);
        if i >= seen.stats.len() {
            return DepositNext::Stat { path: parts[i].clone() };
        }
        match &seen.stats[i] {
            Err(err) => {
                return DepositNext::Done(
                    Err(DepositError::Io { path: parts[i].clone(), source: err.clone() }),
                );
            },
            Ok(stat) => {
                if stat.kind == FileKind::Symlink {
                    return DepositNext::Done(
                        Err(DepositError::SymlinkRejected { path: parts[i].clone() }),
                    );
                }
            },
        }
        i = i + 1;
    }
    let path: String = join(parts[2].as_str(), message_id.as_str());
    match &seen.written {
        None => DepositNext::Write {
            path,
            dir: parts[1].clone(),
            mode: ENVELOPE_FILE_MODE,
            bytes: copy_bytes(bytes),
        },
        Some(Err(err)) => DepositNext::Done(Err(DepositError::Io { path, source: err.clone() })),
        Some(Ok(())) => DepositNext::Done(Ok(())),
    }
}

/// Nothing is written to an inbox of which a part is a link or is missing.
pub proof fn law_deposit_follows_no_link(
    inbox: Seq<char>,
    id: Seq<char>,
    bytes: Seq<u8>,
    seen: DepositReplies,
)
    requires
        deposit_rule(inbox, id, bytes, seen, 0) is Write || deposit_rule(
            inbox,
            id,
            bytes,
            seen,
            0,
        ) is Deposited,
    ensures
        seen.stats@.len() >= 3,
        forall|i: int|
            0 <= i < 3 ==> (#[trigger] seen.stats@[i] matches Ok(stat) && stat.kind
                != FileKind::Symlink),
{
    reveal_with_fuel(deposit_rule, 4);
}

/// The text of a message id is a plain file name, so an envelope lands in
/// `new` and nowhere else.
pub proof fn law_message_id_names_a_file(id: Seq<char>)
    requires
        id_text(id),
    ensures
        plain_component(id),
{
    reveal_strlit(".");
    reveal_strlit("..");
    if id.contains('/') {
        let i = choose|i: int| 0 <= i < id.len() && id[i] == '/';
        assert(id_char(id[i]));
    }
    assert(id_char(id[0]));
}

/// An envelope lands where it is meant to: the inbox, its `tmp` and its `new`
/// are looked at in this order, and the bytes that were given go to `new` under
/// the id that was given, by way of `tmp`, for the owner alone. A part that is a
/// link or cannot be looked at refuses it, and is named.
pub proof fn law_envelopes_land_under_their_id(
    inbox: Seq<char>,
    id: Seq<char>,
    bytes: Seq<u8>,
    seen: DepositReplies,
)
    ensures
        ({
            let parts = seq![inbox, joined_path(inbox, "tmp"@), joined_path(inbox, "new"@)];
            let path = joined_path(joined_path(inbox, "new"@), id);
            let k = seen.stats@.len() as int;
            match deposit_rule(inbox, id, bytes, seen, 0) {
                DepositNextView::Stat { path: part } => k < 3 && part == parts[k],
                DepositNextView::Write { path: to, dir, mode, bytes: content } => {
                    &&& to == path
                    &&& dir == joined_path(inbox, "tmp"@)
                    &&& mode == 0o600
                    &&& content == bytes
                    &&& seen.written is None
                },
                DepositNextView::Deposited => seen.written matches Some(Ok(_)),
                DepositNextView::Refused(DepositErrorView::SymlinkRejected { path: part }) => {
                    ||| k > 0 && refused_at(parts, seen, 0, part)
                    ||| k > 1 && refused_at(parts, seen, 1, part)
                    ||| k > 2 && refused_at(parts, seen, 2, part)
                },
                DepositNextView::Refused(DepositErrorView::Io { path: part, source }) => {
                    ||| k > 0 && (seen.stats@[0] matches Err(e) && part == parts[0] && source == e@)
                    ||| k > 1 && (seen.stats@[1] matches Err(e) && part == parts[1] && source == e@)
                    ||| k > 2 && (seen.stats@[2] matches Err(e) && part == parts[2] && source == e@)
                    ||| seen.written matches Some(Err(e)) && part == path && source == e@
                },
            }
        }),
{
    reveal_with_fuel(deposit_rule, 4);
}

/// The `i`-th part is a link, and is the one named.
pub open spec fn refused_at(
    parts: Seq<Seq<char>>,
    seen: DepositReplies,
    i: int,
    part: Seq<char>,
) -> bool {
    part == parts[i] && (seen.stats@[i] matches Ok(stat) && stat.kind == FileKind::Symlink)
}

/// An envelope for an inbox whose parts are all in order is written, and once it
/// is written it is deposited.
pub proof fn law_envelopes_are_deposited(
    inbox: Seq<char>,
    id: Seq<char>,
    bytes: Seq<u8>,
    seen: DepositReplies,
)
    requires
        seen.stats@.len() >= 3,
        forall|i: int|
            0 <= i < 3 ==> (#[trigger] seen.stats@[i] matches Ok(stat) && stat.kind
                != FileKind::Symlink),
    ensures
        seen.written is None ==> deposit_rule(inbox, id, bytes, seen, 0) is Write,
        seen.written matches Some(Ok(_)) ==> deposit_rule(inbox, id, bytes, seen, 0) is Deposited,
        seen.written matches Some(Err(_)) ==> deposit_rule(inbox, id, bytes, seen, 0) is Refused,
{
    reveal_with_fuel(deposit_rule, 4);
    assert(seen.stats@[0] is Ok && seen.stats@[1] is Ok && seen.stats@[2] is Ok);
}

/// What is said of a step of a deposit is said of its own parts, each in its place.
pub proof fn law_deposit_next_is_taken_as_it_is(value: DepositNext)
    ensures
        match value {
            DepositNext::Stat { path } => value@ == (DepositNextView::Stat { path: path@ }),
            DepositNext::Write { path, dir, mode, bytes } => value@ == (DepositNextView::Write {
                path: path@,
                dir: dir@,
                mode,
                bytes: bytes@,
            }),
            DepositNext::Done(Ok(())) => value@ == DepositNextView::Deposited,
            DepositNext::Done(Err(err)) => value@ == DepositNextView::Refused(err@),
        },
{
}

} // verus!
