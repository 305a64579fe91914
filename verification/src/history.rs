//! Rebuilding an agent's conversation from its journal.

use vstd::prelude::*;
use vstd::string::*;
use vstd::utf8::*;

use crate::conversation::{
    entries_view, lemma_blocks_push, lemma_messages_push, messages_view, ContentView,
    ConversationEntry, EntryView, Message, MessageContent, MessageView, Role,
};
use crate::identity::{opt_id, IdentityId};
use crate::io_error::{IoError, IoErrorView, IoKind};
use crate::seen_ids::{remembered, remembered_all, SeenIds};

verus! {

/// An inbound payload as the model reads it: with the sender's identity in
/// front where it is known.
pub open spec fn attributed(sender: Option<Seq<char>>, payload: Seq<char>) -> Seq<char> {
    match sender {
        Some(id) => "[from "@ + id + "]\n"@ + payload,
        None => payload,
    }
}

/// Puts the sender's identity in front of an inbound payload. A payload with
/// no recorded sender is returned unchanged.
pub fn format_inbound_payload(sender_id: &Option<IdentityId>, payload: &str) -> (text: String)
    ensures
        text@ == attributed(opt_id(*sender_id), payload@),
{
    match sender_id {
        Some(id) => {
            let mut text: String = "[from ".to_owned();
            text.append(id.text.as_str());
            text.append("]\n");
            text.append(payload);
            text
        },
        None => payload.to_owned(),
    }
}

// ── Messages ─────────────────────────────────────────────────────────────────

/// The block of content that a journal entry stands for, and who said it.
/// Notes and model calls stand for none.
pub open spec fn block_of(e: EntryView) -> Option<(Role, ContentView)> {
    match e {
        EntryView::Inbound { sender_id, payload, .. } => Some(
            (Role::User, ContentView::Text(attributed(sender_id, payload))),
        ),
        EntryView::Outbound { payload, .. } => Some((Role::Assistant, ContentView::Text(payload))),
        EntryView::ToolUse { tool_use_id, name, input, .. } => Some(
            (Role::Assistant, ContentView::ToolUse { id: tool_use_id, name, input }),
        ),
        EntryView::ToolResult { tool_use_id, content, is_error, .. } => Some(
            (Role::User, ContentView::ToolResult { tool_use_id, content, is_error }),
        ),
        EntryView::System { .. } => None,
        EntryView::ModelCall { .. } => None,
    }
}

/// A history with one more block said by `role`: the block joins the last
/// message where `role` said that one too, else it opens a message.
pub open spec fn with_block(
    history: Seq<MessageView>,
    role: Role,
    block: ContentView,
) -> Seq<MessageView> {
    if history.len() > 0 && history.last().role == role {
        history.drop_last().push(
            MessageView { role, content: history.last().content.push(block) },
        )
    } else {
        history.push(MessageView { role, content: seq![block] })
    }
}

/// The messages that the first `n` entries of a journal stand for.
pub open spec fn merged(entries: Seq<EntryView>, n: int) -> Seq<MessageView>
    decreases n,
{
    if n <= 0 {
        Seq::empty()
    } else {
        match block_of(entries[n - 1]) {
            Some((role, block)) => with_block(merged(entries, n - 1), role, block),
            None => merged(entries, n - 1),
        }
    }
}

/// A history without the user messages at its end.
pub open spec fn without_open_turn(history: Seq<MessageView>) -> Seq<MessageView>
    decreases history.len(),
{
    if history.len() > 0 && history.last().role == Role::User {
        without_open_turn(history.drop_last())
    } else {
        history
    }
}

/// The history that a journal stands for.
pub open spec fn history_of(entries: Seq<EntryView>) -> Seq<MessageView> {
    without_open_turn(merged(entries, entries.len() as int))
}

// ── Completed turns ──────────────────────────────────────────────────────────

/// Where the turn that reaches up to `j` ends: at the next inbound entry from
/// `j` on, or at the end of the journal.
pub open spec fn turn_end(entries: Seq<EntryView>, j: int) -> int
    decreases entries.len() - j,
{
    if j >= entries.len() || entries[j] is Inbound {
        j
    } else {
        turn_end(entries, j + 1)
    }
}

/// Between `start` and `end` a model call was made after which no tool was
/// asked for.
pub open spec fn answered(entries: Seq<EntryView>, start: int, end: int) -> bool {
    exists|m: int| #[trigger] answered_at(entries, start, m, end)
}

/// The model call at `m`, between `start` and `end`, is not followed by a
/// request for a tool.
pub open spec fn answered_at(entries: Seq<EntryView>, start: int, m: int, end: int) -> bool {
    &&& start < m < end
    &&& entries[m] is ModelCall
    &&& forall|k: int| m < k < end ==> !(#[trigger] entries[k] is ToolUse)
}

/// The ids of the completed turns that start within the first `n` entries, in
/// journal order. A turn starts at an inbound entry, and is completed where
/// its last model call is not followed by a request for a tool.
pub open spec fn completed_ids(entries: Seq<EntryView>, n: int) -> Seq<Seq<char>>
    decreases n,
{
    if n <= 0 {
        Seq::empty()
    } else {
        let before = completed_ids(entries, n - 1);
        match entries[n - 1] {
            EntryView::Inbound { message_id, .. } => if answered(
                entries,
                n - 1,
                turn_end(entries, n),
            ) {
                before.push(message_id)
            } else {
                before
            },
            _ => before,
        }
    }
}

proof fn lemma_turn_end(entries: Seq<EntryView>, a: int, b: int)
    requires
        0 <= a <= b <= entries.len(),
        forall|k: int| a <= k < b ==> !(#[trigger] entries[k] is Inbound),
        b == entries.len() || entries[b] is Inbound,
    ensures
        turn_end(entries, a) == b,
    decreases b - a,
{
    if a < b {
        lemma_turn_end(entries, a + 1, b);
    }
}

proof fn lemma_completed_skip(entries: Seq<EntryView>, a: int, b: int)
    requires
        0 <= a <= b <= entries.len(),
        forall|k: int| a <= k < b ==> !(#[trigger] entries[k] is Inbound),
    ensures
        completed_ids(entries, b) == completed_ids(entries, a),
    decreases b - a,
{
    if a < b {
        lemma_completed_skip(entries, a, b - 1);
        assert(!(entries[b - 1] is Inbound));
    }
}

fn add_block(history: &mut Vec<Message>, role: Role, block: MessageContent)
    ensures
        messages_view(final(history)@) == with_block(messages_view(old(history)@), role, block@),
{
    let ghost before: Seq<Message> = history@;
    match history.pop() {
        Some(mut last) => {
            let ghost rest: Seq<Message> = history@;
            assert(messages_view(before).drop_last() =~= messages_view(rest));
            assert(messages_view(before).last() == last@);
            if last.role == role {
                proof {
                    lemma_blocks_push(last.content@, block);
                }
                last.content.push(block);
                proof {
                    lemma_messages_push(rest, last);
                }
                history.push(last);
            } else {
                let fresh: Message = Message { role, content: vec![block] };
                proof {
                    assert(fresh@.content =~= seq![block@]);
                    assert(rest.push(last) =~= before);
                    lemma_messages_push(before, fresh);
                }
                history.push(last);
                history.push(fresh);
            }
        },
        None => {
            let fresh: Message = Message { role, content: vec![block] };
            proof {
                assert(fresh@.content =~= seq![block@]);
                lemma_messages_push(before, fresh);
            }
            history.push(fresh);
        },
    }
}

fn drop_open_turn(history: &mut Vec<Message>)
    ensures
        messages_view(final(history)@) == without_open_turn(messages_view(old(history)@)),
{
    let ghost target: Seq<MessageView> = without_open_turn(messages_view(history@));
    while history.len() > 0 && history[history.len() - 1].role == Role::User
        invariant
            without_open_turn(messages_view(history@)) == target,
        decreases history.len(),
    {
        let ghost before: Seq<Message> = history@;
        let _gone: Option<Message> = history.pop();
        assert(messages_view(before).drop_last() =~= messages_view(history@));
    }
}

/// Rebuilds the history and the completed message ids from the entries of a
/// journal.
///
/// Consecutive entries of one role make one message, as the model was shown
/// them. User messages at the end belong to a turn that was cut short: they
/// are left out, and their envelope is delivered again.
pub fn replay_journal(entries: &Vec<ConversationEntry>) -> (out: (Vec<Message>, SeenIds))
    ensures
        messages_view(out.0@) == history_of(entries_view(entries@)),
        out.1.wf(),
        out.1@ == remembered_all(
            Seq::empty(),
            completed_ids(entries_view(entries@), entries@.len() as int),
        ),
{
    let ghost es: Seq<EntryView> = entries_view(entries@);
    let mut history: Vec<Message> = Vec::new();
    let mut seen_ids: SeenIds = SeenIds::new();
    let mut pending_inbound_id: Option<String> = None;
    let mut model_call_seen: bool = false;
    let mut tool_use_after_last_mc: bool = false;
    let ghost mut start: int = -1;
    assert(messages_view(history@) =~= merged(es, 0));
    let mut n: usize = 0;
    while n < entries.len()
        invariant
            es == entries_view(entries@),
            n <= entries@.len(),
            messages_view(history@) == merged(es, n as int),
            seen_ids.wf(),
            seen_ids@ == remembered_all(
                Seq::empty(),
                completed_ids(es, if start >= 0 { start } else { 0 }),
            ),
            -1 <= start < n,
            forall|k: int| start < k < n ==> !(#[trigger] es[k] is Inbound),
            match pending_inbound_id {
                Some(id) => start >= 0 && (es[start] matches EntryView::Inbound { message_id, .. }
                    && message_id == id@),
                None => start == -1,
            },
            (model_call_seen && !tool_use_after_last_mc) == answered(es, start, n as int),
            model_call_seen ==> exists|m: int| start < m < n && #[trigger] es[m] is ModelCall,
        decreases entries.len() - n,
    {
        let ghost e: EntryView = es[n as int];
        assert(e == entries@[n as int]@);
        match &entries[n] {
            ConversationEntry::Inbound { message_id, sender_id, payload, .. } => {
                let commit: bool = model_call_seen && !tool_use_after_last_mc;
                proof {
                    if start >= 0 {
                        lemma_turn_end(es, start + 1, n as int);
                        lemma_completed_skip(es, start + 1, n as int);
                        let news = completed_ids(es, start + 1);
                        if commit {
                            assert(news.drop_last() =~= completed_ids(es, start));
                        }
                    } else {
                        lemma_completed_skip(es, 0, n as int);
                    }
                }
                if commit {
                    match pending_inbound_id.take() {
                        Some(id) => {
                            seen_ids.insert(id);
                        },
                        None => {},
                    }
                }
                assert(seen_ids@ == remembered_all(Seq::empty(), completed_ids(es, n as int)));
                pending_inbound_id = Some(message_id.clone());
                model_call_seen = false;
                tool_use_after_last_mc = false;
                let text: String = format_inbound_payload(sender_id, payload.as_str());
                add_block(&mut history, Role::User, MessageContent::Text(text));
                proof {
                    start = n as int;
                    assert(!answered(es, start, n + 1));
                }
            },
            ConversationEntry::Outbound { payload, .. } => {
                add_block(&mut history, Role::Assistant, MessageContent::Text(payload.clone()));
                proof {
                    lemma_answered_step(es, start, n as int);
                }
            },
            ConversationEntry::ToolUse { tool_use_id, name, input, .. } => {
                tool_use_after_last_mc = true;
                add_block(
                    &mut history,
                    Role::Assistant,
                    MessageContent::ToolUse {
                        id: tool_use_id.clone(),
                        name: name.clone(),
                        input: input.clone(),
                    },
                );
                proof {
                    lemma_answered_step(es, start, n as int);
                }
            },
            ConversationEntry::ToolResult { tool_use_id, content, is_error, .. } => {
                add_block(
                    &mut history,
                    Role::User,
                    MessageContent::ToolResult {
                        tool_use_id: tool_use_id.clone(),
                        content: content.clone(),
                        is_error: *is_error,
                    },
                );
                proof {
                    lemma_answered_step(es, start, n as int);
                }
            },
            ConversationEntry::System { .. } => {
                proof {
                    lemma_answered_step(es, start, n as int);
                }
            },
            ConversationEntry::ModelCall { .. } => {
                model_call_seen = true;
                tool_use_after_last_mc = false;
                proof {
                    lemma_answered_step(es, start, n as int);
                }
            },
        }
        n = n + 1;
    }
    drop_open_turn(&mut history);
    let commit: bool = model_call_seen && !tool_use_after_last_mc;
    proof {
        if start >= 0 {
            lemma_turn_end(es, start + 1, n as int);
            lemma_completed_skip(es, start + 1, n as int);
            if commit {
                assert(completed_ids(es, start + 1).drop_last() =~= completed_ids(es, start));
            }
        } else {
            lemma_completed_skip(es, 0, n as int);
        }
    }
    if commit {
        match pending_inbound_id.take() {
            Some(id) => {
                seen_ids.insert(id);
            },
            None => {},
        }
    }
    (history, seen_ids)
}

/// How one more entry, which starts no turn, changes whether the turn at
/// `start` is answered.
proof fn lemma_answered_step(es: Seq<EntryView>, start: int, n: int)
    requires
        -1 <= start < n < es.len(),
    ensures
        es[n] is ModelCall ==> answered(es, start, n + 1),
        es[n] is ToolUse ==> !answered(es, start, n + 1),
        !(es[n] is ModelCall) && !(es[n] is ToolUse) ==> answered(es, start, n + 1) == answered(
            es,
            start,
            n,
        ),
{
    if es[n] is ModelCall {
        assert(answered_at(es, start, n, n + 1));
    } else if es[n] is ToolUse {
        assert forall|m: int| !#[trigger] answered_at(es, start, m, n + 1) by {
            if start < m < n + 1 && es[m] is ModelCall {
                assert(es[n] is ToolUse);
            }
        }
    } else {
        if answered(es, start, n) {
            let m = choose|m: int| #[trigger] answered_at(es, start, m, n);
            assert(answered_at(es, start, m, n + 1));
        }
        if answered(es, start, n + 1) {
            let m = choose|m: int| #[trigger] answered_at(es, start, m, n + 1);
            assert(answered_at(es, start, m, n));
        }
    }
}

// ── Journal text ─────────────────────────────────────────────────────────────

/// Where the line that starts at or before `i` ends: at the next line feed
/// from `i` on, or at the end of the text.
pub open spec fn line_end(bytes: Seq<u8>, i: int) -> int
    decreases bytes.len() - i,
{
    if i >= bytes.len() || bytes[i] == 0x0a {
        i
    } else {
        line_end(bytes, i + 1)
    }
}

/// A line without the carriage return at its end.
pub open spec fn without_cr(line: Seq<u8>) -> Seq<u8> {
    if line.len() > 0 && line.last() == 0x0d {
        line.drop_last()
    } else {
        line
    }
}

/// The lines of a text, in order, without the empty ones. A line ends at a
/// line feed, or at a carriage return and a line feed.
pub open spec fn nonempty_lines(bytes: Seq<u8>) -> Seq<Seq<u8>>
    decreases bytes.len(),
{
    if bytes.len() == 0 {
        Seq::empty()
    } else {
        let end = line_end(bytes, 0);
        if 0 <= end < bytes.len() {
            let line = without_cr(bytes.subrange(0, end));
            let rest = nonempty_lines(bytes.subrange(end + 1, bytes.len() as int));
            if line.len() == 0 {
                rest
            } else {
                seq![line] + rest
            }
        } else {
            seq![bytes]
        }
    }
}

/// The bytes of each string of a sequence.
pub open spec fn bytes_of(lines: Seq<&str>) -> Seq<Seq<u8>> {
    lines.map_values(|line: &str| line.spec_bytes())
}

/// A line ends at its first line feed.
pub proof fn lemma_line_end(bytes: Seq<u8>, a: int, b: int)
    requires
        0 <= a <= b <= bytes.len(),
        forall|k: int| a <= k < b ==> #[trigger] bytes[k] != 0x0a,
        b == bytes.len() || bytes[b] == 0x0a,
    ensures
        line_end(bytes, a) == b,
    decreases b - a,
{
    if a < b {
        lemma_line_end(bytes, a + 1, b);
    }
}

proof fn lemma_ascii_boundary(s: &str, i: int)
    requires
        0 <= i < s.spec_bytes().len(),
        s.spec_bytes()[i] < 0x80,
    ensures
        is_char_boundary(s.spec_bytes(), i),
{
    let bytes = s.spec_bytes();
    encode_utf8_valid_utf8(s@);
    is_char_boundary_iff_not_is_continuation_byte(bytes, i);
    utf8_byte_ranges_bitwise(bytes[i]);
}

proof fn lemma_boundary_after_line_feed(s: &str)
    requires
        s.spec_bytes().len() > 0,
        s.spec_bytes()[0] == 0x0a,
    ensures
        is_char_boundary(s.spec_bytes(), 1),
{
    let bytes = s.spec_bytes();
    encode_utf8_valid_utf8(s@);
    reveal_with_fuel(is_char_boundary, 2);
    reveal_with_fuel(valid_utf8, 2);
    utf8_byte_ranges_bitwise(bytes[0]);
}

/// Splits the text of a journal into its lines, without the empty ones.
pub fn journal_lines(content: &str) -> (lines: Vec<&str>)
    ensures
        bytes_of(lines@) == nonempty_lines(content.spec_bytes()),
{
    let mut lines: Vec<&str> = Vec::new();
    let mut rest: &str = content;
    let ghost all: Seq<Seq<u8>> = nonempty_lines(content.spec_bytes());
    assert(bytes_of(lines@) + nonempty_lines(rest.spec_bytes()) =~= all);
    while rest.as_bytes().len() > 0
        invariant
            all == nonempty_lines(content.spec_bytes()),
            bytes_of(lines@) + nonempty_lines(rest.spec_bytes()) == all,
        decreases rest.spec_bytes().len(),
    {
        let ghost done: Seq<&str> = lines@;
        let bytes: &[u8] = rest.as_bytes();
        let mut end: usize = 0;
        while end < bytes.len() && bytes[end] != 0x0a
            invariant
                end <= bytes@.len(),
                forall|k: int| 0 <= k < end ==> #[trigger] bytes@[k] != 0x0a,
            decreases bytes.len() - end,
        {
            end = end + 1;
        }
        proof {
            lemma_line_end(bytes@, 0, end as int);
        }
        if end == bytes.len() {
            proof {
                assert(bytes_of(done.push(rest)) =~= bytes_of(done).push(rest.spec_bytes()));
                assert(bytes_of(done).push(rest.spec_bytes()) =~= all);
            }
            lines.push(rest);
            return lines;
        }
        proof {
            lemma_ascii_boundary(rest, end as int);
        }
        let (line, tail): (&str, &str) = rest.split_at(end);
        proof {
            assert(tail.spec_bytes()[0] == bytes@[end as int]);
            lemma_boundary_after_line_feed(tail);
        }
        let next: &str = tail.split_at(1).1;
        assert(next.spec_bytes() =~= bytes@.subrange(end + 1, bytes@.len() as int));
        let text: &[u8] = line.as_bytes();
        let kept: &str = if end > 0 && text[end - 1] == 0x0d {
            proof {
                lemma_ascii_boundary(line, end - 1);
            }
            line.split_at(end - 1).0
        } else {
            line
        };
        assert(kept.spec_bytes() =~= without_cr(bytes@.subrange(0, end as int)));
        if kept.as_bytes().len() > 0 {
            proof {
                assert(bytes_of(done.push(kept)) =~= bytes_of(done).push(kept.spec_bytes()));
                assert(bytes_of(done).push(kept.spec_bytes()) + nonempty_lines(next.spec_bytes())
                    =~= bytes_of(done) + (seq![kept.spec_bytes()] + nonempty_lines(
                    next.spec_bytes(),
                )));
            }
            lines.push(kept);
        }
        rest = next;
    }
    assert(bytes_of(lines@) =~= all);
    lines
}

/// What reading a journal came to: a failure, or its lines, each parsed or
/// with the parser's complaint.
pub enum JournalRead {
    Unreadable(IoError),
    Lines(Vec<Result<ConversationEntry, String>>),
}

/// Every line of the journal was parsed.
pub open spec fn all_parsed(lines: Seq<Result<ConversationEntry, String>>) -> bool {
    forall|i: int| 0 <= i < lines.len() ==> #[trigger] lines[i] is Ok
}

/// The entries of a journal whose lines were all parsed.
pub open spec fn parsed(lines: Seq<Result<ConversationEntry, String>>) -> Seq<EntryView> {
    lines.map_values(|line: Result<ConversationEntry, String>| line->Ok_0@)
}

/// Rebuilds the history and the completed message ids from what reading the
/// journal came to. A journal that is not found is an agent's first run. The first line
/// that cannot be parsed fails the whole journal.
pub fn load_history_from_journal(journal: &JournalRead) -> (out: Result<
    (Vec<Message>, SeenIds),
    IoError,
>)
    ensures
        match (journal, out) {
            (JournalRead::Unreadable(err), Ok((history, seen))) => err@.kind == IoKind::NotFound
                && history@.len() == 0 && seen@.len() == 0 && seen.wf(),
            (JournalRead::Unreadable(err), Err(e)) => err@.kind != IoKind::NotFound && e@ == err@,
            (JournalRead::Lines(lines), Ok((history, seen))) => {
                &&& all_parsed(lines@)
                &&& messages_view(history@) == history_of(parsed(lines@))
                &&& seen.wf()
                &&& seen@ == remembered_all(
                    Seq::empty(),
                    completed_ids(parsed(lines@), lines@.len() as int),
                )
            },
            (JournalRead::Lines(lines), Err(e)) => exists|i: int|
                0 <= i < lines@.len() && all_parsed(lines@.take(i)) && (#[trigger] lines@[i]
                    matches Err(complaint) && e@ == (IoErrorView {
                    kind: IoKind::InvalidData,
                    message: complaint@,
                })),
        },
{
    match journal {
        JournalRead::Unreadable(err) => {
            if err.is_not_found() {
                let none: Vec<Message> = Vec::new();
                Ok((none, SeenIds::new()))
            } else {
                Err(err.clone())
            }
        },
        JournalRead::Lines(lines) => {
            let mut entries: Vec<ConversationEntry> = Vec::new();
            let mut i: usize = 0;
            while i < lines.len()
                invariant
                    journal matches JournalRead::Lines(l) && l == lines,
                    i <= lines@.len(),
                    all_parsed(lines@.take(i as int)),
                    entries_view(entries@) == parsed(lines@).take(i as int),
                decreases lines.len() - i,
            {
                match &lines[i] {
                    Ok(entry) => {
                        let copy: ConversationEntry = entry.clone();
                        proof {
                            assert(entries_view(entries@.push(copy)) =~= entries_view(entries@).push(
                                copy@,
                            ));
                            assert(parsed(lines@).take(i as int).push(copy@) =~= parsed(lines@).take(
                                i + 1,
                            ));
                            assert forall|k: int| 0 <= k < i + 1 implies #[trigger] lines@.take(i + 1)[k]
                                is Ok by {
                                if k < i {
                                    assert(lines@.take(i as int)[k] is Ok);
                                }
                            }
                        }
                        entries.push(copy);
                    },
                    Err(complaint) => {
                        assert(lines@[i as int] is Err);
                        return Err(IoError::new(IoKind::InvalidData, complaint.as_str()));
                    },
                }
                i = i + 1;
            }
            assert(lines@.take(lines@.len() as int) =~= lines@);
            assert(parsed(lines@).take(lines@.len() as int) =~= parsed(lines@));
            Ok(replay_journal(&entries))
        },
    }
}

// ── Laws ─────────────────────────────────────────────────────────────────────

/// No two neighbouring messages have one role, and no message is empty.
pub open spec fn alternates(history: Seq<MessageView>) -> bool {
    &&& forall|i: int, j: int|
        0 <= i && j == i + 1 && j < history.len() ==> (#[trigger] history[i]).role != (
        #[trigger] history[j]).role
    &&& forall|i: int| 0 <= i < history.len() ==> (#[trigger] history[i]).content.len() > 0
}

/// The rebuilt history alternates between user and assistant, and holds no
/// empty message.
pub proof fn law_history_alternates(entries: Seq<EntryView>, n: int)
    requires
        0 <= n <= entries.len(),
    ensures
        alternates(merged(entries, n)),
    decreases n,
{
    if n > 0 {
        law_history_alternates(entries, n - 1);
        let before = merged(entries, n - 1);
        match block_of(entries[n - 1]) {
            Some((role, block)) => {
                let after = with_block(before, role, block);
                assert forall|i: int, j: int|
                    0 <= i && j == i + 1 && j < after.len() implies (#[trigger] after[i]).role != (
                #[trigger] after[j]).role by {
                    if j < before.len() {
                        assert(before[i].role != before[j].role);
                    }
                }
                assert forall|i: int| 0 <= i < after.len() implies (#[trigger] after[i]).content.len()
                    > 0 by {
                    if i < before.len() {
                        assert(before[i].content.len() > 0);
                    }
                }
            },
            None => {},
        }
    }
}

/// The rebuilt history never ends with a user message, and is the start of
/// the merged one: only a trailing user message is left out.
pub proof fn law_history_ends_answered(entries: Seq<EntryView>)
    ensures
        alternates(history_of(entries)),
        history_of(entries).len() > 0 ==> history_of(entries).last().role == Role::Assistant,
        history_of(entries).is_prefix_of(merged(entries, entries.len() as int)),
        merged(entries, entries.len() as int).len() <= history_of(entries).len() + 1,
{
    let whole = merged(entries, entries.len() as int);
    law_history_alternates(entries, entries.len() as int);
    if whole.len() > 0 && whole.last().role == Role::User {
        let cut = whole.drop_last();
        if cut.len() > 0 {
            assert(whole[cut.len() - 1].role != whole[cut.len() as int].role);
        }
        reveal_with_fuel(without_open_turn, 2);
        assert(history_of(entries) =~= cut);
        assert forall|i: int, j: int| 0 <= i && j == i + 1 && j < cut.len() implies (
        #[trigger] cut[i]).role != (#[trigger] cut[j]).role by {
            assert(whole[i].role != whole[j].role);
        }
        assert forall|i: int| 0 <= i < cut.len() implies (#[trigger] cut[i]).content.len() > 0 by {
            assert(whole[i].content.len() > 0);
        }
    }
}

/// The blocks of a history, in order.
pub open spec fn blocks_in(history: Seq<MessageView>) -> Seq<ContentView>
    decreases history.len(),
{
    if history.len() == 0 {
        Seq::empty()
    } else {
        blocks_in(history.drop_last()) + history.last().content
    }
}

/// The blocks that the first `n` entries stand for, in order.
pub open spec fn journaled_blocks(entries: Seq<EntryView>, n: int) -> Seq<ContentView>
    decreases n,
{
    if n <= 0 {
        Seq::empty()
    } else {
        match block_of(entries[n - 1]) {
            Some((_, block)) => journaled_blocks(entries, n - 1).push(block),
            None => journaled_blocks(entries, n - 1),
        }
    }
}

/// Merging loses nothing and moves nothing: read through, the messages hold
/// exactly the blocks of the journal, in journal order.
pub proof fn law_merging_keeps_blocks(entries: Seq<EntryView>, n: int)
    requires
        0 <= n <= entries.len(),
    ensures
        blocks_in(merged(entries, n)) == journaled_blocks(entries, n),
    decreases n,
{
    if n > 0 {
        law_merging_keeps_blocks(entries, n - 1);
        let before = merged(entries, n - 1);
        match block_of(entries[n - 1]) {
            Some((role, block)) => {
                let after = with_block(before, role, block);
                if before.len() > 0 && before.last().role == role {
                    assert(after.drop_last() =~= before.drop_last());
                    assert(blocks_in(before.drop_last()) + before.last().content.push(block)
                        =~= (blocks_in(before.drop_last()) + before.last().content).push(block));
                } else {
                    assert(after.drop_last() =~= before);
                    assert(blocks_in(before) + seq![block] =~= blocks_in(before).push(block));
                }
            },
            None => {},
        }
    }
}

/// A remembered id is one that was offered.
proof fn lemma_remembered_were_offered(news: Seq<Seq<char>>, id: Seq<char>)
    requires
        remembered_all(Seq::empty(), news).contains(id),
    ensures
        news.contains(id),
    decreases news.len(),
{
    if news.len() > 0 {
        let before = remembered_all(Seq::empty(), news.drop_last());
        let after = remembered(before, news.last());
        let i = choose|i: int| 0 <= i < after.len() && after[i] == id;
        assert(before.push(news.last()).contains(id)) by {
            if before.contains(news.last()) {
                assert(before.push(news.last())[i] == id);
            } else if before.len() >= crate::seen_ids::SEEN_MESSAGE_IDS_CAP {
                assert(before.push(news.last())[i + 1] == id);
            } else {
                assert(before.push(news.last())[i] == id);
            }
        }
        let j = choose|j: int|
            0 <= j < before.push(news.last()).len() && before.push(news.last())[j] == id;
        if j < before.len() {
            assert(before.contains(before[j]));
            lemma_remembered_were_offered(news.drop_last(), id);
            let k = choose|k: int| 0 <= k < news.drop_last().len() && news.drop_last()[k] == id;
            assert(news[k] == id);
        } else {
            assert(news[news.len() - 1] == id);
        }
    }
}

/// A completed id belongs to a completed turn.
proof fn lemma_completed_is_answered(entries: Seq<EntryView>, n: int, id: Seq<char>) -> (at: int)
    requires
        0 <= n <= entries.len(),
        completed_ids(entries, n).contains(id),
    ensures
        0 <= at < n,
        entries[at] matches EntryView::Inbound { message_id, .. } && message_id == id,
        answered(entries, at, turn_end(entries, at + 1)),
    decreases n,
{
    let ids = completed_ids(entries, n);
    let i = choose|i: int| 0 <= i < ids.len() && ids[i] == id;
    let before = completed_ids(entries, n - 1);
    if i < before.len() {
        assert(before[i] == id);
        assert(before.contains(id));
        lemma_completed_is_answered(entries, n - 1, id)
    } else {
        n - 1
    }
}

/// A turn that was cut short is never remembered: every remembered id is that
/// of an inbound entry whose turn was answered, so the envelope of any other
/// is taken up again when it is delivered again.
pub proof fn law_interrupted_turn_is_not_remembered(entries: Seq<EntryView>, id: Seq<char>)
    requires
        forall|i: int|
            0 <= i < entries.len() && (#[trigger] entries[i] matches EntryView::Inbound {
                message_id,
                ..
            } && message_id == id) ==> !answered(entries, i, turn_end(entries, i + 1)),
    ensures
        !remembered_all(Seq::empty(), completed_ids(entries, entries.len() as int)).contains(id),
{
    let news = completed_ids(entries, entries.len() as int);
    if remembered_all(Seq::empty(), news).contains(id) {
        lemma_remembered_were_offered(news, id);
        let at = lemma_completed_is_answered(entries, entries.len() as int, id);
        assert(entries[at] matches EntryView::Inbound { message_id, .. } && message_id == id);
    }
}

/// Where an entry is after one more is put in at `p`.
spec fn moved(i: int, p: int) -> int {
    if i < p {
        i
    } else {
        i + 1
    }
}

/// What a turn's end is: the next inbound entry, or the end of the journal.
proof fn lemma_turn_end_is_next(entries: Seq<EntryView>, j: int)
    requires
        0 <= j <= entries.len(),
    ensures
        j <= turn_end(entries, j) <= entries.len(),
        forall|k: int| j <= k < turn_end(entries, j) ==> !(#[trigger] entries[k] is Inbound),
        turn_end(entries, j) == entries.len() || entries[turn_end(entries, j)] is Inbound,
    decreases entries.len() - j,
{
    if j < entries.len() && !(entries[j] is Inbound) {
        lemma_turn_end_is_next(entries, j + 1);
    }
}

/// A note within a turn moves its end, and leaves it answered or not.
proof fn lemma_note_keeps_turn(entries: Seq<EntryView>, p: int, note: EntryView, q: int)
    requires
        0 <= p <= entries.len(),
        0 <= q < entries.len(),
        note is System,
    ensures
        answered(
            entries.insert(p, note),
            moved(q, p),
            turn_end(entries.insert(p, note), moved(q, p) + 1),
        ) == answered(entries, q, turn_end(entries, q + 1)),
{
    let noted = entries.insert(p, note);
    let start = moved(q, p);
    let end = turn_end(entries, q + 1);
    lemma_turn_end_is_next(entries, q + 1);
    assert forall|k: int| start + 1 <= k < moved(end, p) implies !(#[trigger] noted[k] is Inbound) by {
        if k < p {
            assert(noted[k] == entries[k]);
        } else if k > p {
            assert(noted[k] == entries[k - 1]);
        }
    }
    if end < entries.len() {
        assert(noted[moved(end, p)] == entries[end]);
    }
    lemma_turn_end(noted, start + 1, moved(end, p));
    if answered(entries, q, end) {
        let m = choose|m: int| #[trigger] answered_at(entries, q, m, end);
        assert(noted[moved(m, p)] == entries[m]);
        assert forall|k: int| moved(m, p) < k < moved(end, p) implies !(
        #[trigger] noted[k] is ToolUse) by {
            if k < p {
                assert(noted[k] == entries[k]);
            } else if k > p {
                assert(noted[k] == entries[k - 1]);
            }
        }
        assert(answered_at(noted, start, moved(m, p), moved(end, p)));
    }
    if answered(noted, start, moved(end, p)) {
        let m = choose|m: int| #[trigger] answered_at(noted, start, m, moved(end, p));
        let was = if m < p {
            m
        } else {
            m - 1
        };
        assert(noted[m] == entries[was]);
        assert forall|k: int| was < k < end implies !(#[trigger] entries[k] is ToolUse) by {
            assert(noted[moved(k, p)] == entries[k]);
        }
        assert(answered_at(entries, q, was, end));
    }
}

proof fn lemma_note_keeps_history(entries: Seq<EntryView>, p: int, note: EntryView, n: int)
    requires
        0 <= p <= entries.len(),
        0 <= n <= entries.len(),
        note is System,
    ensures
        n <= p ==> merged(entries.insert(p, note), n) == merged(entries, n),
        n >= p ==> merged(entries.insert(p, note), n + 1) == merged(entries, n),
    decreases n,
{
    let noted = entries.insert(p, note);
    if n > 0 {
        lemma_note_keeps_history(entries, p, note, n - 1);
        assert(noted[moved(n - 1, p)] == entries[n - 1]);
    }
    assert(noted[p] == note);
    if n <= p {
        assert(merged(noted, n) == merged(entries, n));
    }
    if n == p {
        assert(merged(noted, n + 1) == merged(noted, n));
    }
}

proof fn lemma_note_keeps_ids(entries: Seq<EntryView>, p: int, note: EntryView, n: int)
    requires
        0 <= p <= entries.len(),
        0 <= n <= entries.len(),
        note is System,
    ensures
        n <= p ==> completed_ids(entries.insert(p, note), n) == completed_ids(entries, n),
        n >= p ==> completed_ids(entries.insert(p, note), n + 1) == completed_ids(entries, n),
    decreases n,
{
    let noted = entries.insert(p, note);
    if n > 0 {
        lemma_note_keeps_ids(entries, p, note, n - 1);
        assert(noted[moved(n - 1, p)] == entries[n - 1]);
        lemma_note_keeps_turn(entries, p, note, n - 1);
    }
    assert(noted[p] == note);
    if n <= p {
        assert(completed_ids(noted, n) == completed_ids(entries, n));
    }
    if n == p {
        assert(completed_ids(noted, n + 1) == completed_ids(noted, n));
    }
}

/// A system note changes nothing: wherever it stands in the journal, the
/// rebuilt history and the completed ids are those of the journal without it.
pub proof fn law_system_notes_change_nothing(entries: Seq<EntryView>, p: int, note: EntryView)
    requires
        0 <= p <= entries.len(),
        note is System,
    ensures
        history_of(entries.insert(p, note)) == history_of(entries),
        completed_ids(entries.insert(p, note), (entries.len() + 1) as int) == completed_ids(
            entries,
            entries.len() as int,
        ),
{
    lemma_note_keeps_history(entries, p, note, entries.len() as int);
    lemma_note_keeps_ids(entries, p, note, entries.len() as int);
}

/// A text of whole lines: it is empty, or ends with a line feed.
pub open spec fn whole_lines(bytes: Seq<u8>) -> bool {
    bytes.len() == 0 || bytes.last() == 0x0a
}

/// Where a text has a line feed, its first line ends before the text does.
proof fn lemma_line_end_is_first(bytes: Seq<u8>, i: int)
    requires
        0 <= i < bytes.len(),
        bytes.last() == 0x0a,
    ensures
        i <= line_end(bytes, i) < bytes.len(),
        bytes[line_end(bytes, i)] == 0x0a,
        forall|k: int| i <= k < line_end(bytes, i) ==> #[trigger] bytes[k] != 0x0a,
    decreases bytes.len() - i,
{
    if bytes[i] != 0x0a {
        lemma_line_end_is_first(bytes, i + 1);
    }
}

/// The lines of a text that follows whole lines come after theirs.
proof fn lemma_lines_add_up(a: Seq<u8>, b: Seq<u8>)
    requires
        whole_lines(a),
    ensures
        nonempty_lines(a + b) == nonempty_lines(a) + nonempty_lines(b),
    decreases a.len(),
{
    if a.len() == 0 {
        assert(a + b =~= b);
        assert(nonempty_lines(a) + nonempty_lines(b) =~= nonempty_lines(b));
    } else {
        let all = a + b;
        lemma_line_end_is_first(a, 0);
        let end = line_end(a, 0);
        assert forall|k: int| 0 <= k < end implies #[trigger] all[k] != 0x0a by {
            assert(all[k] == a[k]);
        }
        assert(all[end] == a[end]);
        lemma_line_end(all, 0, end);
        let rest = a.subrange(end + 1, a.len() as int);
        assert(all.subrange(0, end) =~= a.subrange(0, end));
        assert(all.subrange(end + 1, all.len() as int) =~= rest + b);
        assert(rest.len() > 0 ==> rest.last() == a.last());
        lemma_lines_add_up(rest, b);
        let line = without_cr(a.subrange(0, end));
        assert(seq![line] + (nonempty_lines(rest) + nonempty_lines(b)) =~= (seq![line]
            + nonempty_lines(rest)) + nonempty_lines(b));
    }
}

/// An empty line changes nothing: wherever it stands between the lines of a
/// journal, with or without a carriage return, the lines that count are those
/// of the text without it.
pub proof fn law_empty_lines_change_nothing(a: Seq<u8>, empty: Seq<u8>, b: Seq<u8>)
    requires
        whole_lines(a),
        empty == seq![0x0au8] || empty == seq![0x0du8, 0x0au8],
    ensures
        nonempty_lines(a + empty + b) == nonempty_lines(a + b),
{
    let end = empty.len() - 1;
    lemma_line_end(empty, 0, end);
    assert(without_cr(empty.subrange(0, end)).len() == 0);
    assert(empty.subrange(end + 1, empty.len() as int) =~= Seq::empty());
    reveal_with_fuel(nonempty_lines, 2);
    assert(nonempty_lines(empty) =~= Seq::empty());
    lemma_lines_add_up(a, empty);
    assert(whole_lines(a + empty));
    lemma_lines_add_up(a + empty, b);
    lemma_lines_add_up(a, b);
    assert(nonempty_lines(a) + Seq::empty() =~= nonempty_lines(a));
}

/// An entry adds to the history what it says and nothing else: a message from
/// someone is a user's text with the sender in front, a reply the model's text, a
/// call and an answer stand with all they hold, and notes add nothing.
pub proof fn law_entries_add_what_they_say(entries: Seq<EntryView>, entry: EntryView)
    ensures
        ({
            let before = merged(entries, entries.len() as int);
            let after = merged(entries.push(entry), (entries.len() + 1) as int);
            let adds = |role: Role, block: ContentView|
                {
                    &&& after.len() > 0
                    &&& after.last().role == role
                    &&& after.last().content.len() > 0
                    &&& after.last().content.last() == block
                    &&& before.len() > 0 && before.last().role == role ==> after.len()
                        == before.len() && after.drop_last() == before.drop_last()
                        && after.last().content.drop_last() == before.last().content
                    &&& before.len() == 0 || before.last().role != role ==> after.drop_last()
                        == before && after.last().content.len() == 1
                };
            match entry {
                EntryView::Inbound { sender_id: Some(sender), payload, .. } => adds(
                    Role::User,
                    ContentView::Text("[from "@ + sender + "]\n"@ + payload),
                ),
                EntryView::Inbound { sender_id: None, payload, .. } => adds(
                    Role::User,
                    ContentView::Text(payload),
                ),
                EntryView::Outbound { payload, .. } => adds(
                    Role::Assistant,
                    ContentView::Text(payload),
                ),
                EntryView::ToolUse { tool_use_id, name, input, .. } => adds(
                    Role::Assistant,
                    ContentView::ToolUse { id: tool_use_id, name, input },
                ),
                EntryView::ToolResult { tool_use_id, content, is_error, .. } => adds(
                    Role::User,
                    ContentView::ToolResult { tool_use_id, content, is_error },
                ),
                EntryView::System { .. } => after == before,
                EntryView::ModelCall { .. } => after == before,
            }
        }),
{
    lemma_merged_keeps_prefix(entries, entry, entries.len() as int);
    let before = merged(entries, entries.len() as int);
    let after = merged(entries.push(entry), (entries.len() + 1) as int);
    assert(entries.push(entry)[entries.len() as int] == entry);
    if let Some((role, block)) = block_of(entry) {
        if before.len() > 0 && before.last().role == role {
            assert(after.drop_last() =~= before.drop_last());
            assert(after.last().content.drop_last() =~= before.last().content);
        } else {
            assert(after.drop_last() =~= before);
        }
    }
}

proof fn lemma_merged_keeps_prefix(entries: Seq<EntryView>, more: EntryView, n: int)
    requires
        0 <= n <= entries.len(),
    ensures
        merged(entries.push(more), n) == merged(entries, n),
    decreases n,
{
    if n > 0 {
        lemma_merged_keeps_prefix(entries, more, n - 1);
        assert(entries.push(more)[n - 1] == entries[n - 1]);
    }
}

/// A message whose turn was completed is among those that are not taken up
/// again: its turn has a model call after which no tool was asked for, before the
/// next message.
pub proof fn law_completed_turn_is_offered(entries: Seq<EntryView>, i: int, m: int)
    requires
        0 <= i < m < entries.len(),
        entries[i] is Inbound,
        entries[m] is ModelCall,
        forall|k: int| i < k <= m ==> !(#[trigger] entries[k] is Inbound),
        forall|k: int|
            m < k < entries.len() ==> #[trigger] quiet_upto(entries, m, k) ==> !(
            entries[k] is ToolUse),
    ensures
        entries[i] matches EntryView::Inbound { message_id, .. } && completed_ids(
            entries,
            entries.len() as int,
        ).contains(message_id),
{
    let end = turn_end(entries, i + 1);
    lemma_turn_end_is_next(entries, i + 1);
    assert(m < end) by {
        if end <= m {
            assert(entries[end] is Inbound);
        }
    }
    assert forall|k: int| m < k < end implies !(#[trigger] entries[k] is ToolUse) by {
        assert(quiet_upto(entries, m, k));
    }
    assert(answered_at(entries, i, m, end));
    assert(answered(entries, i, end));
    lemma_completed_contains(entries, i, entries.len() as int);
}

/// No message arrives after `m` up to and with `k`.
pub open spec fn quiet_upto(entries: Seq<EntryView>, m: int, k: int) -> bool {
    forall|j: int| m < j <= k ==> !(#[trigger] entries[j] is Inbound)
}

proof fn lemma_completed_contains(entries: Seq<EntryView>, i: int, n: int)
    requires
        0 <= i < n <= entries.len(),
        entries[i] is Inbound,
        answered(entries, i, turn_end(entries, i + 1)),
    ensures
        entries[i] matches EntryView::Inbound { message_id, .. } && completed_ids(
            entries,
            n,
        ).contains(message_id),
    decreases n,
{
    if let EntryView::Inbound { message_id, .. } = entries[i] {
        let before = completed_ids(entries, n - 1);
        let after = completed_ids(entries, n);
        if i == n - 1 {
            assert(after[before.len() as int] == message_id);
        } else {
            lemma_completed_contains(entries, i, n - 1);
            let k = choose|k: int| 0 <= k < before.len() && before[k] == message_id;
            assert(after[k] == message_id);
        }
    }
}

} // verus!
