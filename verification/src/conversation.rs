//! Conversation data: the messages a model reads, and the journal entries
//! that record a conversation.

use vstd::prelude::*;

use crate::identity::{opt_id, IdentityId, Timestamp};

verus! {

/// Who speaks in a message.
#[derive(Debug, Clone, Copy, PartialEq, Eq, Structural)]
pub enum Role {
    User,
    Assistant,
}

/// One block of a message's content. Tool input is held as JSON text.
#[derive(Debug, PartialEq, Eq)]
pub enum MessageContent {
    Text(String),
    ToolUse { id: String, name: String, input: String },
    ToolResult { tool_use_id: String, content: String, is_error: bool },
}

/// What a block of content holds.
pub enum ContentView {
    Text(Seq<char>),
    ToolUse { id: Seq<char>, name: Seq<char>, input: Seq<char> },
    ToolResult { tool_use_id: Seq<char>, content: Seq<char>, is_error: bool },
}

impl View for MessageContent {
    type V = ContentView;

    open spec fn view(&self) -> ContentView {
        match *self {
            MessageContent::Text(t) => ContentView::Text(t@),
            MessageContent::ToolUse { id, name, input } => ContentView::ToolUse {
                id: id@,
                name: name@,
                input: input@,
            },
            MessageContent::ToolResult { tool_use_id, content, is_error } => ContentView::ToolResult {
                tool_use_id: tool_use_id@,
                content: content@,
                is_error,
            },
        }
    }
}

impl Clone for MessageContent {
    fn clone(&self) -> (block: MessageContent)
        ensures
            block@ == self@,
    {
        match self {
            MessageContent::Text(t) => MessageContent::Text(t.clone()),
            MessageContent::ToolUse { id, name, input } => MessageContent::ToolUse {
                id: id.clone(),
                name: name.clone(),
                input: input.clone(),
            },
            MessageContent::ToolResult { tool_use_id, content, is_error } => MessageContent::ToolResult {
                tool_use_id: tool_use_id.clone(),
                content: content.clone(),
                is_error: *is_error,
            },
        }
    }
}

/// What each block of a sequence holds.
pub open spec fn blocks_view(v: Seq<MessageContent>) -> Seq<ContentView> {
    v.map_values(|b: MessageContent| b@)
}

/// The last of the blocks is the one added last.
pub proof fn lemma_blocks_push(v: Seq<MessageContent>, b: MessageContent)
    ensures
        blocks_view(v.push(b)) == blocks_view(v).push(b@),
{
    assert(blocks_view(v.push(b)) =~= blocks_view(v).push(b@));
}

/// One message of the history that a model reads.
#[derive(Debug, PartialEq, Eq)]
pub struct Message {
    pub role: Role,
    pub content: Vec<MessageContent>,
}

/// What a message holds.
pub struct MessageView {
    pub role: Role,
    pub content: Seq<ContentView>,
}

impl View for Message {
    type V = MessageView;

    open spec fn view(&self) -> MessageView {
        MessageView { role: self.role, content: blocks_view(self.content@) }
    }
}

/// What each message of a sequence holds.
pub open spec fn messages_view(v: Seq<Message>) -> Seq<MessageView> {
    v.map_values(|m: Message| m@)
}

/// The last of the messages is the one added last.
pub proof fn lemma_messages_push(v: Seq<Message>, m: Message)
    ensures
        messages_view(v.push(m)) == messages_view(v).push(m@),
{
    assert(messages_view(v.push(m)) =~= messages_view(v).push(m@));
}

/// A copy of each block, in order.
pub fn copy_blocks(v: &Vec<MessageContent>) -> (copy: Vec<MessageContent>)
    ensures
        blocks_view(copy@) == blocks_view(v@),
{
    let mut copy: Vec<MessageContent> = Vec::new();
    let mut i: usize = 0;
    while i < v.len()
        invariant
            i <= v@.len(),
            blocks_view(copy@) == blocks_view(v@).take(i as int),
        decreases v.len() - i,
    {
        let block: MessageContent = v[i].clone();
        proof {
            lemma_blocks_push(copy@, block);
            assert(blocks_view(v@).take(i as int).push(block@) =~= blocks_view(v@).take(i + 1));
        }
        copy.push(block);
        i = i + 1;
    }
    assert(blocks_view(v@).take(v@.len() as int) =~= blocks_view(v@));
    copy
}

impl Clone for Message {
    fn clone(&self) -> (message: Message)
        ensures
            message@ == self@,
    {
        Message { role: self.role, content: copy_blocks(&self.content) }
    }
}

/// A copy of each message, in order.
pub fn copy_messages(v: &Vec<Message>) -> (copy: Vec<Message>)
    ensures
        messages_view(copy@) == messages_view(v@),
{
    let mut copy: Vec<Message> = Vec::new();
    let mut i: usize = 0;
    while i < v.len()
        invariant
            i <= v@.len(),
            messages_view(copy@) == messages_view(v@).take(i as int),
        decreases v.len() - i,
    {
        let m: Message = v[i].clone();
        proof {
            lemma_messages_push(copy@, m);
            assert(messages_view(v@).take(i as int).push(m@) =~= messages_view(v@).take(i + 1));
        }
        copy.push(m);
        i = i + 1;
    }
    assert(messages_view(v@).take(v@.len() as int) =~= messages_view(v@));
    copy
}

/// One record of the append-only conversation journal.
///
/// Entries that predate sender attribution have no `sender_id`. Tool input is
/// held as JSON text.
#[derive(Debug, PartialEq, Eq)]
pub enum ConversationEntry {
    /// An inbound envelope was taken up.
    Inbound {
        message_id: String,
        sender_id: Option<IdentityId>,
        payload: String,
        timestamp_utc: Timestamp,
    },
    /// The assistant replied with text.
    Outbound { payload: String, timestamp_utc: Timestamp },
    /// A model call completed.
    ModelCall { input_tokens: u32, output_tokens: u32, model: String, timestamp_utc: Timestamp },
    /// A note by the runtime.
    System { message: String, timestamp_utc: Timestamp },
    /// The assistant asked for a tool call.
    ToolUse { tool_use_id: String, name: String, input: String, timestamp_utc: Timestamp },
    /// A tool call was answered.
    ToolResult { tool_use_id: String, content: String, is_error: bool, timestamp_utc: Timestamp },
}

/// What a journal entry holds.
pub enum EntryView {
    Inbound {
        message_id: Seq<char>,
        sender_id: Option<Seq<char>>,
        payload: Seq<char>,
        timestamp_utc: Timestamp,
    },
    Outbound { payload: Seq<char>, timestamp_utc: Timestamp },
    ModelCall { input_tokens: u32, output_tokens: u32, model: Seq<char>, timestamp_utc: Timestamp },
    System { message: Seq<char>, timestamp_utc: Timestamp },
    ToolUse { tool_use_id: Seq<char>, name: Seq<char>, input: Seq<char>, timestamp_utc: Timestamp },
    ToolResult {
        tool_use_id: Seq<char>,
        content: Seq<char>,
        is_error: bool,
        timestamp_utc: Timestamp,
    },
}

impl View for ConversationEntry {
    type V = EntryView;

    open spec fn view(&self) -> EntryView {
        match *self {
            ConversationEntry::Inbound { message_id, sender_id, payload, timestamp_utc } => EntryView::Inbound {
                message_id: message_id@,
                sender_id: opt_id(sender_id),
                payload: payload@,
                timestamp_utc,
            },
            ConversationEntry::Outbound { payload, timestamp_utc } => EntryView::Outbound {
                payload: payload@,
                timestamp_utc,
            },
            ConversationEntry::ModelCall { input_tokens, output_tokens, model, timestamp_utc } => EntryView::ModelCall {
                input_tokens,
                output_tokens,
                model: model@,
                timestamp_utc,
            },
            ConversationEntry::System { message, timestamp_utc } => EntryView::System {
                message: message@,
                timestamp_utc,
            },
            ConversationEntry::ToolUse { tool_use_id, name, input, timestamp_utc } => EntryView::ToolUse {
                tool_use_id: tool_use_id@,
                name: name@,
                input: input@,
                timestamp_utc,
            },
            ConversationEntry::ToolResult { tool_use_id, content, is_error, timestamp_utc } => EntryView::ToolResult {
                tool_use_id: tool_use_id@,
                content: content@,
                is_error,
                timestamp_utc,
            },
        }
    }
}

impl Clone for ConversationEntry {
    fn clone(&self) -> (entry: ConversationEntry)
        ensures
            entry@ == self@,
    {
        match self {
            ConversationEntry::Inbound { message_id, sender_id, payload, timestamp_utc } => ConversationEntry::Inbound {
                message_id: message_id.clone(),
                sender_id: match sender_id {
                    Some(id) => Some(id.clone()),
                    None => None,
                },
                payload: payload.clone(),
                timestamp_utc: *timestamp_utc,
            },
            ConversationEntry::Outbound { payload, timestamp_utc } => ConversationEntry::Outbound {
                payload: payload.clone(),
                timestamp_utc: *timestamp_utc,
            },
            ConversationEntry::ModelCall { input_tokens, output_tokens, model, timestamp_utc } => ConversationEntry::ModelCall {
                input_tokens: *input_tokens,
                output_tokens: *output_tokens,
                model: model.clone(),
                timestamp_utc: *timestamp_utc,
            },
            ConversationEntry::System { message, timestamp_utc } => ConversationEntry::System {
                message: message.clone(),
                timestamp_utc: *timestamp_utc,
            },
            ConversationEntry::ToolUse { tool_use_id, name, input, timestamp_utc } => ConversationEntry::ToolUse {
                tool_use_id: tool_use_id.clone(),
                name: name.clone(),
                input: input.clone(),
                timestamp_utc: *timestamp_utc,
            },
            ConversationEntry::ToolResult { tool_use_id, content, is_error, timestamp_utc } => ConversationEntry::ToolResult {
                tool_use_id: tool_use_id.clone(),
                content: content.clone(),
                is_error: *is_error,
                timestamp_utc: *timestamp_utc,
            },
        }
    }
}

/// What each entry of a journal holds.
pub open spec fn entries_view(v: Seq<ConversationEntry>) -> Seq<EntryView> {
    v.map_values(|e: ConversationEntry| e@)
}

impl EntryView {
    /// The tag that marks the entry in the journal.
    pub open spec fn tag_text(self) -> Seq<char> {
        match self {
            EntryView::Inbound { .. } => "inbound"@,
            EntryView::Outbound { .. } => "outbound"@,
            EntryView::ModelCall { .. } => "model_call"@,
            EntryView::System { .. } => "system"@,
            EntryView::ToolUse { .. } => "tool_use"@,
            EntryView::ToolResult { .. } => "tool_result"@,
        }
    }
}

impl ConversationEntry {
    /// The tag that marks the entry in the journal.
    pub fn type_tag(&self) -> (tag: &'static str)
        ensures
            tag@ == self@.tag_text(),
    {
        match self {
            ConversationEntry::Inbound { .. } => "inbound",
            ConversationEntry::Outbound { .. } => "outbound",
            ConversationEntry::ModelCall { .. } => "model_call",
            ConversationEntry::System { .. } => "system",
            ConversationEntry::ToolUse { .. } => "tool_use",
            ConversationEntry::ToolResult { .. } => "tool_result",
        }
    }
}

/// What is said of a block is said of its own parts, each in its place.
pub proof fn law_message_content_is_taken_as_it_is(value: MessageContent)
    ensures
        match value {
            MessageContent::Text(t) => value@ == ContentView::Text(t@),
            MessageContent::ToolUse { id, name, input } => value@ == (ContentView::ToolUse {
                id: id@,
                name: name@,
                input: input@,
            }),
            MessageContent::ToolResult { tool_use_id, content, is_error } => value@ == (ContentView::ToolResult {
                tool_use_id: tool_use_id@,
                content: content@,
                is_error,
            }),
        },
{
}

/// What is said of a message is said of its own parts, each in its place.
pub proof fn law_message_is_taken_as_it_is(value: Message)
    ensures
        value@.role == value.role,
        value@.content == blocks_view(value.content@),
{
}

/// What is said of a journal entry is said of its own parts, each in its place.
pub proof fn law_conversation_entry_is_taken_as_it_is(value: ConversationEntry)
    ensures
        match value {
            ConversationEntry::Inbound { message_id, sender_id, payload, timestamp_utc } => value@ == (EntryView::Inbound {
                message_id: message_id@,
                sender_id: opt_id(sender_id),
                payload: payload@,
                timestamp_utc,
            }),
            ConversationEntry::Outbound { payload, timestamp_utc } => value@ == (EntryView::Outbound {
                payload: payload@,
                timestamp_utc,
            }),
            ConversationEntry::ModelCall { input_tokens, output_tokens, model, timestamp_utc } => value@ == (EntryView::ModelCall {
                input_tokens,
                output_tokens,
                model: model@,
                timestamp_utc,
            }),
            ConversationEntry::System { message, timestamp_utc } => value@ == (EntryView::System {
                message: message@,
                timestamp_utc,
            }),
            ConversationEntry::ToolUse { tool_use_id, name, input, timestamp_utc } => value@ == (EntryView::ToolUse {
                tool_use_id: tool_use_id@,
                name: name@,
                input: input@,
                timestamp_utc,
            }),
            ConversationEntry::ToolResult { tool_use_id, content, is_error, timestamp_utc } => value@ == (EntryView::ToolResult {
                tool_use_id: tool_use_id@,
                content: content@,
                is_error,
                timestamp_utc,
            }),
        },
{
}

/// No two kinds of entry have one tag.
pub proof fn law_tags_tell_entries_apart(a: EntryView, b: EntryView)
    requires
        a.tag_text() == b.tag_text(),
    ensures
        a is Inbound <==> b is Inbound,
        a is Outbound <==> b is Outbound,
        a is ModelCall <==> b is ModelCall,
        a is System <==> b is System,
        a is ToolUse <==> b is ToolUse,
        a is ToolResult <==> b is ToolResult,
{
    reveal_strlit("inbound");
    reveal_strlit("outbound");
    reveal_strlit("model_call");
    reveal_strlit("system");
    reveal_strlit("tool_use");
    reveal_strlit("tool_result");
    assert("inbound"@.len() == 7);
    assert("outbound"@.len() == 8);
    assert("model_call"@.len() == 10);
    assert("system"@.len() == 6);
    assert("tool_use"@.len() == 8);
    assert("tool_result"@.len() == 11);
    assert("outbound"@[0] == 'o');
    assert("tool_use"@[0] == 't');
}

} // verus!
