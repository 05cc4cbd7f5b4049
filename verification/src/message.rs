//! Conversations as the agent holds them, and the events a reply streams.

use crate::json::{Json, JsonView};
use vstd::prelude::*;

verus! {

/// Who wrote a message.
#[derive(Clone, Copy, Debug, PartialEq, Eq, Structural)]
pub enum Role {
    User,
    Assistant,
}

/// One block of a message.
#[derive(Debug)]
pub enum ContentBlock {
    Text { text: String },
    Image { media_type: String, data: String },
    ToolUse { id: String, name: String, input: Json },
    ToolResult { tool_use_id: String, content: String, is_error: Option<bool> },
    /// A block that Copilot's chat route has no place for.
    Other,
}

/// One message of a conversation.
#[derive(Debug)]
pub struct ChatMessage {
    pub role: Role,
    pub content: Vec<ContentBlock>,
}

/// A tool that the model may call.
#[derive(Debug)]
pub struct ToolDefinition {
    pub name: String,
    pub description: String,
    pub input_schema: Json,
}

/// The model of [`ContentBlock`].
pub enum BlockView {
    Text { text: Seq<char> },
    Image { media_type: Seq<char>, data: Seq<char> },
    ToolUse { id: Seq<char>, name: Seq<char>, input: JsonView },
    ToolResult { tool_use_id: Seq<char>, content: Seq<char>, is_error: Option<bool> },
    Other,
}

/// The model of [`ChatMessage`].
pub struct MessageView {
    pub role: Role,
    pub content: Seq<BlockView>,
}

impl View for ContentBlock {
    type V = BlockView;

    open spec fn view(&self) -> BlockView {
        match *self {
            ContentBlock::Text { text } => BlockView::Text { text: text@ },
            ContentBlock::Image { media_type, data } => BlockView::Image {
                media_type: media_type@,
                data: data@,
            },
            ContentBlock::ToolUse { id, name, input } => BlockView::ToolUse {
                id: id@,
                name: name@,
                input: input@,
            },
            ContentBlock::ToolResult { tool_use_id, content, is_error } => BlockView::ToolResult {
                tool_use_id: tool_use_id@,
                content: content@,
                is_error,
            },
            ContentBlock::Other => BlockView::Other,
        }
    }
}

/// The models of the blocks of a message.
pub open spec fn block_views(blocks: Seq<ContentBlock>) -> Seq<BlockView> {
    blocks.map_values(|b: ContentBlock| b@)
}

impl View for ChatMessage {
    type V = MessageView;

    open spec fn view(&self) -> MessageView {
        MessageView { role: self.role, content: block_views(self.content@) }
    }
}

/// The models of the messages of a conversation.
pub open spec fn message_views(messages: Seq<ChatMessage>) -> Seq<MessageView> {
    messages.map_values(|m: ChatMessage| m@)
}

/// How far a request has come.
#[derive(Clone, Copy, Debug, PartialEq, Eq, Structural)]
pub enum ConnectionPhase {
    Retrying { attempt: u32, max: u32 },
    Streaming,
}

/// Something that a reply's stream tells the consumer, with texts of type `S`.
#[derive(Debug, PartialEq)]
pub enum Event<S> {
    TextDelta(S),
    ToolUseStart { id: S, name: S },
    ToolInputDelta(S),
    ToolUseEnd,
    ThinkingStart,
    ThinkingDelta(S),
    ThinkingSignatureDelta(S),
    ThinkingEnd,
    MessageEnd { stop_reason: Option<S> },
    TokenUsage {
        input_tokens: Option<u64>,
        output_tokens: Option<u64>,
        cache_creation_input_tokens: Option<u64>,
        cache_read_input_tokens: Option<u64>,
    },
    ConnectionType { connection: S },
    ConnectionPhase { phase: ConnectionPhase },
    StatusDetail { detail: S },
    Error { message: S, retry_after_secs: Option<u64> },
    RetryRollback { attempt: u32, max: u32 },
}

/// Something that a reply's stream tells the consumer.
pub type StreamEvent = Event<String>;

/// The model of [`StreamEvent`].
pub type EventView = Event<Seq<char>>;

/// The model of a text that may be absent.
pub open spec fn text_option(t: Option<String>) -> Option<Seq<char>> {
    match t {
        Some(t) => Some(t@),
        None => None,
    }
}

impl View for Event<String> {
    type V = Event<Seq<char>>;

    open spec fn view(&self) -> Event<Seq<char>> {
        match *self {
            Event::TextDelta(t) => Event::TextDelta(t@),
            Event::ToolUseStart { id, name } => Event::ToolUseStart { id: id@, name: name@ },
            Event::ToolInputDelta(t) => Event::ToolInputDelta(t@),
            Event::ToolUseEnd => Event::ToolUseEnd,
            Event::ThinkingStart => Event::ThinkingStart,
            Event::ThinkingDelta(t) => Event::ThinkingDelta(t@),
            Event::ThinkingSignatureDelta(t) => Event::ThinkingSignatureDelta(t@),
            Event::ThinkingEnd => Event::ThinkingEnd,
            Event::MessageEnd { stop_reason } => Event::MessageEnd {
                stop_reason: text_option(stop_reason),
            },
            Event::TokenUsage {
                input_tokens,
                output_tokens,
                cache_creation_input_tokens,
                cache_read_input_tokens,
            } => Event::TokenUsage {
                input_tokens,
                output_tokens,
                cache_creation_input_tokens,
                cache_read_input_tokens,
            },
            Event::ConnectionType { connection } => Event::ConnectionType {
                connection: connection@,
            },
            Event::ConnectionPhase { phase } => Event::ConnectionPhase { phase },
            Event::StatusDetail { detail } => Event::StatusDetail { detail: detail@ },
            Event::Error { message, retry_after_secs } => Event::Error {
                message: message@,
                retry_after_secs,
            },
            Event::RetryRollback { attempt, max } => Event::RetryRollback { attempt, max },
        }
    }
}

/// The models of a list of events.
pub open spec fn event_views(events: Seq<StreamEvent>) -> Seq<EventView> {
    events.map_values(|e: StreamEvent| e@)
}

/// Adds `event` to the events sent so far.
pub fn emit(events: &mut Vec<StreamEvent>, event: StreamEvent)
    ensures
        event_views(final(events)@) == event_views(old(events)@).push(event@),
{
    let ghost before = events@;
    events.push(event);
    assert(event_views(events@) =~= event_views(before).push(event@));
}

} // verus!
