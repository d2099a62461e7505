//! Requests, responses and the events in between.

use vstd::prelude::*;

use crate::text::text_option;

verus! {

/// Who speaks in a message.
#[derive(Debug, Clone, Copy, PartialEq, Eq, Structural)]
pub enum Role {
    User,
    Assistant,
    System,
}

/// One message of a conversation.
pub struct Message {
    pub role: Role,
    /// What the message says, as plain text.
    pub text: String,
}

/// A message, as contracts see it.
pub struct MessageView {
    pub role: Role,
    pub text: Seq<char>,
}

impl View for Message {
    type V = MessageView;

    open spec fn view(&self) -> MessageView {
        MessageView { role: self.role, text: self.text@ }
    }
}

/// What a driver is asked for.
pub struct CompletionRequest {
    /// The model, with or without the provider's prefix.
    pub model: String,
    pub messages: Vec<Message>,
    /// The sampling temperature, written out, if the tool is to be told one.
    pub temperature: Option<String>,
    /// The system prompt.
    pub system: Option<String>,
}

/// A request, as contracts see it.
pub struct RequestView {
    pub model: Seq<char>,
    pub messages: Seq<MessageView>,
    pub temperature: Option<Seq<char>>,
    pub system: Option<Seq<char>>,
}

impl View for CompletionRequest {
    type V = RequestView;

    open spec fn view(&self) -> RequestView {
        RequestView {
            model: self.model@,
            messages: self.messages@.map_values(|m: Message| m@),
            temperature: text_option(self.temperature),
            system: text_option(self.system),
        }
    }
}

/// How many tokens went in and out.
#[derive(Debug, Clone, Copy, PartialEq, Eq, Structural)]
pub struct TokenUsage {
    pub input_tokens: u64,
    pub output_tokens: u64,
}

/// No tokens at all.
pub open spec fn no_usage() -> TokenUsage {
    TokenUsage { input_tokens: 0, output_tokens: 0 }
}

/// Why a response ended.
#[derive(Debug, Clone, Copy, PartialEq, Eq, Structural)]
pub enum StopReason {
    EndTurn,
}

/// A piece of a response.
#[derive(Debug)]
pub enum ContentBlock {
    Text { text: String },
}

/// A response; a tool of this kind never hands back tool calls.
#[derive(Debug)]
pub struct CompletionResponse {
    pub content: Vec<ContentBlock>,
    pub stop_reason: StopReason,
    pub usage: TokenUsage,
}

/// A response, as contracts see it.
pub struct ResponseView {
    pub content: Seq<Seq<char>>,
    pub stop_reason: StopReason,
    pub usage: TokenUsage,
}

impl View for ContentBlock {
    type V = Seq<char>;

    open spec fn view(&self) -> Seq<char> {
        match *self {
            ContentBlock::Text { text } => text@,
        }
    }
}

impl View for CompletionResponse {
    type V = ResponseView;

    open spec fn view(&self) -> ResponseView {
        ResponseView {
            content: self.content@.map_values(|b: ContentBlock| b@),
            stop_reason: self.stop_reason,
            usage: self.usage,
        }
    }
}

/// The response that says `text`, in one block.
pub open spec fn text_response(text: Seq<char>, usage: TokenUsage) -> ResponseView {
    ResponseView { content: seq![text], stop_reason: StopReason::EndTurn, usage }
}

/// Makes the response that says `text`, in one block.
pub fn respond(text: String, usage: TokenUsage) -> (r: CompletionResponse)
    ensures
        r@ == text_response(text@, usage),
{
    let mut content: Vec<ContentBlock> = Vec::new();
    let ghost said = text@;
    content.push(ContentBlock::Text { text });
    let r = CompletionResponse { content, stop_reason: StopReason::EndTurn, usage };
    assert(r@.content =~= seq![said]);
    r
}

/// Why there is no response.
#[derive(Debug)]
pub enum LlmError {
    /// The tool could not be run to its end.
    Http(String),
    /// The tool ran and reported a failure.
    Api { status: u16, message: String },
}

/// An error, as contracts see it.
pub enum ErrorView {
    Http(Seq<char>),
    Api { status: u16, message: Seq<char> },
}

impl View for LlmError {
    type V = ErrorView;

    open spec fn view(&self) -> ErrorView {
        match *self {
            LlmError::Http(m) => ErrorView::Http(m@),
            LlmError::Api { status, message } => ErrorView::Api { status, message: message@ },
        }
    }
}

/// A response or the reason for there being none, as contracts see it.
pub type ReplyView = Result<ResponseView, ErrorView>;

/// The view of a response or an error.
pub open spec fn reply_view(r: Result<CompletionResponse, LlmError>) -> ReplyView {
    match r {
        Ok(response) => Ok(response@),
        Err(e) => Err(e@),
    }
}

/// What a driver tells its listener while a response comes in.
#[derive(Debug)]
pub enum StreamEvent {
    /// More text.
    TextDelta { text: String },
    /// The tool reported something of its own, such as an error.
    ToolExecutionResult { id: String, name: String, result_preview: String, is_error: bool },
    /// The response is complete.
    ContentComplete { stop_reason: StopReason, usage: TokenUsage },
}

/// An event, as contracts see it.
pub enum StreamEventView {
    TextDelta { text: Seq<char> },
    ToolExecutionResult {
        id: Seq<char>,
        name: Seq<char>,
        result_preview: Seq<char>,
        is_error: bool,
    },
    ContentComplete { stop_reason: StopReason, usage: TokenUsage },
}

impl View for StreamEvent {
    type V = StreamEventView;

    open spec fn view(&self) -> StreamEventView {
        match *self {
            StreamEvent::TextDelta { text } => StreamEventView::TextDelta { text: text@ },
            StreamEvent::ToolExecutionResult { id, name, result_preview, is_error } => {
                StreamEventView::ToolExecutionResult {
                    id: id@,
                    name: name@,
                    result_preview: result_preview@,
                    is_error,
                }
            },
            StreamEvent::ContentComplete { stop_reason, usage } => {
                StreamEventView::ContentComplete { stop_reason, usage }
            },
        }
    }
}

/// The views of events.
pub open spec fn event_views(events: Seq<StreamEvent>) -> Seq<StreamEventView> {
    events.map_values(|e: StreamEvent| e@)
}

/// The event that carries the error `message` of the tool `name`.
pub open spec fn error_event(name: Seq<char>, message: Seq<char>) -> StreamEventView {
    StreamEventView::ToolExecutionResult {
        id: Seq::empty(),
        name,
        result_preview: message,
        is_error: true,
    }
}

/// Makes the event that carries the error `message` of the tool `name`.
pub(crate) fn error_report(name: &str, message: String) -> (r: StreamEvent)
    ensures
        r@ == error_event(name@, message@),
{
    StreamEvent::ToolExecutionResult {
        id: String::new(),
        name: name.to_string(),
        result_preview: message,
        is_error: true,
    }
}

} // verus!
