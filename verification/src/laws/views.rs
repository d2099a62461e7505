//! Laws on what contracts see: all that the values hold, and nothing else.

use vstd::prelude::*;

use crate::codex_cli::CodexParseResult;
use crate::command::{Command, EnvEdit, EnvEditView};
use crate::gemini_cli::GeminiParseResult;
use crate::json::{
    json_option, json_views, lemma_array_view, lemma_object_view, value_option, Json, JsonNumber,
    JsonView,
};
use crate::message::{
    event_views, reply_view, CompletionRequest, CompletionResponse, ContentBlock, ErrorView,
    LlmError, ReplyView, StreamEvent, StreamEventView,
};
use crate::run::{
    action_views, ActionView, CompletionInput, CompletionInputView, CompletionRun, RunAction,
    StreamInput, StreamInputView, StreamRun,
};
use crate::stream::StreamProgress;
use crate::text::{text_option, texts};

verus! {

/// An optional text is seen as it is.
pub proof fn law_optional_texts_are_seen(s: String)
    ensures
        text_option(Some(s)) == Some(s@),
        text_option(None) is None,
{
}

/// Texts are seen one by one, in order.
pub proof fn law_texts_are_seen(strings: Seq<String>, i: int)
    requires
        0 <= i < strings.len(),
    ensures
        texts(strings).len() == strings.len(),
        texts(strings)[i] == strings[i]@,
{
}

/// A request is seen with its model, temperature, system prompt and all its messages.
pub proof fn law_requests_are_seen(request: CompletionRequest, i: int)
    ensures
        request@.model == request.model@,
        request@.temperature == text_option(request.temperature),
        request@.system == text_option(request.system),
        request@.messages.len() == request.messages@.len(),
        0 <= i < request.messages@.len() ==> request@.messages[i].role == request.messages@[i].role
            && request@.messages[i].text == request.messages@[i].text@,
{
}

/// A response is seen with all its blocks, how it ended and its counts.
pub proof fn law_responses_are_seen(response: CompletionResponse, i: int)
    ensures
        response@.stop_reason == response.stop_reason,
        response@.usage == response.usage,
        response@.content.len() == response.content@.len(),
        0 <= i < response.content@.len() ==> response.content@[i] == (ContentBlock::Text {
            text: response.content@[i]->text,
        }) && response@.content[i] == response.content@[i]->text@,
        reply_view(Ok(response)) == ReplyView::Ok(response@),
{
}

/// An error is seen with its status and message.
pub proof fn law_errors_are_seen(message: String, status: u16, error: LlmError)
    ensures
        LlmError::Http(message)@ == ErrorView::Http(message@),
        (LlmError::Api { status, message })@ == (ErrorView::Api { status, message: message@ }),
        reply_view(Err(error)) == ReplyView::Err(error@),
{
}

/// An event for the listener is seen with all that it carries, and events in order.
pub proof fn law_stream_events_are_seen(event: StreamEvent, events: Seq<StreamEvent>, i: int)
    ensures
        event matches StreamEvent::TextDelta { text } ==> event@ == (StreamEventView::TextDelta {
            text: text@,
        }),
        event matches StreamEvent::ToolExecutionResult { id, name, result_preview, is_error }
            ==> event@ == (StreamEventView::ToolExecutionResult {
            id: id@,
            name: name@,
            result_preview: result_preview@,
            is_error,
        }),
        event matches StreamEvent::ContentComplete { stop_reason, usage } ==> event@ == (
        StreamEventView::ContentComplete { stop_reason, usage }),
        event_views(events).len() == events.len(),
        0 <= i < events.len() ==> event_views(events)[i] == events[i]@,
{
}

/// A command is seen with its program, arguments and changes to the environment, in order.
pub proof fn law_commands_are_seen(command: Command, i: int)
    ensures
        command@.program == command.program@,
        command@.stdin_piped == command.stdin_piped,
        command@.args == texts(command.args@),
        command@.env.len() == command.env@.len(),
        0 <= i < command.env@.len() ==> (command.env@[i] matches EnvEdit::Assign { name, value }
            ==> command@.env[i] == (EnvEditView::Assign { name: name@, value: value@ })),
        0 <= i < command.env@.len() ==> (command.env@[i] matches EnvEdit::Remove { name }
            ==> command@.env[i] == (EnvEditView::Remove { name: name@ })),
{
}

/// What output says is seen with all its parts.
pub proof fn law_results_are_seen(codex: CodexParseResult, gemini: GeminiParseResult)
    ensures
        codex@.session_id == text_option(codex.session_id),
        codex@.final_text == text_option(codex.final_text),
        codex@.error_message == text_option(codex.error_message),
        codex@.usage == codex.usage,
        gemini@.session_id == text_option(gemini.session_id),
        gemini@.final_text == text_option(gemini.final_text),
        gemini@.error_message == text_option(gemini.error_message),
        gemini@.usage == gemini.usage,
        gemini@.cost_usd == text_option(gemini.cost_usd),
{
}

/// A JSON value is seen as the tree that it is.
pub proof fn law_json_is_seen(
    b: bool,
    number: JsonNumber,
    s: String,
    items: Vec<Json>,
    members: Vec<(String, Json)>,
    i: int,
)
    ensures
        Json::Null@ == JsonView::Null,
        Json::Bool(b)@ == JsonView::Bool(b),
        Json::Number(number)@ == (JsonView::Number {
            unsigned: number.unsigned,
            text: number.text@,
        }),
        Json::Str(s)@ == JsonView::Str(s@),
        Json::Array(items)@ matches JsonView::Array(seen) && seen.len() == items@.len() && (0 <= i
            < items@.len() ==> seen[i] == items@[i]@),
        Json::Object(members)@ matches JsonView::Object(seen) && seen.len() == members@.len() && (0
            <= i < members@.len() ==> seen[i] == (members@[i].0@, members@[i].1@)),
{
    lemma_array_view(items);
    lemma_object_view(members);
}

/// JSON values are seen one by one, in order, and where there is none, none is seen.
pub proof fn law_json_values_are_seen(values: Seq<Json>, value: Json, i: int)
    requires
        0 <= i < values.len(),
    ensures
        json_views(values).len() == values.len(),
        json_views(values)[i] == values[i]@,
        value_option(Some(value)) == Some(value@),
        value_option(None) is None,
        json_option(Some(&value)) == Some(value@),
        json_option(None) is None,
{
}

/// An action is seen with all that it carries, and actions in order.
pub proof fn law_actions_are_seen(action: RunAction, actions: Seq<RunAction>, i: int)
    ensures
        action matches RunAction::Track { label, pid } ==> action@ == (ActionView::Track {
            label: label@,
            pid,
        }),
        action matches RunAction::Untrack { label } ==> action@ == (ActionView::Untrack {
            label: label@,
        }),
        action matches RunAction::WriteStdin { text } ==> action@ == (ActionView::WriteStdin {
            text: text@,
        }),
        action matches RunAction::AwaitExit { timeout_secs } ==> action@ == (
        ActionView::AwaitExit { timeout_secs }),
        action matches RunAction::ReadLines { timeout_secs } ==> action@ == (
        ActionView::ReadLines { timeout_secs }),
        action is Kill ==> action@ == ActionView::Kill,
        action matches RunAction::Emit { event } ==> action@ == (ActionView::Emit {
            event: event@,
        }),
        action matches RunAction::Finish { reply } ==> action@ == (ActionView::Finish {
            reply: reply_view(reply),
        }),
        action_views(actions).len() == actions.len(),
        0 <= i < actions.len() ==> action_views(actions)[i] == actions[i]@,
{
}

/// Runs are seen with all that they hold.
pub proof fn law_runs_are_seen(
    completion: CompletionRun,
    stream: StreamRun,
    progress: StreamProgress,
)
    ensures
        completion@.backend == completion.backend,
        completion@.label == completion.label@,
        completion@.timeout_secs == completion.timeout_secs,
        completion@.prompt == text_option(completion.prompt),
        completion@.phase == completion.phase,
        stream@.backend == stream.backend,
        stream@.label == stream.label@,
        stream@.timeout_secs == stream.timeout_secs,
        stream@.prompt == text_option(stream.prompt),
        stream@.phase == stream.phase,
        stream@.progress == stream.progress@,
        progress@.full_text == progress.full_text@,
        progress@.usage == progress.usage,
{
}

/// What happens to a process is seen as it is.
pub proof fn law_inputs_are_seen(completion: CompletionInput, stream: StreamInput)
    ensures
        completion matches CompletionInput::Launched { pid } ==> completion@ == (
        CompletionInputView::Launched { pid }),
        completion matches CompletionInput::LaunchFailed { reason } ==> completion@ == (
        CompletionInputView::LaunchFailed { reason: reason@ }),
        completion matches CompletionInput::Exited { success, code, stdout, stderr }
            ==> completion@ == (CompletionInputView::Exited {
            success,
            code,
            stdout: stdout@,
            stderr: stderr@,
        }),
        completion matches CompletionInput::WaitFailed { reason } ==> completion@ == (
        CompletionInputView::WaitFailed { reason: reason@ }),
        completion is TimedOut ==> completion@ == CompletionInputView::TimedOut,
        stream matches StreamInput::Launched { pid, has_stdout } ==> stream@ == (
        StreamInputView::Launched { pid, has_stdout }),
        stream matches StreamInput::LaunchFailed { reason } ==> stream@ == (
        StreamInputView::LaunchFailed { reason: reason@ }),
        stream matches StreamInput::Line { line } ==> stream@ == (StreamInputView::Line {
            line: line@,
        }),
        stream is OutputEnded ==> stream@ == StreamInputView::OutputEnded,
        stream is TimedOut ==> stream@ == StreamInputView::TimedOut,
        stream matches StreamInput::Exited { success, code } ==> stream@ == (
        StreamInputView::Exited { success, code }),
        stream matches StreamInput::WaitFailed { reason } ==> stream@ == (
        StreamInputView::WaitFailed { reason: reason@ }),
{
}

} // verus!
