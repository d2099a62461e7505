//! What the drivers have in common: the messages they give and how a finished run is
//! judged.

use vstd::prelude::*;
use vstd::string::*;

use crate::codex_cli::{
    codex_error, codex_event, codex_events, codex_result, drop_noise, is_codex_auth_error,
    is_codex_unknown_session_error, parse_codex_jsonl, says_codex_unauthenticated,
    says_codex_unknown_session, without_noise,
};
use crate::events::{lemma_first_fact, lemma_no_events, lemma_no_fact};
use crate::gemini_cli::{
    gemini_error, gemini_event, gemini_events, gemini_result, gemini_text, is_gemini_auth_error,
    is_gemini_unknown_session_error, parse_gemini_jsonl, says_gemini_unauthenticated,
    says_gemini_unknown_session,
};
use crate::json::{json_text, JsonView};
use crate::message::{
    no_usage, reply_view, respond, text_response, CompletionResponse, ErrorView, LlmError,
    ReplyView, TokenUsage,
};
use crate::text::{
    ascii_uppercase, contains, contains_text, decimal, decimal_signed, decode_lossy, format_signed,
    format_unsigned, in_turn, lines_of, output_text, said_in_turn, text_option, to_ascii_upper,
    trim, trimmed,
};

verus! {

/// The command-line tools that there are drivers for.
#[derive(Debug, Clone, Copy, PartialEq, Eq, Structural)]
pub enum Backend {
    Codex,
    Gemini,
}

/// How long a child process may take, in seconds, unless a driver is told otherwise.
pub const DEFAULT_MESSAGE_TIMEOUT_SECS: u64 = 300;

/// What came of running a tool to ask for its version.
pub struct VersionProbe {
    pub success: bool,
    pub stdout: Vec<u8>,
}

/// The version that a probe shows; none if the tool could not be run or failed.
pub open spec fn probed_version(probe: Option<VersionProbe>) -> Option<Seq<char>> {
    match probe {
        Some(p) if p.success => Some(trimmed(output_text(p.stdout@))),
        _ => None,
    }
}

/// The version that `probe` shows.
pub(crate) fn read_version(probe: &Option<VersionProbe>) -> (r: Option<String>)
    ensures
        text_option(r) == probed_version(*probe),
{
    match probe {
        Some(p) => if p.success {
            Some(trim(decode_lossy(&p.stdout).as_str()))
        } else {
            None
        },
        None => None,
    }
}

/// What a tool is called in messages.
pub open spec fn tool_name(backend: Backend) -> Seq<char> {
    match backend {
        Backend::Codex => "Codex"@,
        Backend::Gemini => "Gemini"@,
    }
}

/// What the program of a tool is called.
pub open spec fn program_name(backend: Backend) -> Seq<char> {
    match backend {
        Backend::Codex => "codex"@,
        Backend::Gemini => "gemini"@,
    }
}

/// How to get a tool.
pub open spec fn install_hint(backend: Backend) -> Seq<char> {
    match backend {
        Backend::Codex => "npm install -g @openai/codex && codex auth"@,
        Backend::Gemini => "pip install google-gemini && gemini auth"@,
    }
}

impl Backend {
    /// What the tool is called in messages.
    pub fn name(self) -> (r: &'static str)
        ensures
            r@ == tool_name(self),
    {
        match self {
            Backend::Codex => "Codex",
            Backend::Gemini => "Gemini",
        }
    }

    /// What the program of the tool is called.
    pub fn program(self) -> (r: &'static str)
        ensures
            r@ == program_name(self),
    {
        match self {
            Backend::Codex => "codex",
            Backend::Gemini => "gemini",
        }
    }

    /// How to get the tool.
    pub fn hint(self) -> (r: &'static str)
        ensures
            r@ == install_hint(self),
    {
        match self {
            Backend::Codex => "npm install -g @openai/codex && codex auth",
            Backend::Gemini => "pip install google-gemini && gemini auth",
        }
    }
}

/// The tool could not be started.
pub open spec fn launch_failure(backend: Backend, reason: Seq<char>) -> ErrorView {
    ErrorView::Http(
        tool_name(backend) + " CLI not found or failed to start ("@ + reason + "). Install: "@
            + install_hint(backend),
    )
}

/// The tool, asked for a whole response, was not done in time.
pub open spec fn completion_timeout(backend: Backend, secs: u64) -> ErrorView {
    ErrorView::Http(
        tool_name(backend) + " CLI subprocess timed out after "@ + decimal(secs as nat)
            + "s — process killed"@,
    )
}

/// The tool, asked for a stream, was not done in time.
pub open spec fn stream_timeout(backend: Backend, secs: u64) -> ErrorView {
    ErrorView::Http(
        tool_name(backend) + " CLI streaming subprocess timed out after "@ + decimal(secs as nat)
            + "s — process killed"@,
    )
}

/// The tool, asked for a whole response, could not be waited for.
pub open spec fn completion_wait_failure(backend: Backend, reason: Seq<char>) -> ErrorView {
    ErrorView::Http(tool_name(backend) + " CLI subprocess failed: "@ + reason)
}

/// The tool, asked for a stream, could not be waited for.
pub open spec fn stream_wait_failure(backend: Backend, reason: Seq<char>) -> ErrorView {
    ErrorView::Http(tool_name(backend) + " CLI wait failed: "@ + reason)
}

/// The tool's output cannot be read.
pub open spec fn no_stdout(backend: Backend) -> ErrorView {
    ErrorView::Http("No stdout from "@ + program_name(backend) + " CLI"@)
}

/// The exit code that is reported; a process that has none, such as one that a signal
/// ended, counts as one that exited with 1.
pub open spec fn exit_code(code: Option<i32>) -> i32 {
    match code {
        Some(c) => c,
        None => 1,
    }
}

/// The status that stands for an exit code: its low sixteen bits.
pub open spec fn status_of(code: i32) -> u16 {
    (code as int % 0x1_0000) as u16
}

/// What an output of a failed process has to say: its text, without what Codex prints
/// about its own state.
pub open spec fn told_by(backend: Backend, output: Seq<u8>) -> Seq<char> {
    let text = output_text(output);
    trimmed(
        match backend {
            Backend::Codex => without_noise(text),
            Backend::Gemini => text,
        },
    )
}

/// What a failed process has to say: its error output, or if that says nothing, its
/// output.
pub open spec fn failure_detail(backend: Backend, stdout: Seq<u8>, stderr: Seq<u8>) -> Seq<char> {
    let told = told_by(backend, stderr);
    if told.len() > 0 {
        told
    } else {
        told_by(backend, stdout)
    }
}

/// A failed process says of a session that it has expired: the word stands behind it in
/// the same sentence, or right in front of it.
pub open spec fn says_session_expired(detail: Seq<char>) -> bool {
    ||| said_in_turn(ascii_uppercase(detail), "SESSION"@, "EXPIRED"@)
    ||| contains_text(ascii_uppercase(detail), "EXPIRED SESSION"@)
}

/// The message for a failed process, given what is recognised in what it says.
pub open spec fn failure_message(
    backend: Backend,
    detail: Seq<char>,
    code: i32,
    unauthenticated: bool,
    unknown_session: bool,
) -> Seq<char> {
    if unauthenticated {
        tool_name(backend) + " CLI is not authenticated. Run: "@ + program_name(backend)
            + " auth\nDetail: "@ + detail
    } else if unknown_session {
        tool_name(backend) + " session not found or expired: "@ + detail
    } else {
        tool_name(backend) + " CLI exited with code "@ + decimal_signed(code as int) + ": "@
            + detail
    }
}

/// A failed process complains about missing authentication.
pub open spec fn says_unauthenticated(backend: Backend, detail: Seq<char>) -> bool {
    match backend {
        Backend::Codex => says_codex_unauthenticated(detail),
        Backend::Gemini => says_gemini_unauthenticated(detail),
    }
}

/// A failed process complains about a session that it does not know, or not any more.
pub open spec fn says_unknown_session(backend: Backend, detail: Seq<char>) -> bool {
    match backend {
        Backend::Codex => says_codex_unknown_session(detail),
        Backend::Gemini => says_gemini_unknown_session(detail),
    }
}

/// The error for a process that was asked for a whole response and failed.
pub open spec fn completion_failure(
    backend: Backend,
    code: Option<i32>,
    stdout: Seq<u8>,
    stderr: Seq<u8>,
) -> ErrorView {
    let detail = failure_detail(backend, stdout, stderr);
    ErrorView::Api {
        status: status_of(exit_code(code)),
        message: failure_message(
            backend,
            detail,
            exit_code(code),
            says_unauthenticated(backend, detail),
            says_unknown_session(backend, detail),
        ),
    }
}

/// The error for a process that was asked for a stream and failed.
pub open spec fn stream_failure(backend: Backend, code: Option<i32>) -> ErrorView {
    ErrorView::Api {
        status: status_of(exit_code(code)),
        message: tool_name(backend) + " CLI streaming exited with code "@ + decimal_signed(
            exit_code(code) as int,
        ),
    }
}

/// The answer to a request, given what was read from the output `stdout`: an error that
/// the tool reported, or else the text that was found, or else the whole output.
pub open spec fn answer_of(
    stdout: Seq<char>,
    error: Option<Seq<char>>,
    found: Option<Seq<char>>,
    usage: TokenUsage,
) -> ReplyView {
    match error {
        Some(message) => Err(ErrorView::Api { status: 0, message }),
        None => Ok(
            text_response(
                match found {
                    Some(text) => text,
                    None => trimmed(stdout),
                },
                usage,
            ),
        ),
    }
}

/// The answer that the output of a successful process gives.
pub open spec fn answer_from_output(backend: Backend, stdout: Seq<char>) -> ReplyView {
    match backend {
        Backend::Codex => {
            let r = codex_result(codex_events(stdout));
            answer_of(stdout, r.error_message, r.final_text, r.usage)
        },
        Backend::Gemini => {
            let r = gemini_result(gemini_events(stdout));
            answer_of(stdout, r.error_message, r.final_text, r.usage)
        },
    }
}

/// The answer that a process gives by ending.
pub open spec fn completion_reply(
    backend: Backend,
    success: bool,
    code: Option<i32>,
    stdout: Seq<u8>,
    stderr: Seq<u8>,
) -> ReplyView {
    if success {
        answer_from_output(backend, output_text(stdout))
    } else {
        Err(completion_failure(backend, code, stdout, stderr))
    }
}

/// The error for a tool that could not be started.
pub fn report_launch_failure(backend: Backend, reason: &str) -> (r: LlmError)
    ensures
        r@ == launch_failure(backend, reason@),
{
    LlmError::Http(
        backend.name().to_string().concat(" CLI not found or failed to start (").concat(
            reason,
        ).concat("). Install: ").concat(backend.hint()),
    )
}

/// The error for a tool that was not done with a whole response in time.
pub fn report_completion_timeout(backend: Backend, secs: u64) -> (r: LlmError)
    ensures
        r@ == completion_timeout(backend, secs),
{
    LlmError::Http(
        backend.name().to_string().concat(" CLI subprocess timed out after ").concat(
            format_unsigned(secs).as_str(),
        ).concat("s — process killed"),
    )
}

/// The error for a tool that was not done with a stream in time.
pub fn report_stream_timeout(backend: Backend, secs: u64) -> (r: LlmError)
    ensures
        r@ == stream_timeout(backend, secs),
{
    LlmError::Http(
        backend.name().to_string().concat(" CLI streaming subprocess timed out after ").concat(
            format_unsigned(secs).as_str(),
        ).concat("s — process killed"),
    )
}

/// The error for a tool that could not be waited for with a whole response.
pub fn report_completion_wait_failure(backend: Backend, reason: &str) -> (r: LlmError)
    ensures
        r@ == completion_wait_failure(backend, reason@),
{
    LlmError::Http(backend.name().to_string().concat(" CLI subprocess failed: ").concat(reason))
}

/// The error for a tool that could not be waited for after a stream.
pub fn report_stream_wait_failure(backend: Backend, reason: &str) -> (r: LlmError)
    ensures
        r@ == stream_wait_failure(backend, reason@),
{
    LlmError::Http(backend.name().to_string().concat(" CLI wait failed: ").concat(reason))
}

/// The error for a tool whose output cannot be read.
pub fn report_no_stdout(backend: Backend) -> (r: LlmError)
    ensures
        r@ == no_stdout(backend),
{
    LlmError::Http("No stdout from ".to_string().concat(backend.program()).concat(" CLI"))
}

/// The low sixteen bits of an exit code.
fn status_code(code: i32) -> (r: u16)
    ensures
        r == status_of(code),
{
    let shifted: i64 = if code < 0 {
        code as i64 + 0x1_0000_0000
    } else {
        code as i64
    };
    assert(shifted % 0x1_0000 == code as int % 0x1_0000);
    (shifted % 0x1_0000) as u16
}

/// The exit code to report.
fn reported_code(code: Option<i32>) -> (r: i32)
    ensures
        r == exit_code(code),
{
    match code {
        Some(c) => c,
        None => 1,
    }
}

/// What an output of a failed process has to say.
fn read_told(backend: Backend, output: &Vec<u8>) -> (r: String)
    ensures
        r@ == told_by(backend, output@),
{
    let text = decode_lossy(output);
    match backend {
        Backend::Codex => trim(drop_noise(text.as_str()).as_str()),
        Backend::Gemini => trim(text.as_str()),
    }
}

/// Tells whether a failed process says of a session that it has expired.
pub fn is_session_expired_error(detail: &str) -> (r: bool)
    ensures
        r == says_session_expired(detail@),
{
    let upper = to_ascii_upper(detail);
    in_turn(upper.as_str(), "SESSION", "EXPIRED") || contains(upper.as_str(), "EXPIRED SESSION")
}

/// Words the failure of a process, given what was recognised in what it says.
pub fn word_failure(
    backend: Backend,
    detail: &str,
    code: i32,
    unauthenticated: bool,
    unknown_session: bool,
) -> (r: String)
    ensures
        r@ == failure_message(backend, detail@, code, unauthenticated, unknown_session),
{
    let name = backend.name().to_string();
    if unauthenticated {
        name.concat(" CLI is not authenticated. Run: ").concat(backend.program()).concat(
            " auth\nDetail: ",
        ).concat(detail)
    } else if unknown_session {
        name.concat(" session not found or expired: ").concat(detail)
    } else {
        name.concat(" CLI exited with code ").concat(format_signed(code).as_str()).concat(
            ": ",
        ).concat(detail)
    }
}

/// The error for a process that was asked for a whole response and failed.
pub fn report_completion_failure(
    backend: Backend,
    code: Option<i32>,
    stdout: &Vec<u8>,
    stderr: &Vec<u8>,
) -> (r: LlmError)
    ensures
        r@ == completion_failure(backend, code, stdout@, stderr@),
{
    let told = read_told(backend, stderr);
    let detail = if told.as_str().is_empty() {
        read_told(backend, stdout)
    } else {
        told
    };
    let (unauthenticated, unknown_session) = match backend {
        Backend::Codex => (
            is_codex_auth_error(detail.as_str()),
            is_codex_unknown_session_error(detail.as_str()),
        ),
        Backend::Gemini => (
            is_gemini_auth_error(detail.as_str()),
            is_gemini_unknown_session_error(detail.as_str()),
        ),
    };
    let code: i32 = reported_code(code);
    LlmError::Api {
        status: status_code(code),
        message: word_failure(backend, detail.as_str(), code, unauthenticated, unknown_session),
    }
}

/// The error for a process that was asked for a stream and failed.
pub fn report_stream_failure(backend: Backend, code: Option<i32>) -> (r: LlmError)
    ensures
        r@ == stream_failure(backend, code),
{
    let code: i32 = reported_code(code);
    LlmError::Api {
        status: status_code(code),
        message: backend.name().to_string().concat(" CLI streaming exited with code ").concat(
            format_signed(code).as_str(),
        ),
    }
}

/// The answer to a request, given what was read from the output `stdout`.
pub fn answer(
    stdout: &str,
    error: Option<String>,
    found: Option<String>,
    usage: TokenUsage,
) -> (r: Result<CompletionResponse, LlmError>)
    ensures
        reply_view(r) == answer_of(stdout@, text_option(error), text_option(found), usage),
{
    match error {
        Some(message) => Err(LlmError::Api { status: 0, message }),
        None => {
            let text = match found {
                Some(text) => text,
                None => trim(stdout),
            };
            Ok(respond(text, usage))
        },
    }
}

/// Judges a process that was asked for a whole response and has ended.
pub fn judge_completion(
    backend: Backend,
    success: bool,
    code: Option<i32>,
    stdout: &Vec<u8>,
    stderr: &Vec<u8>,
) -> (r: Result<CompletionResponse, LlmError>)
    ensures
        reply_view(r) == completion_reply(backend, success, code, stdout@, stderr@),
{
    if !success {
        return Err(report_completion_failure(backend, code, stdout, stderr));
    }
    let text = decode_lossy(stdout);
    match backend {
        Backend::Codex => {
            let parsed = parse_codex_jsonl(text.as_str());
            answer(text.as_str(), parsed.error_message, parsed.final_text, parsed.usage)
        },
        Backend::Gemini => {
            let parsed = parse_gemini_jsonl(text.as_str());
            answer(text.as_str(), parsed.error_message, parsed.final_text, parsed.usage)
        },
    }
}

/// The events of the output of a tool.
pub open spec fn output_events(backend: Backend, stdout: Seq<char>) -> Seq<JsonView> {
    match backend {
        Backend::Codex => codex_events(stdout),
        Backend::Gemini => gemini_events(stdout),
    }
}

/// The error that an event of a tool reports.
pub open spec fn event_error(backend: Backend, event: JsonView) -> Option<Seq<char>> {
    match backend {
        Backend::Codex => codex_error(event),
        Backend::Gemini => gemini_error(event),
    }
}

/// Where an output reports errors, the first of them is the answer, whatever else it
/// says.
pub proof fn law_reported_error_is_the_answer(backend: Backend, stdout: Seq<char>, i: int)
    requires
        0 <= i < output_events(backend, stdout).len(),
        event_error(backend, output_events(backend, stdout)[i]) is Some,
        forall|j: int|
            0 <= j < i ==> event_error(
                backend,
                #[trigger] output_events(backend, stdout)[j],
            ) is None,
    ensures
        answer_from_output(backend, stdout) == ReplyView::Err(
            ErrorView::Api {
                status: 0,
                message: event_error(backend, output_events(backend, stdout)[i])->0,
            },
        ),
{
    let events = output_events(backend, stdout);
    match backend {
        Backend::Codex => {
            lemma_first_fact(events, |e: JsonView| codex_error(e), i);
        },
        Backend::Gemini => {
            lemma_first_fact(events, |e: JsonView| gemini_error(e), i);
        },
    }
}

/// There is a response only if the process succeeded and none of its events reports an
/// error.
pub proof fn law_response_means_success(
    backend: Backend,
    success: bool,
    code: Option<i32>,
    stdout: Seq<u8>,
    stderr: Seq<u8>,
)
    ensures
        completion_reply(backend, success, code, stdout, stderr) is Ok <==> success && forall|i: int|
            0 <= i < output_events(backend, output_text(stdout)).len() ==> event_error(
                backend,
                #[trigger] output_events(backend, output_text(stdout))[i],
            ) is None,
{
    let text = output_text(stdout);
    let events = output_events(backend, text);
    if forall|i: int| 0 <= i < events.len() ==> event_error(backend, #[trigger] events[i]) is None {
        match backend {
            Backend::Codex => {
                lemma_no_fact(events, |e: JsonView| codex_error(e));
            },
            Backend::Gemini => {
                lemma_no_fact(events, |e: JsonView| gemini_error(e));
            },
        }
    } else {
        let some = choose|i: int|
            0 <= i < events.len() && event_error(backend, #[trigger] events[i]) is Some;
        let i = lemma_earliest_error(backend, events, some);
        law_reported_error_is_the_answer(backend, text, i);
    }
}

/// If some event reports an error, there is a first that does.
proof fn lemma_earliest_error(backend: Backend, events: Seq<JsonView>, some: int) -> (i: int)
    requires
        0 <= some < events.len(),
        event_error(backend, events[some]) is Some,
    ensures
        0 <= i <= some,
        event_error(backend, events[i]) is Some,
        forall|j: int| 0 <= j < i ==> event_error(backend, #[trigger] events[j]) is None,
    decreases some,
{
    if forall|j: int| 0 <= j < some ==> event_error(backend, #[trigger] events[j]) is None {
        some
    } else {
        let j = choose|j: int|
            0 <= j < some && event_error(backend, #[trigger] events[j]) is Some;
        lemma_earliest_error(backend, events, j)
    }
}

/// A session that has expired is reported as such by every tool, unless the tool
/// complains about missing authentication in the same breath.
pub proof fn law_expired_session_is_reported(
    backend: Backend,
    code: Option<i32>,
    stdout: Seq<u8>,
    stderr: Seq<u8>,
)
    requires
        says_session_expired(failure_detail(backend, stdout, stderr)),
        !says_unauthenticated(backend, failure_detail(backend, stdout, stderr)),
    ensures
        completion_reply(backend, false, code, stdout, stderr) == ReplyView::Err(
            ErrorView::Api {
                status: status_of(exit_code(code)),
                message: tool_name(backend) + " session not found or expired: "@ + failure_detail(
                    backend,
                    stdout,
                    stderr,
                ),
            },
        ),
{
}

/// A successful output without a line of JSON is taken for the response as a whole.
pub proof fn law_plain_output_is_the_response(backend: Backend, stdout: Seq<char>)
    requires
        forall|i: int|
            0 <= i < lines_of(stdout).len() ==> json_text(
                trimmed(#[trigger] lines_of(stdout)[i]),
            ) is None,
    ensures
        answer_from_output(backend, stdout) == ReplyView::Ok(
            text_response(trimmed(stdout), no_usage()),
        ),
{
    match backend {
        Backend::Codex => {
            lemma_no_events(lines_of(stdout), |line: Seq<char>| codex_event(line));
        },
        Backend::Gemini => {
            lemma_no_events(lines_of(stdout), |line: Seq<char>| gemini_event(line));
            let none = Seq::<JsonView>::empty();
            assert(none.map_values(|e: JsonView| gemini_text(e)) =~= Seq::<Seq<char>>::empty());
        },
    }
}

} // verus!
