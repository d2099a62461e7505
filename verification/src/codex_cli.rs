//! The driver for the Codex command-line tool.
//!
//! The tool runs as `codex exec --json`, is handed the prompt on its standard input and
//! prints one JSON event per line.

use std::sync::Arc;

use vstd::prelude::*;
use vstd::string::*;

use crate::backend::{
    is_session_expired_error, probed_version, read_version, says_session_expired, Backend,
    VersionProbe, DEFAULT_MESSAGE_TIMEOUT_SECS,
};
use crate::command::{child_env, Command, CommandView, EnvEdit, EnvEditView};
use crate::events::{
    event_type, events_of_lines, first_fact, kind_of, last_fact, lemma_silent_line, or_zero,
    replaced,
};
use crate::json::{json_text, json_views, parse_json, value_option, Json, JsonView};
use crate::launch::{
    add_arg, add_model, add_temperature, choose_path, chosen_path, is_launch_env, launch_command,
    launch_edits, law_launch_env, model_args, temperature_args,
};
use crate::message::{
    error_event, error_report, event_views, CompletionRequest, RequestView, StreamEvent, TokenUsage,
};
use crate::pattern::{is_match, pattern_found};
use crate::pids::{
    entries, entries_held, insert, labels_distinct, new_table, others_absent, put_under, remove,
    share, starts_empty, taken_out,
};
use crate::prompt::{build_prompt, prompt_of};
use crate::run::{
    CompletionPhase, CompletionRun, CompletionRunView, StreamPhase, StreamRun, StreamRunView,
};
use crate::stream::{
    lemma_delta_text_one, lemma_text_told, no_progress, nothing_told, silence, tells_what_it_adds,
    text_told, ProgressView, StreamProgress, Told,
};
use crate::text::{
    concatenated, contains, contains_text, lemma_concatenated_append, lemma_concatenated_one,
    lemma_one_raw_line, lemma_raw_lines_append, lemma_raw_lines_whole, lemma_trimmed_push,
    lemma_without_prefix, lines, lines_of, raw_lines, same, split_raw_lines, strip_prefix,
    text_option, texts, trim, trimmed, without_prefix,
};

verus! {

/// Lines that the tool prints about its own state when it starts.
pub const CODEX_ROLLOUT_NOISE_RE: &'static str =
    r"^\d{4}-\d{2}-\d{2}T[^\s]+\s+ERROR\s+codex_core::rollout::list:\s+state db missing rollout path for thread\s+[a-z0-9-]+$";

/// The driver for the Codex command-line tool.
pub struct CodexCliDriver {
    /// The program to run.
    pub cli_path: String,
    /// Whether the tool is told not to ask for approvals.
    pub skip_permissions: bool,
    /// The processes that run.
    pub active_pids: Arc<dashmap::DashMap<String, u32>>,
    /// How long a process may take, in seconds.
    pub message_timeout_secs: u64,
}

/// The arguments for a request: the prompt is read from the standard input, which the
/// last of them stands for.
pub open spec fn codex_args(request: RequestView) -> Seq<Seq<char>> {
    seq!["exec"@, "--json"@] + model_args(
        without_prefix(request.model, "codex-local/"@),
        "gpt-5.3-codex"@,
    ) + temperature_args("-c"@, request.temperature) + seq!["-"@]
}

/// The arguments for a request, with the one that has the tool run without asking for
/// approvals if `skip_permissions` is set.
pub open spec fn codex_exec_args(request: RequestView, skip_permissions: bool) -> Seq<Seq<char>> {
    codex_args(request).drop_last() + (if skip_permissions {
        seq!["--dangerously-bypass-approvals-and-sandbox"@]
    } else {
        Seq::empty()
    }) + seq!["-"@]
}

/// The command that runs the tool for a request, where `inherited` are the names of the
/// variables it would inherit.
pub open spec fn codex_command(
    program: Seq<char>,
    skip_permissions: bool,
    request: RequestView,
    inherited: Seq<Seq<char>>,
    home: Option<Seq<char>>,
) -> CommandView {
    CommandView {
        program,
        args: codex_exec_args(request, skip_permissions),
        env: launch_edits("SYSTEM_PROMPT"@, request.system, inherited, home),
        stdin_piped: true,
    }
}

impl CodexCliDriver {
    /// Makes a driver that runs `cli_path`, or `codex` if that is missing or empty.
    /// `skip_permissions` has the tool run without asking for approvals.
    pub fn new(cli_path: Option<String>, skip_permissions: bool) -> (r: Self)
        ensures
            r.cli_path@ == chosen_path(text_option(cli_path), "codex"@),
            r.skip_permissions == skip_permissions,
            r.message_timeout_secs == DEFAULT_MESSAGE_TIMEOUT_SECS,
            starts_empty(*r.active_pids),
    {
        CodexCliDriver {
            cli_path: choose_path(cli_path, "codex"),
            skip_permissions,
            active_pids: Arc::new(new_table()),
            message_timeout_secs: DEFAULT_MESSAGE_TIMEOUT_SECS,
        }
    }

    /// Makes a driver whose processes may take `timeout_secs`.
    pub fn with_timeout(
        cli_path: Option<String>,
        skip_permissions: bool,
        timeout_secs: u64,
    ) -> (r: Self)
        ensures
            r.cli_path@ == chosen_path(text_option(cli_path), "codex"@),
            r.skip_permissions == skip_permissions,
            r.message_timeout_secs == timeout_secs,
            starts_empty(*r.active_pids),
    {
        let mut driver = Self::new(cli_path, skip_permissions);
        driver.message_timeout_secs = timeout_secs;
        driver
    }

    /// The processes that run, with their labels. Which they are depends on who changes
    /// the table meanwhile; each of them stands in the table at some moment of its life, no
    /// label comes twice, and a label that does not come is in no entry at some moment.
    pub fn active_pids(&self) -> (r: Vec<(String, u32)>)
        ensures
            labels_distinct(r@),
            entries_held(*self.active_pids, r@),
            others_absent(*self.active_pids, r@),
    {
        entries(&*self.active_pids)
    }

    /// Another handle to the driver's table of processes.
    pub fn pid_map(&self) -> (r: Arc<dashmap::DashMap<String, u32>>)
        ensures
            r == self.active_pids,
    {
        share(&self.active_pids)
    }

    /// Notes in the driver's table that `pid` runs under `label`; gives the process that
    /// was noted there before.
    pub fn track_pid(&self, label: &String, pid: u32) -> (displaced: Option<u32>)
        ensures
            put_under(*self.active_pids, label@, pid, displaced),
    {
        insert(&*self.active_pids, label.clone(), pid)
    }

    /// Takes `label` out of the driver's table; gives the entry that was there.
    pub fn untrack_pid(&self, label: &String) -> (taken: Option<(String, u32)>)
        ensures
            taken_out(*self.active_pids, label@, taken),
    {
        remove(&*self.active_pids, label)
    }

    /// The command that asks the tool for its version.
    pub fn version_command() -> (r: Command)
        ensures
            r@ == (CommandView {
                program: "codex"@,
                args: seq!["--version"@],
                env: Seq::empty(),
                stdin_piped: false,
            }),
    {
        let mut args: Vec<String> = Vec::new();
        add_arg(&mut args, "--version");
        let edits: Vec<EnvEdit> = Vec::new();
        let r = Command { program: "codex".to_string(), args, env: edits, stdin_piped: false };
        assert(r@.args =~= seq!["--version"@]);
        assert(r@.env =~= Seq::<EnvEditView>::empty());
        r
    }

    /// The version of the tool, given what came of asking for it; none if the tool is not
    /// there.
    pub fn detect(probe: &Option<VersionProbe>) -> (r: Option<String>)
        ensures
            text_option(r) == probed_version(*probe),
    {
        read_version(probe)
    }

    /// Builds the prompt for the conversation of `request`.
    pub fn build_prompt(request: &CompletionRequest) -> (r: String)
        ensures
            r@ == prompt_of(request@.messages),
    {
        build_prompt(request)
    }

    /// Builds the arguments for `request`.
    pub fn build_args(request: &CompletionRequest) -> (r: Vec<String>)
        ensures
            texts(r@) == codex_args(request@),
    {
        let mut args = Self::options(request);
        let ghost before = texts(args@);
        add_arg(&mut args, "-");
        assert(texts(args@) =~= before + seq!["-"@]);
        args
    }

    /// The arguments for `request` in front of the last.
    fn options(request: &CompletionRequest) -> (r: Vec<String>)
        ensures
            texts(r@) + seq!["-"@] == codex_args(request@),
    {
        let mut args: Vec<String> = Vec::new();
        add_arg(&mut args, "exec");
        add_arg(&mut args, "--json");
        assert(texts(args@) =~= seq!["exec"@, "--json"@]);
        let model = strip_prefix(request.model.as_str(), "codex-local/");
        add_model(&mut args, model.as_str(), "gpt-5.3-codex");
        add_temperature(&mut args, "-c", &request.temperature);
        args
    }

    /// The command that runs the tool for `request`.
    fn command(
        &self,
        request: &CompletionRequest,
        inherited: &Vec<String>,
        home: &Option<String>,
    ) -> (r: Command)
        ensures
            r@ == codex_command(
                self.cli_path@,
                self.skip_permissions,
                request@,
                texts(inherited@),
                text_option(*home),
            ),
    {
        let mut args = Self::options(request);
        let ghost options = texts(args@);
        assert(options =~= codex_args(request@).drop_last());
        if self.skip_permissions {
            add_arg(&mut args, "--dangerously-bypass-approvals-and-sandbox");
        }
        add_arg(&mut args, "-");
        assert(texts(args@) =~= codex_exec_args(request@, self.skip_permissions));
        launch_command(
            self.cli_path.as_str(),
            args,
            true,
            "SYSTEM_PROMPT",
            &request.system,
            inherited,
            home,
        )
    }

    /// Begins a run that waits for the whole response to `request`. Gives the run and the
    /// command to start; `inherited` are the names of the variables that the process
    /// would inherit, and `home` is the home directory.
    pub fn complete(
        &self,
        request: &CompletionRequest,
        inherited: &Vec<String>,
        home: &Option<String>,
    ) -> (r: (CompletionRun, Command))
        ensures
            r.0@ == (CompletionRunView {
                backend: Backend::Codex,
                label: request@.model,
                timeout_secs: self.message_timeout_secs,
                prompt: Some(prompt_of(request@.messages)),
                phase: CompletionPhase::Launching,
            }),
            r.1@ == codex_command(
                self.cli_path@,
                self.skip_permissions,
                request@,
                texts(inherited@),
                text_option(*home),
            ),
    {
        let run = CompletionRun {
            backend: Backend::Codex,
            label: request.model.clone(),
            timeout_secs: self.message_timeout_secs,
            prompt: Some(Self::build_prompt(request)),
            phase: CompletionPhase::Launching,
        };
        (run, self.command(request, inherited, home))
    }

    /// Begins a run that passes the response to `request` on as it comes in. Gives the
    /// run and the command to start; `inherited` are the names of the variables that the
    /// process would inherit, and `home` is the home directory.
    pub fn stream(
        &self,
        request: &CompletionRequest,
        inherited: &Vec<String>,
        home: &Option<String>,
    ) -> (r: (StreamRun, Command))
        ensures
            r.0@ == (StreamRunView {
                backend: Backend::Codex,
                label: request@.model + "-stream"@,
                timeout_secs: self.message_timeout_secs,
                prompt: Some(prompt_of(request@.messages)),
                phase: StreamPhase::Launching,
                progress: no_progress(),
            }),
            r.1@ == codex_command(
                self.cli_path@,
                self.skip_permissions,
                request@,
                texts(inherited@),
                text_option(*home),
            ),
    {
        let run = StreamRun {
            backend: Backend::Codex,
            label: request.model.clone().concat("-stream"),
            timeout_secs: self.message_timeout_secs,
            prompt: Some(Self::build_prompt(request)),
            phase: StreamPhase::Launching,
            progress: StreamProgress::new(),
        };
        (run, self.command(request, inherited, home))
    }
}

/// Tells whether the tool is there, given what came of asking it for its version.
pub fn codex_cli_available(probe: &Option<VersionProbe>) -> (r: bool)
    ensures
        r == (probed_version(*probe) is Some),
{
    CodexCliDriver::detect(probe).is_some()
}

/// What the output of a run says.
pub struct CodexParseResult {
    pub session_id: Option<String>,
    pub final_text: Option<String>,
    pub error_message: Option<String>,
    pub usage: TokenUsage,
}

/// What the output of a run says, as contracts see it.
pub struct CodexResultView {
    pub session_id: Option<Seq<char>>,
    pub final_text: Option<Seq<char>>,
    pub error_message: Option<Seq<char>>,
    pub usage: TokenUsage,
}

impl View for CodexParseResult {
    type V = CodexResultView;

    open spec fn view(&self) -> CodexResultView {
        CodexResultView {
            session_id: text_option(self.session_id),
            final_text: text_option(self.final_text),
            error_message: text_option(self.error_message),
            usage: self.usage,
        }
    }
}

/// The session that an event opens.
pub open spec fn codex_session(event: JsonView) -> Option<Seq<char>> {
    if event_type(event) == "thread.started"@ {
        event.str_at("thread_id"@)
    } else {
        None
    }
}

/// The message of the agent that an event completes.
pub open spec fn codex_text(event: JsonView) -> Option<Seq<char>> {
    if event_type(event) == "item.completed"@ {
        match event.get("item"@) {
            Some(item) if item.text_at("type"@) == "agent_message"@ => item.str_at("text"@),
            _ => None,
        }
    } else {
        None
    }
}

/// The error that an event reports.
pub open spec fn codex_error(event: JsonView) -> Option<Seq<char>> {
    if event_type(event) == "error"@ || event_type(event) == "turn.failed"@ {
        event.str_at2("error"@, "message"@)
    } else {
        None
    }
}

/// The count of input tokens that an event reports.
pub open spec fn codex_input_tokens(event: JsonView) -> Option<u64> {
    if event_type(event) == "turn.completed"@ {
        event.u64_at2("usage"@, "input_tokens"@)
    } else {
        None
    }
}

/// The count of output tokens that an event reports.
pub open spec fn codex_output_tokens(event: JsonView) -> Option<u64> {
    if event_type(event) == "turn.completed"@ {
        event.u64_at2("usage"@, "output_tokens"@)
    } else {
        None
    }
}

/// What a sequence of events says: the first session, the first message of the agent and
/// the first error count, and of the token counts the last.
pub open spec fn codex_result(events: Seq<JsonView>) -> CodexResultView {
    CodexResultView {
        session_id: first_fact(events, |e: JsonView| codex_session(e)),
        final_text: first_fact(events, |e: JsonView| codex_text(e)),
        error_message: first_fact(events, |e: JsonView| codex_error(e)),
        usage: TokenUsage {
            input_tokens: or_zero(last_fact(events, |e: JsonView| codex_input_tokens(e))),
            output_tokens: or_zero(last_fact(events, |e: JsonView| codex_output_tokens(e))),
        },
    }
}

/// A line that the tool prints about its own state.
pub open spec fn is_rollout_noise(line: Seq<char>) -> bool {
    pattern_found(CODEX_ROLLOUT_NOISE_RE@, line)
}

/// The event that a trimmed line of output stands for, where `value` is what it reads as:
/// blank lines, noise and lines that are no JSON stand for none.
pub open spec fn codex_line_event(
    line: Seq<char>,
    noise: bool,
    value: Option<JsonView>,
) -> Option<JsonView> {
    if line.len() == 0 || noise {
        None
    } else {
        value
    }
}

/// The event that a line of output stands for, if any.
pub open spec fn codex_event(line: Seq<char>) -> Option<JsonView> {
    let line = trimmed(line);
    codex_line_event(line, is_rollout_noise(line), json_text(line))
}

/// The events of an output.
pub open spec fn codex_events(stdout: Seq<char>) -> Seq<JsonView> {
    events_of_lines(lines_of(stdout), |line: Seq<char>| codex_event(line))
}

/// The session that `event` opens.
fn session_of(event: &Json) -> (r: Option<String>)
    ensures
        text_option(r) == codex_session(event@),
{
    if same(kind_of(event).as_str(), "thread.started") {
        event.str_at("thread_id")
    } else {
        None
    }
}

/// The message of the agent that `event` completes.
fn agent_message(event: &Json) -> (r: Option<String>)
    ensures
        text_option(r) == codex_text(event@),
{
    if same(kind_of(event).as_str(), "item.completed") {
        match event.get("item") {
            Some(item) => if same(item.text_at("type").as_str(), "agent_message") {
                item.str_at("text")
            } else {
                None
            },
            None => None,
        }
    } else {
        None
    }
}

/// The error that `event` reports.
fn error_of(event: &Json) -> (r: Option<String>)
    ensures
        text_option(r) == codex_error(event@),
{
    let kind = kind_of(event);
    if same(kind.as_str(), "error") || same(kind.as_str(), "turn.failed") {
        event.str_at2("error", "message")
    } else {
        None
    }
}

/// Takes over the token counts that `event` reports.
fn count_tokens(usage: TokenUsage, event: &Json) -> (r: TokenUsage)
    ensures
        r.input_tokens == replaced(usage.input_tokens, codex_input_tokens(event@)),
        r.output_tokens == replaced(usage.output_tokens, codex_output_tokens(event@)),
{
    let mut usage = usage;
    if same(kind_of(event).as_str(), "turn.completed") {
        if let Some(n) = event.u64_at2("usage", "input_tokens") {
            usage.input_tokens = n;
        }
        if let Some(n) = event.u64_at2("usage", "output_tokens") {
            usage.output_tokens = n;
        }
    }
    usage
}

/// Sums up what a sequence of events says.
pub fn summarize_codex_events(events: &Vec<Json>) -> (r: CodexParseResult)
    ensures
        r@ == codex_result(json_views(events@)),
{
    let mut session_id: Option<String> = None;
    let mut final_text: Option<String> = None;
    let mut error_message: Option<String> = None;
    let mut usage = TokenUsage { input_tokens: 0, output_tokens: 0 };
    let ghost all = json_views(events@);
    let mut i: usize = 0;
    while i < events.len()
        invariant
            i <= events@.len(),
            all == json_views(events@),
            codex_result(all.take(i as int)) == (CodexResultView {
                session_id: text_option(session_id),
                final_text: text_option(final_text),
                error_message: text_option(error_message),
                usage,
            }),
        decreases events@.len() - i,
    {
        let event = &events[i];
        proof {
            assert(all.take(i + 1).drop_last() =~= all.take(i as int));
            assert(all.take(i + 1).last() == event@);
        }
        if session_id.is_none() {
            session_id = session_of(event);
        }
        if final_text.is_none() {
            final_text = agent_message(event);
        }
        if error_message.is_none() {
            error_message = error_of(event);
        }
        usage = count_tokens(usage, event);
        i += 1;
    }
    assert(all.take(i as int) =~= all);
    CodexParseResult { session_id, final_text, error_message, usage }
}

/// The event that the trimmed `line` stands for, given whether it is noise and what it
/// reads as.
pub fn pick_codex_event(line: &str, noise: bool, value: Option<Json>) -> (r: Option<Json>)
    ensures
        value_option(r) == codex_line_event(line@, noise, value_option(value)),
{
    if line.is_empty() || noise {
        None
    } else {
        value
    }
}

/// The event that `line` stands for, if any.
fn read_event(line: &str) -> (r: Option<Json>)
    ensures
        value_option(r) == codex_event(line@),
{
    let line = trim(line);
    let noise = is_match(CODEX_ROLLOUT_NOISE_RE, line.as_str());
    let value = parse_json(line.as_str());
    pick_codex_event(line.as_str(), noise, value)
}

/// Reads the output of a run.
pub fn parse_codex_jsonl(stdout: &str) -> (r: CodexParseResult)
    ensures
        r@ == codex_result(codex_events(stdout@)),
{
    let all_lines = lines(stdout);
    let mut events: Vec<Json> = Vec::new();
    let ghost all = texts(all_lines@);
    let ghost read = |line: Seq<char>| codex_event(line);
    let mut i: usize = 0;
    while i < all_lines.len()
        invariant
            i <= all_lines@.len(),
            all == texts(all_lines@),
            read == (|line: Seq<char>| codex_event(line)),
            json_views(events@) == events_of_lines(all.take(i as int), read),
        decreases all_lines@.len() - i,
    {
        proof {
            assert(all.take(i + 1).drop_last() =~= all.take(i as int));
            assert(all.take(i + 1).last() == all_lines@[i as int]@);
        }
        let ghost before = events@;
        if let Some(event) = read_event(all_lines[i].as_str()) {
            events.push(event);
            assert(json_views(events@) =~= json_views(before).push(event@));
        }
        i += 1;
    }
    assert(all.take(i as int) =~= all);
    summarize_codex_events(&events)
}

/// What is kept of a line, line end included: nothing if it is noise.
pub open spec fn kept_line(line: Seq<char>, noise: bool) -> Seq<char> {
    if noise {
        Seq::empty()
    } else {
        line
    }
}

/// `text` without the lines that the tool prints about its own state.
pub open spec fn without_noise(text: Seq<char>) -> Seq<char> {
    concatenated(
        raw_lines(text).map_values(
            |line: Seq<char>| kept_line(line, is_rollout_noise(trimmed(line))),
        ),
    )
}

/// Adds `line` to `text`, unless it is noise.
pub fn keep_line(text: &mut String, line: &str, noise: bool)
    ensures
        final(text)@ == old(text)@ + kept_line(line@, noise),
{
    let ghost before = text@;
    if !noise {
        text.append(line);
    }
    assert(text@ =~= before + kept_line(line@, noise));
}

/// Takes the lines out of `text` that the tool prints about its own state.
pub fn drop_noise(text: &str) -> (r: String)
    ensures
        r@ == without_noise(text@),
{
    let all_lines = split_raw_lines(text);
    let mut out = String::new();
    let ghost all = texts(all_lines@);
    let ghost kept = all.map_values(
        |line: Seq<char>| kept_line(line, is_rollout_noise(trimmed(line))),
    );
    let mut i: usize = 0;
    while i < all_lines.len()
        invariant
            i <= all_lines@.len(),
            all == texts(all_lines@),
            kept == all.map_values(
                |line: Seq<char>| kept_line(line, is_rollout_noise(trimmed(line))),
            ),
            out@ == concatenated(kept.take(i as int)),
        decreases all_lines@.len() - i,
    {
        proof {
            assert(kept.take(i + 1).drop_last() =~= kept.take(i as int));
            assert(all[i as int] == all_lines@[i as int]@);
        }
        let line = all_lines[i].as_str();
        let noise = is_match(CODEX_ROLLOUT_NOISE_RE, trim(line).as_str());
        keep_line(&mut out, line, noise);
        i += 1;
    }
    assert(kept.take(i as int) =~= kept);
    out
}

/// What the tool says when it does not know a session.
pub const CODEX_UNKNOWN_SESSION_RE: &'static str =
    r"(?i)unknown (session|thread)|session .* not found|thread .* not found|conversation .* not found|missing rollout path|no rollout found for thread id";

/// What the tool says when trying again may help.
pub const CODEX_TRANSIENT_RE: &'static str =
    r"(?i)high demand|temporary errors|rate.limit|too many requests|429|server overloaded";

/// A failed run complains about missing authentication.
pub open spec fn says_codex_unauthenticated(detail: Seq<char>) -> bool {
    ||| contains_text(detail, "not authenticated"@)
    ||| contains_text(detail, "auth"@)
    ||| contains_text(detail, "login"@)
    ||| contains_text(detail, "credentials"@)
}

/// A failed run complains about a session that the tool does not know, or not any more.
pub open spec fn says_codex_unknown_session(detail: Seq<char>) -> bool {
    pattern_found(CODEX_UNKNOWN_SESSION_RE@, detail) || says_session_expired(detail)
}

/// Tells whether a failed run complains about missing authentication.
pub fn is_codex_auth_error(detail: &str) -> (r: bool)
    ensures
        r == says_codex_unauthenticated(detail@),
{
    contains(detail, "not authenticated") || contains(detail, "auth") || contains(detail, "login")
        || contains(detail, "credentials")
}

/// Tells whether a failed run complains about a session that the tool does not know, or
/// not any more.
pub fn is_codex_unknown_session_error(stderr: &str) -> (r: bool)
    ensures
        r == says_codex_unknown_session(stderr@),
{
    is_match(CODEX_UNKNOWN_SESSION_RE, stderr) || is_session_expired_error(stderr)
}

/// Tells whether a failed run may go better when tried again.
pub fn is_codex_transient_error(stderr: &str) -> (r: bool)
    ensures
        r == pattern_found(CODEX_TRANSIENT_RE@, stderr@),
{
    is_match(CODEX_TRANSIENT_RE, stderr)
}

/// The state after an event that comes in while a response streams, and what the
/// listener is told: a message of the agent is passed on, and so is an error; token
/// counts are kept.
pub open spec fn codex_told(progress: ProgressView, event: JsonView) -> Told {
    match codex_text(event) {
        Some(text) => text_told(progress, text),
        None => match codex_error(event) {
            Some(message) => Told { progress, events: seq![error_event("codex"@, message)] },
            None => nothing_told(
                ProgressView {
                    usage: TokenUsage {
                        input_tokens: replaced(
                            progress.usage.input_tokens,
                            codex_input_tokens(event),
                        ),
                        output_tokens: replaced(
                            progress.usage.output_tokens,
                            codex_output_tokens(event),
                        ),
                    },
                    ..progress
                },
            ),
        },
    }
}

/// The state after a line that comes in while a response streams, where `value` is what
/// it reads as, and what the listener is told: a line that is no JSON is taken for text,
/// and blank lines and noise are passed over.
pub open spec fn codex_read_line_told(
    progress: ProgressView,
    line: Seq<char>,
    noise: bool,
    value: Option<JsonView>,
) -> Told {
    if trimmed(line).len() == 0 || noise {
        nothing_told(progress)
    } else {
        match value {
            Some(event) => codex_told(progress, event),
            None => text_told(progress, line),
        }
    }
}

/// The state after a line that comes in while a response streams, and what the listener
/// is told.
pub open spec fn codex_line_told(progress: ProgressView, line: Seq<char>) -> Told {
    codex_read_line_told(progress, line, is_rollout_noise(line), json_text(line))
}

/// Takes in an event while a response streams; gives what to tell the listener.
pub fn codex_stream_event(progress: &mut StreamProgress, event: &Json) -> (r: Vec<StreamEvent>)
    ensures
        (Told { progress: final(progress)@, events: event_views(r@) }) == codex_told(
            old(progress)@,
            event@,
        ),
{
    if let Some(text) = agent_message(event) {
        return progress.say(text.as_str());
    }
    if let Some(message) = error_of(event) {
        let mut events: Vec<StreamEvent> = Vec::new();
        let ghost told = message@;
        events.push(error_report("codex", message));
        assert(event_views(events@) =~= seq![error_event("codex"@, told)]);
        return events;
    }
    progress.usage = count_tokens(progress.usage, event);
    silence()
}

/// Takes in a line while a response streams, given whether it is noise and what it reads
/// as; gives what to tell the listener.
pub fn codex_stream_read_line(
    progress: &mut StreamProgress,
    line: &str,
    noise: bool,
    value: &Option<Json>,
) -> (r: Vec<StreamEvent>)
    ensures
        (Told { progress: final(progress)@, events: event_views(r@) }) == codex_read_line_told(
            old(progress)@,
            line@,
            noise,
            value_option(*value),
        ),
{
    if trim(line).as_str().is_empty() || noise {
        return silence();
    }
    match value {
        Some(event) => codex_stream_event(progress, event),
        None => progress.say(line),
    }
}

/// Takes in a line while a response streams; gives what to tell the listener.
pub fn codex_stream_line(progress: &mut StreamProgress, line: &str) -> (r: Vec<StreamEvent>)
    ensures
        (Told { progress: final(progress)@, events: event_views(r@) }) == codex_line_told(
            old(progress)@,
            line@,
        ),
{
    let noise = is_match(CODEX_ROLLOUT_NOISE_RE, line);
    let value = parse_json(line);
    codex_stream_read_line(progress, line, noise, &value)
}

/// Whatever line comes in, the listener is told exactly the text that is added to the
/// response.
pub proof fn law_codex_line_tells_what_it_adds(progress: ProgressView, line: Seq<char>)
    ensures
        tells_what_it_adds(progress, codex_line_told(progress, line)),
{
    lemma_text_told(progress, line);
    if let Some(event) = json_text(line) {
        law_codex_event_tells_what_it_adds(progress, event);
    }
}

/// Whatever event comes in, the listener is told exactly the text that is added to the
/// response.
pub proof fn law_codex_event_tells_what_it_adds(progress: ProgressView, event: JsonView)
    ensures
        tells_what_it_adds(progress, codex_told(progress, event)),
{
    match codex_text(event) {
        Some(text) => {
            lemma_text_told(progress, text);
        },
        None => {
            if let Some(message) = codex_error(event) {
                lemma_delta_text_one(error_event("codex"@, message));
            }
            assert(progress.full_text =~= progress.full_text + Seq::<char>::empty());
        },
    }
}

/// Lines that stand for no event (blank lines, noise and lines that are no JSON) change
/// nothing of what an output says, wherever they stand in it.
pub proof fn law_codex_passes_over_silent_lines(
    first: Seq<char>,
    line: Seq<char>,
    second: Seq<char>,
)
    requires
        first.len() == 0 || first.last() == '\n',
        !line.contains('\n'),
        codex_event(line) is None,
    ensures
        codex_events(first + line.push('\n') + second) == codex_events(first + second),
{
    if line.len() > 0 && line.last() == '\r' {
        assert(line =~= line.drop_last().push('\r'));
        lemma_trimmed_push(line.drop_last(), '\r');
    }
    lemma_silent_line(first, line, second, |l: Seq<char>| codex_event(l));
}

/// Noise changes nothing of what is left of a text without it, wherever it stands.
pub proof fn law_codex_noise_leaves_no_trace(first: Seq<char>, line: Seq<char>, second: Seq<char>)
    requires
        first.len() == 0 || first.last() == '\n',
        !line.contains('\n'),
        is_rollout_noise(trimmed(line)),
    ensures
        without_noise(first + line.push('\n') + second) == without_noise(first + second),
{
    let keep = |l: Seq<char>| kept_line(l, is_rollout_noise(trimmed(l)));
    let noise = line.push('\n');
    lemma_raw_lines_append(first, second);
    lemma_raw_lines_append(first, noise);
    lemma_raw_lines_append(first + noise, second);
    lemma_one_raw_line(line);
    lemma_trimmed_push(line, '\n');
    let a = raw_lines(first).map_values(keep);
    let b = raw_lines(second).map_values(keep);
    let nothing = Seq::<char>::empty();
    assert(raw_lines(first + noise + second).map_values(keep) =~= a + seq![nothing] + b);
    assert(raw_lines(first + second).map_values(keep) =~= a + b);
    lemma_concatenated_append(a + seq![nothing], b);
    lemma_concatenated_append(a, seq![nothing]);
    lemma_concatenated_append(a, b);
    lemma_concatenated_one(nothing);
    assert(concatenated(a) + nothing =~= concatenated(a));
}

/// A text without noise is left as it is, letter for letter.
pub proof fn law_codex_text_without_noise_stays(text: Seq<char>)
    requires
        forall|i: int|
            0 <= i < raw_lines(text).len() ==> !is_rollout_noise(
                trimmed(#[trigger] raw_lines(text)[i]),
            ),
    ensures
        without_noise(text) == text,
{
    let keep = |l: Seq<char>| kept_line(l, is_rollout_noise(trimmed(l)));
    assert(raw_lines(text).map_values(keep) =~= raw_lines(text));
    lemma_raw_lines_whole(text);
}

/// A model may be named with or without the provider in front.
pub proof fn law_codex_provider_prefix_is_optional(request: RequestView)
    requires
        !"codex-local/"@.is_prefix_of(request.model),
    ensures
        codex_args(
            RequestView { model: "codex-local/"@ + request.model, ..request },
        ) == codex_args(request),
{
    lemma_without_prefix("codex-local/"@, request.model);
}

/// The tool is always told to read the prompt from its standard input, by its last
/// argument; in front of that it is told to skip approvals if it is to skip them, and the
/// arguments are otherwise those of the request.
pub proof fn law_codex_exec_args(request: RequestView, skip_permissions: bool)
    ensures
        codex_exec_args(request, skip_permissions).last() == "-"@,
        skip_permissions ==> codex_exec_args(request, skip_permissions) == codex_args(
            request,
        ).drop_last() + seq!["--dangerously-bypass-approvals-and-sandbox"@, "-"@],
        !skip_permissions ==> codex_exec_args(request, skip_permissions) == codex_args(request),
{
    assert(codex_exec_args(request, true) =~= codex_args(request).drop_last() + seq![
        "--dangerously-bypass-approvals-and-sandbox"@,
        "-"@,
    ]);
    assert(codex_exec_args(request, false) =~= codex_args(request));
}

/// The tool gets its system prompt and the home directory, no secret of its parent, and
/// the rest of the environment unchanged.
pub proof fn law_codex_env(
    program: Seq<char>,
    skip_permissions: bool,
    request: RequestView,
    inherited: Seq<Seq<char>>,
    home: Option<Seq<char>>,
    parent: Map<Seq<char>, Seq<char>>,
)
    requires
        forall|k: Seq<char>| #[trigger] parent.dom().contains(k) ==> inherited.contains(k),
    ensures
        is_launch_env(
            parent,
            "SYSTEM_PROMPT"@,
            request.system,
            home,
            child_env(
                parent,
                codex_command(program, skip_permissions, request, inherited, home).env,
            ),
        ),
{
    law_launch_env(parent, "SYSTEM_PROMPT"@, request.system, inherited, home);
}

} // verus!
