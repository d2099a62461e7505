//! The driver for the Gemini command-line tool.
//!
//! The tool runs with `--output-format stream-json`, is handed the prompt as an argument
//! and prints one JSON event per line.

use std::sync::Arc;

use vstd::prelude::*;
use vstd::string::*;

use crate::backend::{
    is_session_expired_error, probed_version, read_version, says_session_expired, Backend,
    VersionProbe, DEFAULT_MESSAGE_TIMEOUT_SECS,
};
use crate::command::{child_env, Command, CommandView, EnvEdit, EnvEditView};
use crate::events::{
    event_type, events_of_lines, first_fact, kind_of, lemma_silent_line, or_zero, replaced,
};
use crate::json::{json_option, json_text, json_views, parse_json, value_option, Json, JsonView};
use crate::launch::{
    add_arg, add_model, add_temperature, choose_path, chosen_path, is_launch_env, launch_command,
    launch_edits, law_launch_env, model_args, temperature_args,
};
use crate::message::{
    error_event, error_report, event_views, no_usage, CompletionRequest, RequestView, StreamEvent,
    StreamEventView, TokenUsage,
};
use crate::pattern::{is_match, pattern_found};
use crate::pids::{
    entries, entries_held, insert, labels_distinct, new_table, others_absent, put_under, remove,
    share, starts_empty, taken_out,
};
use crate::prompt::{build_prompt, prompt_of};
use crate::run::{
    CompletionPhase, CompletionRun, CompletionRunView, StreamPhase, StreamRun, StreamRunView,
};
use crate::stream::{
    chunks_told, lemma_chunks_told, lemma_delta_text_one, lemma_text_told, no_progress,
    nothing_told, silence, some_text_told, tells_what_it_adds, text_told, ProgressView,
    StreamProgress, Told,
};
use crate::text::{
    concatenated, lemma_trimmed_ends, lemma_trimmed_push, lemma_without_prefix, lines, lines_of,
    same, same_ignoring_ascii_case, same_ignoring_case, strip_prefix, text_option, texts, trim,
    trimmed, without_prefix,
};

verus! {

/// The driver for the Gemini command-line tool.
pub struct GeminiCliDriver {
    /// The program to run.
    pub cli_path: String,
    /// Whether the tool is told not to ask for approvals.
    pub skip_permissions: bool,
    /// The processes that run.
    pub active_pids: Arc<dashmap::DashMap<String, u32>>,
    /// How long a process may take, in seconds.
    pub message_timeout_secs: u64,
}

/// The arguments for a request, the prompt last.
pub open spec fn gemini_args(
    request: RequestView,
    prompt: Seq<char>,
    skip_permissions: bool,
) -> Seq<Seq<char>> {
    seq!["--output-format"@, "stream-json"@] + model_args(
        without_prefix(request.model, "gemini-local/"@),
        "auto"@,
    ) + (if skip_permissions {
        seq!["--approval-mode"@, "yolo"@]
    } else {
        Seq::empty()
    }) + seq!["--sandbox=none"@] + temperature_args("--config"@, request.temperature)
        + seq!["--prompt"@, prompt]
}

/// The command that runs the tool for a request, where `inherited` are the names of the
/// variables it would inherit.
pub open spec fn gemini_command(
    program: Seq<char>,
    skip_permissions: bool,
    request: RequestView,
    inherited: Seq<Seq<char>>,
    home: Option<Seq<char>>,
) -> CommandView {
    CommandView {
        program,
        args: gemini_args(request, prompt_of(request.messages), skip_permissions),
        env: launch_edits("GEMINI_SYSTEM_PROMPT"@, request.system, inherited, home),
        stdin_piped: false,
    }
}

impl GeminiCliDriver {
    /// Makes a driver that runs `cli_path`, or `gemini` if that is missing or empty.
    /// `skip_permissions` has the tool run without asking for approvals.
    pub fn new(cli_path: Option<String>, skip_permissions: bool) -> (r: Self)
        ensures
            r.cli_path@ == chosen_path(text_option(cli_path), "gemini"@),
            r.skip_permissions == skip_permissions,
            r.message_timeout_secs == DEFAULT_MESSAGE_TIMEOUT_SECS,
            starts_empty(*r.active_pids),
    {
        GeminiCliDriver {
            cli_path: choose_path(cli_path, "gemini"),
            skip_permissions,
            active_pids: Arc::new(new_table()),
            message_timeout_secs: DEFAULT_MESSAGE_TIMEOUT_SECS,
        }
    }

    /// Makes a driver whose processes may take `timeout_secs`.
    pub fn with_timeout(
        cli_path: Option<String>,
        skip_permissions: bool,
        timeout_secs: u64,
    ) -> (r: Self)
        ensures
            r.cli_path@ == chosen_path(text_option(cli_path), "gemini"@),
            r.skip_permissions == skip_permissions,
            r.message_timeout_secs == timeout_secs,
            starts_empty(*r.active_pids),
    {
        let mut driver = Self::new(cli_path, skip_permissions);
        driver.message_timeout_secs = timeout_secs;
        driver
    }

    /// The processes that run, with their labels. Which they are depends on who changes
    /// the table meanwhile; each of them stands in the table at some moment of its life, no
    /// label comes twice, and a label that does not come is in no entry at some moment.
    pub fn active_pids(&self) -> (r: Vec<(String, u32)>)
        ensures
            labels_distinct(r@),
            entries_held(*self.active_pids, r@),
            others_absent(*self.active_pids, r@),
    {
        entries(&*self.active_pids)
    }

    /// Another handle to the driver's table of processes.
    pub fn pid_map(&self) -> (r: Arc<dashmap::DashMap<String, u32>>)
        ensures
            r == self.active_pids,
    {
        share(&self.active_pids)
    }

    /// Notes in the driver's table that `pid` runs under `label`; gives the process that
    /// was noted there before.
    pub fn track_pid(&self, label: &String, pid: u32) -> (displaced: Option<u32>)
        ensures
            put_under(*self.active_pids, label@, pid, displaced),
    {
        insert(&*self.active_pids, label.clone(), pid)
    }

    /// Takes `label` out of the driver's table; gives the entry that was there.
    pub fn untrack_pid(&self, label: &String) -> (taken: Option<(String, u32)>)
        ensures
            taken_out(*self.active_pids, label@, taken),
    {
        remove(&*self.active_pids, label)
    }

    /// The command that asks the tool for its version.
    pub fn version_command() -> (r: Command)
        ensures
            r@ == (CommandView {
                program: "gemini"@,
                args: seq!["--version"@],
                env: Seq::empty(),
                stdin_piped: false,
            }),
    {
        let mut args: Vec<String> = Vec::new();
        add_arg(&mut args, "--version");
        let edits: Vec<EnvEdit> = Vec::new();
        let r = Command { program: "gemini".to_string(), args, env: edits, stdin_piped: false };
        assert(r@.args =~= seq!["--version"@]);
        assert(r@.env =~= Seq::<EnvEditView>::empty());
        r
    }

    /// The version of the tool, given what came of asking for it; none if the tool is not
    /// there.
    pub fn detect(probe: &Option<VersionProbe>) -> (r: Option<String>)
        ensures
            text_option(r) == probed_version(*probe),
    {
        read_version(probe)
    }

    /// Builds the prompt for the conversation of `request`.
    pub fn build_prompt(request: &CompletionRequest) -> (r: String)
        ensures
            r@ == prompt_of(request@.messages),
    {
        build_prompt(request)
    }

    /// Builds the arguments for `request`.
    pub fn build_args(
        request: &CompletionRequest,
        prompt: &str,
        skip_permissions: bool,
    ) -> (r: Vec<String>)
        ensures
            texts(r@) == gemini_args(request@, prompt@, skip_permissions),
    {
        let mut args: Vec<String> = Vec::new();
        add_arg(&mut args, "--output-format");
        add_arg(&mut args, "stream-json");
        assert(texts(args@) =~= seq!["--output-format"@, "stream-json"@]);
        let model = strip_prefix(request.model.as_str(), "gemini-local/");
        add_model(&mut args, model.as_str(), "auto");
        let ghost named = texts(args@);
        if skip_permissions {
            add_arg(&mut args, "--approval-mode");
            add_arg(&mut args, "yolo");
        }
        add_arg(&mut args, "--sandbox=none");
        assert(texts(args@) =~= named + (if skip_permissions {
            seq!["--approval-mode"@, "yolo"@]
        } else {
            Seq::empty()
        }) + seq!["--sandbox=none"@]);
        add_temperature(&mut args, "--config", &request.temperature);
        let ghost options = texts(args@);
        add_arg(&mut args, "--prompt");
        add_arg(&mut args, prompt);
        assert(texts(args@) =~= options + seq!["--prompt"@, prompt@]);
        args
    }

    /// The command that runs the tool for `request`.
    fn command(
        &self,
        request: &CompletionRequest,
        inherited: &Vec<String>,
        home: &Option<String>,
    ) -> (r: Command)
        ensures
            r@ == gemini_command(
                self.cli_path@,
                self.skip_permissions,
                request@,
                texts(inherited@),
                text_option(*home),
            ),
    {
        let prompt = Self::build_prompt(request);
        let args = Self::build_args(request, prompt.as_str(), self.skip_permissions);
        launch_command(
            self.cli_path.as_str(),
            args,
            false,
            "GEMINI_SYSTEM_PROMPT",
            &request.system,
            inherited,
            home,
        )
    }

    /// Begins a run that waits for the whole response to `request`. Gives the run and the
    /// command to start; `inherited` are the names of the variables that the process
    /// would inherit, and `home` is the home directory.
    pub fn complete(
        &self,
        request: &CompletionRequest,
        inherited: &Vec<String>,
        home: &Option<String>,
    ) -> (r: (CompletionRun, Command))
        ensures
            r.0@ == (CompletionRunView {
                backend: Backend::Gemini,
                label: request@.model,
                timeout_secs: self.message_timeout_secs,
                prompt: None,
                phase: CompletionPhase::Launching,
            }),
            r.1@ == gemini_command(
                self.cli_path@,
                self.skip_permissions,
                request@,
                texts(inherited@),
                text_option(*home),
            ),
    {
        let run = CompletionRun {
            backend: Backend::Gemini,
            label: request.model.clone(),
            timeout_secs: self.message_timeout_secs,
            prompt: None,
            phase: CompletionPhase::Launching,
        };
        (run, self.command(request, inherited, home))
    }

    /// Begins a run that passes the response to `request` on as it comes in. Gives the
    /// run and the command to start; `inherited` are the names of the variables that the
    /// process would inherit, and `home` is the home directory.
    pub fn stream(
        &self,
        request: &CompletionRequest,
        inherited: &Vec<String>,
        home: &Option<String>,
    ) -> (r: (StreamRun, Command))
        ensures
            r.0@ == (StreamRunView {
                backend: Backend::Gemini,
                label: request@.model + "-stream"@,
                timeout_secs: self.message_timeout_secs,
                prompt: None,
                phase: StreamPhase::Launching,
                progress: no_progress(),
            }),
            r.1@ == gemini_command(
                self.cli_path@,
                self.skip_permissions,
                request@,
                texts(inherited@),
                text_option(*home),
            ),
    {
        let run = StreamRun {
            backend: Backend::Gemini,
            label: request.model.clone().concat("-stream"),
            timeout_secs: self.message_timeout_secs,
            prompt: None,
            phase: StreamPhase::Launching,
            progress: StreamProgress::new(),
        };
        (run, self.command(request, inherited, home))
    }
}

/// Tells whether the tool is there, given what came of asking it for its version.
pub fn gemini_cli_available(probe: &Option<VersionProbe>) -> (r: bool)
    ensures
        r == (probed_version(*probe) is Some),
{
    GeminiCliDriver::detect(probe).is_some()
}

/// What the output of a run says.
pub struct GeminiParseResult {
    pub session_id: Option<String>,
    pub final_text: Option<String>,
    pub error_message: Option<String>,
    pub usage: TokenUsage,
    /// The cost in US dollars, written out.
    pub cost_usd: Option<String>,
}

/// What the output of a run says, as contracts see it.
pub struct GeminiResultView {
    pub session_id: Option<Seq<char>>,
    pub final_text: Option<Seq<char>>,
    pub error_message: Option<Seq<char>>,
    pub usage: TokenUsage,
    pub cost_usd: Option<Seq<char>>,
}

impl View for GeminiParseResult {
    type V = GeminiResultView;

    open spec fn view(&self) -> GeminiResultView {
        GeminiResultView {
            session_id: text_option(self.session_id),
            final_text: text_option(self.final_text),
            error_message: text_option(self.error_message),
            usage: self.usage,
            cost_usd: text_option(self.cost_usd),
        }
    }
}

/// The member `key` of an event, or if there is none, its member `other`.
pub open spec fn either_member(event: JsonView, key: Seq<char>, other: Seq<char>) -> Option<
    JsonView,
> {
    match event.get(key) {
        Some(v) => Some(v),
        None => event.get(other),
    }
}

/// The session that an event names.
pub open spec fn gemini_session(event: JsonView) -> Option<Seq<char>> {
    match either_member(event, "session_id"@, "sessionId"@) {
        Some(v) => v.as_str(),
        None => None,
    }
}

/// A block of a message holds text.
pub open spec fn is_text_block(block: JsonView) -> bool {
    event_type(block) == "text"@ || event_type(block) == "content"@
}

/// The blocks of the message that an event carries.
pub open spec fn message_blocks(event: JsonView) -> Seq<JsonView> {
    match event.get2("message"@, "content"@) {
        Some(content) => content.items(),
        None => Seq::empty(),
    }
}

/// What a block of a message adds to the response: its text, on a line of its own.
pub open spec fn block_line(block: JsonView) -> Seq<char> {
    let text = trimmed(block.text_at("text"@));
    if is_text_block(block) && text.len() > 0 {
        text.push('\n')
    } else {
        Seq::empty()
    }
}

/// What the blocks of a message add to the response.
pub open spec fn block_lines(blocks: Seq<JsonView>) -> Seq<char> {
    concatenated(blocks.map_values(|b: JsonView| block_line(b)))
}

/// An event of this kind ends a step or the run, and carries counts but no text.
pub open spec fn is_closing_kind(kind: Seq<char>) -> bool {
    kind == "step_finish"@ || kind == "done"@ || kind == "complete"@
}

/// What an event adds to the response.
pub open spec fn gemini_text(event: JsonView) -> Seq<char> {
    let kind = event_type(event);
    if kind == "assistant"@ {
        block_lines(message_blocks(event)) + trimmed(event.text_at("content"@))
    } else if kind == "text"@ {
        match event.get("part"@) {
            Some(part) => trimmed(part.text_at("text"@)),
            None => trimmed(event.text_at("content"@)),
        }
    } else if kind == "result"@ {
        trimmed(event.text_at("result"@))
    } else if is_closing_kind(kind) || kind == "error"@ {
        Seq::empty()
    } else {
        trimmed(event.text_at("content"@))
    }
}

/// A result event says of itself that it is an error.
pub open spec fn is_error_result(event: JsonView) -> bool {
    ||| event.get("is_error"@) == Some(JsonView::Bool(true))
    ||| match event.str_at("subtype"@) {
        Some(subtype) => same_ignoring_ascii_case(subtype, "error"@),
        None => false,
    }
}

/// The first of two texts that is there.
pub open spec fn either_text(a: Option<Seq<char>>, b: Option<Seq<char>>) -> Option<Seq<char>> {
    match a {
        Some(s) => Some(s),
        None => b,
    }
}

/// The error that an event reports.
pub open spec fn gemini_error(event: JsonView) -> Option<Seq<char>> {
    let kind = event_type(event);
    let told = either_text(event.str_at("error"@), event.str_at("message"@));
    if kind == "result"@ {
        if is_error_result(event) {
            told
        } else {
            None
        }
    } else if kind == "error"@ {
        match either_text(told, event.str_at("content"@)) {
            Some(message) if message.len() > 0 => Some(message),
            _ => None,
        }
    } else {
        None
    }
}

/// The cost that an event reports.
pub open spec fn gemini_cost(event: JsonView) -> Option<Seq<char>> {
    if event_type(event) == "result"@ || is_closing_kind(event_type(event)) {
        match either_member(event, "total_cost_usd"@, "cost_usd"@) {
            Some(v) => v.as_number_text(),
            None => None,
        }
    } else {
        None
    }
}

/// A count that is taken from a report only while it is zero.
pub open spec fn filled(n: u64, reported: Option<u64>) -> u64 {
    if n == 0 {
        or_zero(reported)
    } else {
        n
    }
}

/// The counts after `usage_metadata` has filled those that are still zero.
pub open spec fn filled_from_metadata(usage: TokenUsage, event: JsonView) -> TokenUsage {
    TokenUsage {
        input_tokens: filled(
            usage.input_tokens,
            event.u64_at2("usage_metadata"@, "prompt_token_count"@),
        ),
        output_tokens: filled(
            usage.output_tokens,
            event.u64_at2("usage_metadata"@, "candidates_token_count"@),
        ),
    }
}

/// The counts after an event whose `usage` replaces them.
pub open spec fn usage_replaced(usage: TokenUsage, event: JsonView) -> TokenUsage {
    filled_from_metadata(
        TokenUsage {
            input_tokens: replaced(
                usage.input_tokens,
                event.u64_at2("usage"@, "input_tokens"@),
            ),
            output_tokens: replaced(
                usage.output_tokens,
                event.u64_at2("usage"@, "output_tokens"@),
            ),
        },
        event,
    )
}

/// The counts after an event whose `usage` only fills those that are still zero.
pub open spec fn usage_filled(usage: TokenUsage, event: JsonView) -> TokenUsage {
    filled_from_metadata(
        TokenUsage {
            input_tokens: filled(usage.input_tokens, event.u64_at2("usage"@, "input_tokens"@)),
            output_tokens: filled(usage.output_tokens, event.u64_at2("usage"@, "output_tokens"@)),
        },
        event,
    )
}

/// The token counts after `events`: a result replaces them, a closing event fills those
/// that are still zero.
pub open spec fn gemini_usage(events: Seq<JsonView>) -> TokenUsage
    decreases events.len(),
{
    if events.len() == 0 {
        no_usage()
    } else {
        let before = gemini_usage(events.drop_last());
        let kind = event_type(events.last());
        if kind == "result"@ {
            usage_replaced(before, events.last())
        } else if is_closing_kind(kind) {
            usage_filled(before, events.last())
        } else {
            before
        }
    }
}

/// What events add to the response, one after the other.
pub open spec fn gemini_texts(events: Seq<JsonView>) -> Seq<char> {
    concatenated(events.map_values(|e: JsonView| gemini_text(e)))
}

/// What a sequence of events says: all the text, trimmed, and the first session, error
/// and cost.
pub open spec fn gemini_result(events: Seq<JsonView>) -> GeminiResultView {
    let text = trimmed(gemini_texts(events));
    GeminiResultView {
        session_id: first_fact(events, |e: JsonView| gemini_session(e)),
        final_text: if text.len() > 0 {
            Some(text)
        } else {
            None
        },
        error_message: first_fact(events, |e: JsonView| gemini_error(e)),
        usage: gemini_usage(events),
        cost_usd: first_fact(events, |e: JsonView| gemini_cost(e)),
    }
}

/// The event that a line of output stands for; blank lines and lines that are no JSON
/// stand for none.
pub open spec fn gemini_event(line: Seq<char>) -> Option<JsonView> {
    let line = trimmed(line);
    if line.len() == 0 {
        None
    } else {
        json_text(line)
    }
}

/// The events of an output.
pub open spec fn gemini_events(stdout: Seq<char>) -> Seq<JsonView> {
    events_of_lines(lines_of(stdout), |line: Seq<char>| gemini_event(line))
}

/// The member `key` of `event`, or if there is none, its member `other`.
fn member_or<'a>(event: &'a Json, key: &str, other: &str) -> (r: Option<&'a Json>)
    ensures
        json_option(r) == either_member(event@, key@, other@),
{
    match event.get(key) {
        Some(v) => Some(v),
        None => event.get(other),
    }
}

/// The session that `event` names.
fn session_of(event: &Json) -> (r: Option<String>)
    ensures
        text_option(r) == gemini_session(event@),
{
    match member_or(event, "session_id", "sessionId") {
        Some(v) => match v.as_str() {
            Some(s) => Some(s.clone()),
            None => None,
        },
        None => None,
    }
}

/// Tells whether `block` holds text.
fn holds_text(block: &Json) -> (r: bool)
    ensures
        r == is_text_block(block@),
{
    let kind = kind_of(block);
    same(kind.as_str(), "text") || same(kind.as_str(), "content")
}

/// Adds what the blocks of the message of `event` say to `text`.
fn add_blocks(text: &mut String, event: &Json)
    ensures
        final(text)@ == old(text)@ + block_lines(message_blocks(event@)),
{
    let ghost before = text@;
    if let Some(content) = event.get2("message", "content") {
        if let Some(blocks) = content.as_array() {
            let ghost all = json_views(blocks@);
            let ghost added = all.map_values(|b: JsonView| block_line(b));
            let mut i: usize = 0;
            assert(before + concatenated(added.take(0)) =~= before);
            while i < blocks.len()
                invariant
                    i <= blocks@.len(),
                    all == json_views(blocks@),
                    added == all.map_values(|b: JsonView| block_line(b)),
                    text@ == before + concatenated(added.take(i as int)),
                decreases blocks@.len() - i,
            {
                let block = &blocks[i];
                let ghost so_far = text@;
                let line = trim(block.text_at("text").as_str());
                if holds_text(block) && !line.as_str().is_empty() {
                    text.append(line.as_str());
                    text.push('\n');
                }
                proof {
                    assert(added.take(i + 1).drop_last() =~= added.take(i as int));
                    assert(added[i as int] == block_line(block@));
                    assert(text@ =~= so_far + block_line(block@));
                    assert(text@ =~= before + concatenated(added.take(i + 1)));
                }
                i += 1;
            }
            assert(added.take(i as int) =~= added);
        } else {
            assert(text@ =~= before + block_lines(message_blocks(event@)));
        }
    } else {
        assert(text@ =~= before + block_lines(message_blocks(event@)));
    }
}

/// Adds what `event` says to `text`.
fn add_text(text: &mut String, event: &Json)
    ensures
        final(text)@ == old(text)@ + gemini_text(event@),
{
    let ghost before = text@;
    let kind = kind_of(event);
    if same(kind.as_str(), "assistant") {
        add_blocks(text, event);
        text.append(trim(event.text_at("content").as_str()).as_str());
        assert(text@ =~= before + gemini_text(event@));
    } else if same(kind.as_str(), "text") {
        let said = match event.get("part") {
            Some(part) => part.text_at("text"),
            None => event.text_at("content"),
        };
        text.append(trim(said.as_str()).as_str());
    } else if same(kind.as_str(), "result") {
        text.append(trim(event.text_at("result").as_str()).as_str());
    } else if closes(kind.as_str()) || same(kind.as_str(), "error") {
        assert(before + gemini_text(event@) =~= before);
    } else {
        text.append(trim(event.text_at("content").as_str()).as_str());
    }
}

/// Tells whether an event of this kind ends a step or the run.
fn closes(kind: &str) -> (r: bool)
    ensures
        r == is_closing_kind(kind@),
{
    same(kind, "step_finish") || same(kind, "done") || same(kind, "complete")
}

/// The first of two texts that is there.
fn text_or(a: Option<String>, b: Option<String>) -> (r: Option<String>)
    ensures
        text_option(r) == either_text(text_option(a), text_option(b)),
{
    match a {
        Some(s) => Some(s),
        None => b,
    }
}

/// The error that `event` reports.
fn error_of(event: &Json) -> (r: Option<String>)
    ensures
        text_option(r) == gemini_error(event@),
{
    let kind = kind_of(event);
    if same(kind.as_str(), "result") {
        let flagged = match event.get("is_error") {
            Some(v) => match v.as_bool() {
                Some(b) => b,
                None => false,
            },
            None => false,
        };
        let typed = match event.str_at("subtype") {
            Some(subtype) => same_ignoring_case(subtype.as_str(), "error"),
            None => false,
        };
        if flagged || typed {
            return text_or(event.str_at("error"), event.str_at("message"));
        }
        None
    } else if same(kind.as_str(), "error") {
        let told = text_or(event.str_at("error"), event.str_at("message"));
        match text_or(told, event.str_at("content")) {
            Some(message) => if message.as_str().is_empty() {
                None
            } else {
                Some(message)
            },
            None => None,
        }
    } else {
        None
    }
}

/// The cost that `event` reports.
fn cost_of(event: &Json) -> (r: Option<String>)
    ensures
        text_option(r) == gemini_cost(event@),
{
    let kind = kind_of(event);
    if same(kind.as_str(), "result") || closes(kind.as_str()) {
        match member_or(event, "total_cost_usd", "cost_usd") {
            Some(v) => v.as_number_text(),
            None => None,
        }
    } else {
        None
    }
}

/// Replaces `n` by a reported count.
fn replace_count(n: u64, reported: Option<u64>) -> (r: u64)
    ensures
        r == replaced(n, reported),
{
    match reported {
        Some(m) => m,
        None => n,
    }
}

/// Fills `n` from a reported count while it is zero.
fn fill_count(n: u64, reported: Option<u64>) -> (r: u64)
    ensures
        r == filled(n, reported),
{
    if n == 0 {
        replace_count(n, reported)
    } else {
        n
    }
}

/// Fills the counts that are still zero from the metadata of `event`.
fn fill_from_metadata(usage: TokenUsage, event: &Json) -> (r: TokenUsage)
    ensures
        r == filled_from_metadata(usage, event@),
{
    TokenUsage {
        input_tokens: fill_count(
            usage.input_tokens,
            event.u64_at2("usage_metadata", "prompt_token_count"),
        ),
        output_tokens: fill_count(
            usage.output_tokens,
            event.u64_at2("usage_metadata", "candidates_token_count"),
        ),
    }
}

/// Takes over the counts that `event` reports.
fn replace_usage(usage: TokenUsage, event: &Json) -> (r: TokenUsage)
    ensures
        r == usage_replaced(usage, event@),
{
    let reported = TokenUsage {
        input_tokens: replace_count(usage.input_tokens, event.u64_at2("usage", "input_tokens")),
        output_tokens: replace_count(usage.output_tokens, event.u64_at2("usage", "output_tokens")),
    };
    fill_from_metadata(reported, event)
}

/// Fills the counts that are still zero from what `event` reports.
fn fill_usage(usage: TokenUsage, event: &Json) -> (r: TokenUsage)
    ensures
        r == usage_filled(usage, event@),
{
    let reported = TokenUsage {
        input_tokens: fill_count(usage.input_tokens, event.u64_at2("usage", "input_tokens")),
        output_tokens: fill_count(usage.output_tokens, event.u64_at2("usage", "output_tokens")),
    };
    fill_from_metadata(reported, event)
}

/// Sums up what a sequence of events says.
pub fn summarize_gemini_events(events: &Vec<Json>) -> (r: GeminiParseResult)
    ensures
        r@ == gemini_result(json_views(events@)),
{
    let mut session_id: Option<String> = None;
    let mut text = String::new();
    let mut error_message: Option<String> = None;
    let mut usage = TokenUsage { input_tokens: 0, output_tokens: 0 };
    let mut cost_usd: Option<String> = None;
    let ghost all = json_views(events@);
    let mut i: usize = 0;
    while i < events.len()
        invariant
            i <= events@.len(),
            all == json_views(events@),
            text_option(session_id) == first_fact(
                all.take(i as int),
                |e: JsonView| gemini_session(e),
            ),
            text@ == gemini_texts(all.take(i as int)),
            text_option(error_message) == first_fact(
                all.take(i as int),
                |e: JsonView| gemini_error(e),
            ),
            usage == gemini_usage(all.take(i as int)),
            text_option(cost_usd) == first_fact(all.take(i as int), |e: JsonView| gemini_cost(e)),
        decreases events@.len() - i,
    {
        let event = &events[i];
        proof {
            let texts_so_far = all.take(i + 1).map_values(|e: JsonView| gemini_text(e));
            assert(all.take(i + 1).drop_last() =~= all.take(i as int));
            assert(all.take(i + 1).last() == event@);
            assert(texts_so_far.drop_last() =~= all.take(i as int).map_values(
                |e: JsonView| gemini_text(e),
            ));
            assert(texts_so_far.last() == gemini_text(event@));
        }
        if session_id.is_none() {
            session_id = session_of(event);
        }
        add_text(&mut text, event);
        if error_message.is_none() {
            error_message = error_of(event);
        }
        let kind = kind_of(event);
        if same(kind.as_str(), "result") {
            usage = replace_usage(usage, event);
        } else if closes(kind.as_str()) {
            usage = fill_usage(usage, event);
        }
        if cost_usd.is_none() {
            cost_usd = cost_of(event);
        }
        i += 1;
    }
    assert(all.take(i as int) =~= all);
    let whole = trim(text.as_str());
    let final_text = if whole.as_str().is_empty() {
        None
    } else {
        Some(whole)
    };
    GeminiParseResult { session_id, final_text, error_message, usage, cost_usd }
}

/// The event that `line` stands for, if any.
fn read_event(line: &str) -> (r: Option<Json>)
    ensures
        value_option(r) == gemini_event(line@),
{
    let line = trim(line);
    if line.as_str().is_empty() {
        None
    } else {
        parse_json(line.as_str())
    }
}

/// Reads the output of a run.
pub fn parse_gemini_jsonl(stdout: &str) -> (r: GeminiParseResult)
    ensures
        r@ == gemini_result(gemini_events(stdout@)),
{
    let all_lines = lines(stdout);
    let mut events: Vec<Json> = Vec::new();
    let ghost all = texts(all_lines@);
    let ghost read = |line: Seq<char>| gemini_event(line);
    let mut i: usize = 0;
    while i < all_lines.len()
        invariant
            i <= all_lines@.len(),
            all == texts(all_lines@),
            read == (|line: Seq<char>| gemini_event(line)),
            json_views(events@) == events_of_lines(all.take(i as int), read),
        decreases all_lines@.len() - i,
    {
        proof {
            assert(all.take(i + 1).drop_last() =~= all.take(i as int));
            assert(all.take(i + 1).last() == all_lines@[i as int]@);
        }
        let ghost before = events@;
        if let Some(event) = read_event(all_lines[i].as_str()) {
            events.push(event);
            assert(json_views(events@) =~= json_views(before).push(event@));
        }
        i += 1;
    }
    assert(all.take(i as int) =~= all);
    summarize_gemini_events(&events)
}

/// What the tool says when it is not authenticated.
pub const GEMINI_AUTH_RE: &'static str =
    r"(?i)not\s+authenticated|please\s+authenticate|api[_ ]?key\s+(?:required|missing|invalid)|authentication\s+required|unauthorized|invalid\s+credentials|not\s+logged\s+in|login\s+required|run\s+`?gemini\s+auth";

/// What the tool says when it does not know a session.
pub const GEMINI_UNKNOWN_SESSION_RE: &'static str =
    r"(?i)unknown\s+session|session\s+.*\s+not\s+found|resume\s+.*\s+not\s+found|checkpoint\s+.*\s+not\s+found|cannot\s+resume|failed\s+to\s+resume";

/// A failed run complains about missing authentication.
pub open spec fn says_gemini_unauthenticated(detail: Seq<char>) -> bool {
    pattern_found(GEMINI_AUTH_RE@, detail)
}

/// A failed run complains about a session that the tool does not know, or not any more.
pub open spec fn says_gemini_unknown_session(detail: Seq<char>) -> bool {
    pattern_found(GEMINI_UNKNOWN_SESSION_RE@, detail) || says_session_expired(detail)
}

/// Tells whether a failed run complains about missing authentication.
pub fn is_gemini_auth_error(stderr: &str) -> (r: bool)
    ensures
        r == says_gemini_unauthenticated(stderr@),
{
    is_match(GEMINI_AUTH_RE, stderr)
}

/// Tells whether a failed run complains about a session that the tool does not know, or
/// not any more.
pub fn is_gemini_unknown_session_error(stderr: &str) -> (r: bool)
    ensures
        r == says_gemini_unknown_session(stderr@),
{
    is_match(GEMINI_UNKNOWN_SESSION_RE, stderr) || is_session_expired_error(stderr)
}

/// The texts of the blocks that hold some.
pub open spec fn block_chunks(blocks: Seq<JsonView>) -> Seq<Seq<char>>
    decreases blocks.len(),
{
    if blocks.len() == 0 {
        Seq::empty()
    } else {
        let before = block_chunks(blocks.drop_last());
        let text = blocks.last().text_at("text"@);
        if is_text_block(blocks.last()) && text.len() > 0 {
            before.push(text)
        } else {
            before
        }
    }
}

/// The text of an event of kind `text` or `content`: its own, or if there is none, that
/// of its part.
pub open spec fn chunk_text(event: JsonView) -> Seq<char> {
    let own = event.text_at("content"@);
    if own.len() > 0 {
        own
    } else {
        match event.str_at2("part"@, "text"@) {
            Some(text) => text,
            None => Seq::empty(),
        }
    }
}

/// The state after an event that comes in while a response streams, and what the
/// listener is told: text is passed on as it is, and so is an error; a result counts as
/// text only if there was none before.
pub open spec fn gemini_told(progress: ProgressView, event: JsonView) -> Told {
    let kind = event_type(event);
    if kind == "assistant"@ {
        chunks_told(progress, block_chunks(message_blocks(event)))
    } else if kind == "text"@ || kind == "content"@ {
        some_text_told(progress, chunk_text(event))
    } else if kind == "result"@ || kind == "done"@ || kind == "complete"@ {
        let counted = ProgressView { usage: usage_replaced(progress.usage, event), ..progress };
        match event.str_at("result"@) {
            Some(text) if progress.full_text.len() == 0 => text_told(counted, text),
            _ => nothing_told(counted),
        }
    } else if kind == "error"@ {
        match event.str_at("error"@) {
            Some(message) => Told { progress, events: seq![error_event("gemini"@, message)] },
            None => nothing_told(progress),
        }
    } else {
        nothing_told(progress)
    }
}

/// The state after a line that comes in while a response streams, where `value` is what
/// it reads as, and what the listener is told: a line that is no JSON is taken for text,
/// and blank lines are passed over.
pub open spec fn gemini_read_line_told(
    progress: ProgressView,
    line: Seq<char>,
    value: Option<JsonView>,
) -> Told {
    if trimmed(line).len() == 0 {
        nothing_told(progress)
    } else {
        match value {
            Some(event) => gemini_told(progress, event),
            None => text_told(progress, line),
        }
    }
}

/// The state after a line that comes in while a response streams, and what the listener
/// is told.
pub open spec fn gemini_line_told(progress: ProgressView, line: Seq<char>) -> Told {
    gemini_read_line_told(progress, line, json_text(line))
}

/// Takes in the blocks of the message of `event`; gives what to tell the listener.
fn stream_blocks(progress: &mut StreamProgress, event: &Json) -> (r: Vec<StreamEvent>)
    ensures
        (Told { progress: final(progress)@, events: event_views(r@) }) == chunks_told(
            old(progress)@,
            block_chunks(message_blocks(event@)),
        ),
{
    let ghost before = progress@;
    let mut events: Vec<StreamEvent> = silence();
    let ghost none = Seq::<Seq<char>>::empty();
    assert(before.full_text =~= before.full_text + concatenated(none));
    assert(event_views(events@) =~= chunks_told(before, none).events);
    if let Some(content) = event.get2("message", "content") {
        if let Some(blocks) = content.as_array() {
            let ghost all = json_views(blocks@);
            let mut i: usize = 0;
            while i < blocks.len()
                invariant
                    i <= blocks@.len(),
                    all == json_views(blocks@),
                    (Told { progress: progress@, events: event_views(events@) }) == chunks_told(
                        before,
                        block_chunks(all.take(i as int)),
                    ),
                decreases blocks@.len() - i,
            {
                let block = &blocks[i];
                let chunk = block.text_at("text");
                let ghost chunks = block_chunks(all.take(i as int));
                let ghost sent = events@;
                proof {
                    assert(all.take(i + 1).drop_last() =~= all.take(i as int));
                    assert(all.take(i + 1).last() == block@);
                }
                if holds_text(block) && !chunk.as_str().is_empty() {
                    progress.full_text.append(chunk.as_str());
                    let ghost text = chunk@;
                    events.push(StreamEvent::TextDelta { text: chunk });
                    proof {
                        assert(chunks.push(text).drop_last() =~= chunks);
                        assert(before.full_text + concatenated(chunks.push(text)) =~= before.full_text
                            + concatenated(chunks) + text);
                        assert(event_views(events@) =~= event_views(sent).push(
                            StreamEventView::TextDelta { text },
                        ));
                        assert(event_views(events@) =~= chunks_told(
                            before,
                            chunks.push(text),
                        ).events);
                    }
                }
                i += 1;
            }
            assert(all.take(i as int) =~= all);
        }
    }
    events
}

/// Takes in an event while a response streams; gives what to tell the listener.
pub fn gemini_stream_event(progress: &mut StreamProgress, event: &Json) -> (r: Vec<StreamEvent>)
    ensures
        (Told { progress: final(progress)@, events: event_views(r@) }) == gemini_told(
            old(progress)@,
            event@,
        ),
{
    let kind = kind_of(event);
    if same(kind.as_str(), "assistant") {
        stream_blocks(progress, event)
    } else if same(kind.as_str(), "text") || same(kind.as_str(), "content") {
        let own = event.text_at("content");
        if !own.as_str().is_empty() {
            return progress.say_some(own.as_str());
        }
        match event.str_at2("part", "text") {
            Some(text) => progress.say_some(text.as_str()),
            None => silence(),
        }
    } else if same(kind.as_str(), "result") || same(kind.as_str(), "done") || same(
        kind.as_str(),
        "complete",
    ) {
        progress.usage = replace_usage(progress.usage, event);
        match event.str_at("result") {
            Some(text) => if progress.full_text.as_str().is_empty() {
                progress.say(text.as_str())
            } else {
                silence()
            },
            None => silence(),
        }
    } else if same(kind.as_str(), "error") {
        match event.str_at("error") {
            Some(message) => {
                let mut events: Vec<StreamEvent> = Vec::new();
                let ghost told = message@;
                events.push(error_report("gemini", message));
                assert(event_views(events@) =~= seq![error_event("gemini"@, told)]);
                events
            },
            None => silence(),
        }
    } else {
        silence()
    }
}

/// Takes in a line while a response streams, given what it reads as; gives what to tell
/// the listener.
pub fn gemini_stream_read_line(
    progress: &mut StreamProgress,
    line: &str,
    value: &Option<Json>,
) -> (r: Vec<StreamEvent>)
    ensures
        (Told { progress: final(progress)@, events: event_views(r@) }) == gemini_read_line_told(
            old(progress)@,
            line@,
            value_option(*value),
        ),
{
    if trim(line).as_str().is_empty() {
        return silence();
    }
    match value {
        Some(event) => gemini_stream_event(progress, event),
        None => progress.say(line),
    }
}

/// Takes in a line while a response streams; gives what to tell the listener.
pub fn gemini_stream_line(progress: &mut StreamProgress, line: &str) -> (r: Vec<StreamEvent>)
    ensures
        (Told { progress: final(progress)@, events: event_views(r@) }) == gemini_line_told(
            old(progress)@,
            line@,
        ),
{
    let value = parse_json(line);
    gemini_stream_read_line(progress, line, &value)
}

/// Whatever line comes in, the listener is told exactly the text that is added to the
/// response.
pub proof fn law_gemini_line_tells_what_it_adds(progress: ProgressView, line: Seq<char>)
    ensures
        tells_what_it_adds(progress, gemini_line_told(progress, line)),
{
    lemma_text_told(progress, line);
    if let Some(event) = json_text(line) {
        law_gemini_event_tells_what_it_adds(progress, event);
    }
}

/// Whatever event comes in, the listener is told exactly the text that is added to the
/// response.
pub proof fn law_gemini_event_tells_what_it_adds(progress: ProgressView, event: JsonView)
    ensures
        tells_what_it_adds(progress, gemini_told(progress, event)),
{
    let counted = ProgressView { usage: usage_replaced(progress.usage, event), ..progress };
    lemma_chunks_told(progress, block_chunks(message_blocks(event)));
    lemma_text_told(progress, chunk_text(event));
    if let Some(text) = event.str_at("result"@) {
        lemma_text_told(counted, text);
    }
    if let Some(message) = event.str_at("error"@) {
        lemma_delta_text_one(error_event("gemini"@, message));
    }
    assert(progress.full_text =~= progress.full_text + Seq::<char>::empty());
}

/// Lines that stand for no event (blank lines and lines that are no JSON) change nothing
/// of what an output says, wherever they stand in it.
pub proof fn law_gemini_passes_over_silent_lines(
    first: Seq<char>,
    line: Seq<char>,
    second: Seq<char>,
)
    requires
        first.len() == 0 || first.last() == '\n',
        !line.contains('\n'),
        gemini_event(line) is None,
    ensures
        gemini_events(first + line.push('\n') + second) == gemini_events(first + second),
{
    if line.len() > 0 && line.last() == '\r' {
        assert(line =~= line.drop_last().push('\r'));
        lemma_trimmed_push(line.drop_last(), '\r');
    }
    lemma_silent_line(first, line, second, |l: Seq<char>| gemini_event(l));
}

/// The text of a response, where there is one, is not empty and has no white space at its
/// ends.
pub proof fn law_gemini_text_is_trimmed(events: Seq<JsonView>)
    ensures
        gemini_result(events).final_text matches Some(text) ==> text.len() > 0 && trimmed(text)
            == text,
{
    lemma_trimmed_ends(gemini_texts(events));
}

/// A model may be named with or without the provider in front.
pub proof fn law_gemini_provider_prefix_is_optional(
    request: RequestView,
    prompt: Seq<char>,
    skip_permissions: bool,
)
    requires
        !"gemini-local/"@.is_prefix_of(request.model),
    ensures
        gemini_args(
            RequestView { model: "gemini-local/"@ + request.model, ..request },
            prompt,
            skip_permissions,
        ) == gemini_args(request, prompt, skip_permissions),
{
    lemma_without_prefix("gemini-local/"@, request.model);
}

/// The prompt is the last argument, and the tool is told to skip approvals if it is to
/// skip them.
pub proof fn law_gemini_args(request: RequestView, prompt: Seq<char>, skip_permissions: bool)
    ensures
        gemini_args(request, prompt, skip_permissions).last() == prompt,
        gemini_args(request, prompt, skip_permissions).drop_last().last() == "--prompt"@,
        skip_permissions ==> gemini_args(request, prompt, skip_permissions).contains(
            "--approval-mode"@,
        ) && gemini_args(request, prompt, skip_permissions).contains("yolo"@),
{
    let args = gemini_args(request, prompt, skip_permissions);
    let at: int = 2 + model_args(
        without_prefix(request.model, "gemini-local/"@),
        "auto"@,
    ).len() as int;
    if skip_permissions {
        assert(args[at] == "--approval-mode"@);
        assert(args[at + 1] == "yolo"@);
    }
}

/// The tool gets its system prompt and the home directory, no secret of its parent, and
/// the rest of the environment unchanged.
pub proof fn law_gemini_env(
    program: Seq<char>,
    skip_permissions: bool,
    request: RequestView,
    inherited: Seq<Seq<char>>,
    home: Option<Seq<char>>,
    parent: Map<Seq<char>, Seq<char>>,
)
    requires
        forall|k: Seq<char>| #[trigger] parent.dom().contains(k) ==> inherited.contains(k),
    ensures
        is_launch_env(
            parent,
            "GEMINI_SYSTEM_PROMPT"@,
            request.system,
            home,
            child_env(
                parent,
                gemini_command(program, skip_permissions, request, inherited, home).env,
            ),
        ),
{
    law_launch_env(parent, "GEMINI_SYSTEM_PROMPT"@, request.system, inherited, home);
}

} // verus!
