//! Running a tool, step by step.
//!
//! A run is a state machine. It is told what has happened to the child process and
//! answers what is to be done next; whoever drives it does these things in order and
//! reports what comes of them. A run that is done answers nothing any more.

use vstd::prelude::*;

use crate::backend::{
    completion_reply, completion_timeout, completion_wait_failure, judge_completion, launch_failure,
    no_stdout, report_completion_timeout, report_completion_wait_failure, report_launch_failure,
    report_no_stdout, report_stream_failure, report_stream_timeout, report_stream_wait_failure,
    stream_failure, stream_timeout, stream_wait_failure, Backend,
};
use crate::codex_cli::{codex_line_told, codex_stream_line, law_codex_line_tells_what_it_adds};
use crate::gemini_cli::{gemini_line_told, gemini_stream_line, law_gemini_line_tells_what_it_adds};
use crate::message::{
    event_views, reply_view, respond, text_response, CompletionResponse, LlmError, ReplyView,
    StopReason, StreamEvent, StreamEventView, TokenUsage,
};
use crate::stream::{
    delta_text, lemma_delta_text_append, lemma_delta_text_one, no_progress, tells_what_it_adds,
    ProgressView, StreamProgress, Told,
};
use crate::text::text_option;

verus! {

/// Something to be done for a run.
pub enum RunAction {
    /// Note in the table of processes that `pid` runs under `label`.
    Track { label: String, pid: u32 },
    /// Take `label` out of the table of processes.
    Untrack { label: String },
    /// Write `text` to the process and close its input.
    WriteStdin { text: String },
    /// Wait until the process ends, but no longer than until so many seconds after it
    /// was started.
    AwaitExit { timeout_secs: u64 },
    /// Read the output line by line to its end, but no longer than until so many seconds
    /// after the process was started.
    ReadLines { timeout_secs: u64 },
    /// Kill the process.
    Kill,
    /// Tell the listener.
    Emit { event: StreamEvent },
    /// Hand this to whoever asked; the run is over.
    Finish { reply: Result<CompletionResponse, LlmError> },
}

/// Something to be done, as contracts see it.
pub enum ActionView {
    Track { label: Seq<char>, pid: u32 },
    Untrack { label: Seq<char> },
    WriteStdin { text: Seq<char> },
    AwaitExit { timeout_secs: u64 },
    ReadLines { timeout_secs: u64 },
    Kill,
    Emit { event: StreamEventView },
    Finish { reply: ReplyView },
}

impl View for RunAction {
    type V = ActionView;

    open spec fn view(&self) -> ActionView {
        match *self {
            RunAction::Track { label, pid } => ActionView::Track { label: label@, pid },
            RunAction::Untrack { label } => ActionView::Untrack { label: label@ },
            RunAction::WriteStdin { text } => ActionView::WriteStdin { text: text@ },
            RunAction::AwaitExit { timeout_secs } => ActionView::AwaitExit { timeout_secs },
            RunAction::ReadLines { timeout_secs } => ActionView::ReadLines { timeout_secs },
            RunAction::Kill => ActionView::Kill,
            RunAction::Emit { event } => ActionView::Emit { event: event@ },
            RunAction::Finish { reply } => ActionView::Finish { reply: reply_view(reply) },
        }
    }
}

/// The views of actions.
pub open spec fn action_views(actions: Seq<RunAction>) -> Seq<ActionView> {
    actions.map_values(|a: RunAction| a@)
}

/// What to do once the process has started: note it, and hand it the prompt if it reads
/// that from its input.
pub open spec fn started_actions(
    label: Seq<char>,
    pid: Option<u32>,
    prompt: Option<Seq<char>>,
) -> Seq<ActionView> {
    (match pid {
        Some(pid) => seq![ActionView::Track { label, pid }],
        None => Seq::empty(),
    }) + (match prompt {
        Some(text) => seq![ActionView::WriteStdin { text }],
        None => Seq::empty(),
    })
}

/// Adds an action.
fn append_action(actions: &mut Vec<RunAction>, action: RunAction)
    ensures
        action_views(final(actions)@) == action_views(old(actions)@).push(action@),
{
    let ghost before = actions@;
    actions.push(action);
    assert(action_views(actions@) =~= action_views(before).push(action@));
}

/// No actions.
fn no_actions() -> (r: Vec<RunAction>)
    ensures
        action_views(r@) == Seq::<ActionView>::empty(),
{
    let actions: Vec<RunAction> = Vec::new();
    assert(action_views(actions@) =~= Seq::<ActionView>::empty());
    actions
}

/// What to do once the process has started.
fn start(label: &String, pid: Option<u32>, prompt: &Option<String>) -> (r: Vec<RunAction>)
    ensures
        action_views(r@) == started_actions(label@, pid, text_option(*prompt)),
{
    let mut actions = no_actions();
    if let Some(pid) = pid {
        append_action(&mut actions, RunAction::Track { label: label.clone(), pid });
    }
    if let Some(text) = prompt {
        append_action(&mut actions, RunAction::WriteStdin { text: text.clone() });
    }
    assert(action_views(actions@) =~= started_actions(label@, pid, text_option(*prompt)));
    actions
}

/// How far a run for a whole response has come.
#[derive(Debug, Clone, Copy, PartialEq, Eq, Structural)]
pub enum CompletionPhase {
    /// The process is being started.
    Launching,
    /// The process runs.
    Waiting,
    /// The run is over.
    Done,
}

/// A run that waits for the whole response.
pub struct CompletionRun {
    pub backend: Backend,
    /// The label of the process in the table of processes.
    pub label: String,
    pub timeout_secs: u64,
    /// What is written to the process.
    pub prompt: Option<String>,
    pub phase: CompletionPhase,
}

/// A run that waits for the whole response, as contracts see it.
pub struct CompletionRunView {
    pub backend: Backend,
    pub label: Seq<char>,
    pub timeout_secs: u64,
    pub prompt: Option<Seq<char>>,
    pub phase: CompletionPhase,
}

impl View for CompletionRun {
    type V = CompletionRunView;

    open spec fn view(&self) -> CompletionRunView {
        CompletionRunView {
            backend: self.backend,
            label: self.label@,
            timeout_secs: self.timeout_secs,
            prompt: text_option(self.prompt),
            phase: self.phase,
        }
    }
}

/// What can happen to the process of a run for a whole response.
pub enum CompletionInput {
    Launched { pid: Option<u32> },
    LaunchFailed { reason: String },
    /// The process ended, having written this to its outputs.
    Exited { success: bool, code: Option<i32>, stdout: Vec<u8>, stderr: Vec<u8> },
    WaitFailed { reason: String },
    TimedOut,
}

/// What can happen to the process, as contracts see it.
pub enum CompletionInputView {
    Launched { pid: Option<u32> },
    LaunchFailed { reason: Seq<char> },
    Exited { success: bool, code: Option<i32>, stdout: Seq<u8>, stderr: Seq<u8> },
    WaitFailed { reason: Seq<char> },
    TimedOut,
}

impl View for CompletionInput {
    type V = CompletionInputView;

    open spec fn view(&self) -> CompletionInputView {
        match *self {
            CompletionInput::Launched { pid } => CompletionInputView::Launched { pid },
            CompletionInput::LaunchFailed { reason } => CompletionInputView::LaunchFailed {
                reason: reason@,
            },
            CompletionInput::Exited { success, code, stdout, stderr } => {
                CompletionInputView::Exited { success, code, stdout: stdout@, stderr: stderr@ }
            },
            CompletionInput::WaitFailed { reason } => CompletionInputView::WaitFailed {
                reason: reason@,
            },
            CompletionInput::TimedOut => CompletionInputView::TimedOut,
        }
    }
}

/// A run for a whole response and what it wants done.
pub struct CompletionStep {
    pub run: CompletionRunView,
    pub actions: Seq<ActionView>,
}

impl CompletionRunView {
    /// The same run in another phase.
    pub open spec fn in_phase(self, phase: CompletionPhase) -> CompletionRunView {
        CompletionRunView { phase, ..self }
    }

    /// The run ends with `reply` after `actions`.
    pub open spec fn finishes(self, actions: Seq<ActionView>, reply: ReplyView) -> CompletionStep {
        CompletionStep {
            run: self.in_phase(CompletionPhase::Done),
            actions: actions.push(ActionView::Finish { reply }),
        }
    }

    /// What the run answers to `input`. Input that does not fit the phase is passed over.
    pub open spec fn step(self, input: CompletionInputView) -> CompletionStep {
        let untrack = seq![ActionView::Untrack { label: self.label }];
        match (self.phase, input) {
            (CompletionPhase::Launching, CompletionInputView::Launched { pid }) => {
                CompletionStep {
                    run: self.in_phase(CompletionPhase::Waiting),
                    actions: started_actions(self.label, pid, self.prompt).push(
                        ActionView::AwaitExit { timeout_secs: self.timeout_secs },
                    ),
                }
            },
            (CompletionPhase::Launching, CompletionInputView::LaunchFailed { reason }) => {
                self.finishes(Seq::empty(), Err(launch_failure(self.backend, reason)))
            },
            (
                CompletionPhase::Waiting,
                CompletionInputView::Exited { success, code, stdout, stderr },
            ) => {
                self.finishes(
                    untrack,
                    completion_reply(self.backend, success, code, stdout, stderr),
                )
            },
            (CompletionPhase::Waiting, CompletionInputView::WaitFailed { reason }) => {
                self.finishes(untrack, Err(completion_wait_failure(self.backend, reason)))
            },
            (CompletionPhase::Waiting, CompletionInputView::TimedOut) => {
                self.finishes(
                    untrack.push(ActionView::Kill),
                    Err(completion_timeout(self.backend, self.timeout_secs)),
                )
            },
            _ => CompletionStep { run: self, actions: Seq::empty() },
        }
    }
}

impl CompletionRun {
    /// Ends the run.
    fn finish(
        &mut self,
        actions: Vec<RunAction>,
        reply: Result<CompletionResponse, LlmError>,
    ) -> (r: Vec<RunAction>)
        ensures
            (CompletionStep { run: final(self)@, actions: action_views(r@) }) == old(
                self,
            )@.finishes(action_views(actions@), reply_view(reply)),
    {
        let mut actions = actions;
        append_action(&mut actions, RunAction::Finish { reply });
        self.phase = CompletionPhase::Done;
        actions
    }

    /// The action that takes the process out of the table.
    fn untrack(&self) -> (r: Vec<RunAction>)
        ensures
            action_views(r@) == seq![ActionView::Untrack { label: self@.label }],
    {
        let mut actions = no_actions();
        append_action(&mut actions, RunAction::Untrack { label: self.label.clone() });
        assert(action_views(actions@) =~= seq![ActionView::Untrack { label: self@.label }]);
        actions
    }

    /// Tells the run what happened; gives what is to be done.
    pub fn step(&mut self, input: CompletionInput) -> (r: Vec<RunAction>)
        ensures
            (CompletionStep { run: final(self)@, actions: action_views(r@) }) == old(self)@.step(
                input@,
            ),
    {
        match self.phase {
            CompletionPhase::Launching => match input {
                CompletionInput::Launched { pid } => {
                    let mut actions = start(&self.label, pid, &self.prompt);
                    append_action(
                        &mut actions,
                        RunAction::AwaitExit { timeout_secs: self.timeout_secs },
                    );
                    self.phase = CompletionPhase::Waiting;
                    actions
                },
                CompletionInput::LaunchFailed { reason } => {
                    let error = report_launch_failure(self.backend, reason.as_str());
                    self.finish(no_actions(), Err(error))
                },
                _ => no_actions(),
            },
            CompletionPhase::Waiting => match input {
                CompletionInput::Exited { success, code, stdout, stderr } => {
                    let reply = judge_completion(self.backend, success, code, &stdout, &stderr);
                    let actions = self.untrack();
                    self.finish(actions, reply)
                },
                CompletionInput::WaitFailed { reason } => {
                    let error = report_completion_wait_failure(self.backend, reason.as_str());
                    let actions = self.untrack();
                    self.finish(actions, Err(error))
                },
                CompletionInput::TimedOut => {
                    let error = report_completion_timeout(self.backend, self.timeout_secs);
                    let mut actions = self.untrack();
                    append_action(&mut actions, RunAction::Kill);
                    self.finish(actions, Err(error))
                },
                _ => no_actions(),
            },
            CompletionPhase::Done => no_actions(),
        }
    }
}

/// How far a run for a stream has come.
#[derive(Debug, Clone, Copy, PartialEq, Eq, Structural)]
pub enum StreamPhase {
    /// The process is being started.
    Launching,
    /// Its output is being read.
    Reading,
    /// Its output has ended, and its end is awaited.
    Exiting,
    /// The run is over.
    Done,
}

/// A run that passes the response on as it comes in.
pub struct StreamRun {
    pub backend: Backend,
    /// The label of the process in the table of processes.
    pub label: String,
    pub timeout_secs: u64,
    /// What is written to the process.
    pub prompt: Option<String>,
    pub phase: StreamPhase,
    pub progress: StreamProgress,
}

/// A run that passes the response on, as contracts see it.
pub struct StreamRunView {
    pub backend: Backend,
    pub label: Seq<char>,
    pub timeout_secs: u64,
    pub prompt: Option<Seq<char>>,
    pub phase: StreamPhase,
    pub progress: ProgressView,
}

impl View for StreamRun {
    type V = StreamRunView;

    open spec fn view(&self) -> StreamRunView {
        StreamRunView {
            backend: self.backend,
            label: self.label@,
            timeout_secs: self.timeout_secs,
            prompt: text_option(self.prompt),
            phase: self.phase,
            progress: self.progress@,
        }
    }
}

/// What can happen to the process of a run for a stream.
pub enum StreamInput {
    /// The process runs; its output can be read or not.
    Launched { pid: Option<u32>, has_stdout: bool },
    LaunchFailed { reason: String },
    /// A line of output, without its line end.
    Line { line: String },
    /// There is no more output.
    OutputEnded,
    TimedOut,
    Exited { success: bool, code: Option<i32> },
    WaitFailed { reason: String },
}

/// What can happen to the process, as contracts see it.
pub enum StreamInputView {
    Launched { pid: Option<u32>, has_stdout: bool },
    LaunchFailed { reason: Seq<char> },
    Line { line: Seq<char> },
    OutputEnded,
    TimedOut,
    Exited { success: bool, code: Option<i32> },
    WaitFailed { reason: Seq<char> },
}

impl View for StreamInput {
    type V = StreamInputView;

    open spec fn view(&self) -> StreamInputView {
        match *self {
            StreamInput::Launched { pid, has_stdout } => StreamInputView::Launched {
                pid,
                has_stdout,
            },
            StreamInput::LaunchFailed { reason } => StreamInputView::LaunchFailed {
                reason: reason@,
            },
            StreamInput::Line { line } => StreamInputView::Line { line: line@ },
            StreamInput::OutputEnded => StreamInputView::OutputEnded,
            StreamInput::TimedOut => StreamInputView::TimedOut,
            StreamInput::Exited { success, code } => StreamInputView::Exited { success, code },
            StreamInput::WaitFailed { reason } => StreamInputView::WaitFailed { reason: reason@ },
        }
    }
}

/// A run for a stream and what it wants done.
pub struct StreamStep {
    pub run: StreamRunView,
    pub actions: Seq<ActionView>,
}

/// What a line of output adds to the response, and what the listener is told.
pub open spec fn line_told(backend: Backend, progress: ProgressView, line: Seq<char>) -> Told {
    match backend {
        Backend::Codex => codex_line_told(progress, line),
        Backend::Gemini => gemini_line_told(progress, line),
    }
}

/// Telling the listener of each of `events`.
pub open spec fn emissions(events: Seq<StreamEventView>) -> Seq<ActionView> {
    events.map_values(|event: StreamEventView| ActionView::Emit { event })
}

impl StreamRunView {
    /// The same run in another phase.
    pub open spec fn in_phase(self, phase: StreamPhase) -> StreamRunView {
        StreamRunView { phase, ..self }
    }

    /// The run ends with `reply` after `actions`.
    pub open spec fn finishes(self, actions: Seq<ActionView>, reply: ReplyView) -> StreamStep {
        StreamStep {
            run: self.in_phase(StreamPhase::Done),
            actions: actions.push(ActionView::Finish { reply }),
        }
    }

    /// What the run answers to `input`. Input that does not fit the phase is passed over.
    pub open spec fn step(self, input: StreamInputView) -> StreamStep {
        let untrack = seq![ActionView::Untrack { label: self.label }];
        match (self.phase, input) {
            (StreamPhase::Launching, StreamInputView::Launched { pid, has_stdout }) => {
                let started = started_actions(self.label, pid, self.prompt);
                if has_stdout {
                    StreamStep {
                        run: self.in_phase(StreamPhase::Reading),
                        actions: started.push(
                            ActionView::ReadLines { timeout_secs: self.timeout_secs },
                        ),
                    }
                } else {
                    self.finishes(started + untrack, Err(no_stdout(self.backend)))
                }
            },
            (StreamPhase::Launching, StreamInputView::LaunchFailed { reason }) => {
                self.finishes(Seq::empty(), Err(launch_failure(self.backend, reason)))
            },
            (StreamPhase::Reading, StreamInputView::Line { line }) => {
                let told = line_told(self.backend, self.progress, line);
                StreamStep {
                    run: StreamRunView { progress: told.progress, ..self },
                    actions: emissions(told.events),
                }
            },
            (StreamPhase::Reading, StreamInputView::OutputEnded) => {
                StreamStep {
                    run: self.in_phase(StreamPhase::Exiting),
                    actions: untrack.push(
                        ActionView::AwaitExit { timeout_secs: self.timeout_secs },
                    ),
                }
            },
            (StreamPhase::Reading, StreamInputView::TimedOut) => {
                self.finishes(
                    untrack.push(ActionView::Kill),
                    Err(stream_timeout(self.backend, self.timeout_secs)),
                )
            },
            (StreamPhase::Exiting, StreamInputView::Exited { success, code }) => {
                if success {
                    self.finishes(
                        emissions(
                            seq![
                                StreamEventView::ContentComplete {
                                    stop_reason: StopReason::EndTurn,
                                    usage: self.progress.usage,
                                },
                            ],
                        ),
                        Ok(text_response(self.progress.full_text, self.progress.usage)),
                    )
                } else {
                    self.finishes(Seq::empty(), Err(stream_failure(self.backend, code)))
                }
            },
            (StreamPhase::Exiting, StreamInputView::WaitFailed { reason }) => {
                self.finishes(Seq::empty(), Err(stream_wait_failure(self.backend, reason)))
            },
            (StreamPhase::Exiting, StreamInputView::TimedOut) => {
                self.finishes(
                    seq![ActionView::Kill],
                    Err(stream_timeout(self.backend, self.timeout_secs)),
                )
            },
            _ => StreamStep { run: self, actions: Seq::empty() },
        }
    }
}

impl StreamRun {
    /// Ends the run.
    fn finish(
        &mut self,
        actions: Vec<RunAction>,
        reply: Result<CompletionResponse, LlmError>,
    ) -> (r: Vec<RunAction>)
        ensures
            (StreamStep { run: final(self)@, actions: action_views(r@) }) == old(self)@.finishes(
                action_views(actions@),
                reply_view(reply),
            ),
    {
        let mut actions = actions;
        append_action(&mut actions, RunAction::Finish { reply });
        self.phase = StreamPhase::Done;
        actions
    }

    /// Adds the action that takes the process out of the table.
    fn untrack(&self, actions: Vec<RunAction>) -> (r: Vec<RunAction>)
        ensures
            action_views(r@) == action_views(actions@) + seq![
                ActionView::Untrack { label: self@.label },
            ],
    {
        let mut actions = actions;
        let ghost before = action_views(actions@);
        append_action(&mut actions, RunAction::Untrack { label: self.label.clone() });
        assert(action_views(actions@) =~= before + seq![ActionView::Untrack { label: self@.label }]);
        actions
    }

    /// Takes in a line of output.
    fn take_line(&mut self, line: &str) -> (r: Vec<RunAction>)
        ensures
            final(self)@ == (StreamRunView {
                progress: line_told(old(self)@.backend, old(self)@.progress, line@).progress,
                ..old(self)@
            }),
            action_views(r@) == emissions(
                line_told(old(self)@.backend, old(self)@.progress, line@).events,
            ),
    {
        let events = match self.backend {
            Backend::Codex => codex_stream_line(&mut self.progress, line),
            Backend::Gemini => gemini_stream_line(&mut self.progress, line),
        };
        emit_all(events)
    }

    /// Tells the run what happened; gives what is to be done.
    pub fn step(&mut self, input: StreamInput) -> (r: Vec<RunAction>)
        ensures
            (StreamStep { run: final(self)@, actions: action_views(r@) }) == old(self)@.step(
                input@,
            ),
    {
        match self.phase {
            StreamPhase::Launching => match input {
                StreamInput::Launched { pid, has_stdout } => {
                    let mut actions = start(&self.label, pid, &self.prompt);
                    if has_stdout {
                        append_action(
                            &mut actions,
                            RunAction::ReadLines { timeout_secs: self.timeout_secs },
                        );
                        self.phase = StreamPhase::Reading;
                        actions
                    } else {
                        let error = report_no_stdout(self.backend);
                        let actions = self.untrack(actions);
                        self.finish(actions, Err(error))
                    }
                },
                StreamInput::LaunchFailed { reason } => {
                    let error = report_launch_failure(self.backend, reason.as_str());
                    self.finish(no_actions(), Err(error))
                },
                _ => no_actions(),
            },
            StreamPhase::Reading => match input {
                StreamInput::Line { line } => self.take_line(line.as_str()),
                StreamInput::OutputEnded => {
                    let mut actions = self.untrack(no_actions());
                    append_action(
                        &mut actions,
                        RunAction::AwaitExit { timeout_secs: self.timeout_secs },
                    );
                    self.phase = StreamPhase::Exiting;
                    actions
                },
                StreamInput::TimedOut => {
                    let error = report_stream_timeout(self.backend, self.timeout_secs);
                    let mut actions = self.untrack(no_actions());
                    append_action(&mut actions, RunAction::Kill);
                    self.finish(actions, Err(error))
                },
                _ => no_actions(),
            },
            StreamPhase::Exiting => match input {
                StreamInput::Exited { success, code } => {
                    if success {
                        let usage = self.progress.usage;
                        let response = respond(self.progress.full_text.clone(), usage);
                        let mut events: Vec<StreamEvent> = Vec::new();
                        events.push(
                            StreamEvent::ContentComplete {
                                stop_reason: StopReason::EndTurn,
                                usage,
                            },
                        );
                        assert(event_views(events@) =~= seq![
                            StreamEventView::ContentComplete {
                                stop_reason: StopReason::EndTurn,
                                usage,
                            },
                        ]);
                        let actions = emit_all(events);
                        self.finish(actions, Ok(response))
                    } else {
                        let error = report_stream_failure(self.backend, code);
                        self.finish(no_actions(), Err(error))
                    }
                },
                StreamInput::WaitFailed { reason } => {
                    let error = report_stream_wait_failure(self.backend, reason.as_str());
                    self.finish(no_actions(), Err(error))
                },
                StreamInput::TimedOut => {
                    let error = report_stream_timeout(self.backend, self.timeout_secs);
                    let mut actions = no_actions();
                    append_action(&mut actions, RunAction::Kill);
                    assert(action_views(actions@) =~= seq![ActionView::Kill]);
                    self.finish(actions, Err(error))
                },
                _ => no_actions(),
            },
            StreamPhase::Done => no_actions(),
        }
    }
}

/// Telling the listener of each of `events`.
fn emit_all(events: Vec<StreamEvent>) -> (r: Vec<RunAction>)
    ensures
        action_views(r@) == emissions(event_views(events@)),
{
    let mut actions = no_actions();
    let ghost all = events@;
    for event in it: events
        invariant
            it.seq() == all,
            action_views(actions@) == emissions(event_views(all.take(it.index() as int))),
    {
        proof {
            let k = it.index() as int;
            assert(all.take(k + 1) =~= all.take(k).push(all[k]));
            assert(emissions(event_views(all.take(k + 1))) =~= emissions(
                event_views(all.take(k)),
            ).push(ActionView::Emit { event: all[k]@ }));
        }
        append_action(&mut actions, RunAction::Emit { event });
    }
    assert(all.take(all.len() as int) =~= all);
    actions
}

/// The run and all it wanted done after `inputs`, one after the other.
pub open spec fn completion_trace(
    run: CompletionRunView,
    inputs: Seq<CompletionInputView>,
) -> CompletionStep
    decreases inputs.len(),
{
    if inputs.len() == 0 {
        CompletionStep { run, actions: Seq::empty() }
    } else {
        let before = completion_trace(run, inputs.drop_last());
        let last = before.run.step(inputs.last());
        CompletionStep { run: last.run, actions: before.actions + last.actions }
    }
}

/// The run and all it wanted done after `inputs`, one after the other.
pub open spec fn stream_trace(run: StreamRunView, inputs: Seq<StreamInputView>) -> StreamStep
    decreases inputs.len(),
{
    if inputs.len() == 0 {
        StreamStep { run, actions: Seq::empty() }
    } else {
        let before = stream_trace(run, inputs.drop_last());
        let last = before.run.step(inputs.last());
        StreamStep { run: last.run, actions: before.actions + last.actions }
    }
}

/// A reply is the last of `actions` if the run is done, and there is no other reply.
pub open spec fn replies_once(actions: Seq<ActionView>, done: bool) -> bool {
    &&& forall|i: int|
        0 <= i < actions.len() && (#[trigger] actions[i]) is Finish ==> done && i == actions.len()
            - 1
    &&& done ==> actions.len() > 0 && actions.last() is Finish
}

/// Every process that `actions` note in the table they take out again later.
pub open spec fn releases(actions: Seq<ActionView>) -> bool {
    forall|i: int|
        0 <= i < actions.len() && (#[trigger] actions[i]) is Track ==> released_after(
            actions,
            i,
            actions[i]->Track_label,
        )
}

/// `label` is taken out of the table behind position `i` of `actions`.
pub open spec fn released_after(actions: Seq<ActionView>, i: int, label: Seq<char>) -> bool {
    exists|j: int| i < j < actions.len() && #[trigger] actions[j] == (ActionView::Untrack { label })
}

/// Nothing is noted in the table.
pub open spec fn tracks_nothing(actions: Seq<ActionView>) -> bool {
    forall|i: int| 0 <= i < actions.len() ==> !((#[trigger] actions[i]) is Track)
}

/// Only processes under `label` are noted in the table.
pub open spec fn tracks_only(actions: Seq<ActionView>, label: Seq<char>) -> bool {
    forall|i: int|
        0 <= i < actions.len() && (#[trigger] actions[i]) is Track ==> actions[i]->Track_label
            == label
}

proof fn lemma_releases_grow(first: Seq<ActionView>, second: Seq<ActionView>)
    requires
        releases(first),
        tracks_nothing(second),
    ensures
        releases(first + second),
{
    let all = first + second;
    assert forall|i: int| 0 <= i < all.len() && (#[trigger] all[i]) is Track implies released_after(
        all,
        i,
        all[i]->Track_label,
    ) by {
        if i < first.len() {
            assert(all[i] == first[i]);
            let label = first[i]->Track_label;
            let j = choose|j: int|
                i < j < first.len() && #[trigger] first[j] == (ActionView::Untrack { label });
            assert(all[j] == first[j]);
        } else {
            assert(all[i] == second[i - first.len()]);
        }
    }
}

proof fn lemma_releases_now(
    first: Seq<ActionView>,
    second: Seq<ActionView>,
    label: Seq<char>,
    k: int,
)
    requires
        tracks_only(first, label),
        0 <= k < second.len(),
        second[k] == (ActionView::Untrack { label }),
        forall|i: int| k <= i < second.len() ==> !((#[trigger] second[i]) is Track),
        tracks_only(second, label),
    ensures
        releases(first + second),
{
    let all = first + second;
    assert forall|i: int| 0 <= i < all.len() && (#[trigger] all[i]) is Track implies released_after(
        all,
        i,
        all[i]->Track_label,
    ) by {
        if i < first.len() {
            assert(all[i] == first[i]);
        } else {
            assert(all[i] == second[i - first.len()]);
        }
        assert(all[first.len() + k] == second[k]);
    }
}

/// What a run for a whole response keeps true from its start on.
pub open spec fn completion_invariant(start: CompletionRunView, now: CompletionStep) -> bool {
    &&& now.run == start.in_phase(now.run.phase)
    &&& replies_once(now.actions, now.run.phase == CompletionPhase::Done)
    &&& tracks_only(now.actions, start.label)
    &&& now.run.phase == CompletionPhase::Launching ==> tracks_nothing(now.actions)
    &&& now.run.phase == CompletionPhase::Done ==> releases(now.actions)
}

proof fn lemma_completion_step(
    start: CompletionRunView,
    before: CompletionStep,
    input: CompletionInputView,
)
    requires
        completion_invariant(start, before),
    ensures
        ({
            let last = before.run.step(input);
            completion_invariant(
                start,
                CompletionStep { run: last.run, actions: before.actions + last.actions },
            )
        }),
{
    let last = before.run.step(input);
    let all = before.actions + last.actions;
    assert forall|i: int| 0 <= i < all.len() implies #[trigger] all[i] == (if i
        < before.actions.len() {
        before.actions[i]
    } else {
        last.actions[i - before.actions.len()]
    }) by {}
    if before.run.phase == CompletionPhase::Waiting && last.run.phase == CompletionPhase::Done {
        assert(last.actions[0] == (ActionView::Untrack { label: start.label }));
        lemma_releases_now(before.actions, last.actions, start.label, 0);
    } else if before.run.phase != CompletionPhase::Done && last.run.phase
        == CompletionPhase::Done {
        assert(tracks_nothing(all));
    } else if before.run.phase == CompletionPhase::Done {
        assert(all =~= before.actions);
    }
}

proof fn lemma_completion_trace(run: CompletionRunView, inputs: Seq<CompletionInputView>)
    requires
        run.phase == CompletionPhase::Launching,
    ensures
        completion_invariant(run, completion_trace(run, inputs)),
    decreases inputs.len(),
{
    if inputs.len() > 0 {
        lemma_completion_trace(run, inputs.drop_last());
        lemma_completion_step(run, completion_trace(run, inputs.drop_last()), inputs.last());
    }
}

/// Whatever happens, a run for a whole response replies once, as the last thing it does,
/// and by then has taken every process that it noted out of the table again.
pub proof fn law_completion_replies_once_and_releases(
    run: CompletionRunView,
    inputs: Seq<CompletionInputView>,
)
    requires
        run.phase == CompletionPhase::Launching,
    ensures
        ({
            let end = completion_trace(run, inputs);
            &&& replies_once(end.actions, end.run.phase == CompletionPhase::Done)
            &&& end.run.phase == CompletionPhase::Done ==> releases(end.actions)
        }),
{
    lemma_completion_trace(run, inputs);
}

/// A process that was asked for a whole response is killed exactly when it exceeds its
/// time, and then the reply is the error for that.
pub proof fn law_completion_kills_on_timeout(run: CompletionRunView, input: CompletionInputView)
    ensures
        run.step(input).actions.contains(ActionView::Kill) <==> (run.phase
            == CompletionPhase::Waiting && input is TimedOut),
        run.step(input).actions.contains(ActionView::Kill) ==> run.step(input).actions.last() == (
        ActionView::Finish { reply: Err(completion_timeout(run.backend, run.timeout_secs)) }),
{
    let actions = run.step(input).actions;
    if run.phase == CompletionPhase::Waiting && input is TimedOut {
        assert(actions[1] == ActionView::Kill);
    }
}

/// The events that `actions` tell the listener.
pub open spec fn told_events(actions: Seq<ActionView>) -> Seq<StreamEventView>
    decreases actions.len(),
{
    if actions.len() == 0 {
        Seq::empty()
    } else {
        let before = told_events(actions.drop_last());
        match actions.last() {
            ActionView::Emit { event } => before.push(event),
            _ => before,
        }
    }
}

proof fn lemma_told_events_append(first: Seq<ActionView>, second: Seq<ActionView>)
    ensures
        told_events(first + second) == told_events(first) + told_events(second),
    decreases second.len(),
{
    if second.len() == 0 {
        assert(first + second =~= first);
        assert(told_events(first) + told_events(second) =~= told_events(first));
    } else {
        lemma_told_events_append(first, second.drop_last());
        assert((first + second).drop_last() =~= first + second.drop_last());
        assert(told_events(first + second) =~= told_events(first) + told_events(second));
    }
}

proof fn lemma_told_events_of_emissions(events: Seq<StreamEventView>)
    ensures
        told_events(emissions(events)) == events,
    decreases events.len(),
{
    if events.len() > 0 {
        lemma_told_events_of_emissions(events.drop_last());
        assert(emissions(events).drop_last() =~= emissions(events.drop_last()));
        assert(events.drop_last().push(events.last()) =~= events);
    }
}

proof fn lemma_nothing_told(actions: Seq<ActionView>)
    requires
        forall|i: int| 0 <= i < actions.len() ==> !((#[trigger] actions[i]) is Emit),
    ensures
        told_events(actions) == Seq::<StreamEventView>::empty(),
    decreases actions.len(),
{
    if actions.len() > 0 {
        let init = actions.drop_last();
        assert forall|i: int| 0 <= i < init.len() implies !((#[trigger] init[i]) is Emit) by {
            assert(init[i] == actions[i]);
        }
        lemma_nothing_told(init);
        assert(actions[actions.len() - 1] == actions.last());
    }
}

/// The listener is told that the response is complete.
pub open spec fn completion_event(usage: TokenUsage) -> StreamEventView {
    StreamEventView::ContentComplete { stop_reason: StopReason::EndTurn, usage }
}

/// Of these events none says that the response is complete.
pub open spec fn still_open(events: Seq<StreamEventView>) -> bool {
    forall|i: int| 0 <= i < events.len() ==> !((#[trigger] events[i]) is ContentComplete)
}

/// What a run for a stream keeps true from its start on.
pub open spec fn stream_invariant(start: StreamRunView, now: StreamStep) -> bool {
    let told = told_events(now.actions);
    let done = now.run.phase == StreamPhase::Done;
    &&& now.run == (StreamRunView { progress: now.run.progress, ..start.in_phase(now.run.phase) })
    &&& replies_once(now.actions, done)
    &&& tracks_only(now.actions, start.label)
    &&& now.run.phase == StreamPhase::Launching ==> tracks_nothing(now.actions)
    &&& now.run.phase == StreamPhase::Exiting || done ==> releases(now.actions)
    &&& now.run.progress.full_text == delta_text(told)
    &&& if done && now.actions.last()->reply is Ok {
        &&& told.len() > 0
        &&& told.last() == completion_event(now.run.progress.usage)
        &&& still_open(told.drop_last())
        &&& now.actions.last() == (ActionView::Finish {
            reply: Ok(text_response(now.run.progress.full_text, now.run.progress.usage)),
        })
    } else {
        still_open(told)
    }
}

proof fn lemma_line_told(backend: Backend, progress: ProgressView, line: Seq<char>)
    ensures
        tells_what_it_adds(progress, line_told(backend, progress, line)),
        still_open(line_told(backend, progress, line).events),
{
    match backend {
        Backend::Codex => {
            law_codex_line_tells_what_it_adds(progress, line);
        },
        Backend::Gemini => {
            law_gemini_line_tells_what_it_adds(progress, line);
        },
    }
}

#[verifier::spinoff_prover]
proof fn lemma_stream_step(start: StreamRunView, before: StreamStep, input: StreamInputView)
    requires
        stream_invariant(start, before),
    ensures
        ({
            let last = before.run.step(input);
            stream_invariant(
                start,
                StreamStep { run: last.run, actions: before.actions + last.actions },
            )
        }),
{
    let last = before.run.step(input);
    let all = before.actions + last.actions;
    let told = told_events(before.actions);
    let added = told_events(last.actions);
    assert forall|i: int| 0 <= i < all.len() implies #[trigger] all[i] == (if i
        < before.actions.len() {
        before.actions[i]
    } else {
        last.actions[i - before.actions.len()]
    }) by {}
    lemma_told_events_append(before.actions, last.actions);
    lemma_delta_text_append(told, added);
    if last.actions.len() == 0 {
        assert(all =~= before.actions);
    } else if before.run.phase == StreamPhase::Launching {
        lemma_nothing_told(last.actions);
        assert(told + added =~= told);
        if last.run.phase == StreamPhase::Done {
            if let StreamInputView::Launched { pid, has_stdout } = input {
                let started = started_actions(start.label, pid, start.prompt);
                let k = started.len() as int;
                assert(last.actions[k] == (ActionView::Untrack { label: start.label }));
                lemma_releases_now(before.actions, last.actions, start.label, k);
            } else {
                assert(tracks_nothing(all));
            }
        }
    } else if before.run.phase == StreamPhase::Reading {
        if let StreamInputView::Line { line } = input {
            let line_told = line_told(start.backend, before.run.progress, line);
            lemma_line_told(start.backend, before.run.progress, line);
            lemma_told_events_of_emissions(line_told.events);
        } else {
            lemma_nothing_told(last.actions);
            assert(told + added =~= told);
            assert(last.actions[0] == (ActionView::Untrack { label: start.label }));
            lemma_releases_now(before.actions, last.actions, start.label, 0);
        }
    } else if before.run.phase == StreamPhase::Exiting {
        lemma_releases_grow(before.actions, last.actions);
        let finish = last.actions.last();
        if finish->reply is Ok {
            let event = completion_event(before.run.progress.usage);
            let emitted = emissions(seq![event]);
            assert(last.actions.drop_last() =~= emitted);
            lemma_told_events_of_emissions(seq![event]);
            assert(added == seq![event]);
            lemma_delta_text_one(event);
            assert((told + added).drop_last() =~= told);
            assert(delta_text(told) + delta_text(added) =~= delta_text(told));
        } else {
            lemma_nothing_told(last.actions);
            assert(told + added =~= told);
        }
    }
}

proof fn lemma_stream_trace(run: StreamRunView, inputs: Seq<StreamInputView>)
    requires
        run.phase == StreamPhase::Launching,
        run.progress == no_progress(),
    ensures
        stream_invariant(run, stream_trace(run, inputs)),
    decreases inputs.len(),
{
    if inputs.len() > 0 {
        lemma_stream_trace(run, inputs.drop_last());
        lemma_stream_step(run, stream_trace(run, inputs.drop_last()), inputs.last());
    }
}

/// Whatever happens, a run for a stream replies once, as the last thing it does, and by
/// then has taken every process that it noted out of the table again.
pub proof fn law_stream_replies_once_and_releases(
    run: StreamRunView,
    inputs: Seq<StreamInputView>,
)
    requires
        run.phase == StreamPhase::Launching,
        run.progress == no_progress(),
    ensures
        ({
            let end = stream_trace(run, inputs);
            &&& replies_once(end.actions, end.run.phase == StreamPhase::Done)
            &&& end.run.phase == StreamPhase::Done ==> releases(end.actions)
        }),
{
    lemma_stream_trace(run, inputs);
}

/// The response to a streamed request is, letter for letter, the text that the listener
/// was told, and the last thing that the listener was told is that it is complete; before
/// that it is never told so, and without a response not at all.
pub proof fn law_stream_response_is_what_was_told(
    run: StreamRunView,
    inputs: Seq<StreamInputView>,
)
    requires
        run.phase == StreamPhase::Launching,
        run.progress == no_progress(),
    ensures
        ({
            let end = stream_trace(run, inputs);
            let told = told_events(end.actions);
            if end.run.phase == StreamPhase::Done && end.actions.last()->reply is Ok {
                &&& end.actions.last() == (ActionView::Finish {
                    reply: Ok(text_response(delta_text(told), end.run.progress.usage)),
                })
                &&& told.last() == completion_event(end.run.progress.usage)
                &&& still_open(told.drop_last())
            } else {
                still_open(told)
            }
        }),
{
    lemma_stream_trace(run, inputs);
}

/// A process that was asked for a stream is killed exactly when it exceeds its time,
/// while its output is read or while its end is awaited, and then the reply is the error
/// for that.
pub proof fn law_stream_kills_on_timeout(run: StreamRunView, input: StreamInputView)
    ensures
        run.step(input).actions.contains(ActionView::Kill) <==> input is TimedOut && (run.phase
            == StreamPhase::Reading || run.phase == StreamPhase::Exiting),
        run.step(input).actions.contains(ActionView::Kill) ==> run.step(input).actions.last() == (
        ActionView::Finish { reply: Err(stream_timeout(run.backend, run.timeout_secs)) }),
{
    let actions = run.step(input).actions;
    if input is TimedOut {
        if run.phase == StreamPhase::Reading {
            assert(actions[1] == ActionView::Kill);
        } else if run.phase == StreamPhase::Exiting {
            assert(actions[0] == ActionView::Kill);
        }
    }
}

/// Every wait that `actions` ask for ends after `secs` seconds at the latest.
pub open spec fn waits_at_most(actions: Seq<ActionView>, secs: u64) -> bool {
    forall|i: int|
        0 <= i < actions.len() ==> match #[trigger] actions[i] {
            ActionView::AwaitExit { timeout_secs } => timeout_secs == secs,
            ActionView::ReadLines { timeout_secs } => timeout_secs == secs,
            _ => true,
        }
}

/// A process that was asked for a whole response is noted in the table before anything
/// else is done with it, and is never waited for beyond its time.
pub proof fn law_completion_notes_and_limits(run: CompletionRunView, input: CompletionInputView)
    ensures
        run.phase == CompletionPhase::Launching && input is Launched && input->pid is Some
            ==> run.step(input).actions.first() == (ActionView::Track {
            label: run.label,
            pid: input->pid->0,
        }),
        waits_at_most(run.step(input).actions, run.timeout_secs),
{
}

/// A process that was asked for a stream is noted in the table before anything else is
/// done with it, and is neither read from nor waited for beyond its time.
pub proof fn law_stream_notes_and_limits(run: StreamRunView, input: StreamInputView)
    ensures
        run.phase == StreamPhase::Launching && input is Launched && input->pid is Some
            ==> run.step(input).actions.first() == (ActionView::Track {
            label: run.label,
            pid: input->pid->0,
        }),
        waits_at_most(run.step(input).actions, run.timeout_secs),
{
}

} // verus!
