//! Laws on what is done with the processes.

use vstd::prelude::*;

use crate::backend::{
    completion_reply, completion_timeout, completion_wait_failure, launch_failure, no_stdout,
    stream_failure, stream_timeout, stream_wait_failure, Backend,
};
use crate::codex_cli::codex_line_told;
use crate::gemini_cli::gemini_line_told;
use crate::message::{ReplyView, ResponseView, StopReason, StreamEventView};
use crate::run::{
    ActionView, CompletionInputView, CompletionPhase, CompletionRunView, StreamInputView,
    StreamPhase, StreamRunView,
};
use crate::stream::delta_text;

verus! {

/// One thing to do, where there is one.
pub open spec fn if_any(action: Option<ActionView>) -> Seq<ActionView> {
    if action is Some {
        seq![action->0]
    } else {
        Seq::empty()
    }
}

/// A process that has started is noted under the run's label if it has an id, then written
/// the whole prompt if it reads one, then waited for; the run is otherwise what it was.
pub proof fn law_completion_starts(run: CompletionRunView, pid: Option<u32>)
    requires
        run.phase == CompletionPhase::Launching,
    ensures
        ({
            let step = run.step(CompletionInputView::Launched { pid });
            let note = if_any(
                match pid {
                    Some(pid) => Some(ActionView::Track { label: run.label, pid }),
                    None => None,
                },
            );
            let hand = if_any(
                match run.prompt {
                    Some(text) => Some(ActionView::WriteStdin { text }),
                    None => None,
                },
            );
            &&& step.run == (CompletionRunView { phase: CompletionPhase::Waiting, ..run })
            &&& step.actions == note + hand + seq![
                ActionView::AwaitExit { timeout_secs: run.timeout_secs },
            ]
        }),
{
    let step = run.step(CompletionInputView::Launched { pid });
    let note = if_any(
        match pid {
            Some(pid) => Some(ActionView::Track { label: run.label, pid }),
            None => None,
        },
    );
    let hand = if_any(
        match run.prompt {
            Some(text) => Some(ActionView::WriteStdin { text }),
            None => None,
        },
    );
    assert(step.actions =~= note + hand + seq![
        ActionView::AwaitExit { timeout_secs: run.timeout_secs },
    ]);
}

/// However a run for a whole response ends, its process is released, killed if it took too
/// long, and the reply is the one for that end.
pub proof fn law_completion_ends(
    run: CompletionRunView,
    reason: Seq<char>,
    success: bool,
    code: Option<i32>,
    stdout: Seq<u8>,
    stderr: Seq<u8>,
)
    ensures
        ({
            let done = CompletionRunView { phase: CompletionPhase::Done, ..run };
            let release = ActionView::Untrack { label: run.label };
            let exited = run.step(CompletionInputView::Exited { success, code, stdout, stderr });
            let lost = run.step(CompletionInputView::WaitFailed { reason });
            let late = run.step(CompletionInputView::TimedOut);
            let unborn = run.step(CompletionInputView::LaunchFailed { reason });
            &&& run.phase == CompletionPhase::Waiting ==> {
                &&& exited.run == done && lost.run == done && late.run == done
                &&& exited.actions == seq![
                    release,
                    ActionView::Finish {
                        reply: completion_reply(run.backend, success, code, stdout, stderr),
                    },
                ]
                &&& lost.actions == seq![
                    release,
                    ActionView::Finish {
                        reply: ReplyView::Err(completion_wait_failure(run.backend, reason)),
                    },
                ]
                &&& late.actions == seq![
                    release,
                    ActionView::Kill,
                    ActionView::Finish {
                        reply: ReplyView::Err(completion_timeout(run.backend, run.timeout_secs)),
                    },
                ]
            }
            &&& run.phase == CompletionPhase::Launching ==> unborn.run == done && unborn.actions
                == seq![
                ActionView::Finish {
                    reply: ReplyView::Err(launch_failure(run.backend, reason)),
                },
            ]
        }),
{
    let release = ActionView::Untrack { label: run.label };
    let exited = run.step(CompletionInputView::Exited { success, code, stdout, stderr });
    let lost = run.step(CompletionInputView::WaitFailed { reason });
    let late = run.step(CompletionInputView::TimedOut);
    let unborn = run.step(CompletionInputView::LaunchFailed { reason });
    if run.phase == CompletionPhase::Waiting {
        assert(exited.actions =~= seq![
            release,
            ActionView::Finish {
                reply: completion_reply(run.backend, success, code, stdout, stderr),
            },
        ]);
        assert(lost.actions =~= seq![
            release,
            ActionView::Finish {
                reply: ReplyView::Err(completion_wait_failure(run.backend, reason)),
            },
        ]);
        assert(late.actions =~= seq![
            release,
            ActionView::Kill,
            ActionView::Finish {
                reply: ReplyView::Err(completion_timeout(run.backend, run.timeout_secs)),
            },
        ]);
    } else if run.phase == CompletionPhase::Launching {
        assert(unborn.actions =~= seq![
            ActionView::Finish { reply: ReplyView::Err(launch_failure(run.backend, reason)) },
        ]);
    }
}

/// What cannot happen in a phase changes nothing: a run that is over stays over, one whose
/// process runs is not started again, and one that is being started knows of no end.
pub proof fn law_completion_passes_over(run: CompletionRunView, input: CompletionInputView)
    requires
        match run.phase {
            CompletionPhase::Done => true,
            CompletionPhase::Waiting => input is Launched || input is LaunchFailed,
            CompletionPhase::Launching => !(input is Launched || input is LaunchFailed),
        },
    ensures
        run.step(input).run == run,
        run.step(input).actions == Seq::<ActionView>::empty(),
{
}

/// A process that has started is noted under the run's label if it has an id, then written
/// the whole prompt if it reads one, then read from; without an output to read it is
/// released and the reply says so.
pub proof fn law_stream_starts(run: StreamRunView, pid: Option<u32>)
    requires
        run.phase == StreamPhase::Launching,
    ensures
        ({
            let step = run.step(StreamInputView::Launched { pid, has_stdout: true });
            let mute = run.step(StreamInputView::Launched { pid, has_stdout: false });
            let note = if_any(
                match pid {
                    Some(pid) => Some(ActionView::Track { label: run.label, pid }),
                    None => None,
                },
            );
            let hand = if_any(
                match run.prompt {
                    Some(text) => Some(ActionView::WriteStdin { text }),
                    None => None,
                },
            );
            &&& step.run == (StreamRunView { phase: StreamPhase::Reading, ..run })
            &&& step.actions == note + hand + seq![
                ActionView::ReadLines { timeout_secs: run.timeout_secs },
            ]
            &&& mute.run == (StreamRunView { phase: StreamPhase::Done, ..run })
            &&& mute.actions == note + hand + seq![
                ActionView::Untrack { label: run.label },
                ActionView::Finish { reply: ReplyView::Err(no_stdout(run.backend)) },
            ]
        }),
{
    let step = run.step(StreamInputView::Launched { pid, has_stdout: true });
    let mute = run.step(StreamInputView::Launched { pid, has_stdout: false });
    let note = if_any(
        match pid {
            Some(pid) => Some(ActionView::Track { label: run.label, pid }),
            None => None,
        },
    );
    let hand = if_any(
        match run.prompt {
            Some(text) => Some(ActionView::WriteStdin { text }),
            None => None,
        },
    );
    assert(step.actions =~= note + hand + seq![
        ActionView::ReadLines { timeout_secs: run.timeout_secs },
    ]);
    assert(mute.actions =~= note + hand + seq![
        ActionView::Untrack { label: run.label },
        ActionView::Finish { reply: ReplyView::Err(no_stdout(run.backend)) },
    ]);
}

/// Every line that is read is taken in as its tool means it: the progress is the one after
/// the line, the listener is told of each event in order, and reading goes on.
pub proof fn law_stream_takes_in_every_line(run: StreamRunView, line: Seq<char>)
    requires
        run.phase == StreamPhase::Reading,
    ensures
        ({
            let step = run.step(StreamInputView::Line { line });
            let told = match run.backend {
                Backend::Codex => codex_line_told(run.progress, line),
                Backend::Gemini => gemini_line_told(run.progress, line),
            };
            &&& step.run == (StreamRunView { progress: told.progress, ..run })
            &&& step.actions.len() == told.events.len()
            &&& forall|i: int|
                0 <= i < told.events.len() ==> #[trigger] step.actions[i] == (ActionView::Emit {
                    event: told.events[i],
                })
        }),
{
}

/// However a stream ends: after its output its process is released and awaited; if that
/// succeeds, the listener is told that the response is complete, and the reply is the text
/// and the counts that came in; if not, or if it takes too long, the reply says so.
pub proof fn law_stream_ends(run: StreamRunView, reason: Seq<char>, code: Option<i32>)
    ensures
        ({
            let done = StreamRunView { phase: StreamPhase::Done, ..run };
            let release = ActionView::Untrack { label: run.label };
            let late = ActionView::Finish {
                reply: ReplyView::Err(stream_timeout(run.backend, run.timeout_secs)),
            };
            let usage = run.progress.usage;
            &&& run.phase == StreamPhase::Reading ==> {
                let ended = run.step(StreamInputView::OutputEnded);
                let slow = run.step(StreamInputView::TimedOut);
                &&& ended.run == (StreamRunView { phase: StreamPhase::Exiting, ..run })
                &&& ended.actions == seq![
                    release,
                    ActionView::AwaitExit { timeout_secs: run.timeout_secs },
                ]
                &&& slow.run == done
                &&& slow.actions == seq![release, ActionView::Kill, late]
            }
            &&& run.phase == StreamPhase::Exiting ==> {
                let well = run.step(StreamInputView::Exited { success: true, code });
                let ill = run.step(StreamInputView::Exited { success: false, code });
                let lost = run.step(StreamInputView::WaitFailed { reason });
                let slow = run.step(StreamInputView::TimedOut);
                &&& well.run == done && ill.run == done && lost.run == done && slow.run == done
                &&& well.actions == seq![
                    ActionView::Emit {
                        event: StreamEventView::ContentComplete {
                            stop_reason: StopReason::EndTurn,
                            usage,
                        },
                    },
                    ActionView::Finish {
                        reply: ReplyView::Ok(
                            ResponseView {
                                content: seq![run.progress.full_text],
                                stop_reason: StopReason::EndTurn,
                                usage,
                            },
                        ),
                    },
                ]
                &&& ill.actions == seq![
                    ActionView::Finish { reply: ReplyView::Err(stream_failure(run.backend, code)) },
                ]
                &&& lost.actions == seq![
                    ActionView::Finish {
                        reply: ReplyView::Err(stream_wait_failure(run.backend, reason)),
                    },
                ]
                &&& slow.actions == seq![ActionView::Kill, late]
            }
            &&& run.phase == StreamPhase::Launching ==> {
                let unborn = run.step(StreamInputView::LaunchFailed { reason });
                &&& unborn.run == done
                &&& unborn.actions == seq![
                    ActionView::Finish {
                        reply: ReplyView::Err(launch_failure(run.backend, reason)),
                    },
                ]
            }
        }),
{
    let release = ActionView::Untrack { label: run.label };
    let late = ActionView::Finish {
        reply: ReplyView::Err(stream_timeout(run.backend, run.timeout_secs)),
    };
    if run.phase == StreamPhase::Reading {
        assert(run.step(StreamInputView::OutputEnded).actions =~= seq![
            release,
            ActionView::AwaitExit { timeout_secs: run.timeout_secs },
        ]);
        assert(run.step(StreamInputView::TimedOut).actions =~= seq![
            release,
            ActionView::Kill,
            late,
        ]);
    } else if run.phase == StreamPhase::Exiting {
        let usage = run.progress.usage;
        assert(run.step(StreamInputView::Exited { success: true, code }).actions =~= seq![
            ActionView::Emit {
                event: StreamEventView::ContentComplete { stop_reason: StopReason::EndTurn, usage },
            },
            ActionView::Finish {
                reply: ReplyView::Ok(
                    ResponseView {
                        content: seq![run.progress.full_text],
                        stop_reason: StopReason::EndTurn,
                        usage,
                    },
                ),
            },
        ]);
        assert(run.step(StreamInputView::Exited { success: false, code }).actions =~= seq![
            ActionView::Finish { reply: ReplyView::Err(stream_failure(run.backend, code)) },
        ]);
        assert(run.step(StreamInputView::WaitFailed { reason }).actions =~= seq![
            ActionView::Finish { reply: ReplyView::Err(stream_wait_failure(run.backend, reason)) },
        ]);
        assert(run.step(StreamInputView::TimedOut).actions =~= seq![ActionView::Kill, late]);
    } else if run.phase == StreamPhase::Launching {
        assert(run.step(StreamInputView::LaunchFailed { reason }).actions =~= seq![
            ActionView::Finish { reply: ReplyView::Err(launch_failure(run.backend, reason)) },
        ]);
    }
}

/// What cannot happen in a phase changes nothing.
pub proof fn law_stream_passes_over(run: StreamRunView, input: StreamInputView)
    requires
        match run.phase {
            StreamPhase::Done => true,
            StreamPhase::Launching => !(input is Launched || input is LaunchFailed),
            StreamPhase::Reading => !(input is Line || input is OutputEnded || input is TimedOut),
            StreamPhase::Exiting => !(input is Exited || input is WaitFailed || input is TimedOut),
        },
    ensures
        run.step(input).run == run,
        run.step(input).actions == Seq::<ActionView>::empty(),
{
}

/// The text that the listener is told is that of all text events, in their order.
pub proof fn law_told_text(events: Seq<StreamEventView>, event: StreamEventView)
    ensures
        delta_text(Seq::empty()) == Seq::<char>::empty(),
        event matches StreamEventView::TextDelta { text } ==> delta_text(events.push(event))
            == delta_text(events) + text,
        event !is TextDelta ==> delta_text(events.push(event)) == delta_text(events),
{
    assert(events.push(event).drop_last() =~= events);
}

} // verus!
