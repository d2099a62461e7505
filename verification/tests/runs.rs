use cli_drivers::backend::{
    answer, is_session_expired_error, judge_completion, report_completion_failure, report_completion_timeout,
    report_launch_failure, report_no_stdout, report_stream_failure, report_stream_timeout,
    report_completion_wait_failure, report_stream_wait_failure, word_failure, Backend,
};
use cli_drivers::codex_cli::CodexCliDriver;
use cli_drivers::gemini_cli::GeminiCliDriver;
use cli_drivers::message::{
    CompletionRequest, CompletionResponse, ContentBlock, LlmError, Message, Role, StopReason,
    StreamEvent, TokenUsage,
};
use cli_drivers::run::{
    CompletionInput, CompletionPhase, CompletionRun, RunAction, StreamInput, StreamPhase, StreamRun,
};

fn request(model: &str) -> CompletionRequest {
    CompletionRequest {
        model: model.to_string(),
        messages: vec![Message { role: Role::User, text: "Hi".to_string() }],
        temperature: None,
        system: None,
    }
}

fn http(error: LlmError) -> String {
    match error {
        LlmError::Http(message) => message,
        other => panic!("not a transport error: {other:?}"),
    }
}

fn api(error: LlmError) -> (u16, String) {
    match error {
        LlmError::Api { status, message } => (status, message),
        other => panic!("not a tool error: {other:?}"),
    }
}

fn said(response: &CompletionResponse) -> String {
    assert_eq!(response.content.len(), 1);
    assert_eq!(response.stop_reason, StopReason::EndTurn);
    match &response.content[0] {
        ContentBlock::Text { text } => text.clone(),
    }
}

fn names(actions: &[RunAction]) -> Vec<String> {
    actions
        .iter()
        .map(|a| match a {
            RunAction::Track { label, pid } => format!("track {label} {pid}"),
            RunAction::Untrack { label } => format!("untrack {label}"),
            RunAction::WriteStdin { text } => format!("write {text}"),
            RunAction::AwaitExit { timeout_secs } => format!("await {timeout_secs}"),
            RunAction::ReadLines { timeout_secs } => format!("read {timeout_secs}"),
            RunAction::Kill => "kill".to_string(),
            RunAction::Emit { event: StreamEvent::TextDelta { text } } => format!("text {text}"),
            RunAction::Emit { event: StreamEvent::ContentComplete { usage, .. } } => {
                format!("complete {} {}", usage.input_tokens, usage.output_tokens)
            }
            RunAction::Emit { .. } => "report".to_string(),
            RunAction::Finish { reply: Ok(_) } => "finish".to_string(),
            RunAction::Finish { reply: Err(_) } => "fail".to_string(),
        })
        .collect()
}

fn reply(actions: Vec<RunAction>) -> Result<CompletionResponse, LlmError> {
    match actions.into_iter().last() {
        Some(RunAction::Finish { reply }) => reply,
        _ => panic!("no reply"),
    }
}

fn codex_completion() -> CompletionRun {
    CodexCliDriver::new(None, true).complete(&request("o3"), &Vec::new(), &None).0
}

fn gemini_stream() -> StreamRun {
    GeminiCliDriver::with_timeout(None, true, 60).stream(&request("auto"), &Vec::new(), &None).0
}

#[test]
fn messages_of_transport_errors() {
    assert_eq!(
        http(report_launch_failure(Backend::Codex, "no such file")),
        "Codex CLI not found or failed to start (no such file). Install: npm install -g @openai/codex && codex auth"
    );
    assert_eq!(
        http(report_launch_failure(Backend::Gemini, "x")),
        "Gemini CLI not found or failed to start (x). Install: pip install google-gemini && gemini auth"
    );
    assert_eq!(
        http(report_completion_timeout(Backend::Codex, 300)),
        "Codex CLI subprocess timed out after 300s — process killed"
    );
    assert_eq!(
        http(report_stream_timeout(Backend::Gemini, 0)),
        "Gemini CLI streaming subprocess timed out after 0s — process killed"
    );
    assert_eq!(
        http(report_completion_wait_failure(Backend::Gemini, "e")),
        "Gemini CLI subprocess failed: e"
    );
    assert_eq!(http(report_stream_wait_failure(Backend::Codex, "e")), "Codex CLI wait failed: e");
    assert_eq!(http(report_no_stdout(Backend::Codex)), "No stdout from codex CLI");
    assert_eq!(http(report_no_stdout(Backend::Gemini)), "No stdout from gemini CLI");
}

#[test]
fn failures_are_worded_by_what_is_recognised() {
    assert_eq!(
        word_failure(Backend::Codex, "d", 2, true, true),
        "Codex CLI is not authenticated. Run: codex auth\nDetail: d"
    );
    assert_eq!(
        word_failure(Backend::Gemini, "d", 2, false, true),
        "Gemini session not found or expired: d"
    );
    assert_eq!(
        word_failure(Backend::Gemini, "d", -20, false, false),
        "Gemini CLI exited with code -20: d"
    );
}

#[test]
fn failed_completions_are_classified() {
    let failure = |backend, code, out: &str, err: &str| {
        api(report_completion_failure(
            backend,
            code,
            &out.as_bytes().to_vec(),
            &err.as_bytes().to_vec(),
        ))
    };
    assert_eq!(
        failure(Backend::Codex, Some(1), "", " please login \n"),
        (1, "Codex CLI is not authenticated. Run: codex auth\nDetail: please login".to_string())
    );
    assert_eq!(
        failure(Backend::Codex, Some(2), "thread x not found\n", "  "),
        (2, "Codex session not found or expired: thread x not found".to_string())
    );
    assert_eq!(
        failure(Backend::Gemini, Some(41), "ignored", "API key missing"),
        (41, "Gemini CLI is not authenticated. Run: gemini auth\nDetail: API key missing".to_string())
    );
    assert_eq!(
        failure(Backend::Gemini, Some(3), "", "cannot resume"),
        (3, "Gemini session not found or expired: cannot resume".to_string())
    );
    assert_eq!(
        failure(Backend::Gemini, None, "", "boom"),
        (1, "Gemini CLI exited with code 1: boom".to_string())
    );
    assert_eq!(
        failure(Backend::Gemini, Some(-1), "", ""),
        (65535, "Gemini CLI exited with code -1: ".to_string())
    );
    assert_eq!(failure(Backend::Gemini, Some(65537), "", "").0, 1);
    assert_eq!(failure(Backend::Gemini, Some(i32::MIN), "", "").0, 0);
}

#[test]
fn rollout_noise_is_no_part_of_a_failure() {
    let noise = "2025-01-01T00:00:00Z ERROR codex_core::rollout::list: state db missing rollout path for thread abc";
    let failure = |backend, out: &str, err: &str| {
        api(report_completion_failure(
            backend,
            Some(1),
            &out.as_bytes().to_vec(),
            &err.as_bytes().to_vec(),
        ))
    };
    let boom = (1, "Codex CLI exited with code 1: boom".to_string());
    assert_eq!(failure(Backend::Codex, "", &format!("{noise}\nboom")), boom);
    assert_eq!(failure(Backend::Codex, "", &format!("boom\r\n  {noise}\r\n")), boom);
    assert_eq!(failure(Backend::Codex, "boom\n", &format!("{noise}\n{noise}")), boom);
    assert_eq!(
        failure(Backend::Codex, &format!("{noise}\n"), noise),
        (1, "Codex CLI exited with code 1: ".to_string())
    );
    assert_eq!(
        failure(Backend::Codex, "", "one\r\n\ntwo\r\n"),
        (1, "Codex CLI exited with code 1: one\r\n\ntwo".to_string())
    );
    assert_eq!(
        failure(Backend::Gemini, "", noise),
        (1, format!("Gemini CLI exited with code 1: {noise}"))
    );

    let mut run = codex_completion();
    run.step(CompletionInput::Launched { pid: Some(1) });
    let actions = run.step(CompletionInput::Exited {
        success: false,
        code: Some(1),
        stdout: Vec::new(),
        stderr: format!("{noise}\nboom").into_bytes(),
    });
    assert_eq!(names(&actions), ["untrack o3", "fail"]);
    assert_eq!(api(reply(actions).unwrap_err()), boom);
}

#[test]
fn expired_sessions_are_reported() {
    for (backend, name) in [(Backend::Codex, "Codex"), (Backend::Gemini, "Gemini")] {
        for detail in ["session expired", "Your Session has EXPIRED."] {
            assert!(is_session_expired_error(detail));
            let error = judge_completion(
                backend,
                false,
                Some(1),
                &Vec::new(),
                &detail.as_bytes().to_vec(),
            );
            assert_eq!(
                api(error.unwrap_err()),
                (1, format!("{name} session not found or expired: {detail}"))
            );
        }
    }
    assert!(is_session_expired_error("Session 1a-2b, opened today, has expired"));
    assert!(is_session_expired_error("cannot use expired session 1a-2b"));
    assert!(!is_session_expired_error("certificate expired"));
    assert!(!is_session_expired_error("TLS certificate expired; session log kept"));
    assert!(!is_session_expired_error("session closed. Certificate expired"));
    assert!(!is_session_expired_error("session log kept\ncertificate expired"));
    assert!(!is_session_expired_error("session closed"));
}

#[test]
fn expiry_of_something_else_is_reported_by_its_code() {
    let detail = "TLS certificate expired; session log kept";
    for (backend, name) in [(Backend::Codex, "Codex"), (Backend::Gemini, "Gemini")] {
        let error =
            judge_completion(backend, false, Some(1), &Vec::new(), &detail.as_bytes().to_vec());
        assert_eq!(
            api(error.unwrap_err()),
            (1, format!("{name} CLI exited with code 1: {detail}"))
        );
    }
}

#[test]
fn failed_streams_report_their_code() {
    assert_eq!(
        api(report_stream_failure(Backend::Codex, Some(7))),
        (7, "Codex CLI streaming exited with code 7".to_string())
    );
    assert_eq!(
        api(report_stream_failure(Backend::Gemini, None)),
        (1, "Gemini CLI streaming exited with code 1".to_string())
    );
}

#[test]
fn answers_prefer_errors_then_text_then_the_whole_output() {
    let usage = TokenUsage { input_tokens: 1, output_tokens: 2 };
    let error = answer(" o ", Some("e".to_string()), Some("t".to_string()), usage);
    assert_eq!(api(error.unwrap_err()), (0, "e".to_string()));
    let found = answer(" o ", None, Some(" t ".to_string()), usage).unwrap();
    assert_eq!(said(&found), " t ");
    assert_eq!(found.usage, usage);
    assert_eq!(said(&answer(" o ", None, None, usage).unwrap()), "o");
}

#[test]
fn plain_output_is_the_response() {
    for backend in [Backend::Codex, Backend::Gemini] {
        let out = b"\nJust text,\n on two lines \n".to_vec();
        let response = judge_completion(backend, true, Some(0), &out, &Vec::new()).unwrap();
        assert_eq!(said(&response), "Just text,\n on two lines");
        assert_eq!(response.usage, TokenUsage { input_tokens: 0, output_tokens: 0 });
    }
}

#[test]
fn output_that_is_not_utf8_is_repaired() {
    let out = vec![b'a', 0xc3, b'b'];
    let response = judge_completion(Backend::Codex, true, Some(0), &out, &Vec::new()).unwrap();
    assert_eq!(said(&response), "a\u{fffd}b");
}

#[test]
fn a_reported_error_is_the_answer() {
    let out = br#"{"type":"item.completed","item":{"type":"agent_message","text":"Hi"}}
{"type":"error","error":{"message":"first"}}
{"type":"turn.failed","error":{"message":"second"}}"#
        .to_vec();
    let error = judge_completion(Backend::Codex, true, Some(0), &out, &Vec::new()).unwrap_err();
    assert_eq!(api(error), (0, "first".to_string()));
    let out = br#"{"type":"error","error":"something went wrong"}"#.to_vec();
    let error = judge_completion(Backend::Gemini, true, Some(0), &out, &Vec::new()).unwrap_err();
    assert_eq!(api(error), (0, "something went wrong".to_string()));
}

#[test]
fn a_completion_runs_to_its_end() {
    let mut run = codex_completion();
    assert_eq!(run.phase, CompletionPhase::Launching);
    let actions = run.step(CompletionInput::Launched { pid: Some(42) });
    assert_eq!(names(&actions), ["track o3 42", "write [User]\nHi", "await 300"]);
    let out = br#"{"type":"item.completed","item":{"type":"agent_message","text":"Hello"}}
{"type":"turn.completed","usage":{"input_tokens":10,"output_tokens":5}}"#;
    let actions = run.step(CompletionInput::Exited {
        success: true,
        code: Some(0),
        stdout: out.to_vec(),
        stderr: b"noise".to_vec(),
    });
    assert_eq!(names(&actions), ["untrack o3", "finish"]);
    assert_eq!(run.phase, CompletionPhase::Done);
    let response = reply(actions).unwrap();
    assert_eq!(said(&response), "Hello");
    assert_eq!(response.usage, TokenUsage { input_tokens: 10, output_tokens: 5 });
    assert!(run.step(CompletionInput::TimedOut).is_empty());
}

#[test]
fn a_completion_that_takes_too_long_is_killed() {
    let mut run = codex_completion();
    assert!(run.step(CompletionInput::TimedOut).is_empty());
    assert_eq!(names(&run.step(CompletionInput::Launched { pid: None })).len(), 2);
    let actions = run.step(CompletionInput::TimedOut);
    assert_eq!(names(&actions), ["untrack o3", "kill", "fail"]);
    assert_eq!(
        http(reply(actions).unwrap_err()),
        "Codex CLI subprocess timed out after 300s — process killed"
    );
}

#[test]
fn a_completion_can_fail_to_start_or_to_be_awaited() {
    let mut run = codex_completion();
    let actions = run.step(CompletionInput::LaunchFailed { reason: "gone".to_string() });
    assert_eq!(names(&actions), ["fail"]);
    let mut run = codex_completion();
    run.step(CompletionInput::Launched { pid: Some(1) });
    let actions = run.step(CompletionInput::WaitFailed { reason: "gone".to_string() });
    assert_eq!(names(&actions), ["untrack o3", "fail"]);
    assert_eq!(http(reply(actions).unwrap_err()), "Codex CLI subprocess failed: gone");
}

#[test]
fn a_stream_runs_to_its_end() {
    let mut run = gemini_stream();
    let actions = run.step(StreamInput::Launched { pid: Some(5), has_stdout: true });
    assert_eq!(names(&actions), ["track auto-stream 5", "read 60"]);
    let line = r#"{"type":"text","content":"Hel"}"#;
    assert_eq!(names(&run.step(StreamInput::Line { line: line.to_string() })), ["text Hel"]);
    assert_eq!(names(&run.step(StreamInput::Line { line: "lo".to_string() })), ["text lo"]);
    let line = r#"{"type":"done","usage":{"input_tokens":3,"output_tokens":4}}"#;
    assert!(run.step(StreamInput::Line { line: line.to_string() }).is_empty());
    let actions = run.step(StreamInput::OutputEnded);
    assert_eq!(names(&actions), ["untrack auto-stream", "await 60"]);
    assert!(run.step(StreamInput::Line { line: "late".to_string() }).is_empty());
    let actions = run.step(StreamInput::Exited { success: true, code: Some(0) });
    assert_eq!(names(&actions), ["complete 3 4", "finish"]);
    assert_eq!(run.phase, StreamPhase::Done);
    let response = reply(actions).unwrap();
    assert_eq!(said(&response), "Hello");
    assert_eq!(response.usage, TokenUsage { input_tokens: 3, output_tokens: 4 });
}

#[test]
fn a_stream_that_takes_too_long_is_killed() {
    let mut run = gemini_stream();
    run.step(StreamInput::Launched { pid: Some(5), has_stdout: true });
    let actions = run.step(StreamInput::TimedOut);
    assert_eq!(names(&actions), ["untrack auto-stream", "kill", "fail"]);
    assert_eq!(
        http(reply(actions).unwrap_err()),
        "Gemini CLI streaming subprocess timed out after 60s — process killed"
    );
    assert!(run.step(StreamInput::Line { line: "late".to_string() }).is_empty());
}

#[test]
fn a_stream_that_does_not_end_with_its_output_is_killed() {
    let mut run = gemini_stream();
    run.step(StreamInput::Launched { pid: Some(5), has_stdout: true });
    run.step(StreamInput::OutputEnded);
    let actions = run.step(StreamInput::TimedOut);
    assert_eq!(names(&actions), ["kill", "fail"]);
    assert_eq!(
        http(reply(actions).unwrap_err()),
        "Gemini CLI streaming subprocess timed out after 60s — process killed"
    );
    assert_eq!(run.phase, StreamPhase::Done);
}

#[test]
fn a_stream_can_fail_in_every_phase() {
    let mut run = gemini_stream();
    let actions = run.step(StreamInput::Launched { pid: Some(5), has_stdout: false });
    assert_eq!(names(&actions), ["track auto-stream 5", "untrack auto-stream", "fail"]);
    assert_eq!(http(reply(actions).unwrap_err()), "No stdout from gemini CLI");
    let mut run = gemini_stream();
    let actions = run.step(StreamInput::LaunchFailed { reason: "gone".to_string() });
    assert_eq!(names(&actions), ["fail"]);
    for (input, message) in [
        (
            StreamInput::Exited { success: false, code: Some(9) },
            "Gemini CLI streaming exited with code 9",
        ),
        (StreamInput::WaitFailed { reason: "gone".to_string() }, "Gemini CLI wait failed: gone"),
    ] {
        let mut run = gemini_stream();
        run.step(StreamInput::Launched { pid: None, has_stdout: true });
        run.step(StreamInput::OutputEnded);
        let actions = run.step(input);
        assert_eq!(names(&actions), ["fail"]);
        let told = match reply(actions).unwrap_err() {
            LlmError::Http(told) => told,
            LlmError::Api { message, .. } => message,
        };
        assert_eq!(told, message);
    }
}

#[test]
fn a_codex_stream_is_written_its_prompt() {
    let mut run = CodexCliDriver::new(None, true).stream(&request("o3"), &Vec::new(), &None).0;
    let actions = run.step(StreamInput::Launched { pid: Some(1), has_stdout: true });
    assert_eq!(names(&actions), ["track o3-stream 1", "write [User]\nHi", "read 300"]);
    let line = r#"{"type":"error","error":{"message":"oops"}}"#;
    assert_eq!(names(&run.step(StreamInput::Line { line: line.to_string() })), ["report"]);
}
