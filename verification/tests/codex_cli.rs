use cli_drivers::backend::{VersionProbe, DEFAULT_MESSAGE_TIMEOUT_SECS};
use cli_drivers::codex_cli::{
    codex_cli_available, codex_stream_event, codex_stream_line, codex_stream_read_line,
    drop_noise, is_codex_auth_error, is_codex_transient_error, is_codex_unknown_session_error,
    keep_line, parse_codex_jsonl, pick_codex_event, summarize_codex_events, CodexCliDriver,
};
use cli_drivers::command::EnvEdit;
use cli_drivers::json::{parse_json, Json};
use cli_drivers::message::{CompletionRequest, Message, Role, StreamEvent, TokenUsage};
use cli_drivers::stream::StreamProgress;

const NOISE: &str = "2026-01-02T03:04:05.678Z ERROR codex_core::rollout::list: state db missing rollout path for thread 0a1b-2c3d";

fn request(model: &str) -> CompletionRequest {
    CompletionRequest {
        model: model.to_string(),
        messages: vec![],
        temperature: None,
        system: None,
    }
}

fn json(text: &str) -> Json {
    parse_json(text).unwrap()
}

#[test]
fn codex_cli_test_build_prompt_simple() {
    let request = CompletionRequest {
        model: "codex-local/gpt-5.3-codex".to_string(),
        messages: vec![Message {
            role: Role::User,
            text: "Hello".to_string(),
        }],
        temperature: Some("0.7".to_string()),
        system: Some("You are helpful.".to_string()),
    };

    let prompt = CodexCliDriver::build_prompt(&request);
    assert!(!prompt.contains("[System]"));
    assert!(!prompt.contains("You are helpful."));
    assert!(prompt.contains("[User]"));
    assert!(prompt.contains("Hello"));
}

#[test]
fn codex_cli_test_build_args_default() {
    let args = CodexCliDriver::build_args(&request("gpt-5.3-codex"));
    assert!(args.contains(&"--json".to_string()));
    assert!(args.contains(&"-".to_string()));
    assert_eq!(args, ["exec", "--json", "-"]);
}

#[test]
fn codex_cli_test_build_args_with_model() {
    let args = CodexCliDriver::build_args(&request("codex-local/gpt-5.4"));
    assert!(args.contains(&"--model".to_string()));
    assert!(args.contains(&"gpt-5.4".to_string()));
    assert_eq!(args, ["exec", "--json", "--model", "gpt-5.4", "-"]);
}

#[test]
fn codex_args_with_temperature() {
    let mut warm = request("o3");
    warm.temperature = Some("0.7".to_string());
    assert_eq!(
        CodexCliDriver::build_args(&warm),
        ["exec", "--json", "--model", "o3", "-c", "temperature=0.7", "-"]
    );
}

#[test]
fn codex_provider_prefix_is_optional() {
    assert_eq!(
        CodexCliDriver::build_args(&request("codex-local/o3")),
        CodexCliDriver::build_args(&request("o3"))
    );
    assert_eq!(
        CodexCliDriver::build_args(&request("codex-local/")),
        ["exec", "--json", "-"]
    );
    assert_eq!(
        CodexCliDriver::build_args(&request("codex-local/codex-local/o3"))[3],
        "codex-local/o3"
    );
}

#[test]
fn test_new_defaults_to_codex() {
    let driver = CodexCliDriver::new(None, true);
    assert_eq!(driver.cli_path, "codex");
    assert_eq!(driver.message_timeout_secs, DEFAULT_MESSAGE_TIMEOUT_SECS);
    assert!(driver.active_pids().is_empty());
    assert_eq!(DEFAULT_MESSAGE_TIMEOUT_SECS, 300);
    assert!(driver.skip_permissions);
}

#[test]
fn codex_cli_test_new_with_custom_path() {
    let driver = CodexCliDriver::new(Some("/usr/local/bin/codex".to_string()), true);
    assert_eq!(driver.cli_path, "/usr/local/bin/codex");
}

#[test]
fn codex_cli_test_new_with_empty_path() {
    let driver = CodexCliDriver::new(Some(String::new()), true);
    assert_eq!(driver.cli_path, "codex");
}

#[test]
fn codex_cli_test_with_timeout() {
    let driver = CodexCliDriver::with_timeout(None, true, 600);
    assert_eq!(driver.message_timeout_secs, 600);
    assert_eq!(driver.cli_path, "codex");
}

#[test]
fn test_pid_map_shared() {
    let driver = CodexCliDriver::new(None, true);
    let map = driver.pid_map();
    map.insert("test-agent".to_string(), 12345);
    assert_eq!(driver.active_pids().len(), 1);
    assert_eq!(driver.active_pids()[0], ("test-agent".to_string(), 12345));
}

#[test]
fn codex_pids_are_tracked_and_released() {
    let driver = CodexCliDriver::new(None, false);
    let label = "o3".to_string();
    assert_eq!(driver.track_pid(&label, 7), None);
    assert_eq!(driver.track_pid(&label, 8), Some(7));
    assert_eq!(driver.track_pid(&"o3-stream".to_string(), 9), None);
    let mut pids = driver.active_pids();
    pids.sort();
    assert_eq!(pids, [("o3".to_string(), 8), ("o3-stream".to_string(), 9)]);
    assert_eq!(driver.untrack_pid(&label), Some(("o3".to_string(), 8)));
    assert_eq!(driver.untrack_pid(&label), None);
    assert_eq!(driver.active_pids(), [("o3-stream".to_string(), 9)]);
}

#[test]
fn test_parse_codex_jsonl_basic() {
    let jsonl = r#"{"type":"thread.started","thread_id":"abc123"}
{"type":"item.completed","item":{"type":"agent_message","text":"Hello world"}}
{"type":"turn.completed","usage":{"input_tokens":10,"output_tokens":5}}
"#;
    let result = parse_codex_jsonl(jsonl);
    assert_eq!(result.session_id, Some("abc123".to_string()));
    assert_eq!(result.final_text, Some("Hello world".to_string()));
    assert_eq!(result.usage.input_tokens, 10);
    assert_eq!(result.usage.output_tokens, 5);
}

#[test]
fn test_parse_codex_jsonl_error() {
    let jsonl = r#"{"type":"thread.started","thread_id":"abc123"}
{"type":"error","error":{"message":"something went wrong"}}
"#;
    let result = parse_codex_jsonl(jsonl);
    assert_eq!(result.error_message, Some("something went wrong".to_string()));
}

#[test]
fn codex_first_facts_and_last_counts_win() {
    let events = vec![
        json(r#"{"type":"thread.started","thread_id":"one"}"#),
        json(r#"{"type":"thread.started","thread_id":"two"}"#),
        json(r#"{"type":"item.completed","item":{"type":"reasoning","text":"no"}}"#),
        json(r#"{"type":"item.completed","item":{"type":"agent_message","text":"first"}}"#),
        json(r#"{"type":"item.completed","item":{"type":"agent_message","text":"second"}}"#),
        json(r#"{"type":"turn.completed","usage":{"input_tokens":1,"output_tokens":2}}"#),
        json(r#"{"type":"turn.completed","usage":{"input_tokens":3}}"#),
        json(r#"{"type":"turn.failed","error":{"message":"failed"}}"#),
        json(r#"{"type":"error","error":{"message":"late"}}"#),
    ];
    let result = summarize_codex_events(&events);
    assert_eq!(result.session_id, Some("one".to_string()));
    assert_eq!(result.final_text, Some("first".to_string()));
    assert_eq!(result.error_message, Some("failed".to_string()));
    assert_eq!(result.usage, TokenUsage { input_tokens: 3, output_tokens: 2 });
}

#[test]
fn codex_counts_that_are_no_unsigned_integers_are_passed_over() {
    let result = parse_codex_jsonl(
        r#"{"type":"turn.completed","usage":{"input_tokens":-1,"output_tokens":2.5}}"#,
    );
    assert_eq!(result.usage, TokenUsage { input_tokens: 0, output_tokens: 0 });
    let result = parse_codex_jsonl(
        r#"{"type":"turn.completed","usage":{"input_tokens":18446744073709551615,"output_tokens":"2"}}"#,
    );
    assert_eq!(result.usage, TokenUsage { input_tokens: u64::MAX, output_tokens: 0 });
}

#[test]
fn codex_silent_lines_change_nothing() {
    let line = r#"{"type":"item.completed","item":{"type":"agent_message","text":"Hi"}}"#;
    let clean = parse_codex_jsonl(line);
    let noisy = parse_codex_jsonl(&format!("  \r\n{NOISE}\r\nwarning: x\n\t{line}\u{3000}\r\n\n{{\n"));
    assert_eq!(clean.final_text, Some("Hi".to_string()));
    assert_eq!(noisy.final_text, clean.final_text);
    assert_eq!(noisy.session_id, None);
    assert_eq!(noisy.error_message, None);
    assert_eq!(noisy.usage, clean.usage);
}

#[test]
fn codex_event_is_picked_from_what_a_line_reads_as() {
    assert!(pick_codex_event("x", false, Some(Json::Null)).is_some());
    assert!(pick_codex_event("x", true, Some(Json::Null)).is_none());
    assert!(pick_codex_event("", false, Some(Json::Null)).is_none());
    assert!(pick_codex_event("x", false, None).is_none());
}

#[test]
fn test_is_codex_unknown_session_error() {
    assert!(is_codex_unknown_session_error("thread abc not found"));
    assert!(is_codex_unknown_session_error("Unknown session id"));
    assert!(!is_codex_unknown_session_error("some other error"));
}

#[test]
fn test_is_codex_transient_error() {
    assert!(is_codex_transient_error("high demand"));
    assert!(is_codex_transient_error("rate limit exceeded"));
    assert!(!is_codex_transient_error("not authenticated"));
}

#[test]
fn codex_sessions_expire() {
    assert!(is_codex_unknown_session_error("session expired"));
    assert!(!is_codex_unknown_session_error("token expired"));
}

#[test]
fn codex_noise_is_dropped_line_by_line() {
    assert_eq!(drop_noise(&format!("a\r\n {NOISE}\nb\n\n{NOISE}")), "a\r\nb\n\n");
    assert_eq!(drop_noise(""), "");
    assert_eq!(drop_noise("\na\r\n"), "\na\r\n");
    let mut text = "a".to_string();
    keep_line(&mut text, "b\n", false);
    keep_line(&mut text, "c\n", true);
    assert_eq!(text, "ab\n");
}

#[test]
fn codex_authentication_errors_go_by_plain_words() {
    assert!(is_codex_auth_error("you are not authenticated"));
    assert!(is_codex_auth_error("please run codex auth"));
    assert!(is_codex_auth_error("login first"));
    assert!(is_codex_auth_error("bad credentials"));
    assert!(!is_codex_auth_error("Login first"));
    assert!(!is_codex_auth_error(""));
}

#[test]
fn codex_is_detected_from_a_version_probe() {
    let found = Some(VersionProbe { success: true, stdout: b" codex 1.2\n".to_vec() });
    assert_eq!(CodexCliDriver::detect(&found), Some("codex 1.2".to_string()));
    assert!(codex_cli_available(&found));
    let garbled = Some(VersionProbe { success: true, stdout: vec![b'v', 0xff, b'1', b'\n'] });
    assert_eq!(CodexCliDriver::detect(&garbled), Some("v\u{fffd}1".to_string()));
    let failed = Some(VersionProbe { success: false, stdout: b"codex 1.2".to_vec() });
    assert_eq!(CodexCliDriver::detect(&failed), None);
    assert!(!codex_cli_available(&failed));
    assert!(!codex_cli_available(&None));
    let command = CodexCliDriver::version_command();
    assert_eq!(command.program, "codex");
    assert_eq!(command.args, ["--version"]);
}

#[test]
fn codex_command_bypasses_approvals_in_front_of_the_stdin_marker() {
    let mut asked = request("codex-local/o3");
    asked.system = Some("Be brief.".to_string());
    asked.messages.push(Message { role: Role::User, text: "Hi".to_string() });
    let inherited = vec!["A_TOKEN".to_string(), "PATH".to_string()];
    let home = Some("/home/me".to_string());

    let driver = CodexCliDriver::new(None, true);
    let (run, command) = driver.complete(&asked, &inherited, &home);
    assert_eq!(command.program, "codex");
    assert_eq!(
        command.args,
        ["exec", "--json", "--model", "o3", "--dangerously-bypass-approvals-and-sandbox", "-"]
    );
    assert!(command.stdin_piped);
    assert_eq!(run.label, "codex-local/o3");
    assert_eq!(run.prompt, Some("[User]\nHi".to_string()));
    assert_eq!(run.timeout_secs, 300);
    assert_eq!(command.env.len(), 24);
    assert!(matches!(&command.env[0], EnvEdit::Assign { name, value }
        if name == "SYSTEM_PROMPT" && value == "Be brief."));
    assert!(matches!(&command.env[22], EnvEdit::Remove { name } if name == "A_TOKEN"));
    assert!(matches!(&command.env[23], EnvEdit::Assign { name, value }
        if name == "HOME" && value == "/home/me"));

    let careful = CodexCliDriver::new(None, false);
    let (run, command) = careful.stream(&request("o3"), &Vec::new(), &None);
    assert_eq!(command.args, ["exec", "--json", "--model", "o3", "-"]);
    assert_eq!(command.env.len(), 21);
    assert_eq!(run.label, "o3-stream");
    assert_eq!(run.prompt, Some(String::new()));
}

fn only_text(events: &[StreamEvent]) -> String {
    assert_eq!(events.len(), 1);
    match &events[0] {
        StreamEvent::TextDelta { text } => text.clone(),
        other => panic!("not text: {other:?}"),
    }
}

#[test]
fn codex_stream_passes_on_text_and_errors() {
    let mut progress = StreamProgress::new();
    assert_eq!(only_text(&codex_stream_line(&mut progress, " raw text ")), " raw text ");
    let events = codex_stream_line(
        &mut progress,
        r#"{"type":"item.completed","item":{"type":"agent_message","text":" Hello "}}"#,
    );
    assert_eq!(only_text(&events), " Hello ");
    assert_eq!(progress.full_text, " raw text  Hello ");
    assert!(codex_stream_line(&mut progress, NOISE).is_empty());
    assert!(codex_stream_line(&mut progress, " \t").is_empty());
    assert!(codex_stream_line(&mut progress, r#"{"type":"other","text":"x"}"#).is_empty());
    let counts = r#"{"type":"turn.completed","usage":{"input_tokens":4,"output_tokens":6}}"#;
    assert!(codex_stream_line(&mut progress, counts).is_empty());
    assert_eq!(progress.usage, TokenUsage { input_tokens: 4, output_tokens: 6 });
    let events = codex_stream_event(
        &mut progress,
        &json(r#"{"type":"turn.failed","error":{"message":"oops"}}"#),
    );
    assert_eq!(events.len(), 1);
    match &events[0] {
        StreamEvent::ToolExecutionResult { id, name, result_preview, is_error } => {
            assert_eq!(id, "");
            assert_eq!(name, "codex");
            assert_eq!(result_preview, "oops");
            assert!(*is_error);
        }
        other => panic!("not an error: {other:?}"),
    }
    assert_eq!(progress.full_text, " raw text  Hello ");
}

#[test]
fn codex_stream_goes_by_what_a_line_reads_as() {
    let mut progress = StreamProgress::new();
    assert!(codex_stream_read_line(&mut progress, "x", true, &None).is_empty());
    assert!(codex_stream_read_line(&mut progress, "x", false, &Some(Json::Null)).is_empty());
    assert_eq!(only_text(&codex_stream_read_line(&mut progress, "x", false, &None)), "x");
    assert_eq!(progress.full_text, "x");
}
