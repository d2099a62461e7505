use cli_drivers::backend::{VersionProbe, DEFAULT_MESSAGE_TIMEOUT_SECS};
use cli_drivers::command::EnvEdit;
use cli_drivers::gemini_cli::{
    gemini_cli_available, gemini_stream_event, gemini_stream_line, gemini_stream_read_line,
    is_gemini_auth_error, is_gemini_unknown_session_error, parse_gemini_jsonl,
    summarize_gemini_events, GeminiCliDriver,
};
use cli_drivers::json::{parse_json, Json};
use cli_drivers::message::{CompletionRequest, Message, Role, StreamEvent, TokenUsage};
use cli_drivers::stream::StreamProgress;

fn request(model: &str) -> CompletionRequest {
    CompletionRequest {
        model: model.to_string(),
        messages: vec![],
        temperature: None,
        system: None,
    }
}

fn json(text: &str) -> Json {
    parse_json(text).unwrap()
}

#[test]
fn gemini_cli_test_build_prompt_simple() {
    let request = CompletionRequest {
        model: "gemini-local/gemini-2.5-flash".to_string(),
        messages: vec![Message {
            role: Role::User,
            text: "Hello".to_string(),
        }],
        temperature: Some("0.7".to_string()),
        system: Some("You are helpful.".to_string()),
    };

    let prompt = GeminiCliDriver::build_prompt(&request);
    assert!(!prompt.contains("[System]"));
    assert!(!prompt.contains("You are helpful."));
    assert!(prompt.contains("[User]"));
    assert!(prompt.contains("Hello"));
}

#[test]
fn gemini_prompt_joins_the_messages_that_say_something() {
    let mut talk = request("auto");
    for (role, text) in [
        (Role::System, "Rules."),
        (Role::User, ""),
        (Role::User, "Hi"),
        (Role::Assistant, "Hello\n\nyou"),
    ] {
        talk.messages.push(Message { role, text: text.to_string() });
    }
    assert_eq!(
        GeminiCliDriver::build_prompt(&talk),
        "[System]\nRules.\n\n[User]\nHi\n\n[Assistant]\nHello\n\nyou"
    );
    assert_eq!(GeminiCliDriver::build_prompt(&request("auto")), "");
}

#[test]
fn gemini_cli_test_build_args_default() {
    let args = GeminiCliDriver::build_args(&request("auto"), "hello", true);
    assert!(args.contains(&"--output-format".to_string()));
    assert!(args.contains(&"stream-json".to_string()));
    assert!(args.contains(&"--approval-mode".to_string()));
    assert!(args.contains(&"yolo".to_string()));
    assert!(args.contains(&"--prompt".to_string()));
    assert!(args.contains(&"hello".to_string()));
    assert!(!args.contains(&"--model".to_string()));
}

#[test]
fn gemini_cli_test_build_args_with_model() {
    let args = GeminiCliDriver::build_args(&request("gemini-local/gemini-2.5-pro"), "hello", true);
    assert!(args.contains(&"--model".to_string()));
    assert!(args.contains(&"gemini-2.5-pro".to_string()));
}

#[test]
fn gemini_args_come_in_order() {
    let mut warm = request("gemini-local/gemini-2.5-pro");
    warm.temperature = Some("0.7".to_string());
    assert_eq!(
        GeminiCliDriver::build_args(&warm, "hello", true),
        [
            "--output-format",
            "stream-json",
            "--model",
            "gemini-2.5-pro",
            "--approval-mode",
            "yolo",
            "--sandbox=none",
            "--config",
            "temperature=0.7",
            "--prompt",
            "hello",
        ]
    );
    assert_eq!(
        GeminiCliDriver::build_args(&request("gemini-local/auto"), "", false),
        ["--output-format", "stream-json", "--sandbox=none", "--prompt", ""]
    );
}

#[test]
fn gemini_provider_prefix_is_optional() {
    assert_eq!(
        GeminiCliDriver::build_args(&request("gemini-local/x"), "p", true),
        GeminiCliDriver::build_args(&request("x"), "p", true)
    );
}

#[test]
fn test_new_defaults_to_gemini() {
    let driver = GeminiCliDriver::new(None, true);
    assert_eq!(driver.cli_path, "gemini");
    assert_eq!(driver.message_timeout_secs, DEFAULT_MESSAGE_TIMEOUT_SECS);
    assert!(driver.active_pids().is_empty());
}

#[test]
fn gemini_cli_test_new_with_custom_path() {
    let driver = GeminiCliDriver::new(Some("/usr/local/bin/gemini".to_string()), true);
    assert_eq!(driver.cli_path, "/usr/local/bin/gemini");
}

#[test]
fn gemini_cli_test_new_with_empty_path() {
    let driver = GeminiCliDriver::new(Some(String::new()), true);
    assert_eq!(driver.cli_path, "gemini");
}

#[test]
fn gemini_cli_test_with_timeout() {
    let driver = GeminiCliDriver::with_timeout(None, true, 600);
    assert_eq!(driver.message_timeout_secs, 600);
    assert_eq!(driver.cli_path, "gemini");
}

#[test]
fn gemini_pids_are_shared() {
    let driver = GeminiCliDriver::new(None, false);
    driver.track_pid(&"auto".to_string(), 3);
    assert_eq!(driver.pid_map().len(), 1);
    driver.pid_map().remove("auto");
    assert!(driver.active_pids().is_empty());
    assert_eq!(driver.untrack_pid(&"auto".to_string()), None);
}

#[test]
fn test_parse_gemini_jsonl_basic() {
    let jsonl = r#"{"type":"assistant","message":{"content":[{"type":"text","text":"Hello"}]}}
{"type":"result","result":"done","usage":{"input_tokens":10,"output_tokens":5}}
"#;
    let result = parse_gemini_jsonl(jsonl);
    assert!(result.final_text.is_some());
    assert_eq!(result.usage.input_tokens, 10);
    assert_eq!(result.usage.output_tokens, 5);
    assert_eq!(result.final_text, Some("Hello\ndone".to_string()));
}

#[test]
fn test_parse_gemini_jsonl_text_event() {
    let jsonl = r#"{"type":"text","content":"chunk1"}
{"type":"text","part":{"text":"chunk2"}}
{"type":"done","usage_metadata":{"prompt_token_count":10,"candidates_token_count":5}}
"#;
    let result = parse_gemini_jsonl(jsonl);
    assert_eq!(result.final_text, Some("chunk1chunk2".to_string()));
    assert_eq!(result.usage.input_tokens, 10);
    assert_eq!(result.usage.output_tokens, 5);
}

#[test]
fn test_parse_gemini_jsonl_error() {
    let jsonl = r#"{"type":"assistant","message":{"content":[{"type":"text","text":"partial"}]}}
{"type":"result","is_error":true,"error":"something went wrong"}
"#;
    let result = parse_gemini_jsonl(jsonl);
    assert_eq!(result.error_message, Some("something went wrong".to_string()));
}

#[test]
fn gemini_text_of_every_kind_is_collected() {
    let events = vec![
        json(r#"{"type":"assistant","message":{"content":[{"type":"text","text":" a "},{"type":"image","text":"no"},{"type":"content","text":"b"},{"type":"text","text":"  "}]},"content":" c "}"#),
        json(r#"{"type":"text","part":{},"content":"unused"}"#),
        json(r#"{"type":"text","content":" d "}"#),
        json(r#"{"type":"anything","content":"e"}"#),
        json(r#"{"content":"f"}"#),
        json(r#"{"type":"done","content":"no","result":"no"}"#),
        json(r#"{"type":"error","content":""}"#),
        json(r#"{"type":"result","result":" g ","content":"no"}"#),
    ];
    let result = summarize_gemini_events(&events);
    assert_eq!(result.final_text, Some("a\nb\ncdefg".to_string()));
    assert_eq!(result.error_message, None);
}

#[test]
fn gemini_without_text_has_none() {
    let result = parse_gemini_jsonl(r#"{"type":"assistant","content":"  "}"#);
    assert_eq!(result.final_text, None);
}

#[test]
fn gemini_first_session_cost_and_error_win() {
    let result = summarize_gemini_events(&vec![
        json(r#"{"type":"init","session_id":7,"sessionId":"unused"}"#),
        json(r#"{"type":"init","sessionId":"s1"}"#),
        json(r#"{"type":"init","session_id":"s2"}"#),
        json(r#"{"type":"result","subtype":"ERROR","message":"m","cost_usd":0.25}"#),
        json(r#"{"type":"done","total_cost_usd":1.5}"#),
        json(r#"{"type":"error","error":"late"}"#),
    ]);
    assert_eq!(result.session_id, Some("s1".to_string()));
    assert_eq!(result.cost_usd, Some("0.25".to_string()));
    assert_eq!(result.error_message, Some("m".to_string()));
}

#[test]
fn gemini_errors_are_looked_for_in_order() {
    let told = |text: &str| summarize_gemini_events(&vec![json(text)]).error_message;
    assert_eq!(told(r#"{"type":"error","error":"e","message":"m"}"#), Some("e".to_string()));
    assert_eq!(told(r#"{"type":"error","error":{},"message":"m"}"#), Some("m".to_string()));
    assert_eq!(told(r#"{"type":"error","content":"c"}"#), Some("c".to_string()));
    assert_eq!(told(r#"{"type":"error","error":"","message":"m"}"#), None);
    assert_eq!(told(r#"{"type":"result","error":"e"}"#), None);
    assert_eq!(told(r#"{"type":"result","is_error":true}"#), None);
    assert_eq!(told(r#"{"type":"result","is_error":true,"error":""}"#), Some(String::new()));
}

#[test]
fn gemini_counts_are_replaced_by_results_and_filled_by_the_rest() {
    let counted = |texts: &[&str]| {
        summarize_gemini_events(&texts.iter().map(|t| json(t)).collect()).usage
    };
    let result = r#"{"type":"result","usage":{"input_tokens":3},"usage_metadata":{"prompt_token_count":9,"candidates_token_count":8}}"#;
    let done = r#"{"type":"complete","usage":{"input_tokens":5,"output_tokens":6}}"#;
    let step = r#"{"type":"step_finish","usage":{"input_tokens":1}}"#;
    assert_eq!(counted(&[result]), TokenUsage { input_tokens: 3, output_tokens: 8 });
    assert_eq!(counted(&[result, done]), TokenUsage { input_tokens: 3, output_tokens: 8 });
    assert_eq!(counted(&[step, done]), TokenUsage { input_tokens: 1, output_tokens: 6 });
    assert_eq!(counted(&[done, result]), TokenUsage { input_tokens: 3, output_tokens: 6 });
}

#[test]
fn gemini_silent_lines_change_nothing() {
    let clean = parse_gemini_jsonl("{\"type\":\"text\",\"content\":\"a\"}\n{\"type\":\"text\",\"content\":\"b\"}");
    let noisy = parse_gemini_jsonl("\r\nhello\r\n {\"type\":\"text\",\"content\":\"a\"}\r\n\u{a0}\n{\"type\":\"text\",\"content\":\"b\"}\n]\n");
    assert_eq!(clean.final_text, Some("ab".to_string()));
    assert_eq!(noisy.final_text, clean.final_text);
}

#[test]
fn test_is_gemini_auth_error() {
    assert!(is_gemini_auth_error("please authenticate"));
    assert!(is_gemini_auth_error("not authenticated"));
    assert!(!is_gemini_auth_error("session expired"));
}

#[test]
fn test_is_gemini_unknown_session_error() {
    assert!(is_gemini_unknown_session_error("unknown session"));
    assert!(is_gemini_unknown_session_error("session abc not found"));
    assert!(!is_gemini_unknown_session_error("not authenticated"));
}

#[test]
fn gemini_sessions_expire() {
    assert!(is_gemini_unknown_session_error("session expired"));
    assert!(!is_gemini_auth_error("session expired"));
}

#[test]
fn gemini_is_detected_from_a_version_probe() {
    let found = Some(VersionProbe { success: true, stdout: b"0.9.1\r\n".to_vec() });
    assert_eq!(GeminiCliDriver::detect(&found), Some("0.9.1".to_string()));
    assert!(gemini_cli_available(&found));
    assert!(!gemini_cli_available(&None));
    assert_eq!(GeminiCliDriver::version_command().program, "gemini");
}

#[test]
fn gemini_command_carries_the_prompt() {
    let mut asked = request("auto");
    asked.system = Some("Be brief.".to_string());
    asked.messages.push(Message { role: Role::User, text: "Hi".to_string() });
    let driver = GeminiCliDriver::with_timeout(Some("/opt/gemini".to_string()), true, 9);
    let (run, command) = driver.stream(&asked, &Vec::new(), &Some("/root".to_string()));
    assert_eq!(command.program, "/opt/gemini");
    assert_eq!(
        command.args,
        [
            "--output-format",
            "stream-json",
            "--approval-mode",
            "yolo",
            "--sandbox=none",
            "--prompt",
            "[User]\nHi",
        ]
    );
    assert!(!command.stdin_piped);
    assert_eq!(run.label, "auto-stream");
    assert_eq!(run.timeout_secs, 9);
    assert_eq!(run.prompt, None);
    assert_eq!(command.env.len(), 23);
    assert!(matches!(&command.env[0], EnvEdit::Assign { name, value }
        if name == "GEMINI_SYSTEM_PROMPT" && value == "Be brief."));
    let (run, same) = driver.complete(&asked, &Vec::new(), &None);
    assert_eq!(run.label, "auto");
    assert_eq!(same.args, command.args);
}

fn texts(events: &[StreamEvent]) -> Vec<String> {
    events
        .iter()
        .map(|e| match e {
            StreamEvent::TextDelta { text } => text.clone(),
            other => panic!("not text: {other:?}"),
        })
        .collect()
}

#[test]
fn gemini_stream_passes_on_text() {
    let mut progress = StreamProgress::new();
    let line = r#"{"type":"assistant","message":{"content":[{"type":"text","text":" a "},{"type":"x","text":"no"},{"type":"content","text":"b"},{"type":"text","text":""},{"type":"text","text":5}]}}"#;
    assert_eq!(texts(&gemini_stream_line(&mut progress, line)), [" a ", "b"]);
    assert_eq!(texts(&gemini_stream_line(&mut progress, r#"{"type":"content","content":"c"}"#)), ["c"]);
    assert_eq!(
        texts(&gemini_stream_line(&mut progress, r#"{"type":"text","content":"","part":{"text":"d"}}"#)),
        ["d"]
    );
    assert!(gemini_stream_line(&mut progress, r#"{"type":"text"}"#).is_empty());
    assert_eq!(texts(&gemini_stream_line(&mut progress, "not json")), ["not json"]);
    assert!(gemini_stream_line(&mut progress, "\u{2003}").is_empty());
    let result = r#"{"type":"result","result":"again","usage":{"input_tokens":1},"usage_metadata":{"candidates_token_count":2}}"#;
    assert!(gemini_stream_line(&mut progress, result).is_empty());
    assert_eq!(progress.full_text, " a bcdnot json");
    assert_eq!(progress.usage, TokenUsage { input_tokens: 1, output_tokens: 2 });
}

#[test]
fn gemini_stream_takes_a_result_for_text_if_there_was_none() {
    let mut progress = StreamProgress::new();
    let event = json(r#"{"type":"done","result":" whole "}"#);
    assert_eq!(texts(&gemini_stream_event(&mut progress, &event)), [" whole "]);
    assert_eq!(progress.full_text, " whole ");
    assert!(gemini_stream_event(&mut progress, &event).is_empty());
    let mut progress = StreamProgress::new();
    assert_eq!(texts(&gemini_stream_event(&mut progress, &json(r#"{"type":"result","result":""}"#))), [""]);
}

#[test]
fn gemini_stream_reports_errors() {
    let mut progress = StreamProgress::new();
    let events = gemini_stream_line(&mut progress, r#"{"type":"error","error":"oops"}"#);
    assert!(matches!(&events[..], [StreamEvent::ToolExecutionResult { id, name, result_preview, is_error: true }]
        if id.is_empty() && name == "gemini" && result_preview == "oops"));
    assert!(gemini_stream_line(&mut progress, r#"{"type":"error","message":"oops"}"#).is_empty());
    assert_eq!(progress.full_text, "");
}

#[test]
fn gemini_stream_goes_by_what_a_line_reads_as() {
    let mut progress = StreamProgress::new();
    assert_eq!(texts(&gemini_stream_read_line(&mut progress, "{}", &None)), ["{}"]);
    assert!(gemini_stream_read_line(&mut progress, "x", &Some(Json::Null)).is_empty());
    assert!(gemini_stream_read_line(&mut progress, " ", &None).is_empty());
}
