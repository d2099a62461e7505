use cli_drivers::command::{Command, EnvEdit};
use cli_drivers::env_filter::{
    apply_env_filter, marks_secret, DRIVER_PREFIXES, SENSITIVE_ENV_EXACT, SENSITIVE_SUFFIXES,
};

fn filtered(inherited: &[&str]) -> Vec<String> {
    let mut cmd = Command {
        program: "tool".to_string(),
        args: vec!["--flag".to_string()],
        env: Vec::new(),
        stdin_piped: true,
    };
    let names: Vec<String> = inherited.iter().map(|s| s.to_string()).collect();
    apply_env_filter(&mut cmd, &names);
    assert_eq!(cmd.program, "tool");
    assert_eq!(cmd.args, vec!["--flag".to_string()]);
    assert!(cmd.stdin_piped);
    let mut removed = Vec::new();
    for edit in &cmd.env {
        match edit {
            EnvEdit::Remove { name } => removed.push(name.clone()),
            EnvEdit::Assign { .. } => panic!("nothing is to be assigned"),
        }
    }
    removed
}

#[test]
fn sensitive_env_exact_contains_major_providers() {
    assert!(SENSITIVE_ENV_EXACT.contains(&"OPENAI_API_KEY"));
    assert!(SENSITIVE_ENV_EXACT.contains(&"ANTHROPIC_API_KEY"));
    assert!(SENSITIVE_ENV_EXACT.contains(&"GEMINI_API_KEY"));
    assert!(SENSITIVE_ENV_EXACT.contains(&"GROQ_API_KEY"));
    assert!(SENSITIVE_ENV_EXACT.contains(&"DEEPSEEK_API_KEY"));
}

#[test]
fn driver_prefixes_includes_claude_codex_gemini() {
    assert!(DRIVER_PREFIXES.contains(&"CLAUDE_"));
    assert!(DRIVER_PREFIXES.contains(&"CODEX_"));
    assert!(DRIVER_PREFIXES.contains(&"GEMINI_"));
}

#[test]
fn driver_prefixes_include_qwen() {
    assert_eq!(DRIVER_PREFIXES, ["CLAUDE_", "CODEX_", "GEMINI_", "QWEN_"]);
    assert_eq!(SENSITIVE_SUFFIXES, ["_SECRET", "_TOKEN", "_PASSWORD"]);
    assert_eq!(SENSITIVE_ENV_EXACT.len(), 21);
}

#[test]
fn the_well_known_keys_are_removed_unconditionally() {
    let removed = filtered(&[]);
    let expected: Vec<String> = SENSITIVE_ENV_EXACT.iter().map(|s| s.to_string()).collect();
    assert_eq!(removed, expected);
}

#[test]
fn secrets_are_removed_by_their_suffix_in_any_case() {
    let removed = filtered(&[
        "PATH",
        "DB_PASSWORD",
        "my_token",
        "App_Secret",
        "TOKENS",
        "TOKEN",
        "HTTPS_PROXY",
    ]);
    assert_eq!(removed[21..], ["DB_PASSWORD", "my_token", "App_Secret"]);
}

#[test]
fn driver_variables_keep_their_secrets() {
    let removed = filtered(&[
        "CLAUDE_TOKEN",
        "CODEX_SECRET",
        "GEMINI_PASSWORD",
        "QWEN_TOKEN",
        "XCODEX_SECRET",
        "codex_secret",
    ]);
    assert_eq!(removed[21..], ["XCODEX_SECRET", "codex_secret"]);
}

#[test]
fn names_that_are_not_ascii_are_uppercased_too() {
    let removed = filtered(&["größe_token", "ſecret_ſecret", "größe"]);
    assert_eq!(removed[21..], ["größe_token", "ſecret_ſecret"]);
}

#[test]
fn marking_goes_by_the_name_and_its_uppercase_form() {
    assert!(marks_secret("a_token", "A_TOKEN"));
    assert!(!marks_secret("a_token", "a_token"));
    assert!(!marks_secret("CODEX_TOKEN", "CODEX_TOKEN"));
}
