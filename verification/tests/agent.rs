use arcana::agent::access::is_allowed;
use arcana::agent::config::{AgentConfig, EnvOverrides, PartialConfig, TelegramConfig};
use arcana::agent::messages::{Content, ContentBlock, LlmResponse, Message, ToolCall};
use arcana::agent::prompt::{build_system_prompt, system_prompt_text, utc_minute_text, PROMPT_HEAD};
use arcana::agent::runner::{
    max_iterations_message, record_tool_results, respond, truncate_output, RunnerStep,
};
use arcana::agent::session::{save_start, session_file_name, trim_history};
use arcana::date::civil_from_epoch_days;
use arcana::text::parse_unsigned;

fn no_env() -> EnvOverrides {
    EnvOverrides {
        base_url: None,
        auth_token: None,
        api_key: None,
        model: None,
        max_tokens: None,
        timeout_secs: None,
        teloxide_token: None,
        telegram_token: None,
    }
}

fn empty_partial() -> PartialConfig {
    PartialConfig {
        base_url: None,
        api_key: None,
        model: None,
        max_tokens: None,
        max_iterations: None,
        timeout_secs: None,
        telegram: None,
    }
}

#[test]
fn later_layers_override_earlier_ones_and_empty_values_do_not() {
    let user = PartialConfig {
        api_key: Some("user-key".to_string()),
        base_url: Some("https://proxy.example.com//".to_string()),
        telegram: Some(TelegramConfig {
            token: "bot-token".to_string(),
            allow_from: vec!["*".to_string()],
        }),
        ..empty_partial()
    };
    let project = PartialConfig {
        model: Some("project-model".to_string()),
        api_key: Some(String::new()),
        max_iterations: Some(5),
        ..empty_partial()
    };
    let env = EnvOverrides {
        auth_token: Some("auth-token".to_string()),
        max_tokens: Some("+1024".to_string()),
        timeout_secs: Some("soon".to_string()),
        telegram_token: Some("env-bot".to_string()),
        ..no_env()
    };
    let config = AgentConfig::from_layers("/data".to_string(), "default-model".to_string(), Some(user), Some(project), &env).unwrap();
    assert_eq!(config.base_url, "https://proxy.example.com");
    assert_eq!(config.api_key, "auth-token");
    assert_eq!(config.model, "project-model");
    assert_eq!(config.max_tokens, 1024);
    assert_eq!(config.max_iterations, 5);
    assert_eq!(config.timeout_secs, 120);
    assert_eq!(config.telegram.token, "env-bot");
    assert_eq!(config.telegram.allow_from, vec!["*".to_string()]);
    assert_eq!(config.data_dir, "/data");

    let env = EnvOverrides {
        auth_token: Some("auth".to_string()),
        api_key: Some("api".to_string()),
        ..no_env()
    };
    let config = AgentConfig::from_layers(String::new(), "default-model".to_string(), None, None, &env).unwrap();
    assert_eq!(config.api_key, "api");
    assert_eq!(config.base_url, "https://api.anthropic.com");
    assert_eq!(config.model, "default-model");
}

#[test]
fn a_missing_api_key_is_refused() {
    let error = AgentConfig::from_layers(String::new(), "default-model".to_string(), None, None, &no_env()).unwrap_err();
    assert!(error.starts_with("API key not configured."));
}

#[test]
fn numbers_read_as_rust_reads_unsigned_integers() {
    assert_eq!(parse_unsigned("42", u32::MAX as u64), Some(42));
    assert_eq!(parse_unsigned("+7", u32::MAX as u64), Some(7));
    assert_eq!(parse_unsigned("4294967296", u32::MAX as u64), None);
    assert_eq!(parse_unsigned("4294967295", u32::MAX as u64), Some(4294967295));
    assert_eq!(parse_unsigned("", u64::MAX), None);
    assert_eq!(parse_unsigned("+", u64::MAX), None);
    assert_eq!(parse_unsigned("-1", u64::MAX), None);
    assert_eq!(parse_unsigned(" 1", u64::MAX), None);
    assert_eq!(parse_unsigned("18446744073709551615", u64::MAX), Some(u64::MAX));
    assert_eq!(parse_unsigned("18446744073709551616", u64::MAX), None);
}

#[test]
fn access_list_admits_wildcard_ids_and_user_names() {
    let list = |entries: &[&str]| entries.iter().map(|e| e.to_string()).collect::<Vec<_>>();
    assert!(!is_allowed("42", "alice", &list(&[])));
    assert!(is_allowed("42", "alice", &list(&["*"])));
    assert!(is_allowed("42", "", &list(&["42"])));
    assert!(is_allowed("7", "Alice", &list(&["@@alice"])));
    assert!(is_allowed("7", "alice", &list(&["ALICE"])));
    assert!(!is_allowed("7", "", &list(&["@"])));
    assert!(!is_allowed("7", "bob", &list(&["alice", "8"])));
}

fn text(role: &str, body: &str) -> Message {
    Message {
        role: role.to_string(),
        content: Content::Text(body.to_string()),
    }
}

fn tool_result(id: &str) -> Message {
    Message {
        role: "user".to_string(),
        content: Content::Blocks(vec![ContentBlock::ToolResult {
            tool_use_id: id.to_string(),
            content: "ok".to_string(),
            is_error: None,
        }]),
    }
}

#[test]
fn history_is_cut_at_a_user_message() {
    let mut messages = vec![
        text("user", "a"),
        text("assistant", "b"),
        tool_result("t1"),
        text("assistant", "c"),
        text("user", "d"),
        text("assistant", "e"),
    ];
    trim_history(&mut messages, 4);
    assert_eq!(messages.len(), 2);
    assert_eq!(messages[0], text("user", "d"));

    let mut short = vec![text("user", "a"), text("assistant", "b")];
    trim_history(&mut short, 4);
    assert_eq!(short.len(), 2);

    let mut no_user = vec![text("user", "a"), tool_result("x"), text("assistant", "b"), tool_result("y")];
    trim_history(&mut no_user, 2);
    assert_eq!(no_user, vec![text("assistant", "b"), tool_result("y")]);
    assert_eq!(save_start(45), 5);
    assert_eq!(save_start(3), 0);
}

#[test]
fn session_keys_become_safe_file_names() {
    assert_eq!(session_file_name("telegram:123"), "telegram_123.jsonl");
    assert_eq!(session_file_name("a/b:c"), "a_b_c.jsonl");
    assert_eq!(session_file_name("plain"), "plain.jsonl");
}

#[test]
fn the_runner_replies_or_runs_the_requested_tools() {
    let mut messages = vec![text("user", "hi")];
    let step = respond(
        &mut messages,
        LlmResponse {
            content: vec![ContentBlock::Text { text: "Hello".to_string() }],
            stop_reason: "end_turn".to_string(),
        },
    );
    assert_eq!(step, RunnerStep::Reply("Hello".to_string()));
    assert_eq!(messages[1], text("assistant", "Hello"));

    let step = respond(
        &mut messages,
        LlmResponse {
            content: vec![
                ContentBlock::Text { text: "Checking".to_string() },
                ContentBlock::ToolUse {
                    id: "call-1".to_string(),
                    name: "get_context".to_string(),
                    input: "{}".to_string(),
                },
            ],
            stop_reason: "tool_use".to_string(),
        },
    );
    let calls = match step {
        RunnerStep::RunTools(calls) => calls,
        other => panic!("unexpected step {other:?}"),
    };
    assert_eq!(
        calls,
        vec![ToolCall {
            id: "call-1".to_string(),
            name: "get_context".to_string(),
            input: "{}".to_string(),
        }]
    );
    record_tool_results(&mut messages, &calls, vec![Err("boom".to_string())]);
    assert_eq!(
        messages.last().unwrap().content,
        Content::Blocks(vec![ContentBlock::ToolResult {
            tool_use_id: "call-1".to_string(),
            content: "Error: boom".to_string(),
            is_error: Some(true),
        }])
    );
    assert_eq!(
        max_iterations_message(20),
        "Agent reached maximum iterations (20) without completing."
    );
}

#[test]
fn long_tool_output_is_cut_with_its_length_noted() {
    assert_eq!(truncate_output("short", 10), "short");
    assert_eq!(
        truncate_output("abcdefghij", 4),
        "abcd... [truncated, 10 chars total]"
    );
}

#[test]
fn the_prompt_embeds_time_and_directory() {
    let prompt = system_prompt_text("2026-08-16 10:00 UTC", "/data");
    assert!(prompt.starts_with(PROMPT_HEAD));
    assert!(prompt.contains("- Current Time: 2026-08-16 10:00 UTC\n- Data Directory: /data\n"));
    assert_eq!(utc_minute_text(0), "1970-01-01 00:00 UTC");
    assert_eq!(utc_minute_text(1_787_565_600 + 59), "2026-08-24 10:00 UTC");
    assert_eq!(civil_from_epoch_days(19782), (2024, 2, 29));
    assert_eq!(civil_from_epoch_days(19783), (2024, 3, 1));
}

#[test]
fn the_built_prompt_carries_the_current_minute_and_the_data_path() {
    let prompt = build_system_prompt("/data/arcana");
    assert!(prompt.starts_with(PROMPT_HEAD));
    assert!(prompt.contains("/data/arcana"));
    let minute: String = prompt[PROMPT_HEAD.len()..].chars().take(20).collect();
    let chars: Vec<char> = minute.chars().collect();
    assert_eq!((chars[4], chars[7], chars[10], chars[13]), ('-', '-', ' ', ':'), "{minute}");
    assert!(minute.ends_with(" UTC"), "{minute}");
    assert!(minute.as_str() >= "2020-01-01 00:00 UTC");
}
