//! What sessions of agents used, turn by turn.

use git_ai::agents::AgentNames;
use git_ai::commands::report_token_usage::claude::{
    claude_project_dirs, extract_project_name, extract_session_id, latest_file, usage_from_content,
};
use git_ai::commands::report_token_usage::codex::{
    codex_session_id, latest_session, parse_turns_from_content, session_sort_key, session_usage,
};
use git_ai::commands::report_token_usage::opencode::{
    has_directory, named_session, state_key, SessionRow,
};
use git_ai::commands::report_token_usage::{
    Platform, TokenUsageData, ToolUse, after_upload, last_reported, new_turns, nothing_read_exit_code,
    parse_session_id_arg, report_message, report_platform, reported_turn, reporter,
    stop_hook_transcript, team_number, tool_uses_json, total_tokens, usage_payload, with_reported,
};

fn strings(args: &[&str]) -> Vec<String> {
    args.iter().map(|arg| (*arg).to_string()).collect()
}

fn names() -> AgentNames {
    AgentNames {
        name: "first".to_string(),
        title: "First".to_string(),
    }
}

const TYPED: &str = r#"{"type":"user","sessionId":"s","timestamp":"t1","promptSource":"typed","message":{"role":"user","content":"do it"}}"#;
const CALL: &str = r#"{"type":"assistant","timestamp":"t2","message":{"role":"assistant","id":"m1","model":"big","usage":{"input_tokens":10,"output_tokens":4,"cache_read_input_tokens":3,"cache_creation_input_tokens":2},"content":[{"type":"text","text":"let me see"},{"type":"tool_use","name":"Bash","id":"c1","input":{"command":"ls"}}]}}"#;
const RESULT: &str = r#"{"type":"user","message":{"role":"user","content":[{"type":"tool_result","tool_use_id":"c1","content":[{"type":"text","text":"a"},{"type":"text","text":"b"}]}]}}"#;
const ANSWER: &str = r#"{"type":"assistant","timestamp":"t3","message":{"role":"assistant","id":"m2","stop_reason":"end_turn","usage":{"input_tokens":20,"output_tokens":6},"content":[{"type":"thinking","text":"hm"},{"type":"text","text":"done"}]}}"#;

#[test]
fn a_turn_of_the_first_agent_is_summed() {
    let content = [TYPED, CALL, CALL, RESULT, "nonsense", ANSWER].join("\n");
    let turns = usage_from_content(&content, "/p/projects/-Users-me-work-repo/abc.jsonl");
    assert_eq!(turns.len(), 1);
    let t = &turns[0];
    assert_eq!((t.session_id.as_str(), t.turn_index, t.model.as_str()), ("abc", 1, "big"));
    assert_eq!((t.input_tokens, t.output_tokens), (20, 10));
    assert_eq!((t.cache_read_tokens, t.cache_creation_tokens), (0, 0));
    assert_eq!(t.total_tokens, 30);
    assert_eq!(t.user_prompts.as_deref(), Some("do it"));
    assert_eq!(t.assistant_responses.as_deref(), Some("done"));
    assert_eq!(t.project_name.as_deref(), Some("work/repo"));
    let tools: serde_json::Value = serde_json::from_str(t.tool_uses.as_deref().unwrap()).unwrap();
    assert_eq!(tools.as_array().unwrap().len(), 2);
    assert_eq!(tools[0]["name"], "Bash");
    assert_eq!(tools[0]["arguments"]["command"], "ls");
    assert_eq!(tools[0]["result"], "a\nb");
    assert_eq!(tools[1]["order"], 2);
}

#[test]
fn only_typing_starts_a_turn() {
    let quoted = TYPED.replace("typed", "pasted");
    let continued = TYPED.replace("do it", "This session is being continued from before");
    let content = [&quoted, &continued, CALL, TYPED, CALL, ANSWER, TYPED, ""].join("\n");
    let turns = usage_from_content(&content, "/p/abc.jsonl");
    assert_eq!(turns.len(), 1);
    assert_eq!(turns[0].output_tokens, 10);
    assert_eq!(turns[0].project_name, None);
}

#[test]
fn sessions_and_projects_are_named_by_their_files() {
    assert_eq!(
        extract_project_name("/x/projects/plain/s.jsonl").as_deref(),
        Some("plain")
    );
    assert_eq!(
        extract_project_name("/x/projects/-Users-me/s.jsonl").as_deref(),
        Some("-Users-me")
    );
    assert_eq!(extract_project_name("/x/s.jsonl"), None);
    assert_eq!(
        extract_session_id("/x/parent/subagents/s.jsonl").as_deref(),
        Some("parent")
    );
    assert_eq!(extract_session_id("/x/s.jsonl").as_deref(), Some("s"));
    assert_eq!(latest_file(&[3, 9, 9, 1]), Some(2));
    assert_eq!(latest_file(&[]), None);
    assert_eq!(
        claude_project_dirs("/h", &names(), &Some("/a, ,/b".to_string())),
        strings(&[
            "/h/.first/projects",
            "/h/.config/first/projects",
            "/a/projects",
            "/b/projects"
        ])
    );
}

fn codex_content(extra: &str) -> String {
    [
        r#"{"type":"event_msg","payload":{"type":"task_started","turn_id":"1"}}"#,
        r#"{"type":"event_msg","payload":{"type":"user_message","turn_id":"1","message":"hi"}}"#,
        r#"{"type":"turn_context","payload":{"turn_id":"1","model":"gpt"}}"#,
        r#"{"type":"response_item","payload":{"type":"function_call","name":"sh","call_id":"c","arguments":"{\"a\":1}"}}"#,
        r#"{"type":"event_msg","payload":{"type":"agent_message","turn_id":"1","phase":"draft","message":"x"}}"#,
        r#"{"type":"event_msg","payload":{"type":"agent_message","turn_id":"1","phase":"final_answer","message":"bye"}}"#,
        r#"{"type":"event_msg","payload":{"type":"token_count","info":{"last_token_usage":{"input_tokens":10,"output_tokens":5,"cached_input_tokens":4,"total_tokens":15}}}}"#,
        extra,
    ]
    .join("\n")
}

#[test]
fn a_turn_of_codex_is_read() {
    let turns = parse_turns_from_content(&codex_content(""));
    assert_eq!(turns.len(), 1);
    let t = &turns[0];
    assert_eq!((t.model.as_str(), t.user_content.as_str()), ("gpt", "hi"));
    assert_eq!(t.assistant_text, "bye");
    assert_eq!((t.input_tokens, t.output_tokens, t.cache_read_tokens), (6, 5, 4));
    assert_eq!(t.total_tokens, 15);
    let tools: serde_json::Value = serde_json::from_str(t.tool_uses_json.as_deref().unwrap()).unwrap();
    assert_eq!(tools[0]["name"], "sh");
    assert_eq!(tools[0]["arguments"]["a"], 1);
    assert_eq!(tools[0]["order"], 1);
    let usage = session_usage(&turns, "ses");
    assert_eq!((usage[0].session_id.as_str(), usage[0].turn_index), ("ses", 1));
}

#[test]
fn a_name_gives_one_turn_of_codex() {
    let content = [
        r#"{"type":"event_msg","payload":{"type":"task_started","turn_id":"t1"}}"#,
        r#"{"type":"turn_context","payload":{"turn_id":"t1","model":"m"}}"#,
        r#"{"type":"event_msg","payload":{"type":"user_message","turn_id":"t1","message":"hi"}}"#,
        r#"{"type":"event_msg","payload":{"type":"task_started","turn_id":"t2"}}"#,
        r#"{"type":"event_msg","payload":{"type":"user_message","turn_id":"t2","message":"ho"}}"#,
        r#"{"type":"turn_context","payload":{"turn_id":"t2","model":"n"}}"#,
    ]
    .join("\n");
    let turns = parse_turns_from_content(&content);
    assert_eq!(turns.len(), 2);
    assert_eq!((turns[0].user_content.as_str(), turns[0].model.as_str()), ("hi", "m"));
    assert_eq!(turns[0].total_tokens, 0);
    assert_eq!((turns[1].user_content.as_str(), turns[1].model.as_str()), ("ho", "n"));
}

#[test]
fn what_is_used_belongs_to_the_turn_that_was_named_last() {
    let started = |id: &str| {
        format!(r#"{{"type":"event_msg","payload":{{"type":"task_started","turn_id":"{}"}}}}"#, id)
    };
    let context = r#"{"type":"turn_context","payload":{"turn_id":"t1","model":"m"}}"#.to_string();
    let said =
        r#"{"type":"event_msg","payload":{"type":"user_message","turn_id":"t1","message":"hi"}}"#
            .to_string();
    let counts = r#"{"type":"event_msg","payload":{"type":"token_count","info":{"last_token_usage":{"input_tokens":5,"total_tokens":7}}}}"#
        .to_string();
    let turns = |lines: &[&String]| {
        let texts: Vec<&str> = lines.iter().map(|line| line.as_str()).collect();
        parse_turns_from_content(&texts.join("\n"))
    };

    let named_again = turns(&[&started("t1"), &started("t2"), &context, &counts]);
    assert_eq!(named_again.len(), 1);
    assert_eq!((named_again[0].model.as_str(), named_again[0].total_tokens), ("m", 7));

    let spoken = turns(&[&started("t1"), &said, &started("t2"), &context, &counts]);
    assert_eq!(spoken.len(), 2);
    assert_eq!((spoken[0].user_content.as_str(), spoken[0].total_tokens), ("hi", 0));
    assert_eq!((spoken[1].model.as_str(), spoken[1].total_tokens), ("unknown", 7));
}

#[test]
fn aborted_turns_of_codex_are_left_out() {
    let aborted = r#"{"type":"event_msg","payload":{"type":"turn_aborted","turn_id":"1"}}"#;
    assert!(parse_turns_from_content(&codex_content(aborted)).is_empty());
}

#[test]
fn codex_sessions_are_ordered_by_their_names() {
    let old = "rollout-2025-01-02T03-04-05-0199aaaa-bbbb-cccc-dddd-eeeeffff0000";
    let new = "rollout-2025-01-02T03-04-06-0199aaaa-bbbb-cccc-dddd-eeeeffff0001";
    assert_eq!(
        session_sort_key(old).unwrap(),
        b"2025-01-02:03:04:05".to_vec()
    );
    assert_eq!(session_sort_key("rollout-2025"), None);
    assert_eq!(session_sort_key("other"), None);
    assert_eq!(latest_session(&strings(&[new, "other", old])), Some(0));
    assert_eq!(latest_session(&strings(&["other"])), None);
    assert_eq!(codex_session_id(old), "0199aaaa-bbbb-cccc-dddd-eeeeffff0000");
    assert_eq!(codex_session_id("short-019"), "short-019");
}

#[test]
fn opencode_sessions_are_named() {
    assert_eq!(named_session(&Some(" ".to_string())), None);
    assert_eq!(named_session(&Some("s".to_string())).as_deref(), Some("s"));
    assert_eq!(state_key("s"), "opencode:s");
    assert!(!has_directory(&SessionRow {
        directory: None,
        model: None
    }));
}

#[test]
fn the_reporter_and_the_platform_are_found() {
    assert_eq!(report_platform("first-code", &names()), Some(Platform::ClaudeCode));
    assert_eq!(report_platform("codex", &names()), Some(Platform::Codex));
    assert_eq!(report_platform("first", &names()), None);
    assert_eq!(nothing_read_exit_code(Platform::OpenCode), 2);
    assert_eq!(nothing_read_exit_code(Platform::Codex), 0);
    let login = Some("me".to_string());
    assert_eq!(reporter(&Some("team".to_string()), &[], &login), "team");
    assert_eq!(
        reporter(&Some(String::new()), &strings(&[" ", " e@x "]), &login),
        "e@x"
    );
    assert_eq!(reporter(&None, &[], &login), "me");
    assert_eq!(reporter(&None, &[], &None), "unknown");
    assert_eq!(
        parse_session_id_arg(&strings(&["--session-id", "s"])).as_deref(),
        Some("s")
    );
    assert_eq!(
        parse_session_id_arg(&strings(&["--session-id=", "--session-id=x"])).as_deref(),
        Some("x")
    );
    assert_eq!(parse_session_id_arg(&strings(&["--session-id"])), None);
    assert_eq!(
        stop_hook_transcript(r#"{"session_id":"s","cwd":"/w","transcript_path":"/t"}"#).as_deref(),
        Some("/t")
    );
    assert_eq!(stop_hook_transcript(r#"{"session_id":"s","transcript_path":"/t"}"#), None);
}

fn turn(index: i64) -> TokenUsageData {
    TokenUsageData {
        session_id: "s".to_string(),
        turn_index: index,
        model: "m".to_string(),
        input_tokens: 1,
        output_tokens: 2,
        cache_read_tokens: 3,
        cache_creation_tokens: 4,
        total_tokens: total_tokens(1, 2, 3, 4),
        repo_url: None,
        project_name: None,
        user_prompts: None,
        assistant_responses: None,
        tool_uses: None,
    }
}

#[test]
fn turns_are_reported_once() {
    assert_eq!(turn(1).total_tokens, 10);
    assert_eq!(last_reported(r#"{"a":3,"b":5}"#, "b"), 5);
    assert_eq!(last_reported(r#"{"a":3}"#, "b"), 0);
    assert_eq!(last_reported("nonsense", "b"), 0);
    let fresh = new_turns(vec![turn(1), turn(2), turn(3)], 1);
    let indices: Vec<i64> = fresh.iter().map(|t| t.turn_index).collect();
    assert_eq!(indices, vec![2, 3]);
    assert_eq!(reported_turn(1, &[2, 3]), 3);
    assert_eq!(reported_turn(4, &[2]), 4);
    assert_eq!(report_message("codex", 0, 3), None);
    assert_eq!(
        report_message("codex", 2, 3).as_deref(),
        Some("[git-ai token-report] codex reported: 2 turns (up to turn 3)")
    );
    assert_eq!(team_number("-5"), Some(-5));
    assert_eq!(team_number("x"), None);
}

#[test]
fn the_first_failure_ends_a_report() {
    let turns = vec![turn(1), turn(2), turn(3)];
    assert_eq!(after_upload(&turns, 0, true), Some(1));
    assert_eq!(after_upload(&turns, 1, false), None);
    assert_eq!(after_upload(&turns, 2, true), None);
}

#[test]
fn other_sessions_keep_their_counts() {
    let stored = |text: &str| -> Vec<(String, i64)> { with_reported(text, "b", 7) };
    let pair = |key: &str, n: i64| (key.to_string(), n);
    assert_eq!(stored(r#"{"a":3,"b":5}"#), vec![pair("a", 3), pair("b", 7)]);
    assert_eq!(stored(r#"{"a":3}"#), vec![pair("b", 7), pair("a", 3)]);
    assert_eq!(stored("nonsense"), vec![pair("b", 7)]);
}

#[test]
fn payloads_carry_the_repository() {
    let p = usage_payload(turn(1), 5, "key", "codex", "me", &Some("url".to_string()), "now".to_string());
    assert_eq!((p.team_id, p.team_key.as_deref()), (5, Some("key")));
    assert_eq!(p.turn.repo_url.as_deref(), Some("url"));
    let mut own = turn(1);
    own.repo_url = Some("mine".to_string());
    let p = usage_payload(own, 5, "key", "codex", "me", &Some("url".to_string()), "now".to_string());
    assert_eq!(p.turn.repo_url.as_deref(), Some("mine"));
}

#[test]
fn calls_of_tools_are_written_as_json() {
    let uses = vec![ToolUse {
        name: "say \"x\"".to_string(),
        id: "1".to_string(),
        arguments: "{\"a\":1}".to_string(),
        result: None,
    }];
    let text = tool_uses_json(&uses, true).unwrap();
    let value: serde_json::Value = serde_json::from_str(&text).unwrap();
    assert_eq!(value[0]["name"], "say \"x\"");
    assert_eq!(value[0]["arguments"]["a"], 1);
    assert!(value[0]["result"].is_null());
    assert_eq!(tool_uses_json(&vec![], true), None);
}
