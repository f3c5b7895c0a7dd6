//! The replay of prompts.

use git_ai::commands::prompt_replay::{
    ReplayOutput, code_failure, format_prompt_sections, pad_line_to_terminal_width, parse_args,
    parse_prompt_text, read_tool_calls, render_inline, render_line, render_markdown, render_prompt,
    replay_output, replay_url, status_failure,
};

fn strings(args: &[&str]) -> Vec<String> {
    args.iter().map(|arg| (*arg).to_string()).collect()
}

fn failure(args: &[&str]) -> String {
    parse_args(&strings(args)).err().unwrap()
}

#[test]
fn replay_arguments_are_read() {
    let a = parse_args(&strings(&["replay", "log parser"])).ok().unwrap();
    assert_eq!((a.keyword.as_str(), a.top_k, a.sort_by.as_str()), ("log parser", 3, "score"));
    assert!(!a.json && a.markdown);
    assert_eq!(replay_output(&a), ReplayOutput::Markdown);
    let a = parse_args(&strings(&[
        "replay", "x", "--top-k", "5", "extra", "--sort-by", "time", "--plain",
    ]))
    .ok()
    .unwrap();
    assert_eq!((a.top_k, a.sort_by.as_str(), a.markdown), (5, "time", false));
    assert_eq!(replay_output(&a), ReplayOutput::Plain);
    let a = parse_args(&strings(&["replay", "x", "--json"])).ok().unwrap();
    assert_eq!(replay_output(&a), ReplayOutput::Json);
}

#[test]
fn wrong_replay_arguments_are_refused() {
    assert_eq!(
        failure(&[]),
        "Missing subcommand. Usage: prompt replay <keyword> [options]"
    );
    assert_eq!(failure(&["play"]), "Unknown subcommand: play. Expected: replay");
    assert_eq!(
        failure(&["replay"]),
        "Missing keyword argument. Usage: prompt replay <keyword> [options]"
    );
    assert_eq!(failure(&["replay", "x", "--top-k"]), "--top-k requires a value");
    assert_eq!(
        failure(&["replay", "x", "--top-k", "-1"]),
        "--top-k must be a positive integer"
    );
    assert_eq!(
        failure(&["replay", "x", "--top-k", "0"]),
        "--top-k must be greater than 0"
    );
    assert_eq!(
        failure(&["replay", "x", "--sort-by"]),
        "--sort-by requires a value (score or time)"
    );
    assert_eq!(
        failure(&["replay", "x", "--sort-by", "name"]),
        "--sort-by must be 'score' or 'time', got: name"
    );
    assert_eq!(
        failure(&["replay", "x", "--json", "--plain"]),
        "--json and --plain are mutually exclusive"
    );
    assert_eq!(
        failure(&["replay", "x", "--plain", "--json"]),
        "--json and --plain are mutually exclusive"
    );
    assert_eq!(
        failure(&["replay", "x", "--plain", "--markdown", "--json"]),
        "--json and --plain are mutually exclusive"
    );
    assert_eq!(failure(&["replay", "x", "-v"]), "Unknown option: -v");
}

#[test]
fn answers_are_checked() {
    assert_eq!(
        replay_url("https://t"),
        "https://t/ai-code-boost/open/report/prompt/replay"
    );
    assert_eq!(status_failure(200, &None), None);
    assert_eq!(
        status_failure(500, &None),
        Some((
            "Error: API returned status 500".to_string(),
            "       Response: Unable to read response body".to_string()
        ))
    );
    assert_eq!(code_failure(200, "ok"), None);
    assert_eq!(
        code_failure(-1, "no"),
        Some((
            "Error: API returned error code -1".to_string(),
            "       Message: no".to_string()
        ))
    );
}

const PROMPT: &str = "  do it \n\ntool_use: [{\"order\":1,\"name\":\"Bash\",\"arguments\":{\"a/b~c\":\"ls\",\"n\":[1, 2]},\"id\":null}]\n\nassistant_responses:  done ";

#[test]
fn prompts_are_taken_apart() {
    let s = parse_prompt_text(PROMPT);
    assert_eq!(s.user_query, "do it");
    assert_eq!(s.assistant_responses, "done");
    assert_eq!(s.tool_calls.len(), 1);
    assert_eq!(s.tool_calls[0].order, 1);
    assert_eq!(s.tool_calls[0].name, "Bash");
    assert_eq!(
        s.tool_calls[0].arguments,
        vec![
            ("a/b~c".to_string(), "ls".to_string()),
            ("n".to_string(), "[1,2]".to_string())
        ]
    );
    assert_eq!(
        format_prompt_sections(&s),
        "## 用户输入\n\ndo it\n\n## 相关工具使用\n\n### 1 Bash\n\na/b~c:\n````\nls\n````\nn:\n````\n[1,2]\n````\n\n## 最终回复\n\ndone"
    );
    let s = parse_prompt_text(" only this ");
    assert_eq!(format_prompt_sections(&s), "## 用户输入\n\nonly this");
    let s = parse_prompt_text("q\n\ntool_use: nonsense");
    assert!(s.tool_calls.is_empty() && s.assistant_responses.is_empty());
}

#[test]
fn one_unreadable_call_spoils_the_list() {
    assert_eq!(read_tool_calls("[{\"order\":1,\"name\":\"a\",\"arguments\":null}]").len(), 1);
    assert!(read_tool_calls("[{\"order\":1,\"name\":\"a\",\"arguments\":{}},{\"name\":\"b\"}]").is_empty());
    assert!(read_tool_calls("[{\"order\":3000000000,\"name\":\"a\",\"arguments\":{}}]").is_empty());
    assert!(read_tool_calls("[{\"order\":1,\"name\":\"a\",\"arguments\":{},\"id\":5}]").is_empty());
    assert!(read_tool_calls("{}").is_empty());
}

#[test]
fn inline_markdown_is_shown() {
    assert_eq!(render_inline("plain"), "plain");
    assert_eq!(render_inline("a **b** c"), "a \x1b[1mb\x1b[0m c");
    assert_eq!(render_inline("`x` y"), "\x1b[32mx\x1b[0m y");
    assert_eq!(render_inline("a **b `c`"), "a **b `c`");
    assert_eq!(render_inline("`a **b**"), "`a **b**");
    assert_eq!(render_inline("a * b"), "a * b");
    assert_eq!(render_inline("****"), "\x1b[1m\x1b[0m");
}

#[test]
fn lines_are_shown() {
    assert_eq!(render_line("# T"), "\x1b[1m\x1b[36mT\x1b[0m\n");
    assert_eq!(render_line("#### T"), "\x1b[1mT\x1b[0m\n");
    assert_eq!(render_line("- x"), "  \x1b[36m•\x1b[0m x\n");
    assert_eq!(render_line(""), "\n");
    assert_eq!(
        render_line("---"),
        format!("\x1b[2m{}\x1b[0m\x1b[0m\n", "─".repeat(49))
    );
    assert_eq!(
        render_line(" |--|:---| "),
        format!("\x1b[2m  │{}\x1b[0m\n", "─".repeat(4 * 2 + 2 * 3))
    );
    assert_eq!(
        render_line("| a | **b** |"),
        "\x1b[2m  │ a\x1b[2m │ \x1b[0m\x1b[2m\x1b[1mb\x1b[0m\x1b[0m\x1b[0m\n"
    );
}

#[test]
fn code_fills_the_line() {
    assert_eq!(pad_line_to_terminal_width("ab", 4), "ab  ");
    assert_eq!(pad_line_to_terminal_width("abcd", 4), "abcd");
    assert_eq!(pad_line_to_terminal_width("é", 2), "é ");
    assert_eq!(
        render_markdown("x\n```rust\n# y\n```\nz", 4),
        "x\n\n\x1b[48;5;236m\x1b[38;5;252m# y \x1b[0m\n\x1b[0m\nz\n"
    );
    assert_eq!(render_markdown("```", 4), "\n\x1b[0m\n");
    assert_eq!(render_prompt("q", 80), "\x1b[1m\x1b[36m用户输入\x1b[0m\n\nq\n");
}
