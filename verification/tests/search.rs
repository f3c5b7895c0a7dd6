//! Searching for prompts: arguments, results and filters.

use git_ai::authorship::{AgentId, LineRange, Message, PromptRecord};
use git_ai::commands::search::{
    AttestationEntry, AuthorshipLog, DbPrompt, FileAttestation, PromptDatabase, SearchPlan,
    SearchResult, apply_filters, author_passes, format_count, format_default, format_porcelain,
    format_verbose, normalize_file_path, nothing_found_message, plan_search, search_by_commit,
    search_by_commit_range, search_by_file, search_by_pattern, search_by_prompt_id,
};
use git_ai::commands::search_json::{format_json, write_results};
use git_ai::commands::search_args::{
    OutputFormat, SearchFilters, SearchMode, days_since_unix_epoch, is_leap_year, parse_line_range,
    parse_search_args, parse_time_spec,
};
use git_ai::text_map::TextMap;

const NOW: i64 = 1_750_000_000;


#[test]
fn test_search_result_new() {
    let result = SearchResult::new();
    assert!(result.is_empty());
    assert_eq!(result.len(), 0);
}

#[test]
fn test_search_mode_variants() {
    let by_commit = SearchMode::Commit {
        commit_rev: "abc123".to_string(),
    };
    let by_file = SearchMode::File {
        file_path: "src/main.rs".to_string(),
        line_ranges: vec![(10, 50)],
    };
    let by_pattern = SearchMode::Pattern {
        query: "test".to_string(),
    };
    let by_prompt_id = SearchMode::PromptId {
        prompt_id: "xyz789".to_string(),
    };
    let by_range = SearchMode::CommitRange {
        start: "abc".to_string(),
        end: "def".to_string(),
    };

    assert_eq!(
        by_commit,
        SearchMode::Commit {
            commit_rev: "abc123".to_string()
        }
    );
    assert_eq!(
        by_file,
        SearchMode::File {
            file_path: "src/main.rs".to_string(),
            line_ranges: vec![(10, 50)]
        }
    );
    assert_eq!(
        by_pattern,
        SearchMode::Pattern {
            query: "test".to_string()
        }
    );
    assert_eq!(
        by_prompt_id,
        SearchMode::PromptId {
            prompt_id: "xyz789".to_string()
        }
    );
    assert_eq!(
        by_range,
        SearchMode::CommitRange {
            start: "abc".to_string(),
            end: "def".to_string()
        }
    );
}

#[test]
fn test_output_format_default() {
    let format = OutputFormat::default();
    assert_eq!(format, OutputFormat::Default);
}

#[test]
fn test_search_filters_empty() {
    let filters = SearchFilters::new();
    assert!(filters.is_empty());

    let filters_with_tool = SearchFilters {
        tool: Some("codex".to_string()),
        ..Default::default()
    };
    assert!(!filters_with_tool.is_empty());
}

#[test]
fn test_parse_line_range() {
    assert_eq!(parse_line_range("42").unwrap(), (42, 42));
    assert_eq!(parse_line_range("10-50").unwrap(), (10, 50));
    assert_eq!(parse_line_range("1-1").unwrap(), (1, 1));

    assert!(parse_line_range("50-10").is_err());
    assert!(parse_line_range("abc").is_err());
    assert!(parse_line_range("").is_err());
}

#[test]
fn test_parse_search_args_commit() {
    let args = vec!["--commit".to_string(), "abc123".to_string()];
    let parsed = parse_search_args(NOW, &args).unwrap();
    assert_eq!(
        parsed.mode,
        Some(SearchMode::Commit {
            commit_rev: "abc123".to_string()
        })
    );
}

#[test]
fn test_parse_search_args_commit_range() {
    let args = vec!["--commit".to_string(), "abc..def".to_string()];
    let parsed = parse_search_args(NOW, &args).unwrap();
    assert_eq!(
        parsed.mode,
        Some(SearchMode::CommitRange {
            start: "abc".to_string(),
            end: "def".to_string()
        })
    );
}

#[test]
fn test_parse_search_args_file_with_lines() {
    let args = vec![
        "--file".to_string(),
        "src/main.rs".to_string(),
        "--lines".to_string(),
        "10-50".to_string(),
        "--lines".to_string(),
        "80-100".to_string(),
    ];
    let parsed = parse_search_args(NOW, &args).unwrap();
    assert_eq!(
        parsed.mode,
        Some(SearchMode::File {
            file_path: "src/main.rs".to_string(),
            line_ranges: vec![(10, 50), (80, 100)]
        })
    );
}

#[test]
fn test_parse_search_args_with_filters() {
    let args = vec![
        "--commit".to_string(),
        "HEAD".to_string(),
        "--tool".to_string(),
        "codex".to_string(),
        "--author".to_string(),
        "Alice".to_string(),
        "--json".to_string(),
    ];
    let parsed = parse_search_args(NOW, &args).unwrap();
    assert_eq!(parsed.filters.tool, Some("codex".to_string()));
    assert_eq!(parsed.filters.author, Some("Alice".to_string()));
    assert_eq!(parsed.output_format, OutputFormat::Json);
}

fn normalized(path: &str) -> String {
    normalize_file_path(Ok("/repo".to_string()), path).unwrap()
}

#[test]
fn test_normalize_file_path_relative() {
    assert_eq!(normalized("./src/main.rs"), "src/main.rs");
    assert_eq!(normalized("src/main.rs"), "src/main.rs");
}

#[test]
fn absolute_paths_are_seen_from_the_repository() {
    assert_eq!(normalized("/repo/a"), "a");
    assert_eq!(normalized("/repo/a/"), "a");
    assert_eq!(normalized("/repo/a/./"), "a");
    assert_eq!(normalized("/repo//./a//b/."), "a//b");
    assert_eq!(normalized("/repo/"), "");
    assert_eq!(normalized("/repo/a/.."), "a/..");
    assert_eq!(normalized("/repository/a/"), "/repository/a/");
}

#[test]
fn test_normalize_file_path_backslash() {
    assert_eq!(normalized("src\\commands\\search.rs"), "src/commands/search.rs");
}

#[test]
fn test_search_result_merge_commits() {
    // Test merge behavior for prompt_commits (simpler test without PromptRecord)
    let mut result1 = SearchResult::new();
    result1
        .prompt_commits
        .insert("hash1".to_string(), vec!["commit1".to_string()]);

    let mut result2 = SearchResult::new();
    result2
        .prompt_commits
        .insert("hash1".to_string(), vec!["commit2".to_string()]);
    result2
        .prompt_commits
        .insert("hash2".to_string(), vec!["commit3".to_string()]);

    result1.merge(result2);

    // hash1 should have both commits (deduplicated)
    assert_eq!(result1.prompt_commits.get("hash1").unwrap().len(), 2);
    assert!(result1.prompt_commits.contains_key("hash2"));
}

#[test]
fn test_search_result_merge_locations() {
    let mut result1 = SearchResult::new();
    result1
        .prompt_locations
        .insert("hash1".to_string(), vec![("file1.rs".to_string(), vec![LineRange::Single(10)])]);

    let mut result2 = SearchResult::new();
    result2
        .prompt_locations
        .insert("hash1".to_string(), vec![("file2.rs".to_string(), vec![LineRange::Range(20, 30)])]);

    result1.merge(result2);

    // hash1 should have locations from both files
    let locations = result1.prompt_locations.get("hash1").unwrap();
    assert_eq!(locations.len(), 2);
}

#[test]
fn test_parse_search_args_lines_without_file_error() {
    let args = vec!["--lines".to_string(), "10-50".to_string()];
    let result = parse_search_args(NOW, &args);
    assert!(result.is_err());
    assert!(result.unwrap_err().contains("--lines requires --file"));
}

#[test]
fn test_parse_search_args_lines_before_file_works() {
    // --lines can come before --file and should work
    let args = vec![
        "--lines".to_string(),
        "10-50".to_string(),
        "--file".to_string(),
        "src/main.rs".to_string(),
    ];
    let parsed = parse_search_args(NOW, &args).unwrap();
    assert_eq!(
        parsed.mode,
        Some(SearchMode::File {
            file_path: "src/main.rs".to_string(),
            line_ranges: vec![(10, 50)]
        })
    );
}

#[test]
fn test_parse_search_args_multiple_output_formats_error() {
    let args = vec![
        "--commit".to_string(),
        "HEAD".to_string(),
        "--json".to_string(),
        "--verbose".to_string(),
    ];
    let result = parse_search_args(NOW, &args);
    assert!(result.is_err());
    assert!(result.unwrap_err().contains("Only one output format"));
}

#[test]
fn test_parse_search_args_json_porcelain_error() {
    let args = vec![
        "--commit".to_string(),
        "HEAD".to_string(),
        "--json".to_string(),
        "--porcelain".to_string(),
    ];
    let result = parse_search_args(NOW, &args);
    assert!(result.is_err());
    assert!(result.unwrap_err().contains("Only one output format"));
}

#[test]
fn test_parse_search_args_verbose_count_error() {
    let args = vec![
        "--commit".to_string(),
        "HEAD".to_string(),
        "--verbose".to_string(),
        "--count".to_string(),
    ];
    let result = parse_search_args(NOW, &args);
    assert!(result.is_err());
    assert!(result.unwrap_err().contains("Only one output format"));
}

#[test]
fn test_parse_line_range_invalid_start_greater_than_end() {
    let result = parse_line_range("50-10");
    assert!(result.is_err());
    let err_msg = result.unwrap_err();
    assert!(err_msg.contains("start") && err_msg.contains("end"));
}


/// Create a minimal PromptRecord with the given tool name and optional human_author.
fn make_prompt(tool: &str, author: Option<&str>) -> PromptRecord {
    PromptRecord {
        agent_id: AgentId {
            tool: tool.to_string(),
            id: "test-id".to_string(),
            model: "test-model".to_string(),
        },
        human_author: author.map(|a| a.to_string()),
        messages: vec![],
        total_additions: 0,
        total_deletions: 0,
        accepted_lines: 0,
        overriden_lines: 0,
        messages_url: None,
        custom_attributes: None,
    }
}

/// Create a SearchResult from hash->prompt pairs.
fn make_search_result(prompts: Vec<(&str, PromptRecord)>) -> SearchResult {
    let mut result = SearchResult::new();
    for (hash, prompt) in prompts {
        result.prompts.insert(hash.to_string(), prompt);
    }
    result
}

#[test]
fn test_make_helpers_roundtrip() {
    let prompt = make_prompt("codex", Some("Alice"));
    assert_eq!(prompt.agent_id.tool, "codex");
    assert_eq!(prompt.human_author, Some("Alice".to_string()));

    let result = make_search_result(vec![
        ("hash1", make_prompt("codex", Some("Alice"))),
        ("hash2", make_prompt("cursor", Some("Bob"))),
    ]);
    assert_eq!(result.len(), 2);
    assert!(!result.is_empty());

    let p1 = result.prompts.get("hash1").unwrap();
    assert_eq!(p1.agent_id.tool, "codex");
    assert_eq!(p1.human_author, Some("Alice".to_string()));

    let p2 = result.prompts.get("hash2").unwrap();
    assert_eq!(p2.agent_id.tool, "cursor");
    assert_eq!(p2.human_author, Some("Bob".to_string()));
}

#[test]
fn test_make_helpers_none_author_and_empty() {
    // Edge case: None author
    let prompt = make_prompt("copilot", None);
    assert_eq!(prompt.agent_id.tool, "copilot");
    assert!(prompt.human_author.is_none());
    assert!(prompt.messages.is_empty());

    // Edge case: empty prompts vec
    let result = make_search_result(vec![]);
    assert!(result.is_empty());
    assert_eq!(result.len(), 0);
}

#[test]
fn test_apply_filters_tool_with_helpers() {
    let result = make_search_result(vec![
        ("hash1", make_prompt("codex", Some("Alice"))),
        ("hash2", make_prompt("cursor", Some("Bob"))),
        ("hash3", make_prompt("Codex", Some("Carol"))),
    ]);

    let filters = SearchFilters {
        tool: Some("codex".to_string()),
        ..Default::default()
    };

    let filtered = apply_filters(result, &filters);
    // Tool filtering is case-insensitive, so "codex" and "Codex" both match
    assert_eq!(filtered.len(), 2);
    assert!(filtered.prompts.contains_key("hash1"));
    assert!(filtered.prompts.contains_key("hash3"));
    assert!(!filtered.prompts.contains_key("hash2"));
}

#[test]
fn test_apply_filters_author_with_helpers() {
    let result = make_search_result(vec![
        ("hash1", make_prompt("codex", Some("Alice Smith"))),
        ("hash2", make_prompt("cursor", None)),
        ("hash3", make_prompt("codex", Some("Bob Jones"))),
    ]);

    let filters = SearchFilters {
        author: Some("alice".to_string()),
        ..Default::default()
    };

    let filtered = apply_filters(result, &filters);
    // Author filtering is case-insensitive substring; None author does not match
    assert_eq!(filtered.len(), 1);
    assert!(filtered.prompts.contains_key("hash1"));
}

#[test]
fn test_apply_filters_tool_single_match() {
    let result = make_search_result(vec![
        ("hash1", make_prompt("codex", None)),
        ("hash2", make_prompt("cursor", None)),
    ]);
    let filters = SearchFilters {
        tool: Some("codex".to_string()),
        ..Default::default()
    };
    let filtered = apply_filters(result, &filters);
    assert_eq!(filtered.len(), 1);
    assert!(filtered.prompts.contains_key("hash1"));
    assert!(!filtered.prompts.contains_key("hash2"));
}

#[test]
fn test_apply_filters_tool_no_match() {
    let result = make_search_result(vec![("hash1", make_prompt("cursor", None))]);
    let filters = SearchFilters {
        tool: Some("codex".to_string()),
        ..Default::default()
    };
    let filtered = apply_filters(result, &filters);
    assert!(filtered.is_empty());
}

#[test]
fn test_apply_filters_author_single_match() {
    let result = make_search_result(vec![
        ("hash1", make_prompt("codex", Some("Alice"))),
        ("hash2", make_prompt("codex", Some("Bob"))),
    ]);
    let filters = SearchFilters {
        author: Some("Alice".to_string()),
        ..Default::default()
    };
    let filtered = apply_filters(result, &filters);
    assert_eq!(filtered.len(), 1);
    assert!(filtered.prompts.contains_key("hash1"));
    assert!(!filtered.prompts.contains_key("hash2"));
}

#[test]
fn test_apply_filters_author_no_match() {
    let result = make_search_result(vec![
        ("hash1", make_prompt("codex", Some("Alice"))),
        ("hash2", make_prompt("cursor", Some("Bob"))),
    ]);
    let filters = SearchFilters {
        author: Some("Charlie".to_string()),
        ..Default::default()
    };
    let filtered = apply_filters(result, &filters);
    assert!(filtered.is_empty());
}

#[test]
fn test_apply_filters_empty_filters_passthrough() {
    let result = make_search_result(vec![
        ("hash1", make_prompt("codex", Some("Alice"))),
        ("hash2", make_prompt("cursor", Some("Bob"))),
    ]);
    let filters = SearchFilters::default();
    let filtered = apply_filters(result, &filters);
    assert_eq!(filtered.len(), 2);
    assert!(filtered.prompts.contains_key("hash1"));
    assert!(filtered.prompts.contains_key("hash2"));
}

#[test]
fn test_parse_time_spec_days() {
    let now = NOW;
    let result = parse_time_spec(NOW, "7d").unwrap();
    let expected = now - 7 * 86400;
    assert!(
        (result - expected).abs() < 5,
        "Expected ~{}, got {}",
        expected,
        result
    );
}

#[test]
fn test_parse_time_spec_hours() {
    let now = NOW;
    let result = parse_time_spec(NOW, "24h").unwrap();
    let expected = now - 24 * 3600;
    assert!(
        (result - expected).abs() < 5,
        "Expected ~{}, got {}",
        expected,
        result
    );
}

#[test]
fn test_parse_time_spec_weeks() {
    let now = NOW;
    let result = parse_time_spec(NOW, "2w").unwrap();
    let expected = now - 2 * 7 * 86400;
    assert!(
        (result - expected).abs() < 5,
        "Expected ~{}, got {}",
        expected,
        result
    );
}

#[test]
fn test_parse_time_spec_minutes() {
    let now = NOW;
    let result = parse_time_spec(NOW, "30m").unwrap();
    let expected = now - 30 * 60;
    assert!(
        (result - expected).abs() < 5,
        "Expected ~{}, got {}",
        expected,
        result
    );
}

#[test]
fn test_parse_time_spec_unix_timestamp() {
    let result = parse_time_spec(NOW, "1700000000").unwrap();
    assert_eq!(result, 1700000000);
}

#[test]
fn test_parse_time_spec_date_format() {
    let result = parse_time_spec(NOW, "2024-01-01").unwrap();
    let expected = days_since_unix_epoch(2024, 1, 1).unwrap() * 86400;
    assert_eq!(result, expected);
}

#[test]
fn test_parse_time_spec_invalid_format() {
    let result = parse_time_spec(NOW, "invalid");
    assert!(result.is_err());
}

#[test]
fn test_parse_time_spec_invalid_suffix() {
    let result = parse_time_spec(NOW, "7x");
    assert!(result.is_err());
}

#[test]
fn test_parse_time_spec_zero_days() {
    let now = NOW;
    let result = parse_time_spec(NOW, "0d").unwrap();
    assert!(
        (result - now).abs() < 5,
        "Expected ~{}, got {}",
        now,
        result
    );
}

#[test]
fn test_days_since_unix_epoch_epoch() {
    assert_eq!(days_since_unix_epoch(1970, 1, 1), Some(0));
}

#[test]
fn test_days_since_unix_epoch_known_date() {
    assert_eq!(days_since_unix_epoch(2000, 1, 1), Some(10957));
}

#[test]
fn test_days_since_unix_epoch_invalid_month() {
    assert_eq!(days_since_unix_epoch(2024, 13, 1), None);
}

#[test]
fn test_days_since_unix_epoch_invalid_day() {
    assert_eq!(days_since_unix_epoch(2024, 1, 32), None);
}

#[test]
fn test_is_leap_year_regular() {
    assert!(is_leap_year(2024));
    assert!(!is_leap_year(2023));
}

#[test]
fn test_is_leap_year_century() {
    assert!(!is_leap_year(1900));
    assert!(is_leap_year(2000));
}

#[test]
fn test_is_leap_year_400_year() {
    assert!(is_leap_year(2000));
}

fn message(text: &str) -> Message {
    Message {
        text: Some(text.to_string()),
    }
}

fn one_log() -> AuthorshipLog {
    let mut prompts = TextMap::new();
    prompts.insert("p".to_string(), make_prompt("codex", Some("Ann")));
    AuthorshipLog {
        prompts,
        attestations: vec![FileAttestation {
            file_path: "a.rs".to_string(),
            entries: vec![AttestationEntry {
                hash: "p".to_string(),
                line_ranges: vec![LineRange::Single(1), LineRange::Range(3, 4)],
            }],
        }],
    }
}

#[test]
fn a_commit_is_searched() {
    let found = search_by_commit("sha", Some(one_log()), None);
    assert_eq!(found.prompt_commits.get("p"), Some(&vec!["sha".to_string()]));
    assert_eq!(found.prompt_locations.get("p").unwrap().len(), 1);
    let mut messages = TextMap::new();
    messages.insert("p".to_string(), vec![message("hi")]);
    let db = PromptDatabase {
        by_commit: vec![],
        messages,
    };
    let found = search_by_commit("sha", Some(one_log()), Some(db));
    assert_eq!(found.prompts.get("p").unwrap().messages.len(), 1);
    let db = PromptDatabase {
        by_commit: vec![DbPrompt {
            id: "q".to_string(),
            commit_sha: None,
            prompt: make_prompt("codex", None),
        }],
        messages: TextMap::new(),
    };
    let found = search_by_commit("sha", None, Some(db));
    assert_eq!(found.prompt_commits.get("q"), Some(&vec!["sha".to_string()]));
    let first = search_by_commit("one", Some(one_log()), None);
    let second = search_by_commit("two", Some(one_log()), None);
    let both = search_by_commit_range(vec![Some(first), None, Some(second)]);
    assert_eq!(both.prompts.len(), 1);
    assert_eq!(
        both.prompt_commits.get("p"),
        Some(&vec!["one".to_string(), "two".to_string()])
    );
    assert_eq!(both.prompt_locations.get("p").unwrap().len(), 2);
}

#[test]
fn files_patterns_and_prompts_are_searched() {
    let authors: Vec<(u32, String)> = [(4, "p"), (2, "p"), (3, "p"), (9, "other"), (7, "p")]
        .iter()
        .map(|(n, who)| (*n, who.to_string()))
        .collect();
    let found = search_by_file("a.rs", &authors, one_log().prompts);
    let places = found.prompt_locations.get("p").unwrap();
    assert_eq!(places[0].0, "a.rs");
    assert_eq!(places[0].1, vec![LineRange::Range(2, 4), LineRange::Single(7)]);
    assert!(found.prompt_locations.get("other").is_none());
    let record = |id: &str, sha: Option<&str>| DbPrompt {
        id: id.to_string(),
        commit_sha: sha.map(|s| s.to_string()),
        prompt: make_prompt("codex", None),
    };
    let found = search_by_pattern(vec![record("p", Some("sha")), record("q", None)]);
    assert_eq!(found.prompts.len(), 2);
    assert_eq!(found.prompt_commits.len(), 1);
    let found = search_by_prompt_id("p", Some("sha".to_string()), make_prompt("codex", None));
    assert_eq!(found.prompt_commits.get("p"), Some(&vec!["sha".to_string()]));
    assert!(author_passes(Some("ann lee"), "lee"));
    assert!(!author_passes(None, ""));
}

#[test]
fn results_are_written() {
    let mut found = search_by_commit("sha", Some(one_log()), None);
    let mut prompt = make_prompt("codex", Some("Ann"));
    prompt.messages = vec![message(&format!("a\tb{}", "x".repeat(100)))];
    found.prompts.insert("p".to_string(), prompt);
    let mode = SearchMode::Commit {
        commit_rev: "HEAD".to_string(),
    };
    assert_eq!(
        format_default(&found, &mode),
        format!(
            "Found 1 AI prompt session(s) for commit HEAD\n\n[1] Prompt p (codex / test-model)\n    Author: Ann\n    Files:  a.rs:1,3-4\n    First message: a\tb{}...",
            "x".repeat(77)
        )
    );
    let mut transcripts = TextMap::new();
    transcripts.insert("p".to_string(), "User: hi\n".to_string());
    assert_eq!(
        format_verbose(&found, &mode, &transcripts),
        "Found 1 AI prompt session(s) for commit HEAD\n\n=== Prompt p (codex / test-model) ===\nAuthor: Ann\nFiles: a.rs:1,3-4\n\nUser: hi"
    );
    assert_eq!(
        format_porcelain(&found),
        format!("p\tcodex\ttest-model\tAnn\t0\t1\ta b{}", "x".repeat(57))
    );
    assert_eq!(format_count(&found), "1");
    assert_eq!(
        nothing_found_message(&mode),
        "No AI prompt history found for commit 'HEAD'"
    );
}

#[test]
fn searches_are_planned() {
    let plan = |args: &[&str]| {
        let args: Vec<String> = args.iter().map(|a| a.to_string()).collect();
        plan_search(1_000_000, &args)
    };
    assert!(matches!(plan(&["--help"]), SearchPlan::Help));
    assert!(matches!(plan(&[]), SearchPlan::Refuse(_)));
    assert!(matches!(plan(&["--odd"]), SearchPlan::Refuse(said) if said.starts_with("Error: ")));
    assert!(matches!(
        plan(&["--commit", "HEAD", "--json"]),
        SearchPlan::Run(SearchMode::Commit { .. }, _, OutputFormat::Json)
    ));
}

#[test]
fn results_are_written_as_json() {
    let mut result = SearchResult::new();
    let mut prompt = make_prompt("codex", Some("A \"B\""));
    prompt.total_additions = 3;
    result.prompts.insert("p1".to_string(), prompt);
    result.prompt_locations.insert(
        "p1".to_string(),
        vec![("a.rs".to_string(), vec![LineRange::Single(1), LineRange::Range(3, 5)])],
    );
    result.prompt_commits.insert("p1".to_string(), vec!["c1".to_string()]);
    let mode = SearchMode::File {
        file_path: "a.rs".to_string(),
        line_ranges: vec![(1, 5)],
    };
    let mut messages = TextMap::new();
    messages.insert("p1".to_string(), "[{\"type\":\"user\",\"text\":\"hi\"}]".to_string());
    assert_eq!(
        write_results(&result, &mode, &messages),
        "{\"query\":{\"mode\":\"file\",\"file\":\"a.rs\",\"line_ranges\":[[1,5]]},\"result_count\":1,\
         \"prompts\":{\"p1\":{\"agent_id\":{\"tool\":\"codex\",\"id\":\"test-id\",\"model\":\"test-model\"},\
         \"human_author\":\"A \\\"B\\\"\",\"messages\":[{\"type\":\"user\",\"text\":\"hi\"}],\
         \"total_additions\":3,\"total_deletions\":0,\
         \"locations\":[{\"file\":\"a.rs\",\"lines\":[\"1\",\"3-5\"]}],\"commits\":[\"c1\"]}}}"
    );
    let shown = format_json(&result, &mode, &messages);
    assert!(shown.starts_with("{\n  \"prompts\": {\n    \"p1\": {\n      \"agent_id\": {\n"));
    assert!(shown.ends_with("  \"result_count\": 1\n}"));
    messages.insert("p1".to_string(), "nonsense".to_string());
    assert_eq!(format_json(&result, &mode, &messages), "{}");

    let pattern = SearchMode::Pattern {
        query: "q".to_string(),
    };
    assert_eq!(
        format_json(&SearchResult::new(), &pattern, &TextMap::new()),
        "{\n  \"prompts\": {},\n  \"query\": {\n    \"mode\": \"pattern\",\n    \"query\": \"q\"\n  },\n  \"result_count\": 0\n}"
    );
}
