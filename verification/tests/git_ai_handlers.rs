//! Which command the program is asked for, and the small commands.

use git_ai::agents::AgentNames;
use git_ai::commands::git_ai_handlers::{
    GitAiCommand, NotesExistence, Program, TrackerCommand, TranscriptAgent, binary_name,
    blame_failure, blank_field, git_ai_command, git_hooks_removes, ignore_revs_candidates,
    looks_for_ignore_revs, machine_error, needs_daemon, needs_database, normalize_head_rev,
    notes_existence_label, parse_machine_json_arg, parse_stats_args, plan_git_ai, program_of,
    remote_url, stats_failure, strip_utf8_bom, tracker_command, transcript_agent,
    transcript_failure, transcript_model_line, transcript_request,
};

fn strings(args: &[&str]) -> Vec<String> {
    args.iter().map(|arg| (*arg).to_string()).collect()
}

fn names() -> AgentNames {
    AgentNames {
        name: "first".to_string(),
        title: "First".to_string(),
    }
}

#[test]
fn commands_are_known_by_name() {
    assert_eq!(git_ai_command("checkpoint", false), GitAiCommand::Checkpoint);
    assert_eq!(git_ai_command("search", false), GitAiCommand::Search);
    assert_eq!(git_ai_command("report-token-usage", false), GitAiCommand::ReportTokenUsage);
    assert_eq!(git_ai_command("-h", false), GitAiCommand::Help);
    assert_eq!(git_ai_command("nonsense", false), GitAiCommand::Unknown);
    assert!(needs_daemon("checkpoint"));
    assert!(!needs_daemon("help"));
    assert!(needs_database("checkpoint"));
    assert!(!needs_database("stats"));
    let plan = plan_git_ai(&strings(&["checkpoint"]), true, false);
    assert!(plan.connect_service && plan.warm_database);
    let plan = plan_git_ai(&strings(&["checkpoint"]), false, false);
    assert!(!plan.connect_service);
    let plan = plan_git_ai(&[], true, false);
    assert_eq!(plan.command, GitAiCommand::Help);
    assert!(!plan.connect_service && !plan.warm_database);
}

#[test]
fn transcripts_are_shown_in_builds_for_development() {
    assert_eq!(git_ai_command("show-transcript", true), GitAiCommand::ShowTranscript);
    assert_eq!(git_ai_command("show-transcript", false), GitAiCommand::Unknown);
    let plan = plan_git_ai(&strings(&["show-transcript", "codex", "x"]), true, true);
    assert_eq!(plan.command, GitAiCommand::ShowTranscript);
    assert!(plan.connect_service && !plan.warm_database);

    let (agent, from) = transcript_request(&strings(&["amp", "T-1"]), &names()).ok().unwrap();
    assert_eq!(agent, TranscriptAgent::Amp);
    assert_eq!(from, "T-1");
    let lines = |args: &[&str]| transcript_request(&strings(args), &names()).err().unwrap();
    assert_eq!(
        lines(&["amp"]),
        strings(&[
            "Error: show-transcript requires agent name and path/id",
            "Usage: git-ai show-transcript <agent> <path|id>",
            "  Agents: first, codex, gemini, continue-cli, github-copilot, cursor, amp, windsurf",
            "  For amp, provide conversation/thread id instead of path",
        ])
    );
    assert_eq!(
        lines(&["odd", "x"]),
        strings(&[
            "Error: Unknown agent 'odd'",
            "Supported agents: first, codex, gemini, continue-cli, github-copilot, cursor, amp, windsurf",
        ])
    );
    assert_eq!(transcript_model_line(&Some("m".to_string())), "Model: m");
    assert_eq!(transcript_model_line(&None), "Model: (not available)");
}

#[test]
fn tracker_commands_are_read() {
    assert!(matches!(tracker_command(&strings(&["tracker"])), TrackerCommand::Usage));
    assert!(matches!(tracker_command(&strings(&["tracker", "retry"])), TrackerCommand::Retry));
    assert!(matches!(tracker_command(&strings(&["tracker", "log"])), TrackerCommand::Log(100)));
    assert!(matches!(
        tracker_command(&strings(&["tracker", "log", "-n", "7"])),
        TrackerCommand::Log(7)
    ));
    assert!(matches!(
        tracker_command(&strings(&["tracker", "log", "-n", "x"])),
        TrackerCommand::Log(100)
    ));
    assert!(matches!(
        tracker_command(&strings(&["tracker", "blacklist"])),
        TrackerCommand::BlacklistUsage
    ));
    assert!(matches!(
        tracker_command(&strings(&["tracker", "blacklist", "list"])),
        TrackerCommand::BlacklistList
    ));
    assert!(matches!(
        tracker_command(&strings(&["tracker", "blacklist", "add", "x"])),
        TrackerCommand::BlacklistAdd(Some(p)) if p == "x"
    ));
    assert!(matches!(
        tracker_command(&strings(&["tracker", "blacklist", "remove"])),
        TrackerCommand::BlacklistRemove(None)
    ));
    assert!(matches!(
        tracker_command(&strings(&["tracker", "blacklist", "odd"])),
        TrackerCommand::UnknownBlacklist(w) if w == "odd"
    ));
    assert!(matches!(
        tracker_command(&strings(&["tracker", "odd"])),
        TrackerCommand::Unknown(w) if w == "odd"
    ));
}

#[test]
fn machine_requests_are_read() {
    assert_eq!(
        parse_machine_json_arg(&strings(&["--json", "\u{feff}{}"]), "x"),
        Ok("{}".to_string())
    );
    assert_eq!(
        parse_machine_json_arg(&strings(&["--json", "  "]), "x"),
        Err("JSON payload cannot be empty".to_string())
    );
    assert_eq!(
        parse_machine_json_arg(&strings(&["{}"]), "x"),
        Err("Usage: git-ai x --json '<json-payload>'".to_string())
    );
    assert_eq!(strip_utf8_bom("\u{feff}a".to_string()), "a");
    assert_eq!(strip_utf8_bom("a".to_string()), "a");
    assert_eq!(machine_error("say \"no\""), "{\"error\":\"say \\\"no\\\"\"}");
    assert_eq!(
        blank_field("remote_name", " ").as_deref(),
        Some("remote_name cannot be empty")
    );
    assert_eq!(blank_field("remote_name", "origin"), None);
    assert_eq!(notes_existence_label(NotesExistence::Found), "found");
    assert_eq!(notes_existence_label(NotesExistence::NotFound), "not_found");
}

#[test]
fn head_is_written_in_capitals() {
    assert_eq!(normalize_head_rev("head"), "HEAD");
    assert_eq!(normalize_head_rev("Head~2"), "HEAD~2");
    assert_eq!(normalize_head_rev("head^"), "HEAD^");
    assert_eq!(normalize_head_rev("header"), "header");
    assert_eq!(normalize_head_rev("main"), "main");
    let once = normalize_head_rev("heAD@{1}");
    assert_eq!(once, "HEAD@{1}");
    assert_eq!(normalize_head_rev(&once), once);
}

#[test]
fn stats_arguments_are_read() {
    let r = parse_stats_args(&strings(&["--json", "head", "--ignore", "*.lock", "x.js"]));
    assert!(r.json && r.error.is_none());
    assert_eq!(r.commit.as_deref(), Some("HEAD"));
    assert_eq!(r.ignore, strings(&["*.lock", "x.js"]));
    let r = parse_stats_args(&strings(&["a..head"]));
    assert_eq!((r.ranges[0].from.as_str(), r.ranges[0].to.as_str()), ("a", "HEAD"));
    assert_eq!(r.commit, None);
    let r = parse_stats_args(&strings(&["a..b..c"]));
    assert_eq!(
        r.error.as_deref(),
        Some("Invalid commit range format. Expected: <commit>..<commit>")
    );
    let r = parse_stats_args(&strings(&["a", "b"]));
    assert_eq!(r.error.as_deref(), Some("Unknown stats argument: b"));
    let r = parse_stats_args(&strings(&["--ignore", "Cargo.lock", "package.lock"]));
    assert_eq!(r.ignore, strings(&["Cargo.lock", "package.lock"]));
    assert_eq!(r.error, None);
    let r = parse_stats_args(&strings(&["--ignore", "abc1234"]));
    assert_eq!(
        r.error.as_deref(),
        Some("--ignore requires at least one pattern argument")
    );
    let r = parse_stats_args(&strings(&["--ignore"]));
    assert_eq!(
        r.error.as_deref(),
        Some("--ignore requires at least one pattern argument")
    );
    assert_eq!(stats_failure("No commit found: x"), "No commit found: x");
    assert_eq!(stats_failure("x"), "Stats failed: x");
}

#[test]
fn blame_looks_for_revisions_to_ignore() {
    assert_eq!(
        ignore_revs_candidates(&Some("r".to_string()), &Some("/w".to_string())),
        strings(&["/w/r", "/w/.git-blame-ignore-revs"])
    );
    assert_eq!(
        ignore_revs_candidates(&Some("/r".to_string()), &Some("/w".to_string())),
        strings(&["/r", "/w/.git-blame-ignore-revs"])
    );
    assert!(ignore_revs_candidates(&Some("r".to_string()), &None).is_empty());
    assert!(looks_for_ignore_revs(false, false, true));
    assert!(!looks_for_ignore_revs(true, false, true));
    assert_eq!(
        blame_failure(false, false, false),
        Some("Error: blame requires a file argument")
    );
    assert_eq!(
        blame_failure(true, true, true),
        Some("Error: incremental mode is not supported in interactive terminal")
    );
    assert_eq!(blame_failure(true, false, true), None);
}

#[test]
fn small_answers() {
    assert_eq!(remote_url(true, b" git@x:y \n").as_deref(), Some("git@x:y"));
    assert_eq!(remote_url(true, b"\n"), None);
    assert_eq!(remote_url(false, b"x"), None);
    assert!(git_hooks_removes(&strings(&["uninstall"])));
    assert!(!git_hooks_removes(&strings(&["ensure"])));
}

#[test]
fn transcripts_have_their_agents() {
    assert_eq!(transcript_agent("first", &names()), Some(TranscriptAgent::Claude));
    assert_eq!(transcript_agent("amp", &names()), Some(TranscriptAgent::Amp));
    assert_eq!(transcript_agent("other", &names()), None);
    assert_eq!(
        transcript_failure(TranscriptAgent::Claude, &names(), "x"),
        "Error loading First transcript: x"
    );
    assert_eq!(
        transcript_failure(TranscriptAgent::ContinueCli, &names(), "x"),
        "Error loading Continue CLI transcript: x"
    );
}

#[test]
fn the_program_knows_its_names() {
    assert_eq!(binary_name(&Some("/usr/bin/git".to_string())), "git");
    assert_eq!(binary_name(&Some("/".to_string())), "git-ai");
    assert_eq!(binary_name(&None), "git-ai");
    assert_eq!(program_of("easylife-ai.exe", false, false, &None), Program::GitAi);
    assert_eq!(program_of("git", false, false, &None), Program::Git);
    assert_eq!(program_of("pre-commit", true, true, &None), Program::RetiredHook);
    let git = Some("git".to_string());
    assert_eq!(program_of("git-ai", false, true, &git), Program::Git);
    assert_eq!(program_of("git-ai", false, false, &git), Program::GitAi);
}
