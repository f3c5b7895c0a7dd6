//! Checkpoints: what is asked for, and how they reach the service.

use git_ai::agents::AgentNames;
use git_ai::commands::checkpoint_args::{
    AgentRunResult, CheckpointKind, Course, HookInput, Preset, Stdin, absolute_files,
    base_directory, checkpoint_course, checkpoint_kind_to_str, checkpoint_preset, checkpoint_request_has_explicit_capture_scope,
    effective_run, estimate_checkpoint_file_count, external_files, human_result,
    known_human_from_args, known_human_from_json, known_human_preset, mock_ai_result,
    mock_known_human_result, needs_file_based_detection, parse_hook_input, preset_failure,
};
use git_ai::commands::checkpoint_dispatch::{
    CHECKPOINT_EXIT_CODE, Capture, CheckpointDispatchOutcome, DelegateFailure, DispatchInput, Event, Phase, Reply,
    WorkspaceTally, failure_log, failure_message, first_phase, next_phase, repository_message,
    startup_timeout_secs, workspace_summary,
};

fn strings(args: &[&str]) -> Vec<String> {
    args.iter().map(|arg| (*arg).to_string()).collect()
}

fn names() -> AgentNames {
    AgentNames {
        name: "first".to_string(),
        title: "First".to_string(),
    }
}

fn stop(args: &[&str], stdin: Stdin) -> String {
    match parse_hook_input(&strings(args), &stdin) {
        HookInput::Stop(m) => m,
        _ => panic!("expected a complaint"),
    }
}

fn ready(args: &[&str], stdin: Stdin) -> Option<String> {
    match parse_hook_input(&strings(args), &stdin) {
        HookInput::Ready(input) => input,
        _ => panic!("expected an input"),
    }
}

#[test]
fn hook_input_is_read() {
    assert_eq!(ready(&["first"], Stdin::Unread), None);
    assert_eq!(
        ready(&["--hook-input", "a", "--hook-input", "\u{feff}b"], Stdin::Unread).as_deref(),
        Some("b")
    );
    assert!(matches!(
        parse_hook_input(&strings(&["--hook-input", "stdin"]), &Stdin::Unread),
        HookInput::NeedStdin
    ));
    assert_eq!(
        ready(&["--hook-input", "stdin"], Stdin::Content("{}".to_string())).as_deref(),
        Some("{}")
    );
    assert_eq!(
        stop(&["--hook-input"], Stdin::Unread),
        "Error: --hook-input requires a value or 'stdin' to read from stdin"
    );
    assert_eq!(
        stop(&["--hook-input", " "], Stdin::Unread),
        "Error: --hook-input requires a value"
    );
    assert_eq!(
        stop(&["--hook-input", "stdin"], Stdin::Content(" ".to_string())),
        "No hook input provided (via --hook-input or stdin)."
    );
    assert_eq!(
        stop(&["--hook-input", "stdin"], Stdin::Failed("closed".to_string())),
        "Failed to read stdin for hook input: closed"
    );
}

#[test]
fn presets_are_known_by_name() {
    assert_eq!(checkpoint_preset(&strings(&["first"]), &names()), Preset::Claude);
    assert_eq!(checkpoint_preset(&strings(&["mock_ai", "x"]), &names()), Preset::MockAi);
    assert_eq!(checkpoint_preset(&strings(&["odd"]), &names()), Preset::Nothing);
    assert_eq!(checkpoint_preset(&[], &names()), Preset::Nothing);
    assert_eq!(
        preset_failure(Preset::Claude, &names(), "x"),
        "First preset error: x"
    );
    assert_eq!(
        preset_failure(Preset::Cursor, &names(), "x"),
        "Error running Cursor preset: x"
    );
    let given = Some("/given".to_string());
    assert_eq!(base_directory(Preset::Codex, "/here", &given), "/given");
    assert_eq!(base_directory(Preset::AgentV1, "/here", &given), "/here");
    assert_eq!(base_directory(Preset::Codex, "/here", &None), "/here");
}

#[test]
fn kinds_have_names() {
    assert_eq!(checkpoint_kind_to_str(CheckpointKind::Human), "human");
    assert_eq!(checkpoint_kind_to_str(CheckpointKind::AiAgent), "ai_agent");
    assert_eq!(checkpoint_kind_to_str(CheckpointKind::AiTab), "ai_tab");
    assert_eq!(checkpoint_kind_to_str(CheckpointKind::KnownHuman), "known_human");
}

#[test]
fn mock_runs_take_paths_or_all_changes() {
    let run = mock_ai_result(&strings(&["mock_ai", "a", "--flag", "b"]), "7", strings(&["c"]));
    assert_eq!(run.edited_filepaths, Some(strings(&["a", "b"])));
    assert_eq!(run.agent_id.id, "ai-thread-7");
    assert_eq!(run.checkpoint_kind, CheckpointKind::AiAgent);
    let run = mock_ai_result(&strings(&["mock_ai"]), "7", strings(&["c"]));
    assert_eq!(run.edited_filepaths, Some(strings(&["c"])));
    let run = mock_ai_result(&strings(&["mock_ai", "--flag"]), "7", strings(&["c"]));
    assert_eq!(run.edited_filepaths, None);
    let run = mock_known_human_result(&strings(&["mock_known_human", "a"]));
    assert_eq!(run.agent_id.tool, "mock_known_human");
    assert_eq!(run.edited_filepaths, Some(strings(&["a"])));
}

#[test]
fn known_humans_are_read() {
    let kh = known_human_from_args(&strings(&[
        "known_human", "--editor", "vim", "--odd", "a", "--", "--b",
    ]));
    assert_eq!((kh.editor.as_str(), kh.editor_version.as_str()), ("vim", "unknown"));
    assert_eq!(kh.edited_filepaths, Some(strings(&["a", "--b"])));
    let kh = known_human_from_json(
        r#"{"editor":"vscode","cwd":"/w","edited_filepaths":["a",1,"b"],"dirty_files":{"a":"x","n":2}}"#,
    );
    assert_eq!(kh.editor, "vscode");
    assert_eq!(kh.extension_version, "unknown");
    assert_eq!(kh.cwd.as_deref(), Some("/w"));
    assert_eq!(kh.edited_filepaths, Some(strings(&["a", "b"])));
    let dirty = kh.dirty_files.unwrap();
    assert_eq!(dirty.len(), 1);
    assert_eq!(dirty.get("a").map(String::as_str), Some("x"));
    let run = known_human_preset(
        &strings(&["known_human", "--editor", "vim"]),
        &Some(r#"{"editor":"emacs"}"#.to_string()),
    );
    let metadata = run.agent_metadata.unwrap();
    assert_eq!(metadata.get("kh_editor").map(String::as_str), Some("emacs"));
    assert_eq!(run.checkpoint_kind, CheckpointKind::KnownHuman);
    let run = known_human_preset(&strings(&["known_human", "--editor", "vim"]), &None);
    assert_eq!(
        run.agent_metadata.unwrap().get("kh_editor").map(String::as_str),
        Some("vim")
    );
}

#[test]
fn files_outside_the_repository_are_found() {
    assert_eq!(absolute_files(&strings(&["a", "/b"]), "/w"), strings(&["/w/a", "/b"]));
    assert!(needs_file_based_detection(false, &[]));
    assert!(needs_file_based_detection(true, &[true, false]));
    assert!(!needs_file_based_detection(true, &[true]));
    assert_eq!(
        external_files(&strings(&["a", "b"]), &[true, false], "/w"),
        strings(&["/w/b"])
    );
}

fn human(args: &[&str]) -> AgentRunResult {
    human_result(&strings(args), "7", "/w", strings(&["c", "d"]))
}

#[test]
fn human_checkpoints_name_files_behind_the_separator() {
    assert_eq!(human(&["x", "--", "a", "--b"]).will_edit_filepaths, Some(strings(&["a"])));
    let run = human(&["x"]);
    assert_eq!(run.will_edit_filepaths, Some(strings(&["c", "d"])));
    assert_eq!(run.files(), &Some(strings(&["c", "d"])));
    let part = run.for_repository("/w2", &strings(&["c"]), false);
    assert_eq!(part.repo_working_dir.as_deref(), Some("/w2"));
    assert_eq!(part.files(), &Some(strings(&["c"])));
    assert_eq!(part.edited_filepaths, None);
    assert_eq!(estimate_checkpoint_file_count(CheckpointKind::Human, &Some(run)), 2);
    assert_eq!(estimate_checkpoint_file_count(CheckpointKind::Human, &None), 0);
}

#[test]
fn capture_scopes_are_recognized() {
    let scope = checkpoint_request_has_explicit_capture_scope;
    assert!(scope(&strings(&["mock_ai", "a"]), false));
    assert!(!scope(&strings(&["mock_ai", "--x"]), true));
    assert!(scope(&strings(&["--", "a"]), false));
    assert!(!scope(&strings(&["--"]), true));
    assert!(scope(&strings(&["codex"]), true));
}

#[test]
fn the_active_run_replaces_the_given_one() {
    let (kind, run) = effective_run(None, None);
    assert_eq!(kind, CheckpointKind::Human);
    assert!(run.is_none());
    let (kind, run) = effective_run(Some(mock_known_human_result(&[])), None);
    assert_eq!(kind, CheckpointKind::KnownHuman);
    assert!(run.is_some());
}

fn input(capture_id: Option<&str>, explicit: bool) -> DispatchInput {
    DispatchInput {
        delegate: true,
        workdir: Some("/w".to_string()),
        capture_id: capture_id.map(|c| c.to_string()),
        explicit_targets: explicit,
        estimated_files: 3,
    }
}

fn run(input: &DispatchInput, events: Vec<Event>) -> (Vec<String>, Phase) {
    let mut phase = first_phase(input);
    let mut log = vec![];
    for event in events {
        let (failures, next) = next_phase(input, phase, event);
        log.extend(failures.iter().map(|f| f.phase.clone()));
        phase = next;
    }
    (log, phase)
}

#[test]
fn checkpoints_are_queued_by_the_service() {
    let (log, phase) = run(
        &input(None, true),
        vec![
            Event::Started(Ok(())),
            Event::Captured(Ok(Some(Capture {
                workdir: "/w".to_string(),
                capture_id: "c".to_string(),
                file_count: 2,
            }))),
            Event::Sent(Reply::Accepted),
        ],
    );
    assert!(log.is_empty());
    assert!(matches!(
        phase,
        Phase::Done(CheckpointDispatchOutcome { stats: (0, 2, 0), queued: true })
    ));
    let (_, phase) = run(
        &input(Some("e"), true),
        vec![Event::Started(Ok(())), Event::Sent(Reply::Accepted)],
    );
    assert!(matches!(
        phase,
        Phase::Done(CheckpointDispatchOutcome { stats: (0, 3, 0), queued: true })
    ));
}

#[test]
fn a_failing_service_never_fails_a_checkpoint() {
    let (log, phase) = run(
        &input(None, false),
        vec![
            Event::Started(Err("down".to_string())),
            Event::Ran(Ok((1, 2, 3))),
        ],
    );
    assert_eq!(log, vec!["startup_failed"]);
    assert!(matches!(
        phase,
        Phase::Done(CheckpointDispatchOutcome { stats: (1, 2, 3), queued: false })
    ));
    let (log, phase) = run(
        &input(Some("e"), false),
        vec![
            Event::Started(Ok(())),
            Event::Sent(Reply::Rejected(None)),
            Event::Deleted(None),
            Event::Sent(Reply::Unreachable("gone".to_string())),
            Event::Ran(Err("broken".to_string())),
        ],
    );
    assert_eq!(log, vec!["bash_captured_request_rejected", "connect_failed"]);
    assert!(matches!(phase, Phase::Failed(m) if m == "broken"));
}

#[test]
fn without_a_service_the_checkpoint_is_local() {
    let mut i = input(None, true);
    i.delegate = false;
    assert!(matches!(first_phase(&i), Phase::Local));
    i.delegate = true;
    i.workdir = None;
    assert!(matches!(first_phase(&i), Phase::Local));
    assert_eq!(startup_timeout_secs(true), 10);
    assert_eq!(startup_timeout_secs(false), 5);
}

#[test]
fn dispatch_messages() {
    let f = DelegateFailure {
        phase: "connect_failed".to_string(),
        message: "x".to_string(),
    };
    assert_eq!(
        failure_message(&f),
        "[git-ai] checkpoint delegate connect_failed: x; falling back to local checkpoint"
    );
    assert_eq!(failure_log(&f), "daemon checkpoint delegate connect_failed: x");
    let queued = CheckpointDispatchOutcome {
        stats: (0, 4, 0),
        queued: true,
    };
    let done = CheckpointDispatchOutcome {
        queued: false,
        ..queued
    };
    assert_eq!(repository_message("Checkpoint", "/w", queued), "Checkpoint for /w queued (4 files)");
    let mut tally = WorkspaceTally {
        multi: true,
        processed: 0,
        queued: 0,
        files: 0,
    };
    tally.record(Some(queued));
    assert_eq!(
        workspace_summary(&tally, "1s"),
        "Checkpoint queued in 1s (1 repositories, 4 total files)"
    );
    tally.record(Some(done));
    assert_eq!(
        workspace_summary(&tally, "1s"),
        "Checkpoint dispatched in 1s (1 queued, 1 completed, 8 total files)"
    );
    tally.multi = false;
    assert_eq!(workspace_summary(&tally, "1s"), "Checkpoint queued in 1s");
}

#[test]
fn checkpoints_take_their_course() {
    let files = Some(vec!["a.rs".to_string(), "/x/b.rs".to_string()]);
    let course = |found, allowed, files: &Option<Vec<String>>, inside: &[bool]| {
        checkpoint_course(found, allowed, files, inside, "/w")
    };
    assert!(matches!(
        course(true, false, &files, &[true, true]),
        Course::Stop(why) if why.starts_with("Skipping checkpoint")
    ));
    assert!(matches!(course(true, true, &files, &[true, true]), Course::Here));
    assert!(matches!(course(true, true, &None, &[]), Course::Here));
    assert!(matches!(
        course(true, true, &files, &[true, false]),
        Course::Repositories(all) if all == vec!["/w/a.rs".to_string(), "/x/b.rs".to_string()]
    ));
    assert!(matches!(
        course(false, false, &None, &[]),
        Course::Stop(why) if why.starts_with("Failed to find repository")
    ));
}

#[test]
fn a_checkpoint_ends_well() {
    assert_eq!(CHECKPOINT_EXIT_CODE, 0);
}
