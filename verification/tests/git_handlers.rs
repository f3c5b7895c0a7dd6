//! Around a call of git: aliases, hooks and how the child ended.

use git_ai::commands::git_handlers::{
    AliasStep, ChildEnd, CommandHook, GitFacts, GitPlan, ParsedGitInvocation, Poll, StatsFacts,
    after_observed, alias_key, command_uses_managed_hooks, exit_status_was_interrupted,
    git_child_args, git_child_env, git_plan, has_explicit_hooks_path_override, hook_panic_message,
    large_skipped_message, merge_skipped_message, mirrored_end, note_timeout_ms,
    parse_alias_tokens, poll_note, post_command_hook, pre_command_hook, resolve_alias_invocation,
    resolve_child_git_hooks_path_override, shows_commit_stats, still_processing_message,
    windows_exit_was_interrupted,
};

#[test]
fn parse_alias_tokens_empty_string() {
    assert_eq!(parse_alias_tokens(""), Some(vec![]));
}

#[test]
fn parse_alias_tokens_whitespace_only() {
    assert_eq!(parse_alias_tokens("  \t  "), Some(vec![]));
}

#[test]
fn parse_alias_tokens_shell_alias() {
    assert_eq!(parse_alias_tokens("!echo hello"), None);
}

#[test]
fn parse_alias_tokens_shell_alias_with_leading_whitespace() {
    assert_eq!(parse_alias_tokens("  !echo hello"), None);
}

#[test]
fn parse_alias_tokens_simple_tokens() {
    assert_eq!(
        parse_alias_tokens("commit -v"),
        Some(vec!["commit".to_string(), "-v".to_string()])
    );
}

#[test]
fn parse_alias_tokens_double_quotes() {
    assert_eq!(
        parse_alias_tokens(r#"log "--format=%H %s""#),
        Some(vec!["log".to_string(), "--format=%H %s".to_string()])
    );
}

#[test]
fn parse_alias_tokens_single_quotes() {
    assert_eq!(
        parse_alias_tokens("log '--format=%H %s'"),
        Some(vec!["log".to_string(), "--format=%H %s".to_string()])
    );
}

#[test]
fn parse_alias_tokens_mixed_adjacent_quotes() {
    assert_eq!(
        parse_alias_tokens("--pretty='format:%h %s'"),
        Some(vec!["--pretty=format:%h %s".to_string()])
    );
}

#[test]
fn parse_alias_tokens_unclosed_single_quote() {
    assert_eq!(parse_alias_tokens("log 'unclosed"), None);
}

#[test]
fn parse_alias_tokens_unclosed_double_quote() {
    assert_eq!(parse_alias_tokens("log \"unclosed"), None);
}

#[test]
fn parse_alias_tokens_escaped_char_outside_quotes() {
    assert_eq!(
        parse_alias_tokens(r"log \-\-oneline"),
        Some(vec!["log".to_string(), "--oneline".to_string()])
    );
}

#[test]
fn parse_alias_tokens_escaped_char_in_double_quotes() {
    assert_eq!(
        parse_alias_tokens(r#"log "--format=\"%H\"""#),
        Some(vec!["log".to_string(), "--format=\"%H\"".to_string()])
    );
}

#[test]
fn parse_alias_tokens_trailing_backslash() {
    assert_eq!(
        parse_alias_tokens("commit\\"),
        Some(vec!["commit\\".to_string()])
    );
}

#[test]
fn parse_alias_tokens_multiple_whitespace_between_tokens() {
    assert_eq!(
        parse_alias_tokens("log   --oneline   -5"),
        Some(vec![
            "log".to_string(),
            "--oneline".to_string(),
            "-5".to_string()
        ])
    );
}

#[test]
fn resolve_child_hooks_path_override_no_state_file_returns_none() {
    let command = Some("commit".to_string());
    assert_eq!(
        resolve_child_git_hooks_path_override(&command, false, &None, false),
        None
    );
}

#[test]
fn exit_status_was_interrupted_on_sigint() {
    assert!(exit_status_was_interrupted(Some(2)));
}

#[test]
fn exit_status_was_interrupted_false_on_success() {
    assert!(!exit_status_was_interrupted(None));
}

#[test]
fn exit_status_was_interrupted_on_windows_ctrl_c_code() {
    assert!(windows_exit_was_interrupted(Some(0xC000013Au32 as i32)));
}

#[test]
fn exit_status_was_interrupted_false_on_success_windows() {
    assert!(!windows_exit_was_interrupted(Some(0)));
}

fn strings(args: &[&str]) -> Vec<String> {
    args.iter().map(|arg| (*arg).to_string()).collect()
}

fn some(text: &str) -> Option<String> {
    Some(text.to_string())
}

#[test]
fn aliases_are_followed_once() {
    let call = ParsedGitInvocation {
        global_args: strings(&["-C", "/w"]),
        command: some("co"),
        command_args: strings(&["main"]),
        is_help: false,
    };
    let mut seen = vec![];
    match resolve_alias_invocation(&call, &mut seen, &some("checkout -q")) {
        AliasStep::Expand(args) => {
            assert_eq!(args, strings(&["-C", "/w", "checkout", "-q", "main"]));
        }
        _ => panic!("expected an expansion"),
    }
    assert!(matches!(
        resolve_alias_invocation(&call, &mut seen, &some("checkout")),
        AliasStep::Stop
    ));
    assert!(matches!(
        resolve_alias_invocation(&call, &mut vec![], &some("!sh")),
        AliasStep::Stop
    ));
    assert!(matches!(
        resolve_alias_invocation(&call, &mut vec![], &None),
        AliasStep::Done
    ));
    assert_eq!(alias_key("co"), "alias.co");
}

fn facts(command: &str) -> GitFacts {
    GitFacts {
        completion: false,
        async_mode: false,
        read_only: false,
        command: some(command),
        is_help: false,
        has_repo: true,
        allowed: true,
    }
}

#[test]
fn calls_are_planned() {
    assert_eq!(git_plan(&facts("commit")), GitPlan::WithHooks);
    assert_eq!(git_plan(&facts("clone")), GitPlan::CloneWithHook);
    let mut f = facts("commit");
    f.allowed = false;
    assert_eq!(git_plan(&f), GitPlan::WithoutHooks);
    f.async_mode = true;
    assert_eq!(git_plan(&f), GitPlan::Observed { push: false });
    f.read_only = true;
    assert_eq!(git_plan(&f), GitPlan::Passthrough);
    let mut f = facts("push");
    f.async_mode = true;
    assert_eq!(git_plan(&f), GitPlan::Observed { push: true });
    f.completion = true;
    assert_eq!(git_plan(&f), GitPlan::Passthrough);
    assert_eq!(after_observed(true, &some("commit"), true, false), (true, false));
    assert_eq!(after_observed(true, &some("push"), true, true), (false, true));
    assert_eq!(after_observed(false, &some("commit"), true, true), (false, false));
}

#[test]
fn hooks_stand_before_and_after_commands() {
    assert_eq!(pre_command_hook(&some("commit"), false), CommandHook::Commit);
    assert_eq!(pre_command_hook(&some("merge"), false), CommandHook::Nothing);
    assert_eq!(post_command_hook(&some("merge"), false), CommandHook::Merge);
    assert_eq!(pre_command_hook(&some("stash"), false), CommandHook::Nothing);
    assert_eq!(pre_command_hook(&some("stash"), true), CommandHook::Stash);
    assert_eq!(hook_panic_message("f", &None), "Panic in f: unknown panic");
    assert_eq!(hook_panic_message("f", &some("x")), "Panic in f: x");
    assert!(command_uses_managed_hooks(&some("fetch")));
    assert!(!command_uses_managed_hooks(&some("log")));
}

#[test]
fn the_child_gets_its_hooks_and_variables() {
    let override_path =
        resolve_child_git_hooks_path_override(&some("commit"), true, &None, false);
    assert_eq!(override_path.as_deref(), Some("/dev/null"));
    assert_eq!(
        resolve_child_git_hooks_path_override(&some("commit"), true, &some("/hooks"), true).as_deref(),
        Some("/hooks")
    );
    assert_eq!(
        git_child_args(&strings(&["commit"]), &override_path),
        strings(&["-c", "core.hooksPath=/dev/null", "commit"])
    );
    let own = strings(&["-c", "core.hooksPath=/x", "commit"]);
    assert!(has_explicit_hooks_path_override(&own));
    assert_eq!(git_child_args(&own, &override_path), own);
    let env = git_child_env("SKIP", true, &None);
    assert_eq!(env.len(), 3);
    assert_eq!((env[2].name.as_str(), env[2].value.as_deref()), ("GIT_TRACE2_EVENT", Some("0")));
    let env = git_child_env("SKIP", true, &some("id"));
    assert_eq!(env[2].name, "GIT_AI_WRAPPER_INVOCATION_ID");
    assert_eq!(env.len(), 4);
    assert_eq!(mirrored_end(Some(9), None), ChildEnd::Signal(9));
    assert_eq!(mirrored_end(None, Some(3)), ChildEnd::Code(3));
    assert_eq!(mirrored_end(None, None), ChildEnd::Code(1));
}

#[test]
fn stats_wait_for_the_note() {
    assert_eq!(note_timeout_ms(&some("7"), false), 7);
    assert_eq!(note_timeout_ms(&some("x"), true), 20_000);
    assert_eq!(note_timeout_ms(&None, false), 500);
    assert_eq!(poll_note(true, 9, 1), Poll::Found);
    assert_eq!(poll_note(false, 1, 1), Poll::GiveUp);
    assert_eq!(poll_note(false, 0, 1), Poll::Wait(25));
    assert!(shows_commit_stats(&StatsFacts {
        dry_run: false,
        suppressed: false,
        quiet: false,
        interactive: true
    }));
    assert_eq!(
        still_processing_message("0123456789"),
        "[git-ai] still processing commit 01234567... run `git ai stats` to see stats."
    );
    assert_eq!(
        merge_skipped_message("c"),
        "[git-ai] Skipped git-ai stats for merge commit c."
    );
    assert_eq!(
        large_skipped_message("c"),
        "[git-ai] Skipped git-ai stats for large commit. Run `git ai stats c` to compute stats on demand."
    );
}
