//! Around `git push`.

use git_ai::commands::git_handlers::ParsedGitInvocation;
use git_ai::commands::hooks::push_hooks::{
    capture_heads, extract_remote_from_push_args, is_push_option_with_inline_value,
    option_consumes_separate_value, reports_push, resolve_push_remote_from_parts,
    run_pre_push_hook_managed, should_skip_authorship_push,
};

fn strings(args: &[&str]) -> Vec<String> {
    args.iter().map(|arg| (*arg).to_string()).collect()
}

#[test]
fn skip_authorship_push_when_dry_run() {
    assert!(should_skip_authorship_push(&strings(&["--dry-run"])));
}

#[test]
fn skip_authorship_push_when_delete() {
    assert!(should_skip_authorship_push(&strings(&["--delete"])));
    assert!(should_skip_authorship_push(&strings(&["-d"])));
}

#[test]
fn skip_authorship_push_when_mirror() {
    assert!(should_skip_authorship_push(&strings(&["--mirror"])));
}

#[test]
fn resolve_push_remote_prefers_positional_remote() {
    let args = strings(&["origin", "main"]);
    let remote = resolve_push_remote_from_parts(
        &args,
        &strings(&["origin", "upstream"]),
        Some("upstream".to_string()),
        Some("origin".to_string()),
    );
    assert_eq!(remote.as_deref(), Some("origin"));
}

#[test]
fn resolve_push_remote_prefers_repo_flag() {
    let args = strings(&["--repo", "upstream", "HEAD"]);
    let remote = resolve_push_remote_from_parts(
        &args,
        &strings(&["origin", "upstream"]),
        Some("origin".to_string()),
        None,
    );
    assert_eq!(remote.as_deref(), Some("upstream"));
}

#[test]
fn resolve_push_remote_falls_back_to_upstream_then_default() {
    let args = Vec::<String>::new();
    let with_upstream = resolve_push_remote_from_parts(
        &args,
        &strings(&["origin"]),
        Some("upstream".to_string()),
        Some("origin".to_string()),
    );
    assert_eq!(with_upstream.as_deref(), Some("upstream"));

    let with_default = resolve_push_remote_from_parts(
        &args,
        &strings(&["origin"]),
        None,
        Some("origin".to_string()),
    );
    assert_eq!(with_default.as_deref(), Some("origin"));
}

#[test]
fn separator_and_repo_option_name_the_remote() {
    let known = strings(&["origin"]);
    assert_eq!(
        extract_remote_from_push_args(&strings(&["-f", "--", "fork", "main"]), &known).as_deref(),
        Some("fork")
    );
    assert_eq!(
        extract_remote_from_push_args(&strings(&["--"]), &known),
        None
    );
    assert_eq!(
        extract_remote_from_push_args(&strings(&["--repo=fork", "main"]), &known).as_deref(),
        Some("fork")
    );
    assert_eq!(
        extract_remote_from_push_args(&strings(&["-o", "origin"]), &known).as_deref(),
        Some("origin")
    );
    assert_eq!(
        extract_remote_from_push_args(&strings(&["-o"]), &known),
        None
    );
    assert_eq!(
        extract_remote_from_push_args(&strings(&["-cx=y", "-C/tmp", "fork"]), &known).as_deref(),
        Some("fork")
    );
}

#[test]
fn inline_values_are_cut() {
    assert_eq!(
        is_push_option_with_inline_value("--repo=a=b"),
        Some(("--repo".to_string(), "a=b".to_string()))
    );
    assert_eq!(
        is_push_option_with_inline_value("-C/tmp"),
        Some(("-C".to_string(), "/tmp".to_string()))
    );
    assert_eq!(is_push_option_with_inline_value("-C"), None);
    assert!(option_consumes_separate_value("--receive-pack"));
    assert!(!option_consumes_separate_value("--force"));
}

fn push(args: &[&str]) -> ParsedGitInvocation {
    ParsedGitInvocation {
        global_args: vec![],
        command: Some("push".to_string()),
        command_args: strings(args),
        is_help: false,
    }
}

#[test]
fn authorship_goes_to_the_remote_of_the_push() {
    let known = strings(&["origin"]);
    let default = Some("origin".to_string());
    assert_eq!(
        run_pre_push_hook_managed(&push(&["fork"]), &known, &None, &default).as_deref(),
        Some("fork")
    );
    assert_eq!(
        run_pre_push_hook_managed(&push(&[]), &known, &None, &default).as_deref(),
        Some("origin")
    );
    assert_eq!(
        run_pre_push_hook_managed(&push(&["fork", "--mirror"]), &known, &None, &default),
        None
    );
    assert_eq!(
        run_pre_push_hook_managed(&push(&[]), &[], &None, &None),
        None
    );
}

#[test]
fn heads_are_read_from_the_remote() {
    let heads = capture_heads(
        true,
        b"aaa\trefs/heads/main\r\n bbb \t refs/heads/x/y \nccc\trefs/tags/v1\nnoise\naab\trefs/heads/main\n",
    )
    .unwrap();
    assert_eq!(heads.len(), 2);
    assert_eq!(heads.get("main").map(String::as_str), Some("aab"));
    assert_eq!(heads.get("x/y").map(String::as_str), Some("bbb"));
    assert!(capture_heads(false, b"aaa\trefs/heads/main\n").is_none());
    assert!(reports_push(true, &Some(heads), &Some("origin".to_string())));
    assert!(!reports_push(true, &None, &Some("origin".to_string())));
}
