//! What commands do to the state of a family of worktrees.

use git_ai::daemon::domain::{
    CommandScope, Confidence, FamilyKey, FamilyState, GlobalState, NormalizedCommand, RefChange,
};
use git_ai::daemon::reducer::{reduce_family_command, reduce_global_command};
use git_ai::text_map::TextMap;

#[derive(Clone)]
enum CommandClass {
    HistoryRewrite,
    Other,
}

fn family_state() -> FamilyState {
    FamilyState {
        family_key: FamilyKey::new("family:/tmp/repo"),
        refs: TextMap::new(),
        worktrees: TextMap::new(),
        last_error: None,
        applied_seq: 0,
    }
}

fn normalized() -> NormalizedCommand {
    NormalizedCommand {
        scope: CommandScope::Family(FamilyKey::new("family:/tmp/repo")),
        family_key: Some(FamilyKey::new("family:/tmp/repo")),
        worktree: Some("/tmp/repo".to_string()),
        root_sid: "sid".to_string(),
        raw_argv: vec!["git".to_string(), "update-ref".to_string()],
        primary_command: Some("update-ref".to_string()),
        invoked_command: Some("update-ref".to_string()),
        invoked_args: Vec::new(),
        observed_child_commands: Vec::new(),
        exit_code: 0,
        started_at_ns: 1,
        finished_at_ns: 2,
        stash_target_oid: None,
        ref_changes: vec![RefChange {
            reference: "refs/heads/main".to_string(),
            old: "".to_string(),
            new: "abc".to_string(),
        }],
        confidence: Confidence::Low,
    }
}

#[test]
fn reducer_applies_ref_changes_and_produces_applied_command() {
    let mut state = family_state();
    let (applied, analysis) =
        reduce_family_command(&mut state, normalized(), Ok(CommandClass::HistoryRewrite), None).unwrap();
    assert_eq!(applied.seq, 1);
    assert!(matches!(
        analysis,
        CommandClass::HistoryRewrite
    ));
    assert_eq!(
        state.refs.get("refs/heads/main").map(String::as_str),
        Some("abc")
    );
}

#[test]
fn reducer_does_not_update_refs_without_ref_transition_for_head_moving_commands() {
    let mut state = family_state();
    let mut cmd = normalized();
    cmd.ref_changes.clear();
    cmd.raw_argv = vec!["git".to_string(), "commit".to_string()];
    cmd.primary_command = Some("commit".to_string());
    cmd.invoked_command = Some("commit".to_string());

    let (_applied, _analysis) = reduce_family_command(&mut state, cmd, Ok(CommandClass::Other), None).unwrap();

    assert_eq!(state.refs.get("refs/heads/main").map(String::as_str), None);
}

#[test]
fn reducer_preserves_refs_for_stash_without_ref_transition() {
    let mut state = family_state();
    state
        .refs
        .insert("refs/heads/main".to_string(), "abc".to_string());
    let mut cmd = normalized();
    cmd.ref_changes.clear();
    cmd.raw_argv = vec!["git".to_string(), "stash".to_string(), "push".to_string()];
    cmd.primary_command = Some("stash".to_string());
    cmd.invoked_command = Some("stash".to_string());
    cmd.invoked_args = vec!["push".to_string()];

    let (_applied, _analysis) = reduce_family_command(&mut state, cmd, Ok(CommandClass::Other), None).unwrap();

    assert_eq!(
        state.refs.get("refs/heads/main").map(String::as_str),
        Some("abc")
    );
}

#[test]
fn reducer_removes_refs_deleted_with_zero_oid() {
    let mut state = family_state();
    state.refs.insert(
        "refs/heads/feature".to_string(),
        "aaaaaaaaaaaaaaaaaaaaaaaaaaaaaaaaaaaaaaaa".to_string(),
    );
    let mut cmd = normalized();
    cmd.ref_changes = vec![RefChange {
        reference: "refs/heads/feature".to_string(),
        old: "aaaaaaaaaaaaaaaaaaaaaaaaaaaaaaaaaaaaaaaa".to_string(),
        new: "0000000000000000000000000000000000000000".to_string(),
    }];

    let (_applied, _analysis) = reduce_family_command(&mut state, cmd, Ok(CommandClass::Other), None).unwrap();

    assert!(!state.refs.contains_key("refs/heads/feature"));
}

#[test]
fn global_reducer_never_drops_commands() {
    let mut state = GlobalState { applied_seq: 0 };
    let (applied, _analysis) =
        reduce_global_command(&mut state, normalized(), Ok(CommandClass::Other)).unwrap();
    assert_eq!(applied.seq, 1);
    assert_eq!(state.applied_seq, 1);
}

#[test]
fn a_worktree_without_a_canonical_path_is_kept_as_it_is_named() {
    let mut state = family_state();
    let _ = reduce_family_command(&mut state, normalized(), Ok(CommandClass::Other), None).unwrap();
    assert!(state.worktrees.get("/tmp/repo").is_some());

    let mut state = family_state();
    let canonical = Some("/private/tmp/repo".to_string());
    let _ = reduce_family_command(&mut state, normalized(), Ok(CommandClass::Other), canonical)
        .unwrap();
    assert!(state.worktrees.get("/private/tmp/repo").is_some());
    assert!(state.worktrees.get("/tmp/repo").is_none());
}
