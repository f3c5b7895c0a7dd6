//! Following refs through their reflogs.

use git_ai::daemon::domain::{CommandScope, Confidence, FamilyKey, FamilyState, NormalizedCommand};
use git_ai::daemon::reducer::reduce_checkpoint;
use git_ai::daemon::ref_args::{
    BranchCommandSpec, branch_ref_name, commit_reflog_messages, commit_subject,
    commit_subject_from_args, parse_branch_command_spec, parse_update_ref_spec, zero_oid,
};
use git_ai::daemon::ref_cursor::{
    CursorEntry, ExpectedTransition, RefCursor, RefLogs, discover_common_refs,
};
use git_ai::daemon::reflog::{parse_reflog_line, read_reflog_records};
use git_ai::file_tree::FileTree;
use git_ai::text_map::TextMap;

const ZERO: &str = "0000000000000000000000000000000000000000";
const A: &str = "aaaaaaaaaaaaaaaaaaaaaaaaaaaaaaaaaaaaaaaa";
const B: &str = "bbbbbbbbbbbbbbbbbbbbbbbbbbbbbbbbbbbbbbbb";
const C: &str = "cccccccccccccccccccccccccccccccccccccccc";

fn strings(args: &[&str]) -> Vec<String> {
    args.iter().map(|arg| (*arg).to_string()).collect()
}

fn line(old: &str, new: &str, message: &str) -> String {
    format!("{} {} T <t@x> 0 +0000\t{}\n", old, new, message)
}

/// The reflogs of a repository at `/w`.
fn logs(files: &[(&str, String)]) -> RefLogs {
    let mut tree = FileTree::new();
    for dir in ["/w", "/w/.git", "/w/.git/logs"] {
        tree.add_dir(dir);
    }
    for (name, text) in files {
        tree.add_file(&format!("/w/.git/logs/{}", name), text.as_bytes().to_vec());
    }
    RefLogs {
        files: tree,
        canonical: TextMap::new(),
        working_logs: vec![],
    }
}

fn state(refs: &[(&str, &str)]) -> FamilyState {
    let mut map = TextMap::new();
    for (name, oid) in refs {
        map.insert((*name).to_string(), (*oid).to_string());
    }
    FamilyState {
        family_key: FamilyKey::new("/w/.git"),
        refs: map,
        worktrees: TextMap::new(),
        last_error: None,
        applied_seq: 0,
    }
}

fn command(primary: &str) -> NormalizedCommand {
    NormalizedCommand {
        scope: CommandScope::Family(FamilyKey::new("/w/.git")),
        family_key: Some(FamilyKey::new("/w/.git")),
        worktree: Some("/w".to_string()),
        root_sid: "sid".to_string(),
        raw_argv: vec![],
        primary_command: Some(primary.to_string()),
        invoked_command: Some(primary.to_string()),
        invoked_args: vec![],
        observed_child_commands: vec![],
        exit_code: 0,
        started_at_ns: 1,
        finished_at_ns: 2,
        stash_target_oid: None,
        ref_changes: vec![],
        confidence: Confidence::Low,
    }
}

/// Tells a command and gives the refs that it moved.
fn told(
    cursor: &mut RefCursor,
    cmd: &mut NormalizedCommand,
    args: &[&str],
    state: &FamilyState,
    logs: &RefLogs,
) -> Vec<(String, String, String)> {
    cursor.enrich_command(cmd, &strings(args), state, logs).unwrap();
    cmd.ref_changes
        .iter()
        .map(|c| (c.reference.clone(), c.old.clone(), c.new.clone()))
        .collect()
}

fn change(reference: &str, old: &str, new: &str) -> (String, String, String) {
    (reference.to_string(), old.to_string(), new.to_string())
}

fn cursor() -> RefCursor {
    RefCursor::new(FamilyKey::new("/w/.git"))
}

#[test]
fn a_commit_is_told_once() {
    let text = line(A, B, "commit: first");
    let logs = logs(&[("HEAD", text.clone()), ("refs/heads/main", text)]);
    let state = state(&[("HEAD", A)]);
    let mut cursor = cursor();
    let mut cmd = command("commit");
    let found = told(&mut cursor, &mut cmd, &["commit", "-m", "first"], &state, &logs);
    assert_eq!(
        found,
        vec![change("HEAD", A, B), change("refs/heads/main", A, B)]
    );
    assert_eq!(cmd.confidence, Confidence::High);
    let mut again = command("commit");
    let found = told(&mut cursor, &mut again, &["commit", "-m", "first"], &state, &logs);
    assert!(found.is_empty());
    assert_eq!(again.confidence, Confidence::Low);
}

#[test]
fn commits_are_told_by_message_and_start() {
    let text = line(A, B, "commit: first") + &line(B, C, "commit: second");
    let logs = logs(&[("HEAD", text)]);
    let mut cmd = command("commit");
    let found = told(
        &mut cursor(),
        &mut cmd,
        &["-msecond"],
        &state(&[("refs/heads/main", B)]),
        &logs,
    );
    assert_eq!(found, vec![change("HEAD", B, C)]);
    let mut cmd = command("commit");
    let found = told(&mut cursor(), &mut cmd, &["-mthird"], &state(&[]), &logs);
    assert!(found.is_empty());
    let mut cmd = command("commit");
    cmd.exit_code = 1;
    let found = told(&mut cursor(), &mut cmd, &[], &state(&[]), &logs);
    assert!(found.is_empty());
    let mut cmd = command("log");
    assert!(told(&mut cursor(), &mut cmd, &[], &state(&[]), &logs).is_empty());
}

#[test]
fn a_pull_is_told_as_a_whole() {
    let text = line(A, B, "pull: x") + &line(B, C, "rebase (finish): y");
    let logs = logs(&[("HEAD", text), ("refs/heads/main", line(A, C, "z"))]);
    let mut cmd = command("pull");
    let found = told(&mut cursor(), &mut cmd, &[], &state(&[("HEAD", A)]), &logs);
    assert_eq!(
        found,
        vec![
            change("HEAD", A, B),
            change("HEAD", B, C),
            change("refs/heads/main", A, C)
        ]
    );
}

#[test]
fn a_stash_is_pushed_and_taken() {
    let mut cursor = cursor();
    let full = logs(&[("refs/stash", line(ZERO, A, "WIP") + &line(A, B, "WIP"))]);
    for oid in [A, B] {
        let mut cmd = command("stash");
        let found = told(&mut cursor, &mut cmd, &["stash", "push"], &state(&[]), &full);
        assert_eq!(found.len(), 1);
        assert_eq!(found[0].2, oid);
    }
    assert_eq!(cursor.stash_stack, strings(&[B, A]));
    let shorter = logs(&[("refs/stash", line(ZERO, A, "WIP"))]);
    let mut cmd = command("stash");
    let found = told(&mut cursor, &mut cmd, &["stash", "pop"], &state(&[("HEAD", C)]), &shorter);
    assert_eq!(found, vec![change("refs/stash", B, A)]);
    assert_eq!(cmd.stash_target_oid.as_deref(), Some(B));
    assert_eq!(cursor.stash_stack, strings(&[A]));
}

#[test]
fn branches_are_made_renamed_and_deleted() {
    let made = logs(&[("refs/heads/x", line(ZERO, A, "branch: Created from main"))]);
    let mut cmd = command("branch");
    let found = told(&mut cursor(), &mut cmd, &["branch", "x"], &state(&[]), &made);
    assert_eq!(found, vec![change("refs/heads/x", ZERO, A)]);
    let renamed = logs(&[(
        "refs/heads/y",
        line(A, A, "Branch: renamed refs/heads/x to refs/heads/y"),
    )]);
    let mut cmd = command("branch");
    let found = told(&mut cursor(), &mut cmd, &["branch", "-m", "y"], &state(&[]), &renamed);
    assert_eq!(
        found,
        vec![change("refs/heads/x", A, ZERO), change("refs/heads/y", ZERO, A)]
    );
    let mut cmd = command("branch");
    let found = told(
        &mut cursor(),
        &mut cmd,
        &["branch", "-D", "x", "gone"],
        &state(&[("refs/heads/x", A)]),
        &logs(&[]),
    );
    assert_eq!(found, vec![change("refs/heads/x", A, ZERO)]);
}

#[test]
fn a_reflog_that_cannot_be_read_is_an_error() {
    let text = line(ZERO, A, "branch: Created from main");
    let mut beside = logs(&[("refs/heads/a/b", text)]);
    beside.files.add_dir("/w/.git/logs/refs/heads/a");
    let mut cmd = command("branch");
    let mut at = cursor();
    let error = at
        .enrich_command(&mut cmd, &strings(&["branch", "a"]), &state(&[]), &beside)
        .err()
        .unwrap();
    assert_eq!(error.message(), "Is a directory (os error 21)");
    assert!(cmd.ref_changes.is_empty());
    assert!(matches!(cmd.confidence, Confidence::Low));
    assert!(at.failure.is_none());
    let mut cmd = command("branch");
    let found = told(&mut at, &mut cmd, &["branch", "a/b"], &state(&[]), &beside);
    assert_eq!(found, vec![change("refs/heads/a/b", ZERO, A)]);
}

#[test]
fn what_was_told_before_an_error_stays_told() {
    let moved = line(A, B, "commit: x");
    let mut logs = logs(&[("HEAD", moved.clone()), ("refs/heads/a", moved.clone())]);
    logs.files
        .add_cause("/w/.git/logs/refs/heads/b", "Permission denied (os error 13)".to_string());
    let mut at = cursor();
    let mut cmd = command("commit");
    let error = at
        .enrich_command(&mut cmd, &strings(&["commit"]), &state(&[("HEAD", A)]), &logs)
        .err()
        .unwrap();
    assert_eq!(error.message(), "Permission denied (os error 13)");
    assert!(cmd.ref_changes.is_empty());
    let end = moved.len() as u64;
    assert_eq!(at.offsets.get("common:refs/heads/a"), Some(&end));
    assert_eq!(at.offsets.get("worktree:/w/.git:HEAD"), Some(&end));
    assert_eq!(at.offsets.get("common:refs/heads/b"), None);
}

#[test]
fn a_directory_of_reflogs_that_cannot_be_listed_is_an_error() {
    let mut logs = logs(&[("HEAD", line(A, B, "commit: x"))]);
    logs.files.add_dir("/w/.git/logs/refs");
    logs.files.add_cause("/w/.git/logs/refs", "Permission denied (os error 13)".to_string());
    let mut cmd = command("commit");
    let error = cursor()
        .enrich_command(&mut cmd, &strings(&["commit"]), &state(&[("HEAD", A)]), &logs)
        .err()
        .unwrap();
    assert_eq!(error.message(), "Permission denied (os error 13)");
}

#[test]
fn a_stash_is_looked_up_on_the_stack_before_its_reflog() {
    let mut logs = logs(&[]);
    logs.files.add_dir("/w/.git/logs/refs/stash");
    logs.files.add_size("/w/.git/logs/refs/stash", 64);
    let mut at = cursor();
    let mut cmd = command("stash");
    let error = at
        .enrich_command(&mut cmd, &strings(&["stash", "apply"]), &state(&[("HEAD", A)]), &logs)
        .err()
        .unwrap();
    assert_eq!(error.message(), "Is a directory (os error 21)");
    assert_eq!(cmd.stash_target_oid, None);

    at.stash_stack = strings(&[B]);
    at.offsets.insert("common:refs/stash".to_string(), 100);
    let mut cmd = command("stash");
    let found = told(&mut at, &mut cmd, &["stash", "drop"], &state(&[("HEAD", A)]), &logs);
    assert_eq!(found, vec![change("refs/stash", B, ZERO)]);
    assert_eq!(cmd.stash_target_oid.as_deref(), Some(B));
    assert_eq!(at.offsets.get("common:refs/stash"), Some(&64));
}

#[test]
fn update_ref_is_told_or_refused() {
    let text = line(A, B, "");
    let logs = logs(&[("HEAD", text.clone()), ("refs/heads/main", text)]);
    let mut cmd = command("update-ref");
    let args = ["update-ref", "refs/heads/main", B];
    let found = told(&mut cursor(), &mut cmd, &args, &state(&[]), &logs);
    assert_eq!(
        found,
        vec![change("refs/heads/main", A, B), change("HEAD", A, B)]
    );
    let mut cmd = command("update-ref");
    let refused = cursor().enrich_command(&mut cmd, &strings(&["--stdin"]), &state(&[]), &logs);
    assert_eq!(
        refused.err().unwrap().message(),
        "trace2 cursor does not support update-ref stdin/batch updates"
    );
    assert!(cmd.ref_changes.is_empty());
}

#[test]
fn arguments_of_update_ref_are_read() {
    let spec = parse_update_ref_spec(&strings(&["-d", "refs/x", A])).ok().unwrap();
    assert_eq!((spec.reference.as_str(), spec.new_oid.as_str()), ("refs/x", ZERO));
    assert_eq!(spec.old_oid.as_deref(), Some(A));
    let spec = parse_update_ref_spec(&strings(&["-m", "why", "--no-deref", "refs/x", B, A])).ok();
    assert_eq!(spec.unwrap().old_oid.as_deref(), Some(A));
    for (args, said) in [
        (vec!["-m"], "update-ref -m requires a message argument"),
        (
            vec!["--odd"],
            "trace2 cursor does not support update-ref option '--odd'",
        ),
        (vec!["-d"], "update-ref delete requires <ref> [<old-oid>]"),
        (
            vec!["refs/x"],
            "update-ref requires <ref> <new-oid> [<old-oid>]",
        ),
    ] {
        assert_eq!(
            parse_update_ref_spec(&strings(&args)).err().unwrap().message(),
            said
        );
    }
    assert_eq!(zero_oid(), ZERO);
}

#[test]
fn arguments_of_branch_are_read() {
    assert!(matches!(
        parse_branch_command_spec(&strings(&["branch", "x", "main"])),
        BranchCommandSpec::CreateOrReset { reference } if reference == "refs/heads/x"
    ));
    assert!(matches!(
        parse_branch_command_spec(&strings(&["-dr", "origin/x"])),
        BranchCommandSpec::Delete { references } if references == strings(&["refs/remotes/origin/x"])
    ));
    assert!(matches!(
        parse_branch_command_spec(&strings(&["-M", "x", "y"])),
        BranchCommandSpec::Rename { old_reference, new_reference }
            if old_reference.as_deref() == Some("refs/heads/x") && new_reference == "refs/heads/y"
    ));
    assert!(matches!(
        parse_branch_command_spec(&strings(&["--copy", "y"])),
        BranchCommandSpec::Copy { old_reference: None, new_reference } if new_reference == "refs/heads/y"
    ));
    assert!(matches!(
        parse_branch_command_spec(&strings(&["branch", "-a"])),
        BranchCommandSpec::Nothing
    ));
    assert_eq!(branch_ref_name(" x ", false).as_deref(), Some("refs/heads/x"));
    assert_eq!(
        branch_ref_name("refs/remotes/o/x", false).as_deref(),
        Some("refs/remotes/o/x")
    );
    assert_eq!(branch_ref_name("refs/tags/x", false), None);
    assert_eq!(branch_ref_name("-x", false), None);
}

#[test]
fn subjects_are_read() {
    assert_eq!(commit_subject("\n  \n one \ntwo").as_deref(), Some(" one "));
    assert_eq!(commit_subject(" \n"), None);
    let args = strings(&["commit", "-a", "--message=one\ntwo"]);
    assert_eq!(commit_subject_from_args(&args).as_deref(), Some("one"));
    assert_eq!(commit_subject_from_args(&strings(&["--", "-m", "x"])), None);
    assert_eq!(
        commit_reflog_messages(&args, true),
        strings(&["commit (amend): one", "commit: one"])
    );
    assert_eq!(commit_reflog_messages(&args, false).len(), 5);
    assert!(commit_reflog_messages(&[], false).is_empty());
}

#[test]
fn reflogs_are_read_from_an_offset() {
    let first = line(A, B, "x");
    let text = first.clone() + "nonsense\n" + &line(B, C, "y");
    let all = read_reflog_records(text.as_bytes(), None);
    assert_eq!(all.len(), 2);
    assert_eq!((all[0].end_offset, all[1].end_offset), (first.len() as u64, text.len() as u64));
    assert_eq!(all[1].message, "y");
    let rest = read_reflog_records(text.as_bytes(), Some(first.len() as u64));
    assert_eq!(rest.len(), 1);
    assert_eq!(rest[0].old, B);
    assert_eq!(read_reflog_records(text.as_bytes(), Some(10_000)).len(), 2);
    let bad = b"\xff\n";
    assert!(read_reflog_records(bad, None).is_empty());
    assert!(parse_reflog_line("a b", 1).is_none());
    assert_eq!(parse_reflog_line(&format!("{} {}", A, B), 7).unwrap().message, "");
}

#[test]
fn reading_goes_on_behind_what_was_read() {
    let before = format!("{}{}", line(ZERO, A, "commit (initial): x"), line(A, B, "commit: y"));
    let after = format!("{}{}", before, line(B, C, "commit: z\tw"));
    let all = read_reflog_records(after.as_bytes(), None);
    assert_eq!(all.len(), 3);
    for (k, record) in all.iter().enumerate() {
        let rest = read_reflog_records(after.as_bytes(), Some(record.end_offset));
        assert_eq!(rest.len(), all.len() - k - 1);
    }
    let added = read_reflog_records(after.as_bytes(), Some(before.len() as u64));
    assert_eq!(added.len(), 1);
    assert_eq!(added[0].old, B);
    assert_eq!(added[0].new, C);
    assert_eq!(added[0].message, "commit: z\tw");
}

#[test]
fn logged_refs_are_sorted() {
    let logs = logs(&[
        ("refs/heads/b", String::new()),
        ("HEAD", String::new()),
        ("refs/heads/a", String::new()),
        ("other", String::new()),
    ]);
    assert_eq!(
        discover_common_refs(&logs.files, "/w/.git"),
        strings(&["HEAD", "refs/heads/a", "refs/heads/b"])
    );
}

#[test]
fn expected_records_match() {
    let entry = CursorEntry {
        key: "k".to_string(),
        reference: "HEAD".to_string(),
        old: A.to_string(),
        new: B.to_string(),
        message: "m".to_string(),
        end_offset: 1,
    };
    assert!(ExpectedTransition::any().matches(&entry));
    assert!(ExpectedTransition::between(Some(A), Some(B)).matches(&entry));
    assert!(!ExpectedTransition::between(Some(B), None).matches(&entry));
    assert!(!ExpectedTransition::between(None, Some(A)).matches(&entry));
    assert!(!ExpectedTransition::any().with_reflog_messages(strings(&["n"])).matches(&entry));
    let from = |worktree: bool, names: &[&str]| {
        ExpectedTransition::from_state_and_working_logs(
            worktree,
            &state(&[("HEAD", ZERO), ("refs/tags/t", A)]),
            &strings(names),
        )
    };
    assert!(from(true, &["initial", A]).matches(&entry));
    assert!(!from(true, &["initial"]).matches(&entry));
    // With no object to start from, any will do.
    assert!(from(false, &["initial"]).matches(&entry));
}

#[test]
fn checkpoints_are_counted() {
    let mut s = state(&[("HEAD", A)]);
    reduce_checkpoint(&mut s);
    assert_eq!(s.applied_seq, 1);
    s.applied_seq = u64::MAX;
    reduce_checkpoint(&mut s);
    assert_eq!(s.refs.get("HEAD").map(String::as_str), Some(A));
}
