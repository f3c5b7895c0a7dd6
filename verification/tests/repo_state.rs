//! The state of a repository, read from a snapshot of its files.

use git_ai::error::GitAiError;
use git_ai::file_tree::FileTree;
use git_ai::git::repo_state::{
    HeadKind, RepoSnapshot, common_dir_for_git_dir, common_dir_for_repo_path,
    common_dir_for_worktree, complete_rebase_segments, git_dir_for_worktree, is_valid_git_oid,
    is_valid_non_zero_oid, latest_reflog_old_oid_for_worktree, parse_head_reflog_transitions,
    parse_reflog_entries, read_head_reflog_transitions_for_worktree, read_head_state_for_worktree,
    read_ref_oid_for_common_dir, read_ref_oid_for_worktree, rebase_like_finish_target,
    rebase_like_start, rebase_start_targets_match, resolve_linear_head_commit_chain_for_worktree,
    resolve_rebase_segment_for_worktree, resolve_reflog_old_oid_for_ref_new_oid_in_worktree,
    resolve_squash_source_head_for_worktree, resolve_squash_source_head_from_git_dir,
    resolve_stash_target_oid_for_worktree, resolve_worktree_head_reflog_old_oid_for_new_head,
    stash_index, try_resolve_linear_head_chain, worktree_root_for_path,
};
use git_ai::text_map::TextMap;

const WORKTREE: &str = "/work/repo";

fn empty_repo() -> RepoSnapshot {
    let mut repo = RepoSnapshot {
        files: FileTree::new(),
        refs: TextMap::new(),
        head: None,
    };
    add_dirs(&mut repo, WORKTREE);
    repo
}

/// Adds a directory and those above it.
fn add_dirs(repo: &mut RepoSnapshot, path: &str) {
    for (i, c) in path.char_indices() {
        if c == '/' && i > 0 {
            repo.files.add_dir(&path[..i]);
        }
    }
    repo.files.add_dir(path);
}

/// Writes a file of the repository, and what git makes of it if it is a ref.
fn write_file(repo: &mut RepoSnapshot, name: &str, contents: &str) {
    let path = format!("{}/{}", WORKTREE, name);
    let parent = &path[..path.rfind('/').unwrap()];
    add_dirs(repo, parent);
    repo.files.add_file(&path, contents.as_bytes().to_vec());
    if let Some(target) = contents.strip_prefix("ref: ") {
        repo.head = Some(HeadKind::Symbolic(target.trim().to_string()));
    } else if name.starts_with(".git/refs/") {
        let refname = &name[".git/".len()..];
        repo.refs
            .insert(refname.to_string(), contents.trim().to_string());
    }
}

#[test]
fn resolve_stash_target_oid_defaults_to_top_entry() {
    let mut repo = empty_repo();
    let worktree = WORKTREE;
    write_file(&mut repo, ".git/HEAD", "ref: refs/heads/main\n");
    write_file(
        &mut repo,
        ".git/refs/stash",
        "bbbbbbbbbbbbbbbbbbbbbbbbbbbbbbbbbbbbbbbb\n",
    );
    write_file(
        &mut repo,
        ".git/logs/refs/stash",
        "0000000000000000000000000000000000000000 aaaaaaaaaaaaaaaaaaaaaaaaaaaaaaaaaaaaaaaa Test <t@example.com> 0 -0000\tstash: first\n\
         aaaaaaaaaaaaaaaaaaaaaaaaaaaaaaaaaaaaaaaa bbbbbbbbbbbbbbbbbbbbbbbbbbbbbbbbbbbbbbbb Test <t@example.com> 0 -0000\tstash: second\n",
    );

    let resolved = resolve_stash_target_oid_for_worktree(&repo, worktree, None).unwrap();
    assert_eq!(resolved, "bbbbbbbbbbbbbbbbbbbbbbbbbbbbbbbbbbbbbbbb");
}

#[test]
fn resolve_stash_target_oid_defaults_to_refs_stash_without_reflog() {
    let mut repo = empty_repo();
    let worktree = WORKTREE;
    write_file(&mut repo, ".git/HEAD", "ref: refs/heads/main\n");
    write_file(
        &mut repo,
        ".git/refs/stash",
        "cccccccccccccccccccccccccccccccccccccccc\n",
    );

    let resolved = resolve_stash_target_oid_for_worktree(&repo, worktree, None).unwrap();
    assert_eq!(resolved, "cccccccccccccccccccccccccccccccccccccccc");
}

#[test]
fn resolve_stash_target_oid_reads_older_stack_entries() {
    let mut repo = empty_repo();
    let worktree = WORKTREE;
    write_file(&mut repo, ".git/HEAD", "ref: refs/heads/main\n");
    write_file(
        &mut repo,
        ".git/refs/stash",
        "cccccccccccccccccccccccccccccccccccccccc\n",
    );
    write_file(
        &mut repo,
        ".git/logs/refs/stash",
        "0000000000000000000000000000000000000000 aaaaaaaaaaaaaaaaaaaaaaaaaaaaaaaaaaaaaaaa Test <t@example.com> 0 -0000\tstash: first\n\
         aaaaaaaaaaaaaaaaaaaaaaaaaaaaaaaaaaaaaaaa bbbbbbbbbbbbbbbbbbbbbbbbbbbbbbbbbbbbbbbb Test <t@example.com> 0 -0000\tstash: second\n\
         bbbbbbbbbbbbbbbbbbbbbbbbbbbbbbbbbbbbbbbb cccccccccccccccccccccccccccccccccccccccc Test <t@example.com> 0 -0000\tstash: third\n",
    );

    let resolved = resolve_stash_target_oid_for_worktree(&repo, worktree, Some("stash@{1}")).unwrap();
    assert_eq!(resolved, "bbbbbbbbbbbbbbbbbbbbbbbbbbbbbbbbbbbbbbbb");
}

#[test]
fn resolve_stash_target_oid_accepts_literal_oid() {
    let repo = empty_repo();
    let resolved = resolve_stash_target_oid_for_worktree(
        &repo,
        WORKTREE,
        Some("dddddddddddddddddddddddddddddddddddddddd"),
    )
    .unwrap();
    assert_eq!(resolved, "dddddddddddddddddddddddddddddddddddddddd");
}

#[test]
fn latest_reflog_old_oid_reads_previous_top_entry() {
    let mut repo = empty_repo();
    let worktree = WORKTREE;
    write_file(&mut repo, ".git/HEAD", "ref: refs/heads/main\n");
    write_file(
        &mut repo,
        ".git/logs/refs/stash",
        "0000000000000000000000000000000000000000 aaaaaaaaaaaaaaaaaaaaaaaaaaaaaaaaaaaaaaaa Test <t@example.com> 0 -0000\tstash: first\n\
         aaaaaaaaaaaaaaaaaaaaaaaaaaaaaaaaaaaaaaaa bbbbbbbbbbbbbbbbbbbbbbbbbbbbbbbbbbbbbbbb Test <t@example.com> 0 -0000\tstash: second\n",
    );

    let resolved = latest_reflog_old_oid_for_worktree(&repo.files, worktree, "refs/stash").unwrap();
    assert_eq!(resolved, "aaaaaaaaaaaaaaaaaaaaaaaaaaaaaaaaaaaaaaaa");
}

#[test]
fn resolve_reflog_old_oid_for_ref_new_oid_reads_matching_branch_entry() {
    let mut repo = empty_repo();
    let worktree = WORKTREE;
    let old = "aaaaaaaaaaaaaaaaaaaaaaaaaaaaaaaaaaaaaaaa";
    let new = "bbbbbbbbbbbbbbbbbbbbbbbbbbbbbbbbbbbbbbbb";
    write_file(&mut repo, ".git/HEAD", "ref: refs/heads/main\n");
    write_file(
        &mut repo,
        ".git/logs/refs/heads/feature",
        &format!(
            "0000000000000000000000000000000000000000 {old} Test <t@example.com> 0 -0000\tbranch: Created from main\n\
         {old} {new} Test <t@example.com> 0 -0000\trebase (finish): refs/heads/feature onto main\n",
            old = old,
            new = new
        ),
    );

    let resolved =
        resolve_reflog_old_oid_for_ref_new_oid_in_worktree(&repo.files, worktree, "refs/heads/feature", new)
            .unwrap();
    assert_eq!(resolved, old);
}

#[test]
fn worktree_root_for_path_walks_parent_directories() {
    let mut repo = empty_repo();
    let worktree = WORKTREE;
    let nested = "/work/repo/src/lib";
    add_dirs(&mut repo, nested);
    write_file(&mut repo, ".git/HEAD", "ref: refs/heads/main\n");

    let resolved = worktree_root_for_path(&repo.files, nested).unwrap();
    assert_eq!(resolved, worktree);
}

#[test]
fn read_head_state_for_nested_path_uses_worktree_root() {
    let mut repo = empty_repo();
    let worktree = WORKTREE;
    let nested = "/work/repo/src/lib";
    add_dirs(&mut repo, nested);
    write_file(&mut repo, ".git/HEAD", "ref: refs/heads/main\n");
    write_file(
        &mut repo,
        ".git/refs/heads/main",
        "aaaaaaaaaaaaaaaaaaaaaaaaaaaaaaaaaaaaaaaa\n",
    );

    let state = read_head_state_for_worktree(&repo, nested).unwrap();
    assert_eq!(
        state.head.as_deref(),
        Some("aaaaaaaaaaaaaaaaaaaaaaaaaaaaaaaaaaaaaaaa")
    );
    assert_eq!(state.branch.as_deref(), Some("main"));
    assert!(!state.detached);
}

#[test]
fn resolve_linear_head_commit_chain_for_worktree_recovers_multi_step_chain() {
    let mut repo = empty_repo();
    let worktree = WORKTREE;
    let original = "aaaaaaaaaaaaaaaaaaaaaaaaaaaaaaaaaaaaaaaa";
    let first = "bbbbbbbbbbbbbbbbbbbbbbbbbbbbbbbbbbbbbbbb";
    let second = "cccccccccccccccccccccccccccccccccccccccc";
    let third = "dddddddddddddddddddddddddddddddddddddddd";
    write_file(&mut repo, ".git/HEAD", "ref: refs/heads/main\n");
    write_file(
        &mut repo,
        ".git/logs/HEAD",
        &format!(
            "{original} {first} Test <t@example.com> 0 -0000\tcherry-pick: first\n\
         {first} {second} Test <t@example.com> 0 -0000\tcherry-pick: second\n\
         {second} {third} Test <t@example.com> 0 -0000\tcherry-pick: third\n",
            original = original,
            first = first,
            second = second,
            third = third
        ),
    );

    let (resolved_original, commits) =
        resolve_linear_head_commit_chain_for_worktree(&repo.files, worktree, third, 3, None).unwrap();
    assert_eq!(resolved_original, original);
    assert_eq!(
        commits,
        vec![first.to_string(), second.to_string(), third.to_string()]
    );
}

#[test]
fn resolve_linear_head_commit_chain_for_worktree_errors_when_chain_is_incomplete() {
    let mut repo = empty_repo();
    let worktree = WORKTREE;
    let original = "aaaaaaaaaaaaaaaaaaaaaaaaaaaaaaaaaaaaaaaa";
    let second = "cccccccccccccccccccccccccccccccccccccccc";
    let third = "dddddddddddddddddddddddddddddddddddddddd";
    write_file(&mut repo, ".git/HEAD", "ref: refs/heads/main\n");
    write_file(
        &mut repo,
        ".git/logs/HEAD",
        &format!(
            "{original} {second} Test <t@example.com> 0 -0000\tnoise\n\
         {second} {third} Test <t@example.com> 0 -0000\tcherry-pick: third\n",
            original = original,
            second = second,
            third = third
        ),
    );

    let err =
        resolve_linear_head_commit_chain_for_worktree(&repo.files, worktree, third, 3, None).unwrap_err();
    assert!(
        err.message()
            .contains("failed to reconstruct HEAD reflog chain")
    );
}

#[test]
fn resolve_linear_head_commit_chain_for_worktree_errors_when_chain_is_ambiguous() {
    let mut repo = empty_repo();
    let worktree = WORKTREE;
    let original = "aaaaaaaaaaaaaaaaaaaaaaaaaaaaaaaaaaaaaaaa";
    let first = "bbbbbbbbbbbbbbbbbbbbbbbbbbbbbbbbbbbbbbbb";
    let second = "cccccccccccccccccccccccccccccccccccccccc";
    write_file(&mut repo, ".git/HEAD", "ref: refs/heads/main\n");
    write_file(
        &mut repo,
        ".git/logs/HEAD",
        &format!(
            "{original} {first} Test <t@example.com> 0 -0000\tfirst chain 1\n\
         {first} {second} Test <t@example.com> 0 -0000\tfirst chain 2\n\
         {original} {first} Test <t@example.com> 0 -0000\tsecond chain 1\n\
         {first} {second} Test <t@example.com> 0 -0000\tsecond chain 2\n",
            original = original,
            first = first,
            second = second
        ),
    );

    let err =
        resolve_linear_head_commit_chain_for_worktree(&repo.files, worktree, second, 2, None).unwrap_err();
    assert!(err.message().contains("ambiguous HEAD reflog chain"));
}

#[test]
fn resolve_linear_head_commit_chain_for_worktree_filters_by_reflog_action() {
    let mut repo = empty_repo();
    let worktree = WORKTREE;
    let original = "aaaaaaaaaaaaaaaaaaaaaaaaaaaaaaaaaaaaaaaa";
    let commit = "bbbbbbbbbbbbbbbbbbbbbbbbbbbbbbbbbbbbbbbb";
    write_file(&mut repo, ".git/HEAD", "ref: refs/heads/main\n");
    write_file(
        &mut repo,
        ".git/logs/HEAD",
        &format!(
            "{original} {commit} Test <t@example.com> 0 -0000\tcommit: feature\n\
         {original} {commit} Test <t@example.com> 0 -0000\tcherry-pick: feature\n",
            original = original,
            commit = commit
        ),
    );

    let (resolved_original, commits) =
        resolve_linear_head_commit_chain_for_worktree(&repo.files, worktree, commit, 1, Some("cherry-pick"))
            .unwrap();
    assert_eq!(resolved_original, original);
    assert_eq!(commits, vec![commit.to_string()]);
}

const A: &str = "aaaaaaaaaaaaaaaaaaaaaaaaaaaaaaaaaaaaaaaa";
const B: &str = "bbbbbbbbbbbbbbbbbbbbbbbbbbbbbbbbbbbbbbbb";
const C: &str = "cccccccccccccccccccccccccccccccccccccccc";
const D: &str = "dddddddddddddddddddddddddddddddddddddddd";

fn log_line(old: &str, new: &str, message: &str) -> String {
    format!("{} {} T <t@x> 0 +0000\t{}\n", old, new, message)
}

#[test]
fn objects_are_recognised() {
    assert!(is_valid_git_oid(A));
    assert!(is_valid_git_oid(&A.to_uppercase()));
    assert!(is_valid_git_oid(&"0".repeat(64)));
    assert!(!is_valid_git_oid(&"0".repeat(41)));
    assert!(!is_valid_git_oid(&"g".repeat(40)));
    assert!(is_valid_non_zero_oid(A));
    assert!(!is_valid_non_zero_oid(&"0".repeat(40)));
    assert_eq!(stash_index("stash@{12}"), Some(12));
    assert_eq!(stash_index("stash"), None);
}

#[test]
fn directories_of_git_are_found() {
    let mut repo = empty_repo();
    write_file(&mut repo, ".git/HEAD", "ref: refs/heads/main\n");
    add_dirs(&mut repo, "/other/tree");
    let pointer = b"gitdir: /work/repo/.git/worktrees/tree\n".to_vec();
    repo.files.add_file("/other/tree/.git", pointer);
    add_dirs(&mut repo, "/third");
    repo.files.add_file("/third/.git", b"gitdir: ../work/x\n".to_vec());
    assert_eq!(
        git_dir_for_worktree(&repo.files, "/work/repo/src").as_deref(),
        Some("/work/repo/.git")
    );
    assert_eq!(
        common_dir_for_worktree(&repo.files, "/other/tree").as_deref(),
        Some("/work/repo/.git")
    );
    assert_eq!(
        git_dir_for_worktree(&repo.files, "/third").as_deref(),
        Some("/third/../work/x")
    );
    assert_eq!(git_dir_for_worktree(&repo.files, "/none"), None);
    assert_eq!(
        common_dir_for_repo_path(&repo.files, "/work/repo/.git").as_deref(),
        Some("/work/repo/.git")
    );
    assert_eq!(
        common_dir_for_git_dir("/r/.git/worktrees/x").as_deref(),
        Some("/r/.git")
    );
    assert_eq!(common_dir_for_git_dir("/r/.git").as_deref(), Some("/r/.git"));
    assert_eq!(common_dir_for_git_dir("/"), None);
}

#[test]
fn refs_are_read() {
    let mut repo = empty_repo();
    write_file(&mut repo, ".git/refs/heads/x", A);
    assert_eq!(
        read_ref_oid_for_worktree(&repo, WORKTREE, "refs/heads/x").as_deref(),
        Some(A)
    );
    assert_eq!(read_ref_oid_for_worktree(&repo, "/none", "refs/heads/x"), None);
    assert_eq!(
        read_ref_oid_for_common_dir(&repo, "refs/heads/x").as_deref(),
        Some(A)
    );
}

#[test]
fn reflogs_are_parsed() {
    let entries = parse_reflog_entries(&(log_line(A, B, "x") + "no oid\n")).unwrap();
    assert_eq!(entries.len(), 1);
    assert_eq!((entries[0].old.as_str(), entries[0].new.as_str()), (A, B));
    assert!(parse_reflog_entries("alone\n").is_none());
    let text = log_line(A, B, " x ") + &log_line(B, B, "y") + "nonsense\n";
    assert_eq!(parse_head_reflog_transitions(&text, true).len(), 2);
    assert_eq!(parse_head_reflog_transitions(&text, false).len(), 1);
}

#[test]
fn rebases_are_recognised() {
    let message = "pull --rebase (start): checkout main";
    assert_eq!(
        rebase_like_start(message),
        Some(("pull --rebase".to_string(), "main".to_string()))
    );
    assert_eq!(rebase_like_start("merge (start): checkout main"), None);
    assert_eq!(rebase_like_start("rebase (start): checkout  "), None);
    assert_eq!(
        rebase_like_finish_target("rebase (finish): returning to refs/heads/x", "rebase").as_deref(),
        Some("refs/heads/x")
    );
    assert_eq!(rebase_like_finish_target("rebase (finish): returning to ", "rebase"), None);
    assert!(rebase_start_targets_match("refs/heads/x", "x"));
    assert!(rebase_start_targets_match("x", "refs/heads/x"));
    assert!(!rebase_start_targets_match("x", "y"));
}

#[test]
fn complete_rebases_are_found() {
    let mut repo = empty_repo();
    let text = log_line(A, B, "pull (start): checkout main")
        + &log_line(B, C, "rebase (pick): one")
        + &log_line(C, D, "commit: between")
        + &log_line(C, C, "rebase (finish): returning to refs/heads/x")
        + &log_line(C, D, "rebase (start): checkout other")
        + &log_line(D, D, "rebase (finish): returning to refs/heads/y")
        + &log_line(D, A, "rebase (start): checkout open");
    write_file(&mut repo, ".git/logs/HEAD", &text);
    let segments = complete_rebase_segments(&parse_head_reflog_transitions(&text, true));
    assert_eq!(segments.len(), 2);
    assert_eq!(segments[0].original_head, A);
    assert_eq!((segments[0].onto_head.as_str(), segments[0].new_head.as_str()), (B, C));
    assert_eq!(segments[0].finish_target.as_deref(), Some("refs/heads/x"));
    let next = |hint: Option<&str>, done: &[String]| {
        resolve_rebase_segment_for_worktree(&repo.files, WORKTREE, hint, done)
            .unwrap()
            .map(|s| s.start_target)
    };
    assert_eq!(next(None, &[]).as_deref(), Some("main"));
    assert_eq!(next(Some("refs/heads/other"), &[]).as_deref(), Some("other"));
    assert_eq!(next(Some("main"), &[C.to_string()]).as_deref(), Some("other"));
    assert_eq!(next(None, &[C.to_string(), D.to_string()]), None);
    assert!(resolve_rebase_segment_for_worktree(&repo.files, "/none", None, &[]).is_err());
}

#[test]
fn moves_of_head_are_followed() {
    let mut repo = empty_repo();
    let text = log_line(A, B, "commit: x") + &log_line(B, C, "commit: y");
    write_file(&mut repo, ".git/logs/HEAD", &text);
    let old = |new: &str| {
        resolve_worktree_head_reflog_old_oid_for_new_head(&repo.files, WORKTREE, new).unwrap()
    };
    assert_eq!(old(C).as_deref(), Some(B));
    assert_eq!(old(D), None);
    assert_eq!(old("odd"), None);
    let moves = parse_head_reflog_transitions(&text, false);
    assert_eq!(
        try_resolve_linear_head_chain(&moves, 1, 2, Some("commit")),
        Some((A.to_string(), vec![B.to_string(), C.to_string()]))
    );
    assert_eq!(try_resolve_linear_head_chain(&moves, 1, 2, Some("y")), None);
    assert_eq!(try_resolve_linear_head_chain(&moves, 1, 3, None), None);
    assert_eq!(
        read_head_reflog_transitions_for_worktree(&repo.files, WORKTREE, false)
            .unwrap()
            .len(),
        2
    );
}

#[test]
fn the_source_of_a_squash_is_found() {
    let mut repo = empty_repo();
    let text = format!("Squashed commit of the following:\n\ncommit {}\nAuthor: x\n", B);
    write_file(&mut repo, ".git/SQUASH_MSG", &text);
    assert_eq!(
        resolve_squash_source_head_for_worktree(&repo.files, WORKTREE).as_deref(),
        Some(B)
    );
    assert_eq!(resolve_squash_source_head_from_git_dir(&repo.files, "/none"), None);
}

#[test]
fn a_log_of_head_that_cannot_be_read_is_told_with_its_cause() {
    let mut repo = empty_repo();
    write_file(&mut repo, ".git/HEAD", "ref: refs/heads/main\n");
    let error = |repo: &RepoSnapshot| {
        let GitAiError::Generic(message) =
            read_head_reflog_transitions_for_worktree(&repo.files, WORKTREE, false)
                .err()
                .unwrap();
        message
    };
    let start = "failed to read HEAD reflog for worktree /work/repo at /work/repo/.git/logs/HEAD: ";
    assert_eq!(
        error(&repo),
        format!("{}No such file or directory (os error 2)", start)
    );
    repo.files
        .add_cause("/work/repo/.git/logs/HEAD", "Permission denied (os error 13)".to_string());
    assert_eq!(error(&repo), format!("{}Permission denied (os error 13)", start));
}
