//! The report of pushed commits to the team's tracker.

pub mod config;
pub mod diff;
pub mod log;
pub mod retry;
pub mod tracker_laws;
pub mod upload;

use crate::commands::tracker::config::TrackerConfig;
use crate::file_tree::{lossy_text, utf8_lossy};
use crate::model::{lemma_views_push, views};
use crate::text::{
    concat3, ends_with, has_suffix, lines, lines_of, split_once, split_once_of, str_eq, texts, trim,
    trim_end_text, trim_end_text_of, trim_start_text, trim_start_text_of, trimmed,
};
use crate::text_map::{TextMap, text_values};
use vstd::prelude::*;

verus! {

// ------------------------------------------------------------------ what was pushed

/// A branch that a push has moved.
pub struct PushedBranch {
    pub branch: String,
    pub old_sha: String,
    pub new_sha: String,
}

/// The texts of a branch that a push has moved.
pub struct PushedBranchView {
    pub branch: Seq<char>,
    pub old_sha: Seq<char>,
    pub new_sha: Seq<char>,
}

impl View for PushedBranch {
    type V = PushedBranchView;

    open spec fn view(&self) -> PushedBranchView {
        PushedBranchView {
            branch: self.branch@,
            old_sha: self.old_sha@,
            new_sha: self.new_sha@,
        }
    }
}

/// The branches, of those given, that stand on another commit afterwards.
/// Branches that were not there before do not count, nor those that are gone.
pub open spec fn moved_branches(
    branches: Seq<Seq<char>>,
    pre: Map<Seq<char>, Seq<char>>,
    post: Map<Seq<char>, Seq<char>>,
) -> Seq<PushedBranchView>
    decreases branches.len(),
{
    if branches.len() == 0 {
        Seq::empty()
    } else {
        let b = branches.last();
        let before = moved_branches(branches.drop_last(), pre, post);
        if post.dom().contains(b) && post[b] != pre[b] {
            before.push(PushedBranchView { branch: b, old_sha: pre[b], new_sha: post[b] })
        } else {
            before
        }
    }
}

/// The branches whose commits are reported after a push: nothing without a
/// configuration, else those that the push has moved.
pub fn report_pushed_commits(
    config: &Option<TrackerConfig>,
    pre_push_refs: &TextMap<String>,
    post_push_refs: &TextMap<String>,
) -> (r: Vec<PushedBranch>)
    ensures
        views(r@) == (if config is None {
            Seq::empty()
        } else {
            moved_branches(
                pre_push_refs.key_order(),
                text_values(pre_push_refs@),
                text_values(post_push_refs@),
            )
        }),
{
    let mut out: Vec<PushedBranch> = Vec::new();
    assert(views(out@) =~= Seq::empty());
    if config.is_none() {
        return out;
    }
    let ghost all = pre_push_refs.key_order();
    let ghost pre = text_values(pre_push_refs@);
    let ghost post = text_values(post_push_refs@);
    let n: usize = pre_push_refs.len();
    let mut i: usize = 0;
    assert(all.take(0) =~= Seq::empty());
    while i < n
        invariant
            i <= n,
            n == all.len(),
            all == pre_push_refs.key_order(),
            pre == text_values(pre_push_refs@),
            post == text_values(post_push_refs@),
            views(out@) == moved_branches(all.take(i as int), pre, post),
        decreases n - i,
    {
        let branch = pre_push_refs.key_at(i);
        let old_sha = pre_push_refs.value_at(i);
        proof {
            assert(all.take(i + 1).drop_last() =~= all.take(i as int));
            assert(all.take(i + 1).last() == branch@);
            assert(pre[branch@] == old_sha@);
        }
        if let Some(new_sha) = post_push_refs.get(branch.as_str()) {
            assert(post[branch@] == new_sha@);
            if !str_eq(new_sha.as_str(), old_sha.as_str()) {
                let moved = PushedBranch {
                    branch: branch.clone(),
                    old_sha: old_sha.clone(),
                    new_sha: new_sha.clone(),
                };
                let ghost before = out@;
                let ghost added = moved;
                out.push(moved);
                proof {
                    lemma_views_push(before, added);
                }
            }
        }
        i += 1;
    }
    assert(all.take(all.len() as int) =~= all);
    out
}

/// The branch and the commit that a line of `git ls-remote --heads` tells of
/// after a push.
pub open spec fn remote_line_of(line: Seq<char>) -> Option<(Seq<char>, Seq<char>)> {
    match split_once_of(line, "\t"@) {
        Some((sha, reference)) => Some((trim_start_text_of(reference, "refs/heads/"@), sha)),
        None => None,
    }
}

/// The commits of the branches that some lines tell of. A later line counts.
pub open spec fn remote_refs_of(lines: Seq<Seq<char>>) -> Map<Seq<char>, Seq<char>>
    decreases lines.len(),
{
    if lines.len() == 0 {
        Map::empty()
    } else {
        match remote_line_of(lines.last()) {
            Some((branch, sha)) => remote_refs_of(lines.drop_last()).insert(branch, sha),
            None => remote_refs_of(lines.drop_last()),
        }
    }
}

/// The commits of a remote's branches after a push, as `git ls-remote --heads`
/// printed them; none where the command failed.
pub fn remote_refs(success: bool, stdout: &[u8]) -> (r: TextMap<String>)
    ensures
        text_values(r@) == (if success {
            remote_refs_of(lines_of(utf8_lossy(stdout@)))
        } else {
            Map::empty()
        }),
{
    let mut refs: TextMap<String> = TextMap::new();
    assert(text_values(refs@) =~= Map::empty());
    if !success {
        return refs;
    }
    let text = lossy_text(stdout);
    let all = lines(text.as_str());
    let ghost seen = texts(all@);
    let mut i: usize = 0;
    assert(seen.take(0) =~= Seq::empty());
    while i < all.len()
        invariant
            i <= all@.len(),
            seen == texts(all@),
            text_values(refs@) == remote_refs_of(seen.take(i as int)),
        decreases all.len() - i,
    {
        proof {
            assert(seen.take(i + 1).drop_last() =~= seen.take(i as int));
            assert(seen.take(i + 1).last() == all@[i as int]@);
        }
        if let Some((sha, reference)) = split_once(all[i].as_str(), "\t") {
            let branch = trim_start_text(reference.as_str(), "refs/heads/");
            let ghost before = refs@;
            let ghost k = branch@;
            let ghost v = sha;
            refs.insert(branch, sha);
            proof {
                assert(text_values(before.insert(k, v)) =~= text_values(before).insert(k, v@));
            }
        }
        i += 1;
    }
    assert(seen.take(seen.len() as int) =~= seen);
    refs
}

/// The range that `git rev-list` is asked for.
pub fn commit_range(old_sha: &str, new_sha: &str) -> (r: String)
    ensures
        r@ == old_sha@ + ".."@ + new_sha@,
{
    concat3(old_sha, "..", new_sha)
}

/// The commits that `git rev-list` printed; none where the command failed.
pub fn commits_in_range(success: bool, stdout: &[u8]) -> (r: Vec<String>)
    ensures
        texts(r@) == (if success {
            lines_of(utf8_lossy(stdout@))
        } else {
            Seq::empty()
        }),
{
    if success {
        let text = lossy_text(stdout);
        lines(text.as_str())
    } else {
        let r: Vec<String> = Vec::new();
        assert(texts(r@) =~= Seq::empty());
        r
    }
}

// ------------------------------------------------------------------ one commit

/// What has come of the last thing that was done for a commit.
pub enum CommitEvent {
    /// The commit is not to be reported, for a reason.
    Refused(String),
    /// The commit is to be reported.
    Accepted,
    DiffFailed,
    DiffTaken,
    Uploaded,
    UploadFailed(String),
}

/// What is done next for a commit.
pub enum CommitAction {
    /// Log that it was passed over, for a reason; the commit is done.
    LogSkipped(String),
    /// Take its changes.
    TakeDiff,
    /// Upload it.
    Upload,
    /// Mark it as reported and log that; the commit is done.
    MarkReported,
    /// Log the failure and queue the commit for another try; it is done.
    LogFailedAndQueue(String),
    /// The commit is done.
    Leave,
}

/// What is done next for a commit after an event.
pub open spec fn is_next_action(event: CommitEvent, action: CommitAction) -> bool {
    match event {
        CommitEvent::Refused(reason) => action matches CommitAction::LogSkipped(text) && text@
            == reason@,
        CommitEvent::Accepted => action is TakeDiff,
        CommitEvent::DiffFailed => action is Leave,
        CommitEvent::DiffTaken => action is Upload,
        CommitEvent::Uploaded => action is MarkReported,
        CommitEvent::UploadFailed(e) => action matches CommitAction::LogFailedAndQueue(text)
            && text@ == e@,
    }
}

/// What is done next for a commit.
pub fn next_commit_action(event: CommitEvent) -> (r: CommitAction)
    ensures
        is_next_action(event, r),
{
    match event {
        CommitEvent::Refused(reason) => CommitAction::LogSkipped(reason),
        CommitEvent::Accepted => CommitAction::TakeDiff,
        CommitEvent::DiffFailed => CommitAction::Leave,
        CommitEvent::DiffTaken => CommitAction::Upload,
        CommitEvent::Uploaded => CommitAction::MarkReported,
        CommitEvent::UploadFailed(e) => CommitAction::LogFailedAndQueue(e),
    }
}

// ------------------------------------------------------------------ the work tree

/// Where a repository's files are.
pub open spec fn work_tree_of(repo_path: Seq<char>, toplevel: Option<Seq<u8>>) -> Seq<char> {
    let path = trim_end_text_of(repo_path, "/"@);
    if has_suffix(path, ".git"@) {
        trim_end_text_of(trim_end_text_of(path, ".git"@), "/"@)
    } else {
        match toplevel {
            Some(stdout) => trimmed(utf8_lossy(stdout)),
            None => path,
        }
    }
}

/// Whether git has to be asked for the work tree: the path is not that of a
/// git directory.
pub fn asks_for_toplevel(repo_path: &str) -> (r: bool)
    ensures
        r == !has_suffix(trim_end_text_of(repo_path@, "/"@), ".git"@),
{
    let path = trim_end_text(repo_path, "/");
    !ends_with(path.as_str(), ".git")
}

/// Where a repository's files are: beside its git directory, or where
/// `git rev-parse --show-toplevel` says, if it said something.
pub fn resolve_work_tree(repo_path: &str, toplevel: &Option<Vec<u8>>) -> (r: String)
    ensures
        r@ == work_tree_of(
            repo_path@,
            match *toplevel {
                Some(stdout) => Some(stdout@),
                None => None,
            },
        ),
{
    let path = trim_end_text(repo_path, "/");
    if ends_with(path.as_str(), ".git") {
        let base = trim_end_text(path.as_str(), ".git");
        return trim_end_text(base.as_str(), "/");
    }
    match toplevel {
        Some(stdout) => {
            let text = lossy_text(stdout.as_slice());
            trim(text.as_str())
        },
        None => path,
    }
}

// ------------------------------------------------------------------ laws

/// Every branch that is reported was there before and afterwards, and has
/// moved between the commits that are told of it; and no such branch is left
/// out.
pub proof fn law_moved_branches_are_reported(
    branches: Seq<Seq<char>>,
    pre: Map<Seq<char>, Seq<char>>,
    post: Map<Seq<char>, Seq<char>>,
)
    ensures
        forall|i: int|
            0 <= i < moved_branches(branches, pre, post).len() ==> {
                let m = #[trigger] moved_branches(branches, pre, post)[i];
                &&& branches.contains(m.branch)
                &&& m.old_sha == pre[m.branch]
                &&& post.dom().contains(m.branch)
                &&& m.new_sha == post[m.branch]
                &&& m.old_sha != m.new_sha
            },
        forall|i: int|
            #![trigger branches[i]]
            0 <= i < branches.len() && post.dom().contains(branches[i]) && post[branches[i]]
                != pre[branches[i]] ==> moved_branches(branches, pre, post).contains(
                PushedBranchView {
                    branch: branches[i],
                    old_sha: pre[branches[i]],
                    new_sha: post[branches[i]],
                },
            ),
    decreases branches.len(),
{
    if branches.len() > 0 {
        let front = branches.drop_last();
        let b = branches.last();
        law_moved_branches_are_reported(front, pre, post);
        let before = moved_branches(front, pre, post);
        let all = moved_branches(branches, pre, post);
        assert(branches[branches.len() - 1] == b);
        assert forall|i: int| 0 <= i < all.len() implies {
            let m = #[trigger] all[i];
            &&& branches.contains(m.branch)
            &&& m.old_sha == pre[m.branch]
            &&& post.dom().contains(m.branch)
            &&& m.new_sha == post[m.branch]
            &&& m.old_sha != m.new_sha
        } by {
            if i < before.len() {
                let m = before[i];
                assert(all[i] == m);
                let k = choose|k: int| 0 <= k < front.len() && front[k] == m.branch;
                assert(branches[k] == m.branch);
            }
        }
        assert forall|i: int|
            #![trigger branches[i]]
            0 <= i < branches.len() && post.dom().contains(branches[i]) && post[branches[i]]
                != pre[branches[i]] implies all.contains(
            PushedBranchView {
                branch: branches[i],
                old_sha: pre[branches[i]],
                new_sha: post[branches[i]],
            },
        ) by {
            let m = PushedBranchView {
                branch: branches[i],
                old_sha: pre[branches[i]],
                new_sha: post[branches[i]],
            };
            if i < front.len() {
                assert(front[i] == branches[i]);
                assert(before.contains(m));
                let k = choose|k: int| 0 <= k < before.len() && before[k] == m;
                assert(all[k] == m);
            } else {
                assert(all[before.len() as int] == m);
            }
        }
    }
}

} // verus!
