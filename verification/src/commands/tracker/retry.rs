//! Commits whose report failed, to be tried again.

use crate::config::APP_DIR_NAME;
use crate::model::{lemma_views_push, views};
use crate::paths::{join, joined};
use vstd::prelude::*;

verus! {

/// How often the report of a commit is tried again.
pub const MAX_RETRIES: u32 = 3;

/// A commit whose report failed.
pub struct RetryEntry {
    pub repo_path: String,
    pub commit_sha: String,
    pub diff_gz: Vec<u8>,
    pub retry_count: u32,
    pub remote: String,
    pub branch: String,
}

/// The model of a commit whose report failed.
pub struct RetryEntryView {
    pub repo_path: Seq<char>,
    pub commit_sha: Seq<char>,
    pub diff_gz: Seq<u8>,
    pub retry_count: u32,
    pub remote: Seq<char>,
    pub branch: Seq<char>,
}

impl View for RetryEntry {
    type V = RetryEntryView;

    open spec fn view(&self) -> RetryEntryView {
        RetryEntryView {
            repo_path: self.repo_path@,
            commit_sha: self.commit_sha@,
            diff_gz: self.diff_gz@,
            retry_count: self.retry_count,
            remote: self.remote@,
            branch: self.branch@,
        }
    }
}

/// The file of the queue in a home directory.
pub fn queue_path(home: &str) -> (r: String)
    ensures
        r@ == joined(joined(home@, APP_DIR_NAME@), "tracker-retry-queue.json"@),
{
    join(join(home, APP_DIR_NAME).as_str(), "tracker-retry-queue.json")
}

/// Puts a commit at the end of the queue.
pub fn save_to_queue(
    entries: &mut Vec<RetryEntry>,
    repo_path: &str,
    commit_sha: &str,
    diff_gz: Vec<u8>,
    remote: &str,
    branch: &str,
)
    ensures
        views(final(entries)@) == views(old(entries)@).push(
            RetryEntryView {
                repo_path: repo_path@,
                commit_sha: commit_sha@,
                diff_gz: diff_gz@,
                retry_count: 0,
                remote: remote@,
                branch: branch@,
            },
        ),
{
    let entry = RetryEntry {
        repo_path: repo_path.to_owned(),
        commit_sha: commit_sha.to_owned(),
        diff_gz,
        retry_count: 0,
        remote: remote.to_owned(),
        branch: branch.to_owned(),
    };
    let ghost before = entries@;
    let ghost added = entry;
    entries.push(entry);
    proof {
        lemma_views_push(before, added);
    }
}

/// Whether a commit is tried again.
pub fn is_tried(entry: &RetryEntry) -> (r: bool)
    ensures
        r == (entry.retry_count < MAX_RETRIES),
{
    entry.retry_count < MAX_RETRIES
}

/// What is left in the queue of a commit: nothing where it was tried too often
/// before or is reported now, else the commit with one more try, unless that
/// was the last.
pub open spec fn left_of(entry: RetryEntryView, uploaded: bool) -> Option<RetryEntryView> {
    if entry.retry_count >= MAX_RETRIES || uploaded || entry.retry_count + 1 >= MAX_RETRIES {
        None
    } else {
        Some(RetryEntryView { retry_count: (entry.retry_count + 1) as u32, ..entry })
    }
}

/// What is left of a queue after each commit in it was tried.
pub open spec fn left_in_queue(entries: Seq<RetryEntryView>, uploaded: Seq<bool>) -> Seq<
    RetryEntryView,
>
    decreases entries.len(),
{
    if entries.len() == 0 {
        Seq::empty()
    } else {
        let before = left_in_queue(entries.drop_last(), uploaded);
        match left_of(entries.last(), uploaded[entries.len() - 1]) {
            Some(entry) => before.push(entry),
            None => before,
        }
    }
}

/// What is left of the queue after each commit in it was tried, with or
/// without success. Of those that are not tried any more it does not matter.
pub fn process_retries(entries: Vec<RetryEntry>, uploaded: &Vec<bool>) -> (r: Vec<RetryEntry>)
    requires
        uploaded@.len() == entries@.len(),
    ensures
        views(r@) == left_in_queue(views(entries@), uploaded@),
{
    let ghost all = views(entries@);
    let mut stack: Vec<RetryEntry> = Vec::new();
    let mut rest = entries;
    while rest.len() > 0
        invariant
            rest@.len() + stack@.len() == all.len(),
            forall|j: int| 0 <= j < rest@.len() ==> (#[trigger] rest@[j])@ == all[j],
            forall|j: int|
                0 <= j < stack@.len() ==> (#[trigger] stack@[j])@ == all[all.len() - 1 - j],
        decreases rest@.len(),
    {
        if let Some(entry) = rest.pop() {
            stack.push(entry);
        }
    }
    let mut out: Vec<RetryEntry> = Vec::new();
    let n: usize = uploaded.len();
    let mut i: usize = 0;
    proof {
        assert(all.take(0) =~= Seq::empty());
        assert(views(out@) =~= Seq::empty());
    }
    while stack.len() > 0
        invariant
            i + stack@.len() == all.len(),
            uploaded@.len() == all.len(),
            n == all.len(),
            forall|j: int|
                0 <= j < stack@.len() ==> (#[trigger] stack@[j])@ == all[all.len() - 1 - j],
            views(out@) == left_in_queue(all.take(i as int), uploaded@),
        decreases stack@.len(),
    {
        if let Some(entry) = stack.pop() {
            proof {
                assert(all.take(i + 1).drop_last() =~= all.take(i as int));
                assert(all.take(i + 1).last() == entry@);
            }
            if is_tried(&entry) && !uploaded[i] {
                let mut again = entry;
                again.retry_count = again.retry_count + 1;
                if again.retry_count < MAX_RETRIES {
                    let ghost before = out@;
                    let ghost added = again;
                    out.push(again);
                    proof {
                        lemma_views_push(before, added);
                    }
                }
            }
            i += 1;
        }
    }
    assert(all.take(all.len() as int) =~= all);
    out
}

/// The queue only shrinks, and what is left in it has been tried, each commit
/// less often than the limit.
pub proof fn law_retries_end(entries: Seq<RetryEntryView>, uploaded: Seq<bool>)
    ensures
        left_in_queue(entries, uploaded).len() <= entries.len(),
        forall|i: int|
            0 <= i < left_in_queue(entries, uploaded).len() ==> 0 < (
            #[trigger] left_in_queue(entries, uploaded)[i]).retry_count < MAX_RETRIES,
    decreases entries.len(),
{
    if entries.len() > 0 {
        law_retries_end(entries.drop_last(), uploaded);
    }
}

/// No commit is lost: one whose report failed stays with all that is known of it until
/// it was tried often enough.
pub proof fn law_failed_commits_stay(entries: Seq<RetryEntryView>, uploaded: Seq<bool>, i: int)
    requires
        0 <= i < entries.len() == uploaded.len(),
        entries[i].retry_count + 1 < MAX_RETRIES,
        !uploaded[i],
    ensures
        left_in_queue(entries, uploaded).contains(
            RetryEntryView { retry_count: (entries[i].retry_count + 1) as u32, ..entries[i] },
        ),
{
    lemma_failed_stays(entries, uploaded, i);
}

proof fn lemma_failed_stays(entries: Seq<RetryEntryView>, uploaded: Seq<bool>, i: int)
    requires
        0 <= i < entries.len() <= uploaded.len(),
        entries[i].retry_count + 1 < MAX_RETRIES,
        !uploaded[i],
    ensures
        left_in_queue(entries, uploaded).contains(
            RetryEntryView { retry_count: (entries[i].retry_count + 1) as u32, ..entries[i] },
        ),
    decreases entries.len(),
{
    let again = RetryEntryView {
        retry_count: (entries[i].retry_count + 1) as u32,
        ..entries[i]
    };
    let left = left_in_queue(entries, uploaded);
    let before = left_in_queue(entries.drop_last(), uploaded);
    if i < entries.len() - 1 {
        lemma_failed_stays(entries.drop_last(), uploaded, i);
        let k = before.index_of(again);
        assert(left[k] == again);
    } else {
        assert(left.last() == again);
    }
}

/// A commit that was just queued is tried three times, and is gone after the
/// third failure.
pub proof fn law_third_failure_is_the_last(entry: RetryEntryView)
    requires
        entry.retry_count == 0,
    ensures
        left_of(entry, false) matches Some(second) && left_of(second, false) matches Some(third)
            && left_of(third, false) is None,
{
}

} // verus!
