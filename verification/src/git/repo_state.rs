//! Repository state read from a snapshot of its files: worktree roots, git
//! directories, refs, and what the reflogs tell about past moves of `HEAD`.

use crate::error::GitAiError;
use crate::file_tree::FileTree;
use crate::model::{first_where, last_where, lemma_views_push, opt_view, views};
use crate::paths::{
    file_name, file_name_of, is_absolute, is_absolute_path, join, joined, parent, parent_of,
};
use crate::text::{
    chars_of, contains, decimal, decimal_of, find_of, has_prefix, has_suffix, lines, lines_of,
    list_contains, parse_usize, split_of, split_once, split_once_of, starts_with, str_eq,
    strip_prefix, strip_suffix, texts, trim, trim_start, trim_start_of, trimmed, unsigned_of, words,
    words_of,
};
use crate::text_map::TextMap;
use vstd::prelude::*;
use vstd::string::*;

verus! {

// ------------------------------------------------------------------ object ids

/// The hexadecimal digits.
pub open spec fn is_hex(c: char) -> bool {
    '0' <= c <= '9' || 'a' <= c <= 'f' || 'A' <= c <= 'F'
}

/// Whether a text is an object id: 40 or 64 hexadecimal digits.
pub open spec fn is_oid(s: Seq<char>) -> bool {
    (s.len() == 40 || s.len() == 64) && forall|i: int| 0 <= i < s.len() ==> is_hex(#[trigger] s[i])
}

/// Whether a text is made of zeros only.
pub open spec fn all_zeros(s: Seq<char>) -> bool {
    forall|i: int| 0 <= i < s.len() ==> #[trigger] s[i] == '0'
}

/// Whether a text is an object id other than the one of all zeros.
pub open spec fn is_real_oid(s: Seq<char>) -> bool {
    is_oid(s) && !all_zeros(s)
}

/// Whether a text is an object id.
pub fn is_valid_git_oid(value: &str) -> (r: bool)
    ensures
        r == is_oid(value@),
{
    let v = chars_of(value);
    if v.len() != 40 && v.len() != 64 {
        return false;
    }
    let mut i: usize = 0;
    while i < v.len()
        invariant
            i <= v@.len(),
            v@ == value@,
            forall|k: int| 0 <= k < i ==> is_hex(#[trigger] v@[k]),
        decreases v.len() - i,
    {
        let c: char = v[i];
        if !(('0' <= c && c <= '9') || ('a' <= c && c <= 'f') || ('A' <= c && c <= 'F')) {
            proof {
                assert(!is_hex(value@[i as int]));
            }
            return false;
        }
        i += 1;
    }
    true
}

/// Whether a text is made of zeros only.
pub fn is_all_zeros(value: &str) -> (r: bool)
    ensures
        r == all_zeros(value@),
{
    let v = chars_of(value);
    let mut i: usize = 0;
    while i < v.len()
        invariant
            i <= v@.len(),
            v@ == value@,
            forall|k: int| 0 <= k < i ==> #[trigger] v@[k] == '0',
        decreases v.len() - i,
    {
        if v[i] != '0' {
            proof {
                assert(value@[i as int] != '0');
            }
            return false;
        }
        i += 1;
    }
    true
}

/// Whether a text is an object id other than the one of all zeros.
pub fn is_valid_non_zero_oid(value: &str) -> (r: bool)
    ensures
        r == is_real_oid(value@),
{
    is_valid_git_oid(value) && !is_all_zeros(value)
}

// ----------------------------------------------------------------- directories

/// Where `HEAD` points.
pub enum HeadKind {
    Symbolic(String),
    Detached(String),
}

/// A snapshot of a repository: its files, what its refs resolve to, and `HEAD`.
pub struct RepoSnapshot {
    pub files: FileTree,
    pub refs: TextMap<String>,
    pub head: Option<HeadKind>,
}

/// The state of a worktree's `HEAD`.
pub struct HeadState {
    pub head: Option<String>,
    pub branch: Option<String>,
    pub detached: bool,
}

/// The nearest directory, from a path upwards, that holds a `.git` entry.
pub open spec fn worktree_root_of(files: FileTree, path: Seq<char>) -> Option<Seq<char>>
    decreases path.len(),
{
    let dot_git = joined(path, ".git"@);
    if files.is_dir_at(dot_git) || files.is_file_at(dot_git) {
        Some(path)
    } else {
        match parent_of(path) {
            Some(up) => if up.len() < path.len() {
                worktree_root_of(files, up)
            } else {
                None
            },
            None => None,
        }
    }
}

/// The nearest directory, from a path upwards, that holds a `.git` entry.
pub fn worktree_root_for_path(files: &FileTree, path: &str) -> (r: Option<String>)
    ensures
        match r {
            Some(root) => worktree_root_of(*files, path@) == Some(root@),
            None => worktree_root_of(*files, path@) is None,
        },
{
    let mut candidate = path.to_owned();
    loop
        invariant
            worktree_root_of(*files, path@) == worktree_root_of(*files, candidate@),
        decreases candidate@.len(),
    {
        let dot_git = join(candidate.as_str(), ".git");
        if files.is_dir(dot_git.as_str()) || files.is_file(dot_git.as_str()) {
            return Some(candidate);
        }
        match parent(candidate.as_str()) {
            Some(up) => {
                candidate = up;
            },
            None => {
                return None;
            },
        }
    }
}

/// The git directory that a `.git` file points to, seen from a base directory.
pub open spec fn gitdir_pointer_of(contents: Seq<char>, base: Seq<char>) -> Option<Seq<char>> {
    if has_prefix(contents, "gitdir:"@) {
        Some(joined(base, trimmed(contents.skip("gitdir:"@.len() as int))))
    } else {
        None
    }
}

fn gitdir_pointer(contents: &str, base: &str) -> (r: Option<String>)
    ensures
        match r {
            Some(dir) => gitdir_pointer_of(contents@, base@) == Some(dir@),
            None => gitdir_pointer_of(contents@, base@) is None,
        },
{
    match strip_prefix(contents, "gitdir:") {
        Some(rest) => {
            let pointer = trim(rest.as_str());
            Some(join(base, pointer.as_str()))
        },
        None => None,
    }
}

/// The git directory of the worktree around a path.
pub open spec fn git_dir_of(files: FileTree, worktree: Seq<char>) -> Option<Seq<char>> {
    match worktree_root_of(files, worktree) {
        Some(root) => {
            let dot_git = joined(root, ".git"@);
            if files.is_dir_at(dot_git) {
                Some(dot_git)
            } else {
                match files.text_at(dot_git) {
                    Some(contents) => gitdir_pointer_of(contents, root),
                    None => None,
                }
            }
        },
        None => None,
    }
}

/// The git directory of the worktree around a path.
pub fn git_dir_for_worktree(files: &FileTree, worktree: &str) -> (r: Option<String>)
    ensures
        match r {
            Some(dir) => git_dir_of(*files, worktree@) == Some(dir@),
            None => git_dir_of(*files, worktree@) is None,
        },
{
    match worktree_root_for_path(files, worktree) {
        Some(root) => {
            let dot_git = join(root.as_str(), ".git");
            if files.is_dir(dot_git.as_str()) {
                return Some(dot_git);
            }
            match files.read_to_string(dot_git.as_str()) {
                Some(contents) => gitdir_pointer(contents.as_str(), root.as_str()),
                None => None,
            }
        },
        None => None,
    }
}

/// The directory that a git directory shares with its linked worktrees: two
/// levels up from a directory under `worktrees`, else the directory itself.
pub open spec fn common_dir_of(git_dir: Seq<char>) -> Option<Seq<char>> {
    match parent_of(git_dir) {
        Some(up) => if file_name_of(up) == Some("worktrees"@) {
            parent_of(up)
        } else {
            Some(git_dir)
        },
        None => None,
    }
}

/// The directory that a git directory shares with its linked worktrees.
pub fn common_dir_for_git_dir(git_dir: &str) -> (r: Option<String>)
    ensures
        match r {
            Some(dir) => common_dir_of(git_dir@) == Some(dir@),
            None => common_dir_of(git_dir@) is None,
        },
{
    match parent(git_dir) {
        Some(up) => {
            let is_linked = match file_name(up.as_str()) {
                Some(name) => str_eq(name.as_str(), "worktrees"),
                None => false,
            };
            if is_linked {
                parent(up.as_str())
            } else {
                Some(git_dir.to_owned())
            }
        },
        None => None,
    }
}

/// The common directory of the worktree around a path.
pub open spec fn common_dir_of_worktree(files: FileTree, worktree: Seq<char>) -> Option<Seq<char>> {
    match git_dir_of(files, worktree) {
        Some(dir) => common_dir_of(dir),
        None => None,
    }
}

/// The common directory of the worktree around a path.
pub fn common_dir_for_worktree(files: &FileTree, worktree: &str) -> (r: Option<String>)
    ensures
        match r {
            Some(dir) => common_dir_of_worktree(*files, worktree@) == Some(dir@),
            None => common_dir_of_worktree(*files, worktree@) is None,
        },
{
    match git_dir_for_worktree(files, worktree) {
        Some(dir) => common_dir_for_git_dir(dir.as_str()),
        None => None,
    }
}

/// The common directory of whatever a path names: a place in a worktree, a git
/// directory (it holds a `HEAD` file), or a `.git` file.
pub open spec fn common_dir_of_path(files: FileTree, path: Seq<char>) -> Option<Seq<char>> {
    if common_dir_of_worktree(files, path) is Some {
        common_dir_of_worktree(files, path)
    } else if files.is_dir_at(path) && files.is_file_at(joined(path, "HEAD"@)) {
        common_dir_of(path)
    } else if file_name_of(path) == Some(".git"@) && files.is_file_at(path) {
        match files.text_at(path) {
            Some(contents) => if !has_prefix(contents, "gitdir:"@) {
                None
            } else {
                let pointer = trimmed(contents.skip("gitdir:"@.len() as int));
                if is_absolute_path(pointer) {
                    common_dir_of(pointer)
                } else {
                    match parent_of(path) {
                        Some(up) => common_dir_of(joined(up, pointer)),
                        None => None,
                    }
                }
            },
            None => None,
        }
    } else {
        None
    }
}

/// The common directory of whatever a path names.
pub fn common_dir_for_repo_path(files: &FileTree, path: &str) -> (r: Option<String>)
    ensures
        match r {
            Some(dir) => common_dir_of_path(*files, path@) == Some(dir@),
            None => common_dir_of_path(*files, path@) is None,
        },
{
    if let Some(dir) = common_dir_for_worktree(files, path) {
        return Some(dir);
    }
    if files.is_dir(path) && files.is_file(join(path, "HEAD").as_str()) {
        return common_dir_for_git_dir(path);
    }
    let named_dot_git = match file_name(path) {
        Some(name) => str_eq(name.as_str(), ".git"),
        None => false,
    };
    if named_dot_git && files.is_file(path) {
        let contents = match files.read_to_string(path) {
            Some(contents) => contents,
            None => {
                return None;
            },
        };
        let rest = match strip_prefix(contents.as_str(), "gitdir:") {
            Some(rest) => rest,
            None => {
                return None;
            },
        };
        let pointer = trim(rest.as_str());
        if is_absolute(pointer.as_str()) {
            return common_dir_for_git_dir(pointer.as_str());
        }
        return match parent(path) {
            Some(up) => common_dir_for_git_dir(join(up.as_str(), pointer.as_str()).as_str()),
            None => None,
        };
    }
    None
}

// ------------------------------------------------------------------------ refs

/// What a ref resolves to in a snapshot.
pub open spec fn ref_oid_of(repo: RepoSnapshot, refname: Seq<char>) -> Option<Seq<char>> {
    if repo.refs@.dom().contains(refname) {
        Some(repo.refs@[refname]@)
    } else {
        None
    }
}

/// What a ref resolves to in a repository.
pub fn read_ref_oid_for_common_dir(repo: &RepoSnapshot, refname: &str) -> (r: Option<String>)
    ensures
        opt_view(r) == ref_oid_of(*repo, refname@),
{
    match repo.refs.get(refname) {
        Some(oid) => Some(oid.clone()),
        None => None,
    }
}

/// What a ref resolves to in the repository of a worktree.
pub open spec fn ref_oid_of_worktree(repo: RepoSnapshot, worktree: Seq<char>, refname: Seq<char>)
    -> Option<Seq<char>> {
    if common_dir_of_worktree(repo.files, worktree) is Some {
        ref_oid_of(repo, refname)
    } else {
        None
    }
}

/// What a ref resolves to in the repository of a worktree.
pub fn read_ref_oid_for_worktree(repo: &RepoSnapshot, worktree: &str, refname: &str) -> (r: Option<
    String,
>)
    ensures
        opt_view(r) == ref_oid_of_worktree(*repo, worktree@, refname@),
{
    match common_dir_for_worktree(&repo.files, worktree) {
        Some(_dir) => read_ref_oid_for_common_dir(repo, refname),
        None => None,
    }
}

/// The views of a `HEAD` state: the commit, the branch, and whether it is detached.
pub open spec fn head_state_view(s: HeadState) -> (Option<Seq<char>>, Option<Seq<char>>, bool) {
    (opt_view(s.head), opt_view(s.branch), s.detached)
}

/// The `HEAD` state that a `HEAD` of a given kind stands for. A symbolic `HEAD`
/// is on a branch where it names one under `refs/heads/`.
pub open spec fn head_state_of(repo: RepoSnapshot, head: HeadKind) -> (
    Option<Seq<char>>,
    Option<Seq<char>>,
    bool,
) {
    match head {
        HeadKind::Symbolic(refname) => {
            let branch = if has_prefix(refname@, "refs/heads/"@) {
                Some(refname@.skip("refs/heads/"@.len() as int))
            } else {
                None
            };
            (ref_oid_of(repo, refname@), branch, branch is None)
        },
        HeadKind::Detached(oid) => (Some(oid@), None, true),
    }
}

/// The state of the `HEAD` of the worktree around a path.
pub fn read_head_state_for_worktree(repo: &RepoSnapshot, worktree: &str) -> (r: Option<HeadState>)
    ensures
        match r {
            Some(state) => common_dir_of_worktree(repo.files, worktree@) is Some && (repo.head
                matches Some(head) && head_state_view(state) == head_state_of(*repo, head)),
            None => common_dir_of_worktree(repo.files, worktree@) is None || repo.head is None,
        },
{
    if common_dir_for_worktree(&repo.files, worktree).is_none() {
        return None;
    }
    match &repo.head {
        Some(HeadKind::Symbolic(refname)) => {
            let branch = strip_prefix(refname.as_str(), "refs/heads/");
            let detached = branch.is_none();
            let head = read_ref_oid_for_common_dir(repo, refname.as_str());
            Some(HeadState { head, branch, detached })
        },
        Some(HeadKind::Detached(oid)) => Some(
            HeadState { head: Some(oid.clone()), branch: None, detached: true },
        ),
        None => None,
    }
}

// --------------------------------------------------------------------- reflogs

/// One move of a ref: from where and to where.
pub struct ReflogEntry {
    pub old: String,
    pub new: String,
}

impl View for ReflogEntry {
    type V = (Seq<char>, Seq<char>);

    open spec fn view(&self) -> (Seq<char>, Seq<char>) {
        (self.old@, self.new@)
    }
}

/// The moves that reflog lines record; `None` where a line has fewer than two
/// words before its first tab. Lines whose first two words are not both object
/// ids record nothing.
pub open spec fn reflog_entries_of(rows: Seq<Seq<char>>) -> Option<Seq<(Seq<char>, Seq<char>)>>
    decreases rows.len(),
{
    if rows.len() == 0 {
        Some(seq![])
    } else {
        let parts = words_of(split_of(rows.last(), '\t')[0]);
        match reflog_entries_of(rows.drop_last()) {
            None => None,
            Some(before) => if parts.len() < 2 {
                None
            } else if is_oid(parts[0]) && is_oid(parts[1]) {
                Some(before.push((parts[0], parts[1])))
            } else {
                Some(before)
            },
        }
    }
}

proof fn lemma_reflog_entries_prefix(rows: Seq<Seq<char>>, n: int)
    requires
        0 <= n <= rows.len(),
        reflog_entries_of(rows.take(n)) is None,
    ensures
        reflog_entries_of(rows) is None,
    decreases rows.len() - n,
{
    if n < rows.len() {
        assert(rows.take(n + 1).drop_last() =~= rows.take(n));
        lemma_reflog_entries_prefix(rows, n + 1);
    } else {
        assert(rows.take(n) =~= rows);
    }
}

/// The moves that a reflog's text records.
pub fn parse_reflog_entries(contents: &str) -> (r: Option<Vec<ReflogEntry>>)
    ensures
        match r {
            Some(entries) => reflog_entries_of(lines_of(contents@)) == Some(views(entries@)),
            None => reflog_entries_of(lines_of(contents@)) is None,
        },
{
    let rows = lines(contents);
    let ghost all = texts(rows@);
    let mut entries: Vec<ReflogEntry> = Vec::new();
    let mut i: usize = 0;
    proof {
        assert(all.take(0) =~= seq![]);
        assert(views(entries@) =~= seq![]);
    }
    while i < rows.len()
        invariant
            i <= rows@.len(),
            all == texts(rows@),
            all == lines_of(contents@),
            reflog_entries_of(all.take(i as int)) == Some(views(entries@)),
        decreases rows.len() - i,
    {
        let columns = crate::text::split(rows[i].as_str(), '\t');
        let parts = words(columns[0].as_str());
        proof {
            assert(all.take(i + 1).drop_last() =~= all.take(i as int));
            assert(all.take(i + 1).last() == rows@[i as int]@);
            assert(texts(columns@)[0] == columns@[0]@);
        }
        if parts.len() < 2 {
            proof {
                lemma_reflog_entries_prefix(all, i + 1);
            }
            return None;
        }
        proof {
            assert(texts(parts@)[0] == parts@[0]@);
            assert(texts(parts@)[1] == parts@[1]@);
        }
        if is_valid_git_oid(parts[0].as_str()) && is_valid_git_oid(parts[1].as_str()) {
            let entry = ReflogEntry { old: parts[0].clone(), new: parts[1].clone() };
            proof {
                lemma_views_push(entries@, entry);
            }
            entries.push(entry);
        }
        i += 1;
    }
    proof {
        assert(all.take(i as int) =~= all);
    }
    Some(entries)
}

/// The moves of a ref that its reflog in a snapshot records.
pub open spec fn reflog_of(files: FileTree, worktree: Seq<char>, refname: Seq<char>) -> Option<
    Seq<(Seq<char>, Seq<char>)>,
> {
    match common_dir_of_worktree(files, worktree) {
        Some(dir) => match files.text_at(joined(joined(dir, "logs"@), refname)) {
            Some(contents) => reflog_entries_of(lines_of(contents)),
            None => None,
        },
        None => None,
    }
}

/// The moves of a ref that its reflog in a snapshot records.
pub fn read_reflog_entries(files: &FileTree, worktree: &str, refname: &str) -> (r: Option<
    Vec<ReflogEntry>,
>)
    ensures
        match r {
            Some(entries) => reflog_of(*files, worktree@, refname@) == Some(views(entries@)),
            None => reflog_of(*files, worktree@, refname@) is None,
        },
{
    match common_dir_for_worktree(files, worktree) {
        Some(dir) => {
            let logs = join(dir.as_str(), "logs");
            let path = join(logs.as_str(), refname);
            match files.read_to_string(path.as_str()) {
                Some(contents) => parse_reflog_entries(contents.as_str()),
                None => None,
            }
        },
        None => None,
    }
}

/// The number in a `stash@{n}` name.
pub open spec fn stash_index_of(name: Seq<char>) -> Option<nat> {
    let open = "stash@{"@;
    if has_prefix(name, open) && has_suffix(name.skip(open.len() as int), "}"@) {
        let inner = name.skip(open.len() as int);
        unsigned_of(inner.take(inner.len() - "}"@.len()), usize::MAX as nat)
    } else {
        None
    }
}

/// The number in a `stash@{n}` name.
pub fn stash_index(name: &str) -> (r: Option<usize>)
    ensures
        match r {
            Some(n) => stash_index_of(name@) == Some(n as nat),
            None => stash_index_of(name@) is None,
        },
{
    match strip_prefix(name, "stash@{") {
        Some(rest) => match strip_suffix(rest.as_str(), "}") {
            Some(inner) => parse_usize(inner.as_str()),
            None => None,
        },
        None => None,
    }
}

/// The object that a stash name stands for: an object id for itself; the top of
/// the stash, or a full ref name, for what the ref resolves to; `stash@{n}` for
/// the target of the n-th newest move in the stash's reflog.
pub open spec fn stash_target_of(repo: RepoSnapshot, worktree: Seq<char>, name: Seq<char>)
    -> Option<Seq<char>> {
    if is_oid(name) {
        Some(name)
    } else if name == "stash@{0}"@ || name == "refs/stash"@ || name == "stash"@ {
        ref_oid_of_worktree(repo, worktree, "refs/stash"@)
    } else if has_prefix(name, "refs/"@) {
        ref_oid_of_worktree(repo, worktree, name)
    } else {
        match (stash_index_of(name), reflog_of(repo.files, worktree, "refs/stash"@)) {
            (Some(n), Some(moves)) => if n < moves.len() {
                Some(moves[moves.len() - 1 - n].1)
            } else {
                None
            },
            _ => None,
        }
    }
}

/// The object that a stash name stands for; without a name, the top of the stash.
pub fn resolve_stash_target_oid_for_worktree(
    repo: &RepoSnapshot,
    worktree: &str,
    target_spec: Option<&str>,
) -> (r: Option<String>)
    ensures
        opt_view(r) == stash_target_of(
            *repo,
            worktree@,
            match target_spec {
                Some(name) => name@,
                None => "stash@{0}"@,
            },
        ),
{
    let name: &str = match target_spec {
        Some(name) => name,
        None => "stash@{0}",
    };
    if is_valid_git_oid(name) {
        return Some(name.to_owned());
    }
    if str_eq(name, "stash@{0}") || str_eq(name, "refs/stash") || str_eq(name, "stash") {
        return read_ref_oid_for_worktree(repo, worktree, "refs/stash");
    }
    if starts_with(name, "refs/") {
        return read_ref_oid_for_worktree(repo, worktree, name);
    }
    let index: usize = match stash_index(name) {
        Some(index) => index,
        None => {
            return None;
        },
    };
    match read_reflog_entries(&repo.files, worktree, "refs/stash") {
        Some(entries) => {
            if index < entries.len() {
                let at: usize = entries.len() - 1 - index;
                proof {
                    assert(views(entries@)[at as int] == entries@[at as int]@);
                }
                Some(entries[at].new.clone())
            } else {
                None
            }
        },
        None => None,
    }
}

/// The source of the newest move of a ref that did not start from nothing.
pub open spec fn latest_old_of(moves: Seq<(Seq<char>, Seq<char>)>) -> Option<Seq<char>> {
    match last_where(moves, |m: (Seq<char>, Seq<char>)| is_real_oid(m.0)) {
        Some(m) => Some(m.0),
        None => None,
    }
}

/// The source of the newest move of a ref that did not start from nothing.
pub fn latest_reflog_old_oid_for_worktree(files: &FileTree, worktree: &str, refname: &str) -> (r:
    Option<String>)
    ensures
        opt_view(r) == (match reflog_of(*files, worktree@, refname@) {
            Some(moves) => latest_old_of(moves),
            None => None,
        }),
{
    let entries = match read_reflog_entries(files, worktree, refname) {
        Some(entries) => entries,
        None => {
            return None;
        },
    };
    let ghost moves = views(entries@);
    let ghost wanted = |m: (Seq<char>, Seq<char>)| is_real_oid(m.0);
    let mut n: usize = entries.len();
    proof {
        assert(moves.take(n as int) =~= moves);
    }
    while n > 0
        invariant
            n <= entries@.len(),
            moves == views(entries@),
            reflog_of(*files, worktree@, refname@) == Some(moves),
            wanted == (|m: (Seq<char>, Seq<char>)| is_real_oid(m.0)),
            last_where(moves, wanted) == last_where(moves.take(n as int), wanted),
        decreases n,
    {
        proof {
            assert(moves.take(n as int).drop_last() =~= moves.take(n - 1));
            assert(moves.take(n as int).last() == entries@[n - 1]@);
        }
        if is_valid_non_zero_oid(entries[n - 1].old.as_str()) {
            return Some(entries[n - 1].old.clone());
        }
        n -= 1;
    }
    None
}

/// The source of the newest move that led to an object.
pub open spec fn old_for_new_of(moves: Seq<(Seq<char>, Seq<char>)>, new_oid: Seq<char>) -> Option<
    Seq<char>,
> {
    match last_where(moves, |m: (Seq<char>, Seq<char>)| m.1 == new_oid && is_oid(m.0)) {
        Some(m) => Some(m.0),
        None => None,
    }
}

/// The source of the newest move of a ref that led to an object.
pub fn resolve_reflog_old_oid_for_ref_new_oid_in_worktree(
    files: &FileTree,
    worktree: &str,
    refname: &str,
    new_oid: &str,
) -> (r: Option<String>)
    ensures
        opt_view(r) == (match reflog_of(*files, worktree@, refname@) {
            Some(moves) => if is_oid(new_oid@) {
                old_for_new_of(moves, new_oid@)
            } else {
                None
            },
            None => None,
        }),
{
    if !is_valid_git_oid(new_oid) {
        return None;
    }
    let entries = match read_reflog_entries(files, worktree, refname) {
        Some(entries) => entries,
        None => {
            return None;
        },
    };
    let ghost moves = views(entries@);
    let ghost wanted = |m: (Seq<char>, Seq<char>)| m.1 == new_oid@ && is_oid(m.0);
    let mut n: usize = entries.len();
    proof {
        assert(moves.take(n as int) =~= moves);
    }
    while n > 0
        invariant
            n <= entries@.len(),
            moves == views(entries@),
            is_oid(new_oid@),
            reflog_of(*files, worktree@, refname@) == Some(moves),
            wanted == (|m: (Seq<char>, Seq<char>)| m.1 == new_oid@ && is_oid(m.0)),
            last_where(moves, wanted) == last_where(moves.take(n as int), wanted),
        decreases n,
    {
        proof {
            assert(moves.take(n as int).drop_last() =~= moves.take(n - 1));
            assert(moves.take(n as int).last() == entries@[n - 1]@);
        }
        if str_eq(entries[n - 1].new.as_str(), new_oid) && is_valid_git_oid(
            entries[n - 1].old.as_str(),
        ) {
            return Some(entries[n - 1].old.clone());
        }
        n -= 1;
    }
    None
}

// -------------------------------------------------------------- squash sources

/// The first line, trimmed, that holds anything.
pub open spec fn first_text_line(rows: Seq<Seq<char>>) -> Option<Seq<char>>
    decreases rows.len(),
{
    if rows.len() == 0 {
        None
    } else if trimmed(rows[0]).len() > 0 {
        Some(trimmed(rows[0]))
    } else {
        first_text_line(rows.drop_first())
    }
}

fn find_first_text_line(contents: &str) -> (r: Option<String>)
    ensures
        opt_view(r) == first_text_line(lines_of(contents@)),
{
    let rows = lines(contents);
    let ghost all = texts(rows@);
    let mut i: usize = 0;
    proof {
        assert(all.skip(0) =~= all);
    }
    while i < rows.len()
        invariant
            i <= rows@.len(),
            all == texts(rows@),
            all == lines_of(contents@),
            first_text_line(all) == first_text_line(all.skip(i as int)),
        decreases rows.len() - i,
    {
        let line = trim(rows[i].as_str());
        proof {
            assert(all.skip(i as int)[0] == rows@[i as int]@);
            assert(all.skip(i as int).drop_first() =~= all.skip(i + 1));
        }
        if !line.as_str().is_empty() {
            return Some(line);
        }
        i += 1;
    }
    None
}

/// The object id that a line of the form `commit <oid> ...` names.
pub open spec fn commit_line_oid(line: Seq<char>) -> Option<Seq<char>> {
    let t = trim_start_of(line);
    if has_prefix(t, "commit "@) {
        let parts = words_of(t.skip("commit "@.len() as int));
        if parts.len() > 0 && is_oid(parts[0]) {
            Some(parts[0])
        } else {
            None
        }
    } else {
        None
    }
}

/// The object id that the first `commit <oid>` line names.
pub open spec fn first_commit_line(rows: Seq<Seq<char>>) -> Option<Seq<char>>
    decreases rows.len(),
{
    if rows.len() == 0 {
        None
    } else if commit_line_oid(rows[0]) is Some {
        commit_line_oid(rows[0])
    } else {
        first_commit_line(rows.drop_first())
    }
}

fn find_first_commit_line(contents: &str) -> (r: Option<String>)
    ensures
        opt_view(r) == first_commit_line(lines_of(contents@)),
{
    let rows = lines(contents);
    let ghost all = texts(rows@);
    let mut i: usize = 0;
    proof {
        assert(all.skip(0) =~= all);
    }
    while i < rows.len()
        invariant
            i <= rows@.len(),
            all == texts(rows@),
            all == lines_of(contents@),
            first_commit_line(all) == first_commit_line(all.skip(i as int)),
        decreases rows.len() - i,
    {
        proof {
            assert(all.skip(i as int)[0] == rows@[i as int]@);
            assert(all.skip(i as int).drop_first() =~= all.skip(i + 1));
        }
        let line = trim_start(rows[i].as_str());
        if let Some(rest) = strip_prefix(line.as_str(), "commit ") {
            let parts = words(rest.as_str());
            if parts.len() > 0 {
                proof {
                    assert(texts(parts@)[0] == parts@[0]@);
                }
                if is_valid_git_oid(parts[0].as_str()) {
                    return Some(parts[0].clone());
                }
            }
        }
        i += 1;
    }
    None
}

/// The commit whose changes a squash brings in: the first line of `MERGE_HEAD`
/// that holds anything, where it is an object id; else the first commit that
/// `SQUASH_MSG` lists.
pub open spec fn squash_source_of(files: FileTree, git_dir: Seq<char>) -> Option<Seq<char>> {
    let merge_head = match files.text_at(joined(git_dir, "MERGE_HEAD"@)) {
        Some(contents) => first_text_line(lines_of(contents)),
        None => None,
    };
    if merge_head is Some && is_oid(merge_head->0) {
        merge_head
    } else {
        match files.text_at(joined(git_dir, "SQUASH_MSG"@)) {
            Some(contents) => first_commit_line(lines_of(contents)),
            None => None,
        }
    }
}

/// The commit whose changes a squash brings in.
pub fn resolve_squash_source_head_from_git_dir(files: &FileTree, git_dir: &str) -> (r: Option<
    String,
>)
    ensures
        opt_view(r) == squash_source_of(*files, git_dir@),
{
    if let Some(contents) = files.read_to_string(join(git_dir, "MERGE_HEAD").as_str()) {
        if let Some(candidate) = find_first_text_line(contents.as_str()) {
            if is_valid_git_oid(candidate.as_str()) {
                return Some(candidate);
            }
        }
    }
    match files.read_to_string(join(git_dir, "SQUASH_MSG").as_str()) {
        Some(contents) => find_first_commit_line(contents.as_str()),
        None => None,
    }
}

/// The commit whose changes a squash in the worktree around a path brings in.
pub fn resolve_squash_source_head_for_worktree(files: &FileTree, worktree: &str) -> (r: Option<
    String,
>)
    ensures
        opt_view(r) == (match git_dir_of(*files, worktree@) {
            Some(dir) => squash_source_of(*files, dir),
            None => None,
        }),
{
    match git_dir_for_worktree(files, worktree) {
        Some(dir) => resolve_squash_source_head_from_git_dir(files, dir.as_str()),
        None => None,
    }
}

// --------------------------------------------------------- the reflog of HEAD

/// One move of `HEAD` and what caused it.
pub struct HeadReflogTransition {
    pub old: String,
    pub new: String,
    pub message: String,
}

/// The texts of a move of `HEAD`.
pub struct TransitionView {
    pub old: Seq<char>,
    pub new: Seq<char>,
    pub message: Seq<char>,
}

impl View for HeadReflogTransition {
    type V = TransitionView;

    open spec fn view(&self) -> TransitionView {
        TransitionView { old: self.old@, new: self.new@, message: self.message@ }
    }
}

/// The move that a line of the reflog of `HEAD` records. The words stand before
/// the first tab, the message behind it.
pub open spec fn transition_of(line: Seq<char>) -> Option<TransitionView> {
    let (head, message) = match split_once_of(line, "\t"@) {
        Some((head, message)) => (head, trimmed(message)),
        None => (line, ""@),
    };
    let parts = words_of(head);
    if parts.len() >= 2 && is_oid(trimmed(parts[0])) && is_oid(trimmed(parts[1])) {
        Some(TransitionView { old: trimmed(parts[0]), new: trimmed(parts[1]), message })
    } else {
        None
    }
}

/// The moves that lines of the reflog of `HEAD` record, those that lead nowhere
/// among them where `include_noop` says so.
pub open spec fn transitions_of(rows: Seq<Seq<char>>, include_noop: bool) -> Seq<TransitionView>
    decreases rows.len(),
{
    if rows.len() == 0 {
        seq![]
    } else {
        let before = transitions_of(rows.drop_last(), include_noop);
        match transition_of(rows.last()) {
            Some(t) => if include_noop || t.old != t.new {
                before.push(t)
            } else {
                before
            },
            None => before,
        }
    }
}

fn parse_transition(line: &str) -> (r: Option<HeadReflogTransition>)
    ensures
        opt_view(r) == transition_of(line@),
{
    let (head, message) = match split_once(line, "\t") {
        Some((head, message)) => (head, trim(message.as_str())),
        None => (line.to_owned(), "".to_owned()),
    };
    let parts = words(head.as_str());
    if parts.len() < 2 {
        return None;
    }
    proof {
        assert(texts(parts@)[0] == parts@[0]@);
        assert(texts(parts@)[1] == parts@[1]@);
    }
    let old = trim(parts[0].as_str());
    let new = trim(parts[1].as_str());
    if is_valid_git_oid(old.as_str()) && is_valid_git_oid(new.as_str()) {
        Some(HeadReflogTransition { old, new, message })
    } else {
        None
    }
}

/// The moves that a reflog of `HEAD` records.
pub fn parse_head_reflog_transitions(contents: &str, include_noop: bool) -> (r: Vec<
    HeadReflogTransition,
>)
    ensures
        views(r@) == transitions_of(lines_of(contents@), include_noop),
{
    let rows = lines(contents);
    let ghost all = texts(rows@);
    let mut out: Vec<HeadReflogTransition> = Vec::new();
    let mut i: usize = 0;
    proof {
        assert(all.take(0) =~= seq![]);
        assert(views(out@) =~= seq![]);
    }
    while i < rows.len()
        invariant
            i <= rows@.len(),
            all == texts(rows@),
            views(out@) == transitions_of(all.take(i as int), include_noop),
        decreases rows.len() - i,
    {
        proof {
            assert(all.take(i + 1).drop_last() =~= all.take(i as int));
            assert(all.take(i + 1).last() == rows@[i as int]@);
        }
        if let Some(t) = parse_transition(rows[i].as_str()) {
            if include_noop || !str_eq(t.old.as_str(), t.new.as_str()) {
                proof {
                    lemma_views_push(out@, t);
                }
                out.push(t);
            }
        }
        i += 1;
    }
    proof {
        assert(all.take(i as int) =~= all);
    }
    out
}

/// The path of the reflog of `HEAD` in a git directory.
pub open spec fn head_log_path(git_dir: Seq<char>) -> Seq<char> {
    joined(joined(git_dir, "logs"@), "HEAD"@)
}

/// The moves of the `HEAD` of the worktree around a path; `None` where its reflog
/// cannot be read.
pub open spec fn head_transitions_of(files: FileTree, worktree: Seq<char>, include_noop: bool)
    -> Option<Seq<TransitionView>> {
    match git_dir_of(files, worktree) {
        Some(dir) => match files.text_at(head_log_path(dir)) {
            Some(contents) => Some(transitions_of(lines_of(contents), include_noop)),
            None => None,
        },
        None => None,
    }
}

/// What is said where the reflog of `HEAD` cannot be read.
pub open spec fn head_transitions_error(files: FileTree, worktree: Seq<char>) -> Seq<char> {
    match git_dir_of(files, worktree) {
        Some(dir) => "failed to read HEAD reflog for worktree "@ + worktree + " at "@
            + head_log_path(dir) + ": "@ + files.cause_at(head_log_path(dir)),
        None => "missing gitdir for worktree while reading HEAD reflog: "@ + worktree,
    }
}

/// The moves of the `HEAD` of the worktree around a path.
pub fn read_head_reflog_transitions_for_worktree(
    files: &FileTree,
    worktree: &str,
    include_noop: bool,
) -> (r: Result<Vec<HeadReflogTransition>, GitAiError>)
    ensures
        match r {
            Ok(ts) => head_transitions_of(*files, worktree@, include_noop) == Some(views(ts@)),
            Err(e) => head_transitions_of(*files, worktree@, include_noop) is None && e@
                == head_transitions_error(*files, worktree@),
        },
{
    let git_dir = match git_dir_for_worktree(files, worktree) {
        Some(dir) => dir,
        None => {
            let mut m = "missing gitdir for worktree while reading HEAD reflog: ".to_owned();
            m.append(worktree);
            return Err(GitAiError::Generic(m));
        },
    };
    let logs = join(git_dir.as_str(), "logs");
    let path = join(logs.as_str(), "HEAD");
    match files.read_to_string(path.as_str()) {
        Some(contents) => Ok(parse_head_reflog_transitions(contents.as_str(), include_noop)),
        None => {
            let mut m = "failed to read HEAD reflog for worktree ".to_owned();
            m.append(worktree);
            m.append(" at ");
            m.append(path.as_str());
            m.append(": ");
            m.append(files.cause(path.as_str()).as_str());
            Err(GitAiError::Generic(m))
        },
    }
}

/// The source of the newest of the moves of `HEAD` that led to an object.
pub open spec fn head_old_for_new(ts: Seq<TransitionView>, new_oid: Seq<char>) -> Option<
    Seq<char>,
> {
    match last_where(ts, |t: TransitionView| t.new == new_oid && is_oid(t.old)) {
        Some(t) => Some(t.old),
        None => None,
    }
}

/// The source of the newest move of a worktree's `HEAD` that led to an object.
pub fn resolve_worktree_head_reflog_old_oid_for_new_head(
    files: &FileTree,
    worktree: &str,
    new_oid: &str,
) -> (r: Result<Option<String>, GitAiError>)
    ensures
        match r {
            Ok(old) => if is_oid(new_oid@) {
                head_transitions_of(*files, worktree@, false) matches Some(ts) && opt_view(old)
                    == head_old_for_new(ts, new_oid@)
            } else {
                old is None
            },
            Err(e) => is_oid(new_oid@) && head_transitions_of(*files, worktree@, false) is None
                && e@ == head_transitions_error(*files, worktree@),
        },
{
    if !is_valid_git_oid(new_oid) {
        return Ok(None);
    }
    let found = match read_head_reflog_transitions_for_worktree(files, worktree, false) {
        Ok(found) => found,
        Err(e) => {
            return Err(e);
        },
    };
    let ghost ts = views(found@);
    let ghost wanted = |t: TransitionView| t.new == new_oid@ && is_oid(t.old);
    let mut n: usize = found.len();
    proof {
        assert(ts.take(n as int) =~= ts);
    }
    while n > 0
        invariant
            n <= found@.len(),
            ts == views(found@),
            is_oid(new_oid@),
            head_transitions_of(*files, worktree@, false) == Some(ts),
            wanted == (|t: TransitionView| t.new == new_oid@ && is_oid(t.old)),
            last_where(ts, wanted) == last_where(ts.take(n as int), wanted),
        decreases n,
    {
        proof {
            assert(ts.take(n as int).drop_last() =~= ts.take(n - 1));
            assert(ts.take(n as int).last() == found@[n - 1]@);
        }
        if str_eq(found[n - 1].new.as_str(), new_oid) && is_valid_git_oid(
            found[n - 1].old.as_str(),
        ) {
            return Ok(Some(found[n - 1].old.clone()));
        }
        n -= 1;
    }
    Ok(None)
}

// ---------------------------------------------------------------- commit chains

/// The newest of the first `before` moves that leads to an object.
pub open spec fn last_move_to(ts: Seq<TransitionView>, before: int, target: Seq<char>) -> Option<
    int,
>
    decreases before,
{
    if before <= 0 {
        None
    } else if ts[before - 1].new == target {
        Some(before - 1)
    } else {
        last_move_to(ts, before - 1, target)
    }
}

/// Whether a move's message holds a fragment, where one is asked for.
pub open spec fn mentions(t: TransitionView, fragment: Option<Seq<char>>) -> bool {
    fragment matches Some(f) ==> find_of(t.message, f) is Some
}

/// The chain of `count` moves that ends with the move at `end`: where it starts
/// from, and the objects that it leads to, oldest first. Before each move stands
/// the newest earlier one that leads to where the move starts from.
pub open spec fn chain_of(
    ts: Seq<TransitionView>,
    end: int,
    count: nat,
    fragment: Option<Seq<char>>,
) -> Option<(Seq<char>, Seq<Seq<char>>)>
    decreases count,
{
    if !(0 <= end < ts.len()) || count == 0 || !mentions(ts[end], fragment) {
        None
    } else if count == 1 {
        Some((ts[end].old, seq![ts[end].new]))
    } else {
        match last_move_to(ts, end, ts[end].old) {
            Some(k) => match chain_of(ts, k, (count - 1) as nat, fragment) {
                Some((start, chain)) => Some((start, chain.push(ts[end].new))),
                None => None,
            },
            None => None,
        }
    }
}

fn find_last_move_to(ts: &Vec<HeadReflogTransition>, before: usize, target: &str) -> (r: Option<
    usize,
>)
    requires
        before <= ts@.len(),
    ensures
        match r {
            Some(k) => k < before && last_move_to(views(ts@), before as int, target@) == Some(
                k as int,
            ),
            None => last_move_to(views(ts@), before as int, target@) is None,
        },
{
    let mut n: usize = before;
    while n > 0
        invariant
            n <= before <= ts@.len(),
            last_move_to(views(ts@), before as int, target@) == last_move_to(
                views(ts@),
                n as int,
                target@,
            ),
        decreases n,
    {
        proof {
            assert(views(ts@)[n - 1] == ts@[n - 1]@);
        }
        if str_eq(ts[n - 1].new.as_str(), target) {
            return Some(n - 1);
        }
        n -= 1;
    }
    None
}

/// The text of an optional string slice.
pub open spec fn opt_str(s: Option<&str>) -> Option<Seq<char>> {
    match s {
        Some(t) => Some(t@),
        None => None,
    }
}

fn reversed(v: &Vec<String>) -> (r: Vec<String>)
    ensures
        texts(r@) == texts(v@).reverse(),
{
    let mut r: Vec<String> = Vec::new();
    let mut n: usize = v.len();
    while n > 0
        invariant
            n <= v@.len(),
            r@.len() == v@.len() - n,
            forall|k: int| 0 <= k < r@.len() ==> #[trigger] r@[k]@ == v@[v@.len() - 1 - k]@,
        decreases n,
    {
        r.push(v[n - 1].clone());
        n -= 1;
    }
    proof {
        assert(texts(r@) =~= texts(v@).reverse());
    }
    r
}

/// The chain of moves that ends with a given move.
pub fn try_resolve_linear_head_chain(
    transitions: &Vec<HeadReflogTransition>,
    end_index: usize,
    expected_count: usize,
    message_fragment: Option<&str>,
) -> (r: Option<(String, Vec<String>)>)
    ensures
        match r {
            Some((start, chain)) => chain_of(
                views(transitions@),
                end_index as int,
                expected_count as nat,
                opt_str(message_fragment),
            ) == Some((start@, texts(chain@))),
            None => chain_of(
                views(transitions@),
                end_index as int,
                expected_count as nat,
                opt_str(message_fragment),
            ) is None,
        },
{
    let ghost ts = views(transitions@);
    let ghost f = opt_str(message_fragment);
    let ghost whole = chain_of(ts, end_index as int, expected_count as nat, f);
    if expected_count == 0 {
        return None;
    }
    let mut out: Vec<String> = Vec::new();
    let mut left: usize = expected_count;
    let mut cursor: usize = end_index;
    proof {
        let rest = chain_of(ts, cursor as int, left as nat, f);
        if rest is Some {
            assert((rest->0).1 + texts(out@).reverse() =~= (rest->0).1);
        }
    }
    loop
        invariant
            left > 0,
            ts == views(transitions@),
            f == opt_str(message_fragment),
            whole == (match chain_of(ts, cursor as int, left as nat, f) {
                Some((start, chain)) => Some((start, chain + texts(out@).reverse())),
                None => None,
            }),
            whole == chain_of(
                views(transitions@),
                end_index as int,
                expected_count as nat,
                opt_str(message_fragment),
            ),
        decreases left,
    {
        if cursor >= transitions.len() {
            return None;
        }
        let current = &transitions[cursor];
        proof {
            assert(ts[cursor as int] == current@);
        }
        if let Some(fragment) = message_fragment {
            if !contains(current.message.as_str(), fragment) {
                return None;
            }
        }
        let ghost before = texts(out@);
        let ghost tail = current.new@;
        out.push(current.new.clone());
        proof {
            assert(texts(out@) =~= before.push(tail));
            assert(texts(out@).reverse() =~= seq![tail] + before.reverse());
        }
        if left == 1 {
            let chain = reversed(&out);
            return Some((current.old.clone(), chain));
        }
        match find_last_move_to(transitions, cursor, current.old.as_str()) {
            Some(k) => {
                proof {
                    let rest = chain_of(ts, k as int, (left - 1) as nat, f);
                    if rest is Some {
                        assert((rest->0).1.push(tail) + before.reverse() =~= (rest->0).1 + texts(
                            out@,
                        ).reverse());
                    }
                }
                cursor = k;
            },
            None => {
                return None;
            },
        }
        left -= 1;
    }
}

/// The chains of `count` moves that end with a move to an object, among the
/// first `n` moves.
pub open spec fn chains_to(
    ts: Seq<TransitionView>,
    n: int,
    new_head: Seq<char>,
    count: nat,
    fragment: Option<Seq<char>>,
) -> Seq<(Seq<char>, Seq<Seq<char>>)>
    decreases n,
{
    if n <= 0 {
        seq![]
    } else {
        let before = chains_to(ts, n - 1, new_head, count, fragment);
        if ts[n - 1].new != new_head {
            before
        } else {
            match chain_of(ts, n - 1, count, fragment) {
                Some(chain) => before.push(chain),
                None => before,
            }
        }
    }
}

/// What is said where a chain of commits cannot be told.
pub open spec fn chain_error(
    files: FileTree,
    worktree: Seq<char>,
    new_head: Seq<char>,
    count: nat,
    fragment: Option<Seq<char>>,
) -> Seq<char> {
    if count == 0 {
        "cannot resolve HEAD reflog chain with zero expected commits"@
    } else if !is_oid(new_head) {
        "invalid HEAD reflog chain bound new="@ + new_head
    } else {
        match head_transitions_of(files, worktree, false) {
            None => head_transitions_error(files, worktree),
            Some(ts) => {
                let chains = chains_to(ts, ts.len() as int, new_head, count, fragment);
                if ts.len() == 0 {
                    "HEAD reflog is empty or missing valid transitions for worktree "@ + worktree
                } else if chains.len() == 0 {
                    "failed to reconstruct HEAD reflog chain for worktree "@ + worktree + " new="@
                        + new_head + " expected_count="@ + decimal_of(count)
                } else {
                    "ambiguous HEAD reflog chain for worktree "@ + worktree + " new="@ + new_head
                        + " expected_count="@ + decimal_of(count) + " candidates="@ + decimal_of(
                        chains.len(),
                    )
                }
            },
        }
    }
}

/// The chain of commits that led a worktree's `HEAD` to an object, where its
/// reflog tells exactly one.
pub fn resolve_linear_head_commit_chain_for_worktree(
    files: &FileTree,
    worktree: &str,
    new_head: &str,
    expected_count: usize,
    message_fragment: Option<&str>,
) -> (r: Result<(String, Vec<String>), GitAiError>)
    ensures
        match r {
            Ok((start, chain)) => expected_count > 0 && is_oid(new_head@) && (head_transitions_of(
                *files,
                worktree@,
                false,
            ) matches Some(ts) && chains_to(
                ts,
                ts.len() as int,
                new_head@,
                expected_count as nat,
                opt_str(message_fragment),
            ) == seq![(start@, texts(chain@))]),
            Err(e) => (expected_count == 0 || !is_oid(new_head@) || (match head_transitions_of(
                *files,
                worktree@,
                false,
            ) {
                Some(ts) => chains_to(
                    ts,
                    ts.len() as int,
                    new_head@,
                    expected_count as nat,
                    opt_str(message_fragment),
                ).len() != 1,
                None => true,
            })) && e@ == chain_error(
                *files,
                worktree@,
                new_head@,
                expected_count as nat,
                opt_str(message_fragment),
            ),
        },
{
    if expected_count == 0 {
        return Err(
            GitAiError::Generic(
                "cannot resolve HEAD reflog chain with zero expected commits".to_owned(),
            ),
        );
    }
    if !is_valid_git_oid(new_head) {
        let mut m = "invalid HEAD reflog chain bound new=".to_owned();
        m.append(new_head);
        return Err(GitAiError::Generic(m));
    }
    let transitions = match read_head_reflog_transitions_for_worktree(files, worktree, false) {
        Ok(transitions) => transitions,
        Err(e) => {
            return Err(e);
        },
    };
    let ghost ts = views(transitions@);
    let ghost f = opt_str(message_fragment);
    if transitions.len() == 0 {
        let mut m =
            "HEAD reflog is empty or missing valid transitions for worktree ".to_owned();
        m.append(worktree);
        return Err(GitAiError::Generic(m));
    }
    let mut found: Vec<(String, Vec<String>)> = Vec::new();
    let mut i: usize = 0;
    while i < transitions.len()
        invariant
            i <= transitions@.len(),
            expected_count > 0,
            ts == views(transitions@),
            f == opt_str(message_fragment),
            chains_to(ts, i as int, new_head@, expected_count as nat, f).len() == found@.len(),
            forall|k: int|
                0 <= k < found@.len() ==> #[trigger] chains_to(
                    ts,
                    i as int,
                    new_head@,
                    expected_count as nat,
                    f,
                )[k] == (found@[k].0@, texts(found@[k].1@)),
        decreases transitions.len() - i,
    {
        proof {
            assert(ts[i as int] == transitions@[i as int]@);
        }
        if str_eq(transitions[i].new.as_str(), new_head) {
            if let Some(chain) = try_resolve_linear_head_chain(
                &transitions,
                i,
                expected_count,
                message_fragment,
            ) {
                found.push(chain);
            }
        }
        i += 1;
    }
    let count: usize = found.len();
    if count == 1 {
        proof {
            let chains = chains_to(ts, ts.len() as int, new_head@, expected_count as nat, f);
            assert(chains[0] == (found@[0].0@, texts(found@[0].1@)));
            assert(chains =~= seq![(found@[0].0@, texts(found@[0].1@))]);
        }
        return Ok(found.remove(0));
    }
    let mut m = if count == 0 {
        "failed to reconstruct HEAD reflog chain for worktree ".to_owned()
    } else {
        "ambiguous HEAD reflog chain for worktree ".to_owned()
    };
    m.append(worktree);
    m.append(" new=");
    m.append(new_head);
    m.append(" expected_count=");
    m.append(decimal(expected_count as u64).as_str());
    if count > 0 {
        m.append(" candidates=");
        m.append(decimal(count as u64).as_str());
    }
    Err(GitAiError::Generic(m))
}

/// A chain has as many commits as were asked for, ends with the move's target,
/// and each of its steps is a recorded move.
pub proof fn law_chain_is_linked(
    ts: Seq<TransitionView>,
    end: int,
    count: nat,
    fragment: Option<Seq<char>>,
)
    ensures
        chain_of(ts, end, count, fragment) matches Some((start, chain)) ==> {
            &&& chain.len() == count
            &&& chain.last() == ts[end].new
            &&& forall|i: int|
                0 <= i < count ==> exists|k: int|
                    0 <= k < ts.len() && (#[trigger] ts[k]).new == #[trigger] chain[i] && ts[k].old
                        == (if i == 0 {
                        start
                    } else {
                        chain[i - 1]
                    }) && mentions(ts[k], fragment)
        },
    decreases count,
{
    if let Some((start, chain)) = chain_of(ts, end, count, fragment) {
        if count > 1 {
            let k0 = last_move_to(ts, end, ts[end].old)->0;
            lemma_last_move_to(ts, end, ts[end].old);
            law_chain_is_linked(ts, k0, (count - 1) as nat, fragment);
            let (start1, chain1) = chain_of(ts, k0, (count - 1) as nat, fragment)->0;
            assert forall|i: int| 0 <= i < count implies exists|k: int|
                0 <= k < ts.len() && (#[trigger] ts[k]).new == #[trigger] chain[i] && ts[k].old == (
                if i == 0 {
                    start
                } else {
                    chain[i - 1]
                }) && mentions(ts[k], fragment) by {
                if i < count - 1 {
                    assert(chain[i] == chain1[i]);
                } else {
                    assert(ts[end].new == chain[i]);
                    assert(chain[i - 1] == chain1.last());
                }
            }
        } else {
            assert(ts[end].new == chain[0]);
        }
    }
}

proof fn lemma_last_move_to(ts: Seq<TransitionView>, before: int, target: Seq<char>)
    ensures
        last_move_to(ts, before, target) matches Some(k) ==> 0 <= k < before && ts[k].new == target,
    decreases before,
{
    if before > 0 && ts[before - 1].new != target {
        lemma_last_move_to(ts, before - 1, target);
    }
}

// --------------------------------------------------------------------- rebases

/// A rebase that the reflog of `HEAD` shows from start to finish.
pub struct RebaseReflogSegment {
    pub original_head: String,
    pub onto_head: String,
    pub new_head: String,
    pub action_prefix: String,
    pub start_target: String,
    pub finish_target: Option<String>,
}

/// The texts of a rebase.
pub struct SegmentView {
    pub original_head: Seq<char>,
    pub onto_head: Seq<char>,
    pub new_head: Seq<char>,
    pub action_prefix: Seq<char>,
    pub start_target: Seq<char>,
    pub finish_target: Option<Seq<char>>,
}

impl View for RebaseReflogSegment {
    type V = SegmentView;

    open spec fn view(&self) -> SegmentView {
        SegmentView {
            original_head: self.original_head@,
            onto_head: self.onto_head@,
            new_head: self.new_head@,
            action_prefix: self.action_prefix@,
            start_target: self.start_target@,
            finish_target: opt_view(self.finish_target),
        }
    }
}

/// The action and the target that a message about the start of a rebase names.
pub open spec fn rebase_start_of(message: Seq<char>) -> Option<(Seq<char>, Seq<char>)> {
    match split_once_of(message, " (start): checkout "@) {
        Some((a, b)) => {
            let prefix = trimmed(a);
            let target = trimmed(b);
            if (prefix != "rebase"@ && !has_prefix(prefix, "pull"@)) || target.len() == 0 {
                None
            } else {
                Some((prefix, target))
            }
        },
        None => None,
    }
}

/// The action and the target that a message about the start of a rebase names.
pub fn rebase_like_start(message: &str) -> (r: Option<(String, String)>)
    ensures
        match r {
            Some((prefix, target)) => rebase_start_of(message@) == Some((prefix@, target@)),
            None => rebase_start_of(message@) is None,
        },
{
    match split_once(message, " (start): checkout ") {
        Some((a, b)) => {
            let prefix = trim(a.as_str());
            if !str_eq(prefix.as_str(), "rebase") && !starts_with(prefix.as_str(), "pull") {
                return None;
            }
            let target = trim(b.as_str());
            if target.as_str().is_empty() {
                return None;
            }
            Some((prefix, target))
        },
        None => None,
    }
}

/// The target that a message about the finish of a rebase names.
pub open spec fn rebase_finish_of(message: Seq<char>, action_prefix: Seq<char>) -> Option<
    Seq<char>,
> {
    let prefix = action_prefix + " (finish): returning to "@;
    if has_prefix(message, prefix) && trimmed(message.skip(prefix.len() as int)).len() > 0 {
        Some(trimmed(message.skip(prefix.len() as int)))
    } else {
        None
    }
}

/// The target that a message about the finish of a rebase names.
pub fn rebase_like_finish_target(message: &str, action_prefix: &str) -> (r: Option<String>)
    ensures
        opt_view(r) == rebase_finish_of(message@, action_prefix@),
{
    let prefix = crate::text::concat(action_prefix, " (finish): returning to ");
    match strip_prefix(message, prefix.as_str()) {
        Some(rest) => {
            let target = trim(rest.as_str());
            if target.as_str().is_empty() {
                None
            } else {
                Some(target)
            }
        },
        None => None,
    }
}

/// The target of the finish of a rebase. A rebase that a pull began may be
/// finished by a plain rebase.
pub open spec fn segment_finish_of(message: Seq<char>, action_prefix: Seq<char>) -> Option<
    Seq<char>,
> {
    if rebase_finish_of(message, action_prefix) is Some {
        rebase_finish_of(message, action_prefix)
    } else if has_prefix(action_prefix, "pull"@) {
        rebase_finish_of(message, "rebase"@)
    } else {
        None
    }
}

/// Whether a message tells of a step of a rebase.
pub open spec fn is_rebase_step(message: Seq<char>, action_prefix: Seq<char>) -> bool {
    has_prefix(message, action_prefix + " ("@) || (has_prefix(action_prefix, "pull"@)
        && has_prefix(message, "rebase ("@))
}

/// What the moves from `at` on tell about a rebase under way: where it finished
/// and its new head, if it did; and the first move behind it.
pub open spec fn segment_end(
    ts: Seq<TransitionView>,
    at: int,
    action_prefix: Seq<char>,
    new_head: Seq<char>,
) -> (Option<(Seq<char>, Seq<char>)>, int)
    decreases ts.len() - at,
{
    if !(0 <= at < ts.len()) || rebase_start_of(ts[at].message) is Some {
        (None, at)
    } else {
        let t = ts[at];
        let moved = t.old != t.new;
        match segment_finish_of(t.message, action_prefix) {
            Some(target) => (
                Some(
                    (
                        target,
                        if moved {
                            t.new
                        } else {
                            new_head
                        },
                    ),
                ),
                at + 1,
            ),
            None => segment_end(
                ts,
                at + 1,
                action_prefix,
                if moved && is_rebase_step(t.message, action_prefix) {
                    t.new
                } else {
                    new_head
                },
            ),
        }
    }
}

/// A rebase ends behind its start, and within the moves that show it.
pub proof fn law_rebase_ends_behind_its_start(
    ts: Seq<TransitionView>,
    at: int,
    action_prefix: Seq<char>,
    new_head: Seq<char>,
)
    requires
        0 <= at <= ts.len(),
    ensures
        at <= segment_end(ts, at, action_prefix, new_head).1 <= ts.len(),
    decreases ts.len() - at,
{
    if at < ts.len() && rebase_start_of(ts[at].message) is None {
        let t = ts[at];
        if segment_finish_of(t.message, action_prefix) is None {
            law_rebase_ends_behind_its_start(
                ts,
                at + 1,
                action_prefix,
                if t.old != t.new && is_rebase_step(t.message, action_prefix) {
                    t.new
                } else {
                    new_head
                },
            );
        }
    }
}

/// The rebases that the moves from `at` on show from start to finish.
pub open spec fn segments_from(ts: Seq<TransitionView>, at: int) -> Seq<SegmentView>
    decreases ts.len() - at,
{
    if !(0 <= at < ts.len()) {
        seq![]
    } else {
        match rebase_start_of(ts[at].message) {
            None => segments_from(ts, at + 1),
            Some((prefix, target)) => {
                let (end, next) = segment_end(ts, at + 1, prefix, ts[at].new);
                let rest = if at < next <= ts.len() {
                    segments_from(ts, next)
                } else {
                    seq![]
                };
                match end {
                    Some((finish, new_head)) => seq![
                        SegmentView {
                            original_head: ts[at].old,
                            onto_head: ts[at].new,
                            new_head,
                            action_prefix: prefix,
                            start_target: target,
                            finish_target: Some(finish),
                        },
                    ] + rest,
                    None => rest,
                }
            },
        }
    }
}

fn find_segment_end(
    ts: &Vec<HeadReflogTransition>,
    at: usize,
    action_prefix: &str,
    new_head: &str,
) -> (r: (Option<(String, String)>, usize))
    requires
        at <= ts@.len(),
    ensures
        at <= r.1 <= ts@.len(),
        segment_end(views(ts@), at as int, action_prefix@, new_head@) == (
            match r.0 {
                Some((target, head)) => Some((target@, head@)),
                None => None,
            },
            r.1 as int,
        ),
{
    let mut head = new_head.to_owned();
    let mut cursor: usize = at;
    let is_pull = starts_with(action_prefix, "pull");
    let step_prefix = crate::text::concat(action_prefix, " (");
    while cursor < ts.len()
        invariant
            at <= cursor <= ts@.len(),
            is_pull == has_prefix(action_prefix@, "pull"@),
            step_prefix@ == action_prefix@ + " ("@,
            segment_end(views(ts@), at as int, action_prefix@, new_head@) == segment_end(
                views(ts@),
                cursor as int,
                action_prefix@,
                head@,
            ),
        decreases ts.len() - cursor,
    {
        let t = &ts[cursor];
        proof {
            assert(views(ts@)[cursor as int] == t@);
        }
        if rebase_like_start(t.message.as_str()).is_some() {
            return (None, cursor);
        }
        let moved = !str_eq(t.old.as_str(), t.new.as_str());
        let mut finish = rebase_like_finish_target(t.message.as_str(), action_prefix);
        if finish.is_none() && is_pull {
            finish = rebase_like_finish_target(t.message.as_str(), "rebase");
        }
        if let Some(target) = finish {
            if moved {
                head = t.new.clone();
            }
            return (Some((target, head)), cursor + 1);
        }
        if moved && (starts_with(t.message.as_str(), step_prefix.as_str()) || (is_pull
            && starts_with(t.message.as_str(), "rebase ("))) {
            head = t.new.clone();
        }
        cursor += 1;
    }
    (None, cursor)
}

/// The rebases that moves of `HEAD` show from start to finish.
pub fn complete_rebase_segments(transitions: &Vec<HeadReflogTransition>) -> (r: Vec<
    RebaseReflogSegment,
>)
    ensures
        views(r@) == segments_from(views(transitions@), 0),
{
    let ghost ts = views(transitions@);
    let mut segments: Vec<RebaseReflogSegment> = Vec::new();
    let mut index: usize = 0;
    proof {
        assert(views(segments@) + segments_from(ts, 0) =~= segments_from(ts, 0));
    }
    while index < transitions.len()
        invariant
            index <= transitions@.len(),
            ts == views(transitions@),
            segments_from(ts, 0) == views(segments@) + segments_from(ts, index as int),
        decreases transitions.len() - index,
    {
        proof {
            assert(ts[index as int] == transitions@[index as int]@);
        }
        match rebase_like_start(transitions[index].message.as_str()) {
            None => {
                index += 1;
            },
            Some((action_prefix, start_target)) => {
                let (end, next) = find_segment_end(
                    transitions,
                    index + 1,
                    action_prefix.as_str(),
                    transitions[index].new.as_str(),
                );
                if let Some((target, new_head)) = end {
                    let segment = RebaseReflogSegment {
                        original_head: transitions[index].old.clone(),
                        onto_head: transitions[index].new.clone(),
                        new_head,
                        action_prefix,
                        start_target,
                        finish_target: Some(target),
                    };
                    proof {
                        lemma_views_push(segments@, segment);
                        assert(views(segments@) + (seq![segment@] + segments_from(ts, next as int))
                            =~= views(segments@).push(segment@) + segments_from(ts, next as int));
                    }
                    segments.push(segment);
                }
                index = next;
            },
        }
    }
    proof {
        assert(views(segments@) + Seq::<SegmentView>::empty() =~= views(segments@));
    }
    segments
}

/// Whether a rebase's start target is the one hinted at; `refs/heads/` may stand
/// before either.
pub open spec fn targets_match(target: Seq<char>, hint: Seq<char>) -> bool {
    ||| target == hint
    ||| has_prefix(target, "refs/heads/"@) && target.skip("refs/heads/"@.len() as int) == hint
    ||| has_prefix(hint, "refs/heads/"@) && hint.skip("refs/heads/"@.len() as int) == target
}

/// Whether a rebase's start target is the one hinted at.
pub fn rebase_start_targets_match(segment_target: &str, hint: &str) -> (r: bool)
    ensures
        r == targets_match(segment_target@, hint@),
{
    if str_eq(segment_target, hint) {
        return true;
    }
    if let Some(rest) = strip_prefix(segment_target, "refs/heads/") {
        if str_eq(rest.as_str(), hint) {
            return true;
        }
    }
    if let Some(rest) = strip_prefix(hint, "refs/heads/") {
        if str_eq(rest.as_str(), segment_target) {
            return true;
        }
    }
    false
}

/// The rebase to process next: of those whose new head was not processed yet,
/// the first whose start target is the hinted one, else the first.
pub open spec fn next_segment(
    segments: Seq<SegmentView>,
    hint: Option<Seq<char>>,
    processed: Seq<Seq<char>>,
) -> Option<SegmentView> {
    let fresh = |s: SegmentView| !processed.contains(s.new_head);
    let hinted = match hint {
        Some(h) => first_where(
            segments,
            |s: SegmentView| !processed.contains(s.new_head) && targets_match(s.start_target, h),
        ),
        None => None,
    };
    if hinted is Some {
        hinted
    } else {
        first_where(segments, fresh)
    }
}

fn clone_segment(s: &RebaseReflogSegment) -> (r: RebaseReflogSegment)
    ensures
        r@ == s@,
{
    RebaseReflogSegment {
        original_head: s.original_head.clone(),
        onto_head: s.onto_head.clone(),
        new_head: s.new_head.clone(),
        action_prefix: s.action_prefix.clone(),
        start_target: s.start_target.clone(),
        finish_target: match &s.finish_target {
            Some(t) => Some(t.clone()),
            None => None,
        },
    }
}

fn pick_segment(segments: &Vec<RebaseReflogSegment>, hint: &str, processed: &[String]) -> (r: Option<
    RebaseReflogSegment,
>)
    ensures
        opt_view(r) == first_where(
            views(segments@),
            |s: SegmentView|
                !texts(processed@).contains(s.new_head) && targets_match(s.start_target, hint@),
        ),
{
    let ghost all = views(segments@);
    let ghost p = |s: SegmentView|
        !texts(processed@).contains(s.new_head) && targets_match(s.start_target, hint@);
    let mut i: usize = 0;
    proof {
        assert(all.skip(0) =~= all);
    }
    while i < segments.len()
        invariant
            i <= segments@.len(),
            all == views(segments@),
            p == (|s: SegmentView|
                !texts(processed@).contains(s.new_head) && targets_match(s.start_target, hint@)),
            first_where(all, p) == first_where(all.skip(i as int), p),
        decreases segments.len() - i,
    {
        proof {
            assert(all.skip(i as int)[0] == segments@[i as int]@);
            assert(all.skip(i as int).drop_first() =~= all.skip(i + 1));
        }
        if !list_contains(processed, segments[i].new_head.as_str()) && rebase_start_targets_match(
            segments[i].start_target.as_str(),
            hint,
        ) {
            return Some(clone_segment(&segments[i]));
        }
        i += 1;
    }
    None
}

fn pick_first_fresh(segments: &Vec<RebaseReflogSegment>, processed: &[String]) -> (r: Option<
    RebaseReflogSegment,
>)
    ensures
        opt_view(r) == first_where(
            views(segments@),
            |s: SegmentView| !texts(processed@).contains(s.new_head),
        ),
{
    let ghost all = views(segments@);
    let ghost p = |s: SegmentView| !texts(processed@).contains(s.new_head);
    let mut i: usize = 0;
    proof {
        assert(all.skip(0) =~= all);
    }
    while i < segments.len()
        invariant
            i <= segments@.len(),
            all == views(segments@),
            p == (|s: SegmentView| !texts(processed@).contains(s.new_head)),
            first_where(all, p) == first_where(all.skip(i as int), p),
        decreases segments.len() - i,
    {
        proof {
            assert(all.skip(i as int)[0] == segments@[i as int]@);
            assert(all.skip(i as int).drop_first() =~= all.skip(i + 1));
        }
        if !list_contains(processed, segments[i].new_head.as_str()) {
            return Some(clone_segment(&segments[i]));
        }
        i += 1;
    }
    None
}

/// The next rebase to process in a worktree.
pub fn resolve_rebase_segment_for_worktree(
    files: &FileTree,
    worktree: &str,
    start_target_hint: Option<&str>,
    already_processed_new_heads: &[String],
) -> (r: Result<Option<RebaseReflogSegment>, GitAiError>)
    ensures
        match r {
            Ok(segment) => head_transitions_of(*files, worktree@, true) matches Some(ts)
                && opt_view(segment) == next_segment(
                segments_from(ts, 0),
                opt_str(start_target_hint),
                texts(already_processed_new_heads@),
            ),
            Err(e) => head_transitions_of(*files, worktree@, true) is None && e@
                == head_transitions_error(*files, worktree@),
        },
{
    let transitions = match read_head_reflog_transitions_for_worktree(files, worktree, true) {
        Ok(transitions) => transitions,
        Err(e) => {
            return Err(e);
        },
    };
    let segments = complete_rebase_segments(&transitions);
    if let Some(hint) = start_target_hint {
        let picked = pick_segment(&segments, hint, already_processed_new_heads);
        if picked.is_some() {
            return Ok(picked);
        }
    }
    Ok(pick_first_fresh(&segments, already_processed_new_heads))
}

} // verus!
