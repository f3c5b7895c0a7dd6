//! What reading a repository's files promises, stated over what stands in them.
use vstd::prelude::*;

use crate::file_tree::FileTree;
use crate::git::repo_state::{
    HeadKind, RepoSnapshot, SegmentView, TransitionView, chain_error, chain_of, chains_to,
    commit_line_oid, common_dir_of, common_dir_of_path, common_dir_of_worktree, first_commit_line,
    first_text_line, git_dir_of, head_log_path, head_old_for_new, head_state_of,
    head_transitions_error, head_transitions_of, is_oid, is_real_oid, is_rebase_step, last_move_to,
    latest_old_of, law_rebase_ends_behind_its_start, mentions, next_segment, old_for_new_of,
    rebase_finish_of, rebase_start_of, ref_oid_of, ref_oid_of_worktree, reflog_entries_of,
    reflog_of, segment_end, segment_finish_of, segments_from, squash_source_of, stash_index_of,
    stash_target_of, targets_match, transition_of, transitions_of, worktree_root_of,
};
use crate::model::{first_where, last_where};
use crate::paths::{file_name_of, is_absolute_path, joined, parent_of};
use crate::text::{
    decimal_of, find_of, has_prefix, has_suffix, lines_of, occurs_at, split_of, split_once_of,
    trim_start_of, trimmed, unsigned_of, words_of,
};
use crate::text_laws::{law_name_and_parent, law_no_split, law_split_once, law_split_once_at};

verus! {

// --------------------------------------------------------------------------- the first and the last

/// The first item that satisfies a condition: one that does, with none before it that does.
pub proof fn law_first_where<T>(s: Seq<T>, p: spec_fn(T) -> bool)
    ensures
        match first_where(s, p) {
            Some(x) => exists|i: int| 0 <= i < s.len() && x == #[trigger] s[i] && p(x) && (forall|j: int| 0 <= j < i ==> !p(#[trigger] s[j])),
            None => forall|j: int| 0 <= j < s.len() ==> !p(#[trigger] s[j]),
        },
    decreases s.len(),
{
    if s.len() > 0 {
        if p(s[0]) {
            assert(first_where(s, p) == Some(s[0]));
        } else {
            let rest = s.drop_first();
            law_first_where(rest, p);
            match first_where(rest, p) {
                Some(x) => {
                    let i = choose|i: int| 0 <= i < rest.len() && x == #[trigger] rest[i] && p(x) && (forall|j: int| 0 <= j < i ==> !p(#[trigger] rest[j]));
                    assert(s[i + 1] == x);
                    assert forall|j: int| 0 <= j < i + 1 implies !p(#[trigger] s[j]) by {
                        if j > 0 {
                            assert(rest[j - 1] == s[j]);
                        }
                    }
                },
                None => {
                    assert forall|j: int| 0 <= j < s.len() implies !p(#[trigger] s[j]) by {
                        if j > 0 {
                            assert(rest[j - 1] == s[j]);
                        }
                    }
                },
            }
        }
    }
}

/// The last item that satisfies a condition: one that does, with none behind it that does.
pub proof fn law_last_where<T>(s: Seq<T>, p: spec_fn(T) -> bool)
    ensures
        match last_where(s, p) {
            Some(x) => exists|i: int| 0 <= i < s.len() && x == #[trigger] s[i] && p(x) && (forall|j: int| i < j < s.len() ==> !p(#[trigger] s[j])),
            None => forall|j: int| 0 <= j < s.len() ==> !p(#[trigger] s[j]),
        },
    decreases s.len(),
{
    if s.len() > 0 {
        if p(s.last()) {
            assert(s[s.len() - 1] == s.last());
        } else {
            let front = s.drop_last();
            law_last_where(front, p);
            match last_where(front, p) {
                Some(x) => {
                    let i = choose|i: int| 0 <= i < front.len() && x == #[trigger] front[i] && p(x) && (forall|j: int| i < j < front.len() ==> !p(#[trigger] front[j]));
                    assert(s[i] == x);
                    assert forall|j: int| i < j < s.len() implies !p(#[trigger] s[j]) by {
                        if j < s.len() - 1 {
                            assert(front[j] == s[j]);
                        }
                    }
                },
                None => {
                    assert forall|j: int| 0 <= j < s.len() implies !p(#[trigger] s[j]) by {
                        if j < s.len() - 1 {
                            assert(front[j] == s[j]);
                        }
                    }
                },
            }
        }
    }
}

// --------------------------------------------------------------------------- ids

/// An id is forty or sixty-four hexadecimal digits; the id of an object is not all zeros.
pub proof fn law_ids(s: Seq<char>, i: int)
    ensures
        is_oid(s) ==> s.len() == 40 || s.len() == 64,
        is_oid(s) && 0 <= i < s.len() ==> ('0' <= s[i] <= '9' || 'a' <= s[i] <= 'f' || 'A' <= s[i] <= 'F'),
        (s.len() == 40 || s.len() == 64) && (forall|j: int| 0 <= j < s.len() ==> ('0' <= #[trigger] s[j] <= '9' || 'a' <= s[j] <= 'f' || 'A' <= s[j] <= 'F')) ==> is_oid(s),
        is_oid(s) && 0 <= i < s.len() && s[i] != '0' ==> is_real_oid(s),
        is_real_oid(s) ==> is_oid(s) && exists|j: int| 0 <= j < s.len() && #[trigger] s[j] != '0',
{
}

// --------------------------------------------------------------------------- directories

/// The root of a worktree holds `.git`; it is the nearest directory upward that does.
pub proof fn law_root_of_a_worktree(files: FileTree, path: Seq<char>)
    ensures
        files.is_dir_at(joined(path, ".git"@)) || files.is_file_at(joined(path, ".git"@)) ==> worktree_root_of(files, path) == Some(path),
        !files.is_dir_at(joined(path, ".git"@)) && !files.is_file_at(joined(path, ".git"@)) ==> (parent_of(path) matches Some(up) ==> up.len() < path.len() ==> worktree_root_of(files, path) == worktree_root_of(files, up)),
        worktree_root_of(files, path) matches Some(root) ==> files.is_dir_at(joined(root, ".git"@)) || files.is_file_at(joined(root, ".git"@)),
    decreases path.len(),
{
    if let Some(up) = parent_of(path) {
        if up.len() < path.len() {
            law_root_of_a_worktree(files, up);
        }
    }
}

/// The git directory of a worktree is `.git` itself, or what the file `.git` points to.
pub proof fn law_git_directory(files: FileTree, root: Seq<char>, rest: Seq<char>, contents: Seq<char>)
    requires
        files.is_dir_at(joined(root, ".git"@)) || files.is_file_at(joined(root, ".git"@)),
    ensures
        files.is_dir_at(joined(root, ".git"@)) ==> git_dir_of(files, root) == Some(joined(root, ".git"@)),
        !files.is_dir_at(joined(root, ".git"@)) && files.text_at(joined(root, ".git"@)) == Some("gitdir:"@ + rest) ==> git_dir_of(files, root) == Some(joined(root, trimmed(rest))),
        !files.is_dir_at(joined(root, ".git"@)) && files.text_at(joined(root, ".git"@)) == Some(contents) && !has_prefix(contents, "gitdir:"@) ==> git_dir_of(files, root) is None,
{
    law_root_of_a_worktree(files, root);
    lemma_starts("gitdir:"@, rest);
}

proof fn lemma_starts(p: Seq<char>, rest: Seq<char>)
    ensures
        has_prefix(p + rest, p),
        (p + rest).skip(p.len() as int) == rest,
{
    assert((p + rest).take(p.len() as int) =~= p);
    assert((p + rest).skip(p.len() as int) =~= rest);
}

/// The common directory of a linked worktree is the one that holds `worktrees`; that of
/// another git directory is itself.
pub proof fn law_common_directory(common: Seq<char>, name: Seq<char>, other: Seq<char>)
    requires
        common.len() > 0,
        common.last() != '/',
        common.last() != '.',
        name.len() > 0,
        !name.contains('/'),
        name != seq!['.'],
        name != seq!['.', '.'],
        other.len() > 0,
        !other.contains('/'),
        other != seq!['.'],
        other != seq!['.', '.'],
        other != "worktrees"@,
        other.last() != '.',
    ensures
        common_dir_of(common + seq!['/'] + "worktrees"@ + seq!['/'] + name) == Some(common),
        common_dir_of(common + seq!['/'] + other + seq!['/'] + name) == Some(common + seq!['/'] + other + seq!['/'] + name),
{
    let w = "worktrees"@;
    reveal_strlit("worktrees");
    assert(w.len() == 9);
    assert(w[8] == 's');
    assert(!w.contains('/')) by {
        assert forall|i: int| 0 <= i < 9 implies w[i] != '/' by {
            assert(w[0] == 'w' && w[1] == 'o' && w[2] == 'r' && w[3] == 'k' && w[4] == 't' && w[5] == 'r' && w[6] == 'e' && w[7] == 'e' && w[8] == 's');
        }
    }
    law_name_and_parent(common, w);
    law_name_and_parent(common + seq!['/'] + w, name);
    assert(other.contains(other[other.len() - 1]));
    law_name_and_parent(common, other);
    law_name_and_parent(common + seq!['/'] + other, name);
}

/// The common directory of a path: that of its worktree, else of the git directory that it
/// is; with none of them there is none.
pub proof fn law_common_directory_of_a_path(files: FileTree, path: Seq<char>)
    ensures
        common_dir_of_worktree(files, path) is Some ==> common_dir_of_path(files, path) == common_dir_of_worktree(files, path),
        git_dir_of(files, path) is None ==> common_dir_of_worktree(files, path) is None,
        git_dir_of(files, path) matches Some(dir) ==> common_dir_of_worktree(files, path) == common_dir_of(dir),
        common_dir_of_worktree(files, path) is None && files.is_dir_at(path) && files.is_file_at(joined(path, "HEAD"@)) ==> common_dir_of_path(files, path) == common_dir_of(path),
        common_dir_of_worktree(files, path) is None && !files.is_dir_at(path) && !files.is_file_at(path) ==> common_dir_of_path(files, path) is None,
{
}

// --------------------------------------------------------------------------- refs

/// `HEAD` on a branch stands where the branch does; `HEAD` on another ref has no branch; a
/// detached one stands at its own commit.
pub proof fn law_where_head_stands(repo: RepoSnapshot, refname: String, branch: Seq<char>)
    ensures
        refname@ == "refs/heads/"@ + branch ==> head_state_of(repo, HeadKind::Symbolic(refname)) == (ref_oid_of(repo, "refs/heads/"@ + branch), Some(branch), false),
        !has_prefix(refname@, "refs/heads/"@) ==> head_state_of(repo, HeadKind::Symbolic(refname)) == (ref_oid_of(repo, refname@), None::<Seq<char>>, true),
        head_state_of(repo, HeadKind::Detached(refname)) == (Some(refname@), None::<Seq<char>>, true),
{
    lemma_starts("refs/heads/"@, branch);
}

/// A ref stands where it is written to stand, and nowhere outside a repository.
pub proof fn law_where_refs_stand(repo: RepoSnapshot, worktree: Seq<char>, refname: Seq<char>)
    ensures
        repo.refs@.dom().contains(refname) ==> ref_oid_of(repo, refname) == Some(repo.refs@[refname]@),
        !repo.refs@.dom().contains(refname) ==> ref_oid_of(repo, refname) is None,
        common_dir_of_worktree(repo.files, worktree) is Some ==> ref_oid_of_worktree(repo, worktree, refname) == ref_oid_of(repo, refname),
        common_dir_of_worktree(repo.files, worktree) is None ==> ref_oid_of_worktree(repo, worktree, refname) is None,
{
}

/// The moves of a reflog, line by line: a line with two ids is one, a line without is
/// passed over, and a line of fewer than two words makes the whole unreadable.
pub proof fn law_moves_of_a_reflog(rows: Seq<Seq<char>>, row: Seq<char>)
    ensures
        reflog_entries_of(Seq::empty()) == Some(Seq::<(Seq<char>, Seq<char>)>::empty()),
        reflog_entries_of(rows) is None ==> reflog_entries_of(rows.push(row)) is None,
        words_of(split_of(row, '\t')[0]).len() < 2 ==> reflog_entries_of(rows.push(row)) is None,
        ({
            let parts = words_of(split_of(row, '\t')[0]);
            reflog_entries_of(rows) matches Some(before) ==> parts.len() >= 2 ==> reflog_entries_of(rows.push(row)) == Some(
                if is_oid(parts[0]) && is_oid(parts[1]) { before.push((parts[0], parts[1])) } else { before },
            )
        }),
{
    assert(rows.push(row).drop_last() =~= rows);
}

/// The reflog of a ref stands below `logs` in the common directory.
pub proof fn law_place_of_a_reflog(files: FileTree, worktree: Seq<char>, refname: Seq<char>, dir: Seq<char>)
    requires
        common_dir_of_worktree(files, worktree) == Some(dir),
    ensures
        files.text_at(joined(joined(dir, "logs"@), refname)) is None ==> reflog_of(files, worktree, refname) is None,
        files.text_at(joined(joined(dir, "logs"@), refname)) matches Some(text) ==> reflog_of(files, worktree, refname) == reflog_entries_of(lines_of(text)),
{
}

// --------------------------------------------------------------------------- stashes

/// The number of a stash stands between the braces of its name.
pub proof fn law_number_of_a_stash(inner: Seq<char>, name: Seq<char>)
    ensures
        stash_index_of("stash@{"@ + inner + "}"@) == unsigned_of(inner, usize::MAX as nat),
        !has_prefix(name, "stash@{"@) || !has_suffix(name, "}"@) ==> stash_index_of(name) is None,
{
    let open = "stash@{"@;
    reveal_strlit("}");
    reveal_strlit("stash@{");
    assert(open.len() == 7);
    let s = open + inner + "}"@;
    assert(s =~= open + (inner + "}"@));
    lemma_starts(open, inner + "}"@);
    let t = inner + "}"@;
    assert(t.skip(t.len() - 1) =~= "}"@);
    assert(t.take(t.len() - 1) =~= inner);
    if has_prefix(name, open) && has_suffix(name.skip(7), "}"@) {
        assert(name.skip(name.len() - 1) =~= name.skip(7).skip(name.skip(7).len() - 1));
    }
}

/// What a name of a stash stands for: an id for itself, the newest for the ref of stashes,
/// another ref for where it stands, and a number for the record so far from the end.
pub proof fn law_target_of_a_stash(repo: RepoSnapshot, worktree: Seq<char>, name: Seq<char>)
    ensures
        is_oid(name) ==> stash_target_of(repo, worktree, name) == Some(name),
        name == "stash@{0}"@ || name == "refs/stash"@ || name == "stash"@ ==> stash_target_of(repo, worktree, name) == ref_oid_of_worktree(repo, worktree, "refs/stash"@),
        !is_oid(name) && name != "stash@{0}"@ && name != "refs/stash"@ && name != "stash"@ ==> ({
            &&& has_prefix(name, "refs/"@) ==> stash_target_of(repo, worktree, name) == ref_oid_of_worktree(repo, worktree, name)
            &&& !has_prefix(name, "refs/"@) && stash_index_of(name) is None ==> stash_target_of(repo, worktree, name) is None
            &&& !has_prefix(name, "refs/"@) && reflog_of(repo.files, worktree, "refs/stash"@) is None ==> stash_target_of(repo, worktree, name) is None
            &&& !has_prefix(name, "refs/"@) ==> (stash_index_of(name) matches Some(n) ==> (reflog_of(repo.files, worktree, "refs/stash"@) matches Some(moves) ==> ({
                &&& n < moves.len() ==> stash_target_of(repo, worktree, name) == Some(moves.reverse()[n as int].1)
                &&& n >= moves.len() ==> stash_target_of(repo, worktree, name) is None
            })))
        }),
{
    reveal_strlit("stash@{0}");
    reveal_strlit("refs/stash");
    reveal_strlit("stash");
    assert("stash@{0}"@.len() == 9);
    assert("refs/stash"@.len() == 10);
    assert("stash"@.len() == 5);
}

// --------------------------------------------------------------------------- moves

/// Where the latest move from an object came from.
pub proof fn law_latest_old_id(moves: Seq<(Seq<char>, Seq<char>)>)
    ensures
        match latest_old_of(moves) {
            Some(o) => exists|i: int| 0 <= i < moves.len() && o == (#[trigger] moves[i]).0 && is_real_oid(o) && (forall|j: int| i < j < moves.len() ==> !is_real_oid((#[trigger] moves[j]).0)),
            None => forall|j: int| 0 <= j < moves.len() ==> !is_real_oid((#[trigger] moves[j]).0),
        },
{
    law_last_where(moves, |m: (Seq<char>, Seq<char>)| is_real_oid(m.0));
}

/// Where the latest move to an id came from: the last move to it decides.
pub proof fn law_old_id_for_a_new_one(moves: Seq<(Seq<char>, Seq<char>)>, m: (Seq<char>, Seq<char>), new_oid: Seq<char>)
    ensures
        old_for_new_of(Seq::empty(), new_oid) is None,
        m.1 == new_oid && is_oid(m.0) ==> old_for_new_of(moves.push(m), new_oid) == Some(m.0),
        m.1 != new_oid || !is_oid(m.0) ==> old_for_new_of(moves.push(m), new_oid) == old_for_new_of(moves, new_oid),
{
    assert(moves.push(m).drop_last() =~= moves);
}

/// Where the latest move of `HEAD` to an id came from.
pub proof fn law_old_head_for_a_new_one(ts: Seq<TransitionView>, new_oid: Seq<char>)
    ensures
        match head_old_for_new(ts, new_oid) {
            Some(o) => exists|i: int| 0 <= i < ts.len() && o == (#[trigger] ts[i]).old && ts[i].new == new_oid && is_oid(o) && (forall|j: int| i < j < ts.len() ==> !((#[trigger] ts[j]).new == new_oid && is_oid(ts[j].old))),
            None => forall|j: int| 0 <= j < ts.len() ==> !((#[trigger] ts[j]).new == new_oid && is_oid(ts[j].old)),
        },
{
    let q = |t: TransitionView| t.new == new_oid && is_oid(t.old);
    law_last_where(ts, q);
    match last_where(ts, q) {
        Some(x) => {
            let i = choose|i: int| 0 <= i < ts.len() && x == #[trigger] ts[i] && q(x) && (forall|j: int| i < j < ts.len() ==> !q(#[trigger] ts[j]));
            assert(ts[i].new == new_oid && is_oid(ts[i].old));
            assert forall|j: int| i < j < ts.len() implies !((#[trigger] ts[j]).new == new_oid && is_oid(ts[j].old)) by {
                assert(!q(ts[j]));
            }
        },
        None => {
            assert forall|j: int| 0 <= j < ts.len() implies !((#[trigger] ts[j]).new == new_oid && is_oid(ts[j].old)) by {
                assert(!q(ts[j]));
            }
        },
    }
}

/// A line of the reflog of `HEAD`: two ids, and the message behind the tab.
pub proof fn law_line_of_a_move(head: Seq<char>, message: Seq<char>)
    requires
        !head.contains('\t'),
    ensures
        ({
            let parts = words_of(head);
            let both = parts.len() >= 2 && is_oid(trimmed(parts[0])) && is_oid(trimmed(parts[1]));
            &&& both ==> transition_of(head + seq!['\t'] + message) == Some(TransitionView { old: trimmed(parts[0]), new: trimmed(parts[1]), message: trimmed(message) })
            &&& both ==> transition_of(head) == Some(TransitionView { old: trimmed(parts[0]), new: trimmed(parts[1]), message: Seq::empty() })
            &&& !both ==> transition_of(head + seq!['\t'] + message) is None && transition_of(head) is None
        }),
{
    reveal_strlit("\t");
    reveal_strlit("");
    assert("\t"@ =~= seq!['\t']);
    assert(""@ =~= Seq::empty());
    law_split_once_at(head, '\t', message);
    law_no_split(head, '\t');
}

/// The moves in their order; those that stay where they are count where asked for.
pub proof fn law_lines_of_moves(rows: Seq<Seq<char>>, row: Seq<char>, include_noop: bool)
    ensures
        transitions_of(Seq::empty(), include_noop) == Seq::<TransitionView>::empty(),
        transition_of(row) is None ==> transitions_of(rows.push(row), include_noop) == transitions_of(rows, include_noop),
        transition_of(row) matches Some(t) ==> t.old != t.new ==> transitions_of(rows.push(row), include_noop) == transitions_of(rows, include_noop).push(t),
        transition_of(row) matches Some(t) ==> t.old == t.new ==> transitions_of(rows.push(row), true) == transitions_of(rows, true).push(t),
        transition_of(row) matches Some(t) ==> t.old == t.new ==> transitions_of(rows.push(row), false) == transitions_of(rows, false),
{
    assert(rows.push(row).drop_last() =~= rows);
}

/// The reflog of `HEAD` stands below `logs` in the git directory; without it, the cause is
/// said.
pub proof fn law_reflog_of_head(files: FileTree, worktree: Seq<char>, dir: Seq<char>, include_noop: bool)
    requires
        git_dir_of(files, worktree) == Some(dir),
    ensures
        head_log_path(dir) == joined(joined(dir, "logs"@), "HEAD"@),
        files.text_at(head_log_path(dir)) matches Some(text) ==> head_transitions_of(files, worktree, include_noop) == Some(transitions_of(lines_of(text), include_noop)),
        files.text_at(head_log_path(dir)) is None ==> head_transitions_of(files, worktree, include_noop) is None,
        head_transitions_error(files, worktree) == "failed to read HEAD reflog for worktree "@ + worktree + " at "@ + head_log_path(dir) + ": "@ + files.cause_at(head_log_path(dir)),
{
}

/// Without a git directory that is what is said.
pub proof fn law_no_git_directory(files: FileTree, worktree: Seq<char>, include_noop: bool)
    requires
        git_dir_of(files, worktree) is None,
    ensures
        head_transitions_of(files, worktree, include_noop) is None,
        head_transitions_error(files, worktree) == "missing gitdir for worktree while reading HEAD reflog: "@ + worktree,
{
}

// --------------------------------------------------------------------------- merges that squash

/// The source of a squash is the merge that is under way, else the first commit that the
/// message names.
pub proof fn law_source_of_a_squash(files: FileTree, git_dir: Seq<char>)
    ensures
        ({
            let merge = files.text_at(joined(git_dir, "MERGE_HEAD"@));
            let squash = files.text_at(joined(git_dir, "SQUASH_MSG"@));
            &&& merge matches Some(text) ==> (first_text_line(lines_of(text)) matches Some(o) ==> is_oid(o) ==> squash_source_of(files, git_dir) == Some(o))
            &&& merge is None ==> (squash matches Some(text) ==> squash_source_of(files, git_dir) == first_commit_line(lines_of(text)))
            &&& merge is None && squash is None ==> squash_source_of(files, git_dir) is None
        }),
{
}

/// The first line that is not blank, without the space around it.
pub proof fn law_first_line_with_text(rows: Seq<Seq<char>>, row: Seq<char>)
    ensures
        first_text_line(Seq::empty()) is None,
        trimmed(row).len() > 0 ==> first_text_line(seq![row] + rows) == Some(trimmed(row)),
        trimmed(row).len() == 0 ==> first_text_line(seq![row] + rows) == first_text_line(rows),
{
    assert((seq![row] + rows).drop_first() =~= rows);
}

/// The first line that names a commit.
pub proof fn law_first_line_with_a_commit(rows: Seq<Seq<char>>, row: Seq<char>, rest: Seq<char>)
    ensures
        first_commit_line(Seq::empty()) is None,
        commit_line_oid(row) is Some ==> first_commit_line(seq![row] + rows) == commit_line_oid(row),
        commit_line_oid(row) is None ==> first_commit_line(seq![row] + rows) == first_commit_line(rows),
        trim_start_of(row) == "commit "@ + rest && words_of(rest).len() > 0 && is_oid(words_of(rest)[0]) ==> commit_line_oid(row) == Some(words_of(rest)[0]),
        trim_start_of(row) == "commit "@ + rest && (words_of(rest).len() == 0 || !is_oid(words_of(rest)[0])) ==> commit_line_oid(row) is None,
        !has_prefix(trim_start_of(row), "commit "@) ==> commit_line_oid(row) is None,
{
    lemma_starts("commit "@, rest);
    assert((seq![row] + rows).drop_first() =~= rows);
}

// --------------------------------------------------------------------------- chains

/// The last move to a commit before a place.
pub proof fn law_last_move_to(ts: Seq<TransitionView>, before: int, target: Seq<char>)
    requires
        0 <= before <= ts.len(),
    ensures
        match last_move_to(ts, before, target) {
            Some(k) => 0 <= k < before && ts[k].new == target && (forall|j: int| k < j < before ==> (#[trigger] ts[j]).new != target),
            None => forall|j: int| 0 <= j < before ==> (#[trigger] ts[j]).new != target,
        },
    decreases before,
{
    if before > 0 && ts[before - 1].new != target {
        law_last_move_to(ts, before - 1, target);
    }
}

/// The chains that end in a commit: one for each move to it from which the chain can be
/// followed back.
pub proof fn law_chains_to_a_commit(ts: Seq<TransitionView>, n: int, new_head: Seq<char>, count: nat, fragment: Option<Seq<char>>)
    requires
        0 <= n < ts.len(),
    ensures
        chains_to(ts, 0, new_head, count, fragment).len() == 0,
        ts[n].new != new_head ==> chains_to(ts, n + 1, new_head, count, fragment) == chains_to(ts, n, new_head, count, fragment),
        ts[n].new == new_head && chain_of(ts, n, count, fragment) is None ==> chains_to(ts, n + 1, new_head, count, fragment) == chains_to(ts, n, new_head, count, fragment),
        ts[n].new == new_head ==> (chain_of(ts, n, count, fragment) matches Some(chain) ==> chains_to(ts, n + 1, new_head, count, fragment) == chains_to(ts, n, new_head, count, fragment).push(chain)),
{
}

/// A chain of one commit is one move; a longer one goes on from the last move to where it
/// came from.
pub proof fn law_chain_of_moves(ts: Seq<TransitionView>, end: int, count: nat)
    requires
        0 <= end < ts.len(),
    ensures
        chain_of(ts, end, 0, None) is None,
        chain_of(ts, end, 1, None) == Some((ts[end].old, seq![ts[end].new])),
        count > 1 && last_move_to(ts, end, ts[end].old) is None ==> chain_of(ts, end, count, None) is None,
        count > 1 ==> (last_move_to(ts, end, ts[end].old) matches Some(k) ==> (chain_of(ts, k, (count - 1) as nat, None) matches Some(c) ==> chain_of(ts, end, count, None) == Some((c.0, c.1.push(ts[end].new))))),
{
}

/// What is said where a chain cannot be told.
pub proof fn law_chain_failures(files: FileTree, worktree: Seq<char>, new_head: Seq<char>, count: nat, fragment: Option<Seq<char>>)
    ensures
        chain_error(files, worktree, new_head, 0, fragment) == "cannot resolve HEAD reflog chain with zero expected commits"@,
        count > 0 && !is_oid(new_head) ==> chain_error(files, worktree, new_head, count, fragment) == "invalid HEAD reflog chain bound new="@ + new_head,
        count > 0 && is_oid(new_head) ==> (match head_transitions_of(files, worktree, false) {
            None => chain_error(files, worktree, new_head, count, fragment) == head_transitions_error(files, worktree),
            Some(ts) => {
                let n = chains_to(ts, ts.len() as int, new_head, count, fragment).len();
                &&& ts.len() == 0 ==> chain_error(files, worktree, new_head, count, fragment) == "HEAD reflog is empty or missing valid transitions for worktree "@ + worktree
                &&& ts.len() > 0 && n == 0 ==> chain_error(files, worktree, new_head, count, fragment) == "failed to reconstruct HEAD reflog chain for worktree "@ + worktree + " new="@ + new_head + " expected_count="@ + decimal_of(count)
                &&& ts.len() > 0 && n > 0 ==> chain_error(files, worktree, new_head, count, fragment) == "ambiguous HEAD reflog chain for worktree "@ + worktree + " new="@ + new_head + " expected_count="@ + decimal_of(count) + " candidates="@ + decimal_of(n)
            },
        }),
{
}

// --------------------------------------------------------------------------- rebases

proof fn lemma_split_behind(prefix: Seq<char>, sep: Seq<char>, target: Seq<char>)
    requires
        sep.len() > 0,
        !prefix.contains(sep[0]),
    ensures
        split_once_of(prefix + sep + target, sep) == Some((prefix, target)),
{
    let s = prefix + sep + target;
    law_split_once(s, sep);
    let n = prefix.len() as int;
    assert(occurs_at(s, sep, n)) by {
        assert(s.subrange(n, n + sep.len()) =~= sep);
    }
    let (a, b) = split_once_of(s, sep)->0;
    let k = a.len() as int;
    assert((a + sep + b)[k] == sep[0]);
    if k < n {
        assert(s[k] == prefix[k]);
        assert(prefix.contains(prefix[k]));
    }
    assert(k == n);
    assert(a =~= prefix) by {
        assert(a =~= (a + sep + b).take(n));
        assert(prefix =~= s.take(n));
    }
    assert(b =~= target) by {
        assert(b =~= (a + sep + b).skip(n + sep.len()));
        assert(target =~= s.skip(n + sep.len()));
    }
}

/// What git writes where a rebase starts: by what, and from where.
pub proof fn law_start_of_a_rebase(prefix: Seq<char>, target: Seq<char>)
    requires
        !prefix.contains(' '),
    ensures
        ({
            let message = prefix + " (start): checkout "@ + target;
            &&& (trimmed(prefix) == "rebase"@ || has_prefix(trimmed(prefix), "pull"@)) && trimmed(target).len() > 0 ==> rebase_start_of(message) == Some((trimmed(prefix), trimmed(target)))
            &&& trimmed(prefix) != "rebase"@ && !has_prefix(trimmed(prefix), "pull"@) ==> rebase_start_of(message) is None
            &&& trimmed(target).len() == 0 ==> rebase_start_of(message) is None
        }),
        find_of(prefix, " (start): checkout "@) is None ==> rebase_start_of(prefix) is None,
{
    let sep = " (start): checkout "@;
    assert(sep.len() > 0 && sep[0] == ' ') by {
        reveal_strlit(" (start): checkout ");
    }
    lemma_split_behind(prefix, sep, target);
}

/// What git writes where a rebase ends: where it returns to. A rebase of a pull may end as
/// one of its own.
pub proof fn law_end_of_a_rebase(prefix: Seq<char>, target: Seq<char>, message: Seq<char>)
    ensures
        trimmed(target).len() > 0 ==> rebase_finish_of(prefix + " (finish): returning to "@ + target, prefix) == Some(trimmed(target)),
        trimmed(target).len() == 0 ==> rebase_finish_of(prefix + " (finish): returning to "@ + target, prefix) is None,
        !has_prefix(message, prefix + " (finish): returning to "@) ==> rebase_finish_of(message, prefix) is None,
        rebase_finish_of(message, prefix) is Some ==> segment_finish_of(message, prefix) == rebase_finish_of(message, prefix),
        rebase_finish_of(message, prefix) is None && has_prefix(prefix, "pull"@) ==> segment_finish_of(message, prefix) == rebase_finish_of(message, "rebase"@),
        rebase_finish_of(message, prefix) is None && !has_prefix(prefix, "pull"@) ==> segment_finish_of(message, prefix) is None,
{
    lemma_starts(prefix + " (finish): returning to "@, target);
}

/// The steps of a rebase carry its name and what they do in brackets.
pub proof fn law_steps_of_a_rebase(prefix: Seq<char>, rest: Seq<char>, message: Seq<char>)
    ensures
        is_rebase_step(prefix + " ("@ + rest, prefix),
        has_prefix(prefix, "pull"@) ==> is_rebase_step("rebase ("@ + rest, prefix),
        !has_prefix(message, prefix + " ("@) && !has_prefix(prefix, "pull"@) ==> !is_rebase_step(message, prefix),
        !has_prefix(message, prefix + " ("@) && !has_prefix(message, "rebase ("@) ==> !is_rebase_step(message, prefix),
{
    lemma_starts(prefix + " ("@, rest);
    lemma_starts("rebase ("@, rest);
}

/// How a rebase goes on from a move: it ends with its finish, at that move where it moved;
/// a step that moved takes the new head along; another start breaks it off.
pub proof fn law_course_of_a_rebase(ts: Seq<TransitionView>, at: int, prefix: Seq<char>, head: Seq<char>)
    requires
        0 <= at < ts.len(),
    ensures
        rebase_start_of(ts[at].message) is Some ==> segment_end(ts, at, prefix, head) == (None::<(Seq<char>, Seq<char>)>, at),
        rebase_start_of(ts[at].message) is None ==> ({
            &&& segment_finish_of(ts[at].message, prefix) matches Some(target) ==> segment_end(ts, at, prefix, head) == (Some((target, if ts[at].old != ts[at].new { ts[at].new } else { head })), at + 1)
            &&& segment_finish_of(ts[at].message, prefix) is None ==> segment_end(ts, at, prefix, head) == segment_end(ts, at + 1, prefix, if ts[at].old != ts[at].new && is_rebase_step(ts[at].message, prefix) { ts[at].new } else { head })
        }),
        segment_end(ts, ts.len() as int, prefix, head) == (None::<(Seq<char>, Seq<char>)>, ts.len() as int),
{
}

/// Each rebase that is told was started by a move and finished by a later one: it goes from
/// where the first move came from, onto where that went.
pub proof fn law_told_rebases(ts: Seq<TransitionView>, at: int, i: int)
    requires
        0 <= at <= ts.len(),
        0 <= i < segments_from(ts, at).len(),
    ensures
        ({
            let s = segments_from(ts, at)[i];
            exists|k: int, j: int| #![trigger ts[k], ts[j]] {
                &&& at <= k < j < ts.len()
                &&& rebase_start_of(ts[k].message) == Some((s.action_prefix, s.start_target))
                &&& s.original_head == ts[k].old
                &&& s.onto_head == ts[k].new
                &&& segment_finish_of(ts[j].message, s.action_prefix) == s.finish_target
                &&& s.finish_target is Some
                &&& ts[j].old != ts[j].new ==> s.new_head == ts[j].new
            }
        }),
    decreases ts.len() - at,
{
    if at < ts.len() {
        match rebase_start_of(ts[at].message) {
            None => {
                law_told_rebases(ts, at + 1, i);
                let s = segments_from(ts, at + 1)[i];
                let (k, j) = choose|k: int, j: int| #![trigger ts[k], ts[j]] {
                    &&& at + 1 <= k < j < ts.len()
                    &&& rebase_start_of(ts[k].message) == Some((s.action_prefix, s.start_target))
                    &&& s.original_head == ts[k].old
                    &&& s.onto_head == ts[k].new
                    &&& segment_finish_of(ts[j].message, s.action_prefix) == s.finish_target
                    &&& s.finish_target is Some
                    &&& ts[j].old != ts[j].new ==> s.new_head == ts[j].new
                };
                assert(at <= k < j < ts.len() && ts[k] == ts[k] && ts[j] == ts[j]);
            },
            Some((prefix, target)) => {
                let (end, next) = segment_end(ts, at + 1, prefix, ts[at].new);
                law_rebase_ends_behind_its_start(ts, at + 1, prefix, ts[at].new);
                let rest = segments_from(ts, next);
                lemma_end_is_written(ts, at + 1, prefix, ts[at].new);
                let m = if end is Some { i - 1 } else { i };
                if end is Some && i == 0 {
                    let j = next - 1;
                    assert(ts[at] == ts[at] && ts[j] == ts[j]);
                } else {
                    assert(segments_from(ts, at)[i] == rest[m]);
                    law_told_rebases(ts, next, m);
                    let s = rest[m];
                    let (k, j) = choose|k: int, j: int| #![trigger ts[k], ts[j]] {
                        &&& next <= k < j < ts.len()
                        &&& rebase_start_of(ts[k].message) == Some((s.action_prefix, s.start_target))
                        &&& s.original_head == ts[k].old
                        &&& s.onto_head == ts[k].new
                        &&& segment_finish_of(ts[j].message, s.action_prefix) == s.finish_target
                        &&& s.finish_target is Some
                        &&& ts[j].old != ts[j].new ==> s.new_head == ts[j].new
                    };
                    assert(at <= k < j < ts.len() && ts[k] == ts[k] && ts[j] == ts[j]);
                }
            },
        }
    }
}

proof fn lemma_end_is_written(ts: Seq<TransitionView>, at: int, prefix: Seq<char>, head: Seq<char>)
    requires
        0 <= at <= ts.len(),
    ensures
        ({
            let (end, next) = segment_end(ts, at, prefix, head);
            end matches Some(e) ==> {
                &&& at < next <= ts.len()
                &&& segment_finish_of(ts[next - 1].message, prefix) == Some(e.0)
                &&& ts[next - 1].old != ts[next - 1].new ==> e.1 == ts[next - 1].new
            }
        }),
    decreases ts.len() - at,
{
    if at < ts.len() && rebase_start_of(ts[at].message) is None && segment_finish_of(ts[at].message, prefix) is None {
        lemma_end_is_written(ts, at + 1, prefix, if ts[at].old != ts[at].new && is_rebase_step(ts[at].message, prefix) { ts[at].new } else { head });
    }
}

/// A rebase that is started and finished right away is told.
pub proof fn law_shortest_rebase(ts: Seq<TransitionView>, at: int, prefix: Seq<char>, target: Seq<char>, finish: Seq<char>)
    requires
        0 <= at,
        at + 1 < ts.len(),
        rebase_start_of(ts[at].message) == Some((prefix, target)),
        rebase_start_of(ts[at + 1].message) is None,
        segment_finish_of(ts[at + 1].message, prefix) == Some(finish),
    ensures
        segments_from(ts, at) == seq![SegmentView { original_head: ts[at].old, onto_head: ts[at].new, new_head: if ts[at + 1].old != ts[at + 1].new { ts[at + 1].new } else { ts[at].new }, action_prefix: prefix, start_target: target, finish_target: Some(finish) }] + segments_from(ts, at + 2),
{
}

/// A branch and its ref are the same target.
pub proof fn law_same_target(a: Seq<char>, b: Seq<char>)
    ensures
        targets_match(a, a),
        targets_match("refs/heads/"@ + a, a),
        targets_match(a, "refs/heads/"@ + a),
        targets_match(a, b) ==> a == b || a == "refs/heads/"@ + b || b == "refs/heads/"@ + a,
{
    lemma_starts("refs/heads/"@, a);
    if has_prefix(a, "refs/heads/"@) {
        assert(a =~= "refs/heads/"@ + a.skip("refs/heads/"@.len() as int)) by {
            assert(a =~= a.take("refs/heads/"@.len() as int) + a.skip("refs/heads/"@.len() as int));
        }
    }
    if has_prefix(b, "refs/heads/"@) {
        assert(b =~= b.take("refs/heads/"@.len() as int) + b.skip("refs/heads/"@.len() as int));
    }
}

/// The next rebase is the first that was not looked at yet and starts where it should;
/// where none starts there, the first that was not looked at.
pub proof fn law_next_rebase(segments: Seq<SegmentView>, hint: Option<Seq<char>>, processed: Seq<Seq<char>>)
    ensures
        match next_segment(segments, hint, processed) {
            Some(s) => segments.contains(s) && !processed.contains(s.new_head),
            None => forall|j: int| 0 <= j < segments.len() ==> processed.contains((#[trigger] segments[j]).new_head),
        },
        hint matches Some(h) ==> (next_segment(segments, hint, processed) matches Some(s) ==> targets_match(s.start_target, h) || (forall|j: int| 0 <= j < segments.len() ==> processed.contains((#[trigger] segments[j]).new_head) || !targets_match(segments[j].start_target, h))),
        hint is None ==> next_segment(segments, hint, processed) == first_where(segments, |s: SegmentView| !processed.contains(s.new_head)),
{
    let fresh = |s: SegmentView| !processed.contains(s.new_head);
    law_first_where(segments, fresh);
    if let Some(h) = hint {
        law_first_where(segments, |s: SegmentView| !processed.contains(s.new_head) && targets_match(s.start_target, h));
    }
}

/// A file `.git` by itself points to a git directory, from where it stands or from the root;
/// without a pointer it stands for none.
pub proof fn law_pointer_by_itself(files: FileTree, path: Seq<char>, rest: Seq<char>, contents: Seq<char>)
    requires
        common_dir_of_worktree(files, path) is None,
        files.is_file_at(path),
        file_name_of(path) == Some(".git"@),
    ensures
        files.text_at(path) == Some("gitdir:"@ + rest) && is_absolute_path(trimmed(rest)) ==> common_dir_of_path(files, path) == common_dir_of(trimmed(rest)),
        files.text_at(path) == Some("gitdir:"@ + rest) && !is_absolute_path(trimmed(rest)) ==> (parent_of(path) matches Some(up) ==> common_dir_of_path(files, path) == common_dir_of(joined(up, trimmed(rest)))),
        files.text_at(path) == Some(contents) && !has_prefix(contents, "gitdir:"@) ==> common_dir_of_path(files, path) is None,
        files.text_at(path) is None ==> common_dir_of_path(files, path) is None,
{
    lemma_starts("gitdir:"@, rest);
}

/// A move mentions a text where its message holds it; without a text every move does.
pub proof fn law_moves_that_mention(t: TransitionView, fragment: Seq<char>)
    ensures
        mentions(t, None),
        mentions(t, Some(fragment)) <==> find_of(t.message, fragment) is Some,
{
}

} // verus!
