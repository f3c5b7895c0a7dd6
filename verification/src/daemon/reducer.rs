//! Applying commands to the state.

use crate::daemon::domain::{
    AppliedCommand, FamilyState, GlobalState, NormalizedCommand, RefChangeView, WorktreeState,
};
use crate::error::GitAiError;
use crate::git::repo_state::{all_zeros, is_all_zeros};
use crate::model::{last_where, opt_view, views};
use crate::text::{chars_of, str_eq, trim, trimmed};
use crate::text_map::text_values;
use vstd::prelude::*;

verus! {

/// Whether a text is the object id of all zeros.
pub open spec fn zero_oid_text(s: Seq<char>) -> bool {
    (s.len() == 40 || s.len() == 64) && all_zeros(s)
}

/// Refs after one move: a move to nothing or to the zero object removes the ref.
pub open spec fn refs_after_change(refs: Map<Seq<char>, Seq<char>>, change: RefChangeView) -> Map<
    Seq<char>,
    Seq<char>,
> {
    if trimmed(change.new).len() == 0 || zero_oid_text(change.new) {
        refs.remove(change.reference)
    } else {
        refs.insert(change.reference, change.new)
    }
}

/// Refs after moves, one after the other.
pub open spec fn refs_after(refs: Map<Seq<char>, Seq<char>>, changes: Seq<RefChangeView>) -> Map<
    Seq<char>,
    Seq<char>,
>
    decreases changes.len(),
{
    if changes.len() == 0 {
        refs
    } else {
        refs_after_change(refs_after(refs, changes.drop_last()), changes.last())
    }
}

/// The target of the last move of `HEAD`.
pub open spec fn head_after(changes: Seq<RefChangeView>) -> Option<Seq<char>> {
    match last_where(changes, |c: RefChangeView| c.reference == "HEAD"@) {
        Some(c) => Some(c.new),
        None => None,
    }
}

/// The number behind a number, as far as there is one.
pub open spec fn next_seq(n: u64) -> u64 {
    if n < u64::MAX {
        (n + 1) as u64
    } else {
        n
    }
}

fn is_zero_oid(value: &str) -> (r: bool)
    ensures
        r == zero_oid_text(value@),
{
    let n: usize = chars_of(value).len();
    (n == 40 || n == 64) && is_all_zeros(value)
}

fn apply_ref_changes(state: &mut FamilyState, cmd: &NormalizedCommand)
    ensures
        text_values(final(state).refs@) == refs_after(
            text_values(old(state).refs@),
            views(cmd.ref_changes@),
        ),
        final(state).family_key == old(state).family_key,
        final(state).worktrees == old(state).worktrees,
        final(state).last_error == old(state).last_error,
        final(state).applied_seq == old(state).applied_seq,
{
    let ghost before = text_values(state.refs@);
    let ghost changes = views(cmd.ref_changes@);
    let mut i: usize = 0;
    proof {
        assert(changes.take(0) =~= seq![]);
    }
    while i < cmd.ref_changes.len()
        invariant
            i <= cmd.ref_changes@.len(),
            changes == views(cmd.ref_changes@),
            text_values(state.refs@) == refs_after(before, changes.take(i as int)),
            state.family_key == old(state).family_key,
            state.worktrees == old(state).worktrees,
            state.last_error == old(state).last_error,
            state.applied_seq == old(state).applied_seq,
        decreases cmd.ref_changes.len() - i,
    {
        let change = &cmd.ref_changes[i];
        let ghost prior = state.refs@;
        proof {
            assert(changes.take(i + 1).drop_last() =~= changes.take(i as int));
            assert(changes.take(i + 1).last() == change@);
        }
        if trim(change.new.as_str()).as_str().is_empty() || is_zero_oid(change.new.as_str()) {
            state.refs.remove(change.reference.as_str());
            proof {
                assert(text_values(state.refs@) =~= text_values(prior).remove(change.reference@));
            }
        } else {
            state.refs.insert(change.reference.clone(), change.new.clone());
            proof {
                assert(text_values(state.refs@) =~= text_values(prior).insert(
                    change.reference@,
                    change.new@,
                ));
            }
        }
        i += 1;
    }
    proof {
        assert(changes.take(i as int) =~= changes);
    }
}

fn last_head_target(cmd: &NormalizedCommand) -> (r: Option<String>)
    ensures
        opt_view(r) == head_after(views(cmd.ref_changes@)),
{
    let ghost changes = views(cmd.ref_changes@);
    let ghost p = |c: RefChangeView| c.reference == "HEAD"@;
    let mut n: usize = cmd.ref_changes.len();
    proof {
        assert(changes.take(n as int) =~= changes);
    }
    while n > 0
        invariant
            n <= cmd.ref_changes@.len(),
            changes == views(cmd.ref_changes@),
            p == (|c: RefChangeView| c.reference == "HEAD"@),
            last_where(changes, p) == last_where(changes.take(n as int), p),
        decreases n,
    {
        proof {
            assert(changes.take(n as int).drop_last() =~= changes.take(n - 1));
            assert(changes.take(n as int).last() == cmd.ref_changes@[n - 1]@);
        }
        if str_eq(cmd.ref_changes[n - 1].reference.as_str(), "HEAD") {
            return Some(cmd.ref_changes[n - 1].new.clone());
        }
        n -= 1;
    }
    None
}

/// Whether a worktree's state is the one after a command: `HEAD` where the
/// command moved it, at the time when the command finished.
pub open spec fn worktree_state_after(
    w: WorktreeState,
    changes: Seq<RefChangeView>,
    finished_at_ns: u128,
) -> bool {
    &&& opt_view(w.head) == head_after(changes)
    &&& w.branch is None
    &&& !w.detached
    &&& w.last_updated_ns == finished_at_ns
}

/// The path under which a worktree is kept: its canonical path, or the path itself where
/// it has none. A command without a worktree keeps none.
pub open spec fn worktree_path(
    worktree: Option<Seq<char>>,
    canonical: Option<Seq<char>>,
) -> Option<Seq<char>> {
    match (worktree, canonical) {
        (Some(_), Some(path)) => Some(path),
        (Some(path), None) => Some(path),
        (None, _) => None,
    }
}

fn apply_worktree_state(
    state: &mut FamilyState,
    cmd: &NormalizedCommand,
    canonical_worktree: Option<String>,
)
    ensures
        match canonical_worktree {
            Some(path) => {
                &&& final(state).worktrees@.dom() == old(state).worktrees@.dom().insert(path@)
                &&& worktree_state_after(
                    final(state).worktrees@[path@],
                    views(cmd.ref_changes@),
                    cmd.finished_at_ns,
                )
                &&& forall|p: Seq<char>|
                    p != path@ && old(state).worktrees@.dom().contains(p)
                        ==> final(state).worktrees@[p] == old(state).worktrees@[p]
            },
            None => final(state).worktrees@ == old(state).worktrees@,
        },
        final(state).family_key == old(state).family_key,
        final(state).refs == old(state).refs,
        final(state).last_error == old(state).last_error,
        final(state).applied_seq == old(state).applied_seq,
{
    match canonical_worktree {
        Some(path) => {
            let head = last_head_target(cmd);
            let ghost before = state.worktrees@;
            let ghost key = path@;
            let w = WorktreeState {
                head,
                branch: None,
                detached: false,
                last_updated_ns: cmd.finished_at_ns,
            };
            state.worktrees.insert(path, w);
            proof {
                assert(state.worktrees@.dom() =~= before.dom().insert(key));
            }
        },
        None => {},
    }
}

/// Applies a command to the state of its family, under the next number: its ref
/// changes to the refs, and its worktree's state, under the canonical path of the
/// worktree, or under its own path where it has no canonical one, to the worktrees. Where
/// the analysis of the command, made against the state before it, failed, nothing changes.
pub fn reduce_family_command<A: Clone>(
    state: &mut FamilyState,
    cmd: NormalizedCommand,
    analysis: Result<A, GitAiError>,
    canonical_worktree: Option<String>,
) -> (r: Result<(AppliedCommand<A>, A), GitAiError>)
    ensures
        match (r, analysis) {
            (Ok((applied, said)), Ok(a)) => {
                &&& said == a
                &&& cloned(a, applied.analysis)
                &&& applied.command == cmd
                &&& applied.seq == next_seq(old(state).applied_seq)
                &&& final(state).applied_seq == applied.seq
                &&& text_values(final(state).refs@) == refs_after(
                    text_values(old(state).refs@),
                    views(cmd.ref_changes@),
                )
                &&& match worktree_path(opt_view(cmd.worktree), opt_view(canonical_worktree)) {
                    Some(path) => {
                        &&& final(state).worktrees@.dom() == old(state).worktrees@.dom().insert(
                            path,
                        )
                        &&& worktree_state_after(
                            final(state).worktrees@[path],
                            views(cmd.ref_changes@),
                            cmd.finished_at_ns,
                        )
                        &&& forall|p: Seq<char>|
                            p != path && old(state).worktrees@.dom().contains(p)
                                ==> final(state).worktrees@[p] == old(state).worktrees@[p]
                    },
                    None => final(state).worktrees@ == old(state).worktrees@,
                }
                &&& final(state).family_key == old(state).family_key
                &&& final(state).last_error == old(state).last_error
            },
            (Err(e), Err(cause)) => e == cause && *final(state) == *old(state),
            _ => false,
        },
{
    match analysis {
        Err(e) => Err(e),
        Ok(a) => {
            apply_ref_changes(state, &cmd);
            let path = match &cmd.worktree {
                Some(worktree) => match canonical_worktree {
                    Some(path) => Some(path),
                    None => Some(worktree.clone()),
                },
                None => None,
            };
            apply_worktree_state(state, &cmd, path);
            state.applied_seq = state.applied_seq.saturating_add(1);
            let applied = AppliedCommand {
                seq: state.applied_seq,
                command: cmd,
                analysis: a.clone(),
            };
            Ok((applied, a))
        },
    }
}

/// Applies a command that belongs to no family, under the next number. Where the
/// analysis of the command failed, nothing changes.
pub fn reduce_global_command<A: Clone>(
    state: &mut GlobalState,
    cmd: NormalizedCommand,
    analysis: Result<A, GitAiError>,
) -> (r: Result<(AppliedCommand<A>, A), GitAiError>)
    ensures
        match (r, analysis) {
            (Ok((applied, said)), Ok(a)) => {
                &&& said == a
                &&& cloned(a, applied.analysis)
                &&& applied.command == cmd
                &&& applied.seq == next_seq(old(state).applied_seq)
                &&& final(state).applied_seq == applied.seq
            },
            (Err(e), Err(cause)) => e == cause && *final(state) == *old(state),
            _ => false,
        },
{
    match analysis {
        Err(e) => Err(e),
        Ok(a) => {
            state.applied_seq = state.applied_seq.saturating_add(1);
            let applied = AppliedCommand {
                seq: state.applied_seq,
                command: cmd,
                analysis: a.clone(),
            };
            Ok((applied, a))
        },
    }
}

/// Counts a checkpoint.
pub fn reduce_checkpoint(state: &mut FamilyState)
    ensures
        final(state).applied_seq == next_seq(old(state).applied_seq),
        final(state).family_key == old(state).family_key,
        final(state).refs == old(state).refs,
        final(state).worktrees == old(state).worktrees,
        final(state).last_error == old(state).last_error,
{
    state.applied_seq = state.applied_seq.saturating_add(1);
}

/// A ref that no move names keeps its value.
pub proof fn law_refs_untouched(
    refs: Map<Seq<char>, Seq<char>>,
    changes: Seq<RefChangeView>,
    reference: Seq<char>,
)
    requires
        forall|i: int| 0 <= i < changes.len() ==> (#[trigger] changes[i]).reference != reference,
    ensures
        refs_after(refs, changes).dom().contains(reference) == refs.dom().contains(reference),
        refs.dom().contains(reference) ==> refs_after(refs, changes)[reference] == refs[reference],
    decreases changes.len(),
{
    if changes.len() > 0 {
        let before = changes.drop_last();
        assert forall|i: int| 0 <= i < before.len() implies (#[trigger] before[i]).reference
            != reference by {
            assert(before[i] == changes[i]);
        }
        law_refs_untouched(refs, before, reference);
        assert(changes.last() == changes[changes.len() - 1]);
    }
}

/// The last move of a ref decides its value: the object that it names, or none
/// where it names nothing or the zero object.
pub proof fn law_last_move_decides(
    refs: Map<Seq<char>, Seq<char>>,
    changes: Seq<RefChangeView>,
    last: RefChangeView,
)
    ensures
        refs_after(refs, changes.push(last)).dom().contains(last.reference) == !(trimmed(
            last.new,
        ).len() == 0 || zero_oid_text(last.new)),
        refs_after(refs, changes.push(last)).dom().contains(last.reference) ==> refs_after(
            refs,
            changes.push(last),
        )[last.reference] == last.new,
{
    assert(changes.push(last).drop_last() =~= changes);
}

} // verus!
