//! What holds of the telling of branches, stashes and single refs.
use vstd::prelude::*;

use crate::daemon::domain::{NormalizedCommand, RefChangeView};
use crate::daemon::ref_args::{
    BranchCommandView, UpdateRefView, branch_command_of, update_ref_of, zero_oid_of,
};
use crate::daemon::ref_cursor::{
    BranchLifecycleKind, CursorView, EntryView, ExpectedView, RefCursor, RefLogs, advanced_to_end,
    any_transition, between_transition, branch_told, change_of, checks_out_paths, common_key_of,
    consumed, consumed_all, deletions_told, distinct_changes, entries_of, expected_among,
    expected_from, failed, find_common, find_head, first_position, is_expected, is_told,
    lifecycle_among, lifecycle_names, listing_failure_among, log_bytes_of, log_len_failure,
    log_len_of, log_path_of, logged_ref_of, logged_refs_among, logged_stashes, looked_at,
    looked_at_head, message_ok, moves_refs_on_failure, moving_entries, names_stash, nth_stash,
    offset_at, recovered, relocation_told, same_command, start_oids_of, stash_kind_of,
    stash_name_of, stash_named, stash_position, stash_pushed, stash_removed, stash_taken,
    stash_told, swept, told_of, unless_failed, update_ref_told, uses_reflogs,
};
use crate::daemon::ref_cursor_laws::{lemma_first_entry, lemma_records_have_ids, lemma_told_all};
use crate::daemon::reflog::{RecordView, records_of, start_of};
use crate::file_tree::FileTree;
use crate::git::repo_state::{is_oid, is_real_oid, stash_index_of};
use crate::model::opt_view;
use crate::text::{has_prefix, replaced, split_once_of};
use crate::text_order::with_sorted;

verus! {

// --------------------------------------------------------------------------- what is told

/// The commands that reflogs tell about, and those of them that move refs even where they
/// fail.
pub proof fn law_commands_that_move_refs(name: Seq<char>)
    ensures
        uses_reflogs(name) <==> (name == "commit"@ || name == "revert"@ || name == "reset"@ || name == "checkout"@ || name == "switch"@ || name == "merge"@ || name == "cherry-pick"@ || name == "rebase"@ || name == "pull"@ || name == "branch"@ || name == "stash"@ || name == "update-ref"@),
        moves_refs_on_failure(name) <==> (name == "checkout"@ || name == "switch"@ || name == "stash"@ || name == "rebase"@ || name == "pull"@ || name == "branch"@),
{
}

/// A command is told where it went well, or moves refs even where it does not.
pub proof fn law_when_a_command_is_told(cmd: NormalizedCommand)
    ensures
        cmd.primary_command is None ==> !is_told(cmd),
        cmd.exit_code == 0 ==> (is_told(cmd) <==> (cmd.primary_command matches Some(p) && (p@ == "commit"@ || p@ == "revert"@ || p@ == "reset"@ || p@ == "checkout"@ || p@ == "switch"@ || p@ == "merge"@ || p@ == "cherry-pick"@ || p@ == "rebase"@ || p@ == "pull"@ || p@ == "branch"@ || p@ == "stash"@ || p@ == "update-ref"@))),
        cmd.exit_code != 0 ==> (is_told(cmd) <==> (cmd.primary_command matches Some(p) && (p@ == "checkout"@ || p@ == "switch"@ || p@ == "stash"@ || p@ == "rebase"@ || p@ == "pull"@ || p@ == "branch"@))),
{
}

/// Checking out paths, and picking without a commit, move no refs: the cursor stays where
/// it is.
pub proof fn law_commands_without_moves(cursor: RefCursor, cmd: NormalizedCommand, args: Seq<Seq<char>>, refs: Map<Seq<char>, Seq<char>>, logs: RefLogs, i: int)
    requires
        0 <= i < args.len(),
        cmd.primary_command is Some,
        ({
            let p = cmd.primary_command->0@;
            ||| p == "checkout"@ && (args[i] == "--"@ || args[i] == "--ours"@ || args[i] == "--theirs"@ || has_prefix(args[i], "--pathspec"@))
            ||| p == "cherry-pick"@ && (args[i] == "--no-commit"@ || args[i] == "-n"@)
        }),
    ensures
        told_of(cursor, cmd, args, refs, logs) == (recovered(cursor@), Seq::<RefChangeView>::empty(), opt_view(cmd.stash_target_oid)),
{
    reveal_strlit("checkout");
    reveal_strlit("cherry-pick");
    reveal_strlit("update-ref");
    reveal_strlit("stash");
    reveal_strlit("branch");
    reveal_strlit("rebase");
    assert("checkout"@.len() == 8);
    assert("cherry-pick"@.len() == 11);
    assert("update-ref"@.len() == 10);
    assert("stash"@.len() == 5);
    assert("branch"@.len() == 6);
    assert("rebase"@.len() == 6);
    assert("branch"@[0] == 'b');
    assert("rebase"@[0] == 'r');
    if cmd.primary_command->0@ == "checkout"@ {
        assert(checks_out_paths(args));
    } else {
        assert(args.contains(args[i]));
    }
}

/// Each of the other commands is told in its own way: a branch from what its arguments ask
/// for, a ref from its arguments, a stash from what stands behind the command.
pub proof fn law_ways_of_telling(cursor: RefCursor, cmd: NormalizedCommand, args: Seq<Seq<char>>, refs: Map<Seq<char>, Seq<char>>, logs: RefLogs)
    requires
        cmd.primary_command is Some,
        cmd.exit_code == 0,
    ensures
        ({
            let p = cmd.primary_command->0@;
            let c = recovered(cursor@);
            let dir = cursor.family.0@;
            let r = told_of(cursor, cmd, args, refs, logs);
            let stash = opt_view(cmd.stash_target_oid);
            &&& p == "branch"@ ==> (r.0, r.1) == branch_told(c, logs.files, dir, refs, branch_command_of(args)) && r.2 == stash
            &&& p == "update-ref"@ && update_ref_of(args) is Ok ==> (r.0, r.1) == update_ref_told(c, logs, dir, opt_view(cmd.worktree), update_ref_of(args)->Ok_0) && r.2 == stash
            &&& p == "update-ref"@ && update_ref_of(args) is Err ==> r.0.failure == Some(update_ref_of(args)->Err_0) && r.1.len() == 0 && r.0.offsets == cursor@.offsets && r.0.stash == cursor@.stash
            &&& p == "stash"@ && args.len() > 0 && args[0] == "stash"@ ==> r == stash_told(c, logs, dir, opt_view(cmd.worktree), refs, args.drop_first(), stash)
            &&& p == "stash"@ && (args.len() == 0 || args[0] != "stash"@) ==> r == stash_told(c, logs, dir, opt_view(cmd.worktree), refs, args, stash)
        }),
{
    reveal_strlit("update-ref");
    reveal_strlit("stash");
    reveal_strlit("branch");
    assert("update-ref"@.len() == 10);
    assert("stash"@.len() == 5);
    assert("branch"@.len() == 6);
}

// --------------------------------------------------------------------------- what is looked for

/// Where a move may start: at `HEAD`, at a branch, at a commit with a working log, and, with
/// the first working log, at nothing.
pub proof fn law_starts_of_moves(refs: Map<Seq<char>, Seq<char>>, working_logs: Seq<Seq<char>>, o: Seq<char>, branch: Seq<char>)
    ensures
        is_real_oid(o) && refs.dom().contains("HEAD"@) && refs["HEAD"@] == o ==> start_oids_of(refs, working_logs).contains(o),
        is_real_oid(o) && refs.dom().contains("refs/heads/"@ + branch) && refs["refs/heads/"@ + branch] == o ==> start_oids_of(refs, working_logs).contains(o),
        is_real_oid(o) && working_logs.contains(o) ==> start_oids_of(refs, working_logs).contains(o),
        working_logs.contains("initial"@) ==> start_oids_of(refs, working_logs).contains("0000000000000000000000000000000000000000"@),
        start_oids_of(refs, working_logs).contains(o) ==> {
            ||| working_logs.contains(o)
            ||| working_logs.contains("initial"@) && o == "0000000000000000000000000000000000000000"@
            ||| exists|r: Seq<char>| #![trigger refs.dom().contains(r)] refs.dom().contains(r) && refs[r] == o && (r == "HEAD"@ || has_prefix(r, "refs/heads/"@))
        },
        start_oids_of(Map::empty(), Seq::empty()) == Set::<Seq<char>>::empty(),
        expected_from(refs, false, working_logs) == expected_from(refs, true, Seq::empty()),
        expected_from(refs, true, working_logs).old_oids == start_oids_of(refs, working_logs),
        expected_from(refs, true, working_logs).new_oid is None && expected_from(refs, true, working_logs).messages.len() == 0,
{
    reveal_strlit("initial");
    assert("initial"@.len() == 7);
    let r = "refs/heads/"@ + branch;
    assert(r.take("refs/heads/"@.len() as int) =~= "refs/heads/"@);
    assert(has_prefix(r, "refs/heads/"@));
    if is_real_oid(o) && refs.dom().contains(r) && refs[r] == o {
        assert(start_oids_of(refs, working_logs).contains(o));
    }
    assert(!Seq::<Seq<char>>::empty().contains("initial"@));
    assert forall|x: Seq<char>| !start_oids_of(Map::empty(), Seq::empty()).contains(x) by {
        assert(!Seq::<Seq<char>>::empty().contains(x));
    }
    assert(start_oids_of(Map::empty(), Seq::empty()) =~= Set::<Seq<char>>::empty());
}

/// A move is what was looked for where it is one, says what it should, and goes from where
/// and to where it should; where nothing is asked, every move is.
pub proof fn law_what_is_looked_for(x: ExpectedView, e: EntryView, message: Seq<char>, prefix: Seq<char>, rest: Seq<Seq<char>>)
    ensures
        is_expected(any_transition(), e) <==> is_oid(e.old) && is_oid(e.new) && e.old != e.new,
        is_expected(between_transition(Some(e.old), Some(e.new)), e) <==> is_oid(e.old) && is_oid(e.new) && e.old != e.new,
        forall|o: Seq<char>| is_expected(#[trigger] between_transition(Some(o), None), e) ==> e.old == o,
        forall|n: Seq<char>| is_expected(#[trigger] between_transition(None, Some(n)), e) ==> e.new == n,
        is_expected(x, e) && x.messages.len() > 0 ==> x.messages.contains(e.message),
        is_expected(x, e) && x.old_oids != Set::<Seq<char>>::empty() ==> x.old_oids.contains(e.old),
        message_ok(message, Seq::empty()),
        message_ok(prefix + message, seq![prefix] + rest),
        message_ok(message, rest) ==> message_ok(message, seq![prefix] + rest) || rest.len() == 0,
{
    assert forall|o: Seq<char>| is_expected(#[trigger] between_transition(Some(o), None), e) implies e.old == o by {
        assert(between_transition(Some(o), None).old_oids.contains(o));
    }
    assert((prefix + message).take(prefix.len() as int) =~= prefix);
    assert((seq![prefix] + rest)[0] == prefix);
    assert(has_prefix(prefix + message, (seq![prefix] + rest)[0]));
    if message_ok(message, rest) && rest.len() > 0 {
        let i = choose|i: int| 0 <= i < rest.len() && has_prefix(message, #[trigger] rest[i]);
        assert((seq![prefix] + rest)[i + 1] == rest[i]);
    }
}

/// The moves among the records of a reflog, in their order.
pub proof fn law_moves_among_records(records: Seq<RecordView>, r: RecordView, key: Seq<char>, reference: Seq<char>)
    ensures
        moving_entries(Seq::empty(), key, reference) == Seq::<EntryView>::empty(),
        r.old == r.new ==> moving_entries(records.push(r), key, reference) == moving_entries(records, key, reference),
        r.old != r.new ==> moving_entries(records.push(r), key, reference) == moving_entries(records, key, reference).push(
            EntryView { key, reference, old: r.old, new: r.new, message: r.message, end_offset: r.end_offset as u64 },
        ),
{
    assert(records.push(r).drop_last() =~= records);
}

/// The moves that were looked for, in their order; each is told once.
pub proof fn law_moves_looked_for(c: CursorView, entries: Seq<EntryView>, e: EntryView, x: ExpectedView, prefixes: Seq<Seq<char>>)
    ensures
        expected_among(entries, x, prefixes) == entries.filter(|e: EntryView| is_expected(x, e) && message_ok(e.message, prefixes)),
        consumed_all(c, Seq::empty()) == c,
        consumed_all(c, entries.push(e)).offsets == consumed_all(c, entries).offsets.insert(e.key, e.end_offset),
        consumed_all(c, entries).stash == c.stash,
        consumed_all(c, entries).failure == c.failure,
    decreases entries.len(),
{
    reveal(Seq::filter);
    assert(entries.push(e).drop_last() =~= entries);
    if entries.len() > 0 {
        law_moves_looked_for(c, entries.drop_last(), e, x, prefixes);
    }
}

/// The first failure stays; what was told before it stays too.
pub proof fn law_first_failure_stays(c: CursorView, a: Seq<char>, b: Seq<char>)
    ensures
        c.failure is None ==> failed(c, Some(a)).failure == Some(a),
        failed(failed(c, Some(a)), Some(b)) == failed(c, Some(a)),
        failed(c, None) == c,
        failed(c, Some(a)).offsets == c.offsets && failed(c, Some(a)).stash == c.stash,
        recovered(failed(c, Some(a))) == recovered(c),
        recovered(c).failure is None && recovered(c).offsets == c.offsets && recovered(c).stash == c.stash,
{
}

proof fn lemma_next_move(c: CursorView, files: FileTree, dir: Seq<char>, reference: Seq<char>, x: ExpectedView, prefixes: Seq<Seq<char>>, r: RecordView)
    requires
        files.failure_at(log_path_of(dir, reference)) is None,
        c.failure is None,
        records_of(log_bytes_of(files, log_path_of(dir, reference)), offset_at(c, common_key_of(reference))).len() > 0,
        records_of(log_bytes_of(files, log_path_of(dir, reference)), offset_at(c, common_key_of(reference)))[0] == r,
        r.old != r.new,
        x.messages.len() == 0,
        x.old_oids == Set::<Seq<char>>::empty() || x.old_oids.contains(r.old),
        x.new_oid is None || x.new_oid == Some(r.new),
        message_ok(r.message, prefixes),
    ensures
        looked_at(c, files, dir, reference) == c,
        find_common(c, files, dir, reference, x, prefixes) == Some(
            EntryView { key: common_key_of(reference), reference, old: r.old, new: r.new, message: r.message, end_offset: r.end_offset as u64 },
        ),
{
    let key = common_key_of(reference);
    let bytes = log_bytes_of(files, log_path_of(dir, reference));
    let records = records_of(bytes, offset_at(c, key));
    lemma_first_entry(records, key, reference);
    lemma_records_have_ids(bytes, 0, start_of(bytes, offset_at(c, key)), 0);
    let entries = entries_of(bytes, key, reference, offset_at(c, key));
    assert(is_expected(x, entries[0]));
}

/// Whether the next record of a ref's reflog that was not told yet is `r`.
pub open spec fn is_next_record(c: CursorView, files: FileTree, dir: Seq<char>, reference: Seq<char>, r: RecordView) -> bool {
    let unread = records_of(log_bytes_of(files, log_path_of(dir, reference)), offset_at(c, common_key_of(reference)));
    unread.len() > 0 && unread[0] == r && r.old != r.new
}

// --------------------------------------------------------------------------- branches

/// A branch that was made or reset is told with the next record of its reflog, where that
/// is one of such a command; the record is then told.
pub proof fn law_made_branch_is_told(c: CursorView, files: FileTree, dir: Seq<char>, refs: Map<Seq<char>, Seq<char>>, reference: Seq<char>, r: RecordView, rest: Seq<char>)
    requires
        c.failure is None,
        files.failure_at(log_path_of(dir, reference)) is None,
        is_next_record(c, files, dir, reference, r),
        r.message == "branch:"@ + rest,
    ensures
        branch_told(c, files, dir, refs, BranchCommandView::CreateOrReset(reference)) == (
            CursorView { offsets: c.offsets.insert("common:"@ + reference, r.end_offset as u64), ..c },
            seq![RefChangeView { reference, old: r.old, new: r.new }],
        ),
{
    assert(r.message.take("branch:"@.len() as int) =~= "branch:"@);
    assert(has_prefix(r.message, seq!["branch:"@][0]));
    lemma_next_move(c, files, dir, reference, any_transition(), seq!["branch:"@], r);
    let one = seq![RefChangeView { reference, old: r.old, new: r.new }];
    lemma_one_change(one);
}

proof fn lemma_one_change(one: Seq<RefChangeView>)
    requires
        one.len() == 1,
    ensures
        forall|c: CursorView| c.failure is None ==> #[trigger] unless_failed(c, one) == one,
{
    assert(one.drop_last() =~= Seq::empty());
    reveal_with_fuel(distinct_changes, 3);
    assert forall|c: CursorView| c.failure is None implies #[trigger] unless_failed(c, one) == one by {
        assert(!Seq::<RefChangeView>::empty().contains(one.last()));
        assert(Seq::<RefChangeView>::empty().push(one.last()) =~= one);
    }
}

/// A branch that was removed goes from where it stood to nothing; one that is not known
/// does not go anywhere. Its reflog is told from its start again.
pub proof fn law_removed_branches_are_told(c: CursorView, refs: Map<Seq<char>, Seq<char>>, names: Seq<Seq<char>>, name: Seq<char>)
    ensures
        deletions_told(c, refs, Seq::empty()) == (c, Seq::<RefChangeView>::empty()),
        deletions_told(c, refs, names.push(name)).0.offsets == deletions_told(c, refs, names).0.offsets.remove("common:"@ + name),
        deletions_told(c, refs, names).0.stash == c.stash,
        deletions_told(c, refs, names).0.failure == c.failure,
        refs.dom().contains(name) && is_real_oid(refs[name]) ==> deletions_told(c, refs, names.push(name)).1 == deletions_told(c, refs, names).1.push(
            RefChangeView { reference: name, old: refs[name], new: "0000000000000000000000000000000000000000"@ },
        ),
        !refs.dom().contains(name) || !is_real_oid(refs[name]) ==> deletions_told(c, refs, names.push(name)).1 == deletions_told(c, refs, names).1,
    decreases names.len(),
{
    assert(names.push(name).drop_last() =~= names);
    if names.len() > 0 {
        law_removed_branches_are_told(c, refs, names.drop_last(), name);
    }
}

/// A branch that was moved goes from where it stood to nothing, and its new name from
/// nothing to there; one that was copied stays.
pub proof fn law_moved_branch_is_told(c: CursorView, files: FileTree, dir: Seq<char>, refs: Map<Seq<char>, Seq<char>>, old: Seq<char>, new: Seq<char>)
    requires
        files.failure_at(log_path_of(dir, new)) is None,
        old != new,
        refs.dom().contains(old),
        is_real_oid(refs[old]),
        !refs.dom().contains(new),
        refs[old] != zero_oid_of(),
    ensures
        relocation_told(c, files, dir, refs, BranchLifecycleKind::Rename, Some(old), new).1 == seq![
            RefChangeView { reference: old, old: refs[old], new: "0000000000000000000000000000000000000000"@ },
            RefChangeView { reference: new, old: "0000000000000000000000000000000000000000"@, new: refs[old] },
        ],
        relocation_told(c, files, dir, refs, BranchLifecycleKind::Copy, Some(old), new).1 == seq![
            RefChangeView { reference: new, old: "0000000000000000000000000000000000000000"@, new: refs[old] },
        ],
        relocation_told(c, files, dir, refs, BranchLifecycleKind::Rename, Some(old), new).0 == advanced_to_end(
            CursorView { offsets: c.offsets.remove("common:"@ + old), ..c },
            files,
            dir,
            new,
        ),
        relocation_told(c, files, dir, refs, BranchLifecycleKind::Copy, Some(old), new).0 == advanced_to_end(c, files, dir, new),
{
    assert(relocation_told(c, files, dir, refs, BranchLifecycleKind::Rename, Some(old), new).1 =~= seq![
        RefChangeView { reference: old, old: refs[old], new: zero_oid_of() },
        RefChangeView { reference: new, old: zero_oid_of(), new: refs[old] },
    ]);
}

/// A branch whose new name already stood where the old one does has no second change.
pub proof fn law_branch_moved_onto_itself(c: CursorView, files: FileTree, dir: Seq<char>, refs: Map<Seq<char>, Seq<char>>, old: Seq<char>, new: Seq<char>)
    requires
        files.failure_at(log_path_of(dir, new)) is None,
        refs.dom().contains(old),
        is_real_oid(refs[old]),
        refs.dom().contains(new),
        refs[new] == refs[old],
    ensures
        relocation_told(c, files, dir, refs, BranchLifecycleKind::Copy, Some(old), new).1.len() == 0,
        old != new ==> relocation_told(c, files, dir, refs, BranchLifecycleKind::Rename, Some(old), new).1.len() == 1,
        old == new ==> relocation_told(c, files, dir, refs, BranchLifecycleKind::Rename, Some(old), new).1.len() == 0,
{
}

/// What git writes of a branch that was moved or copied: from where and to where.
pub proof fn law_names_of_moved_branches(rest: Seq<char>, message: Seq<char>)
    ensures
        lifecycle_names(BranchLifecycleKind::Rename, "Branch: renamed "@ + rest) == split_once_of(rest, " to "@),
        lifecycle_names(BranchLifecycleKind::Copy, "Branch: copied "@ + rest) == split_once_of(rest, " to "@),
        !has_prefix(message, "Branch: renamed "@) ==> lifecycle_names(BranchLifecycleKind::Rename, message) is None,
        !has_prefix(message, "Branch: copied "@) ==> lifecycle_names(BranchLifecycleKind::Copy, message) is None,
{
    let a = "Branch: renamed "@;
    let b = "Branch: copied "@;
    assert((a + rest).take(a.len() as int) =~= a);
    assert((a + rest).skip(a.len() as int) =~= rest);
    assert((b + rest).take(b.len() as int) =~= b);
    assert((b + rest).skip(b.len() as int) =~= rest);
}

/// The last record that says how a branch came to its name counts.
pub proof fn law_last_record_of_a_moved_branch(records: Seq<RecordView>, r: RecordView, kind: BranchLifecycleKind, reference: Seq<char>)
    ensures
        lifecycle_among(Seq::empty(), kind, reference) is None,
        lifecycle_names(kind, r.message) matches Some(names) ==> names.1 == reference ==> lifecycle_among(records.push(r), kind, reference) == Some((names.0, r.new)),
        lifecycle_names(kind, r.message) matches Some(names) ==> names.1 != reference ==> lifecycle_among(records.push(r), kind, reference) == lifecycle_among(records, kind, reference),
        lifecycle_names(kind, r.message) is None ==> lifecycle_among(records.push(r), kind, reference) == lifecycle_among(records, kind, reference),
{
    assert(records.push(r).drop_last() =~= records);
}

/// A reflog that was told whole is told to its end; one that is gone is forgotten.
pub proof fn law_told_to_the_end(c: CursorView, files: FileTree, dir: Seq<char>, reference: Seq<char>)
    ensures
        log_len_failure(files, dir, reference) matches Some(why) ==> advanced_to_end(c, files, dir, reference) == failed(c, Some(why)),
        log_len_failure(files, dir, reference) is None ==> advanced_to_end(c, files, dir, reference).stash == c.stash && advanced_to_end(c, files, dir, reference).failure == c.failure,
        log_len_failure(files, dir, reference) is None && log_len_of(files, dir, reference) is None ==> advanced_to_end(c, files, dir, reference).offsets == c.offsets.remove("common:"@ + reference),
        log_len_failure(files, dir, reference) is None ==> (log_len_of(files, dir, reference) matches Some(n) ==> advanced_to_end(c, files, dir, reference).offsets == c.offsets.insert("common:"@ + reference, n as u64)),
{
}

// --------------------------------------------------------------------------- single refs

/// A ref that was set is told with the next record of its reflog, where that goes to the id
/// that was given and, where one was given, from the old one.
pub proof fn law_set_ref_is_told(c: CursorView, logs: RefLogs, dir: Seq<char>, worktree: Option<Seq<char>>, u: UpdateRefView, r: RecordView)
    requires
        c.failure is None,
        u.reference != "HEAD"@,
        logs.files.failure_at(log_path_of(dir, u.reference)) is None,
        is_next_record(c, logs.files, dir, u.reference, r),
        r.new == u.new_oid,
        u.old_oid is None || u.old_oid == Some(r.old),
        update_ref_told(c, logs, dir, worktree, u).0.failure is None,
    ensures
        update_ref_told(c, logs, dir, worktree, u).1.contains(RefChangeView { reference: u.reference, old: r.old, new: r.new }),
{
    let x = between_transition(u.old_oid, Some(u.new_oid));
    assert(message_ok(r.message, seq![]));
    lemma_next_move(c, logs.files, dir, u.reference, x, seq![], r);
    let e = find_common(c, logs.files, dir, u.reference, x, seq![])->0;
    let change = change_of(e);
    let told = update_ref_told(c, logs, dir, worktree, u);
    lemma_one_change(seq![change]);
    let c2 = looked_at_head(consumed(c, e), logs, worktree);
    match find_head(c2, logs, worktree, seq![], between_transition(Some(e.old), Some(e.new))) {
        Some(h) => {
            lemma_told_all(told.0, seq![change, change_of(h)], 0);
        },
        None => {
            lemma_told_all(told.0, seq![change], 0);
        },
    }
}

// --------------------------------------------------------------------------- stashes

/// The kinds of stash commands that name a stash, and where the name stands: a branch is
/// named before it.
pub proof fn law_stash_arguments(kind: Seq<char>, a: Seq<char>, b: Seq<char>)
    ensures
        names_stash(kind) <==> (kind == "apply"@ || kind == "pop"@ || kind == "drop"@ || kind == "branch"@),
        stash_kind_of(Seq::empty()) == "push"@,
        stash_kind_of(seq![kind, a]) == kind,
        stash_name_of(Seq::empty()) is None,
        kind != "branch"@ ==> stash_name_of(seq![kind, a, b]) == Some(a),
        kind != "branch"@ ==> stash_name_of(seq![kind]) is None,
        stash_name_of(seq!["branch"@, a, b]) == Some(b),
        stash_name_of(seq!["branch"@, a]) is None,
{
    reveal_strlit("push");
    reveal_strlit("branch");
    assert("push"@.len() == 4);
    assert("branch"@.len() == 6);
    let s = seq![kind, a, b];
    assert(s[0] == kind && s[1] == a);
    let t = seq!["branch"@, a, b];
    assert(t[0] == "branch"@ && t[2] == b);
}

/// The stash that a name stands for: the newest without one, that of a number, or an object.
pub proof fn law_stash_names(c: CursorView, files: FileTree, dir: Seq<char>, t: Seq<char>)
    ensures
        stash_named(c, files, dir, None) == nth_stash(c, files, dir, 0),
        stash_named(c, files, dir, Some("stash"@)) == nth_stash(c, files, dir, 0),
        stash_named(c, files, dir, Some("refs/stash"@)) == nth_stash(c, files, dir, 0),
        is_oid(t) ==> stash_named(c, files, dir, Some(t)) == Some(t),
        !is_oid(t) && t != "stash"@ && t != "refs/stash"@ ==> (stash_index_of(t) matches Some(n) ==> stash_named(c, files, dir, Some(t)) == nth_stash(c, files, dir, n)),
        !is_oid(t) && t != "stash"@ && t != "refs/stash"@ && stash_index_of(t) is None ==> stash_named(c, files, dir, Some(t)) is None,
        stash_position(None) == Some(0nat),
        stash_position(Some("stash"@)) == Some(0nat),
        stash_position(Some("refs/stash"@)) == Some(0nat),
        t != "stash"@ && t != "refs/stash"@ ==> stash_position(Some(t)) == stash_index_of(t),
{
    reveal_strlit("stash");
    reveal_strlit("refs/stash");
    assert("stash"@.len() == 5);
    assert("refs/stash"@.len() == 10);
}

/// The stashes that are kept come first; behind them the reflog is read from its end.
pub proof fn law_stashes_newest_first(c: CursorView, files: FileTree, dir: Seq<char>, n: nat, entries: Seq<EntryView>, e: EntryView, cursor: u64)
    ensures
        n < c.stash.len() ==> nth_stash(c, files, dir, n) == Some(c.stash[n as int]),
        logged_stashes(Seq::empty(), cursor) == Seq::<Seq<char>>::empty(),
        e.end_offset <= cursor && is_real_oid(e.new) ==> logged_stashes(entries.push(e), cursor) == logged_stashes(entries, cursor).push(e.new),
        e.end_offset > cursor || !is_real_oid(e.new) ==> logged_stashes(entries.push(e), cursor) == logged_stashes(entries, cursor),
        ({
            let key = "common:"@ + "refs/stash"@;
            let told = logged_stashes(
                entries_of(log_bytes_of(files, log_path_of(dir, "refs/stash"@)), key, "refs/stash"@, Some(0)),
                if c.offsets.dom().contains(key) { c.offsets[key] } else { u64::MAX },
            );
            &&& n >= c.stash.len() && n < told.len() ==> nth_stash(c, files, dir, n) == Some(told.reverse()[n as int])
            &&& n >= c.stash.len() && n >= told.len() ==> nth_stash(c, files, dir, n) is None
        }),
{
    assert(entries.push(e).drop_last() =~= entries);
}

/// A stash is put on top, unless it is there already or is nothing.
pub proof fn law_stash_is_put_on_top(stack: Seq<Seq<char>>, oid: Seq<char>)
    ensures
        is_real_oid(oid) && !stack.contains(oid) ==> stash_pushed(stack, oid) == seq![oid] + stack,
        stack.contains(oid) || !is_real_oid(oid) ==> stash_pushed(stack, oid) == stack,
{
}

proof fn lemma_first_place(s: Seq<Seq<char>>, x: Seq<char>)
    ensures
        match first_position(s, x) {
            Some(k) => 0 <= k < s.len() && s[k] == x && (forall|j: int| 0 <= j < k ==> #[trigger] s[j] != x),
            None => !s.contains(x),
        },
    decreases s.len(),
{
    if s.len() > 0 {
        let front = s.drop_last();
        lemma_first_place(front, x);
        match first_position(front, x) {
            Some(k) => {
                assert forall|j: int| 0 <= j < k implies #[trigger] s[j] != x by {
                    assert(front[j] == s[j]);
                }
            },
            None => {
                assert forall|j: int| 0 <= j < s.len() - 1 implies #[trigger] s[j] != x by {
                    assert(front[j] == s[j]);
                }
            },
        }
    }
}

/// A stash is taken from where it is said to stand; where another stands there, from where
/// it first stands; where it is not kept, nothing is taken.
pub proof fn law_stash_is_taken_out(before: Seq<Seq<char>>, oid: Seq<char>, behind: Seq<Seq<char>>, position: Option<nat>)
    requires
        !before.contains(oid),
        position is None || position->0 == before.len() || !behind.contains(oid),
    ensures
        stash_removed(before + seq![oid] + behind, position, oid) == before + behind,
        stash_removed(before, position, oid) == before,
{
    let s = before + seq![oid] + behind;
    let k = before.len() as int;
    assert(s[k] == oid);
    assert(s.remove(k) =~= before + behind);
    lemma_first_place(s, oid);
    lemma_first_place(before, oid);
    if let Some(p) = position {
        if p < s.len() && s[p as int] == oid {
            if p < k {
                assert(before[p as int] == oid);
            } else if p > k {
                assert(behind[p - k - 1] == oid);
            }
        }
        if p < before.len() && before[p as int] == oid {
            assert(before.contains(oid));
        }
    }
    let i = first_position(s, oid)->0;
    assert(s.contains(oid));
    if i < k {
        assert(before[i] == oid);
    }
}

/// A stash that was pushed is told with the next record of the reflog of stashes, and is
/// put on top of those that are kept.
pub proof fn law_pushed_stash_is_told(c: CursorView, logs: RefLogs, dir: Seq<char>, worktree: Option<Seq<char>>, refs: Map<Seq<char>, Seq<char>>, args: Seq<Seq<char>>, known: Option<Seq<char>>, r: RecordView)
    requires
        c.failure is None,
        args.len() == 0 || args[0] == "push"@ || args[0] == "save"@,
        logs.files.failure_at(log_path_of(dir, "refs/stash"@)) is None,
        is_next_record(c, logs.files, dir, "refs/stash"@, r),
    ensures
        ({
            let told = stash_told(c, logs, dir, worktree, refs, args, known);
            &&& told.1 == seq![RefChangeView { reference: "refs/stash"@, old: r.old, new: r.new }]
            &&& told.2 == known
            &&& told.0.offsets == c.offsets.insert("common:"@ + "refs/stash"@, r.end_offset as u64)
            &&& told.0.failure is None
            &&& is_real_oid(r.new) && !c.stash.contains(r.new) ==> told.0.stash == seq![r.new] + c.stash
            &&& is_real_oid(r.new) && c.stash.contains(r.new) ==> told.0.stash == c.stash
        }),
{
    reveal_strlit("push");
    reveal_strlit("save");
    reveal_strlit("apply");
    reveal_strlit("pop");
    reveal_strlit("drop");
    reveal_strlit("branch");
    assert("push"@.len() == 4);
    assert("save"@.len() == 4);
    assert("apply"@.len() == 5);
    assert("pop"@.len() == 3);
    assert("drop"@.len() == 4);
    assert("branch"@.len() == 6);
    assert("push"@[0] == 'p');
    assert("save"@[0] == 's');
    assert("drop"@[0] == 'd');
    assert(message_ok(r.message, seq![]));
    lemma_next_move(c, logs.files, dir, "refs/stash"@, any_transition(), seq![], r);
}

/// A stash that was taken off is gone from those that are kept; where it was the newest,
/// the ref of stashes goes to the next one, or to nothing.
pub proof fn law_taken_stash_is_told(c: CursorView, files: FileTree, dir: Seq<char>, oid: Seq<char>, rest: Seq<Seq<char>>)
    requires
        c.stash == seq![oid] + rest,
        log_len_failure(files, dir, "refs/stash"@) is None,
        c.offsets.dom().contains("common:"@ + "refs/stash"@),
        log_len_of(files, dir, "refs/stash"@) is None || log_len_of(files, dir, "refs/stash"@)->0 < c.offsets["common:"@ + "refs/stash"@],
    ensures
        ({
            let taken = stash_taken(c, files, dir, None, None);
            &&& taken.0.stash == rest
            &&& taken.1 == seq![RefChangeView { reference: "refs/stash"@, old: oid, new: if rest.len() > 0 { rest[0] } else { "0000000000000000000000000000000000000000"@ } }]
            &&& taken.2 == Some(oid)
        }),
{
    assert(c.stash[0] == oid);
    assert(c.stash.remove(0) =~= rest);
}

/// Where the reflog of stashes did not get shorter, none was taken off.
pub proof fn law_no_stash_was_taken(c: CursorView, files: FileTree, dir: Seq<char>, name: Option<Seq<char>>, known: Option<Seq<char>>)
    requires
        log_len_failure(files, dir, "refs/stash"@) is None,
        !c.offsets.dom().contains("common:"@ + "refs/stash"@) || (log_len_of(files, dir, "refs/stash"@) is Some && log_len_of(files, dir, "refs/stash"@)->0 >= c.offsets["common:"@ + "refs/stash"@]),
    ensures
        stash_taken(c, files, dir, name, known) == (c, Seq::<RefChangeView>::empty(), known),
{
}

// --------------------------------------------------------------------------- reflogs that are there

/// The refs that have a reflog: `HEAD`, `ORIG_HEAD`, and what stands below `refs`.
pub proof fn law_refs_of_reflogs(logs_dir: Seq<char>, rest: Seq<char>, path: Seq<char>)
    requires
        !rest.contains('\\'),
    ensures
        logged_ref_of(logs_dir + "/"@ + "HEAD"@, logs_dir) == Some("HEAD"@),
        logged_ref_of(logs_dir + "/"@ + "ORIG_HEAD"@, logs_dir) == Some("ORIG_HEAD"@),
        logged_ref_of(logs_dir + "/"@ + ("refs/"@ + rest), logs_dir) == Some("refs/"@ + rest),
        rest != "HEAD"@ && rest != "ORIG_HEAD"@ && !has_prefix(rest, "refs/"@) ==> logged_ref_of(logs_dir + "/"@ + rest, logs_dir) is None,
        !has_prefix(path, logs_dir + "/"@) ==> logged_ref_of(path, logs_dir) is None,
{
    let prefix = logs_dir + "/"@;
    reveal_strlit("HEAD");
    reveal_strlit("ORIG_HEAD");
    reveal_strlit("refs/");
    assert forall|n: Seq<char>| #![trigger (prefix + n)] has_prefix(prefix + n, prefix) && (prefix + n).skip(prefix.len() as int) == n by {
        assert((prefix + n).take(prefix.len() as int) =~= prefix);
        assert((prefix + n).skip(prefix.len() as int) =~= n);
    }
    assert(replaced("HEAD"@, '\\', '/') =~= "HEAD"@);
    assert(replaced("ORIG_HEAD"@, '\\', '/') =~= "ORIG_HEAD"@);
    let r = "refs/"@ + rest;
    assert forall|i: int| 0 <= i < r.len() implies r[i] != '\\' by {
        if i >= 5 {
            assert(r[i] == rest[i - 5]);
            assert(rest.contains(rest[i - 5]));
        } else {
            assert(r[i] == "refs/"@[i]);
        }
    }
    assert(replaced(r, '\\', '/') =~= r);
    assert(r.take(5) =~= "refs/"@);
    assert forall|i: int| 0 <= i < rest.len() implies rest[i] != '\\' by {
        assert(rest.contains(rest[i]));
    }
    assert(replaced(rest, '\\', '/') =~= rest);
}

/// A path adds its ref where a file stands there.
pub proof fn law_reflogs_that_are_there(files: FileTree, paths: Seq<Seq<char>>, path: Seq<char>, logs_dir: Seq<char>)
    ensures
        logged_refs_among(files, Seq::empty(), logs_dir) == Seq::<Seq<char>>::empty(),
        !files.names_file(path) || logged_ref_of(path, logs_dir) is None ==> logged_refs_among(files, paths.push(path), logs_dir) == logged_refs_among(files, paths, logs_dir),
        files.names_file(path) ==> (logged_ref_of(path, logs_dir) matches Some(name) ==> logged_refs_among(files, paths.push(path), logs_dir) == with_sorted(logged_refs_among(files, paths, logs_dir), name)),
        listing_failure_among(files, Seq::empty(), logs_dir) is None,
        listing_failure_among(files, paths, logs_dir) is Some ==> listing_failure_among(files, paths.push(path), logs_dir) == listing_failure_among(files, paths, logs_dir),
        listing_failure_among(files, paths, logs_dir) is None && files.is_dir_at(path) && files.causes@.dom().contains(path) && (path == logs_dir || has_prefix(path, logs_dir + "/"@))
            ==> listing_failure_among(files, paths.push(path), logs_dir) == Some(files.cause_at(path)),
        listing_failure_among(files, paths, logs_dir) is None && !(files.is_dir_at(path) && files.causes@.dom().contains(path) && (path == logs_dir || has_prefix(path, logs_dir + "/"@)))
            ==> listing_failure_among(files, paths.push(path), logs_dir) is None,
{
    assert(paths.push(path).drop_last() =~= paths);
}

/// Each ref adds its next move where it is one that was looked for; `HEAD`, `ORIG_HEAD` and
/// stashes are passed over.
pub proof fn law_sweep_of_refs(c: CursorView, names: Seq<Seq<char>>, name: Seq<char>, files: FileTree, dir: Seq<char>, x: ExpectedView, prefixes: Seq<Seq<char>>)
    ensures
        swept(c, Seq::empty(), files, dir, x, prefixes) == (c, Seq::<RefChangeView>::empty()),
        name == "HEAD"@ || name == "ORIG_HEAD"@ || name == "refs/stash"@ ==> swept(c, names.push(name), files, dir, x, prefixes) == swept(c, names, files, dir, x, prefixes),
        name != "HEAD"@ && name != "ORIG_HEAD"@ && name != "refs/stash"@ ==> ({
            let (c1, changes) = swept(c, names, files, dir, x, prefixes);
            let c2 = failed(c1, files.failure_at(log_path_of(dir, name)));
            let r = swept(c, names.push(name), files, dir, x, prefixes);
            match find_common(c2, files, dir, name, x, prefixes) {
                Some(e) => r.1 == changes.push(RefChangeView { reference: e.reference, old: e.old, new: e.new }) && r.0.offsets == c2.offsets.insert(e.key, e.end_offset) && r.0.stash == c2.stash && r.0.failure == c2.failure,
                None => r == (c2, changes),
            }
        }),
{
    assert(names.push(name).drop_last() =~= names);
}

/// Telling a command changes nothing else of it.
pub proof fn law_told_command_stays(a: NormalizedCommand, b: NormalizedCommand)
    requires
        same_command(a, b),
    ensures
        a.scope == b.scope,
        a.family_key == b.family_key,
        a.worktree == b.worktree,
        a.root_sid == b.root_sid,
        a.raw_argv == b.raw_argv,
        a.primary_command == b.primary_command,
        a.invoked_command == b.invoked_command,
        a.invoked_args == b.invoked_args,
        a.observed_child_commands == b.observed_child_commands,
        a.exit_code == b.exit_code,
        a.started_at_ns == b.started_at_ns,
        a.finished_at_ns == b.finished_at_ns,
{
}

} // verus!
