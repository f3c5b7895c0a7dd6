//! What holds of the telling of commands from reflogs.

use crate::daemon::domain::{NormalizedCommand, RefChangeView};
use crate::daemon::ref_args::{commit_subject_of, reflog_messages_of};
use crate::daemon::ref_cursor::{
    CursorView, EntryView, ExpectedView, RefCursor, RefLogs, any_transition, between_transition,
    change_of, changes_of, checks_out_paths, common_key_of, consumed, consumed_all, entries_of,
    expected_from, find_common, find_head, head_entries, head_key_of, head_span, head_step,
    is_expected, is_special_ref, law_distinct_changes, law_logged_refs_sorted,
    lemma_first_where_member, lemma_found_common_moves, lemma_found_head_moves, listed,
    log_bytes_of, log_path_of, logged_refs, looked_at, looked_at_head, message_ok, moving_entries,
    offset_at, orig_head_moved, picks_without_commit, rebase_told, recovered, span_prefixes,
    span_told, step_prefixes, swept, told_of, unless_failed,
};
use crate::daemon::reflog::{
    RecordView, law_written_line_is_read, line_end, record_of, records_from, records_of, start_of,
    without_line_ends,
};
use crate::file_tree::{FileTree, utf8_lossy};
use crate::git::repo_state::{git_dir_of, is_oid, is_real_oid};
use crate::model::opt_view;
use crate::text::{has_prefix, texts};
use crate::text_order::{lemma_text_lt_irreflexive, strictly_sorted, text_lt};
use vstd::prelude::*;
use vstd::string::*;

verus! {

// ---------------------------------------------------------------- the next record

/// The records of the reflog of `HEAD` in a git directory that were not told yet.
pub open spec fn unread_head_records(c: CursorView, logs: RefLogs, git_dir: Seq<char>) -> Seq<
    RecordView,
> {
    records_of(
        log_bytes_of(logs.files, log_path_of(git_dir, "HEAD"@)),
        offset_at(c, head_key_of(logs, git_dir)),
    )
}

pub proof fn lemma_first_entry(records: Seq<RecordView>, key: Seq<char>, reference: Seq<char>)
    requires
        records.len() > 0,
        records[0].old != records[0].new,
    ensures
        moving_entries(records, key, reference).len() > 0,
        moving_entries(records, key, reference)[0] == (EntryView {
            key,
            reference,
            old: records[0].old,
            new: records[0].new,
            message: records[0].message,
            end_offset: records[0].end_offset as u64,
        }),
    decreases records.len(),
{
    let front = records.drop_last();
    if front.len() > 0 {
        assert(front[0] == records[0]);
        lemma_first_entry(front, key, reference);
    } else {
        assert(moving_entries(front, key, reference) =~= seq![]);
    }
}

pub proof fn lemma_records_have_ids(b: Seq<u8>, at: int, start: int, k: int)
    requires
        0 <= k < records_from(b, at, start).len(),
    ensures
        is_oid(records_from(b, at, start)[k].old),
        is_oid(records_from(b, at, start)[k].new),
    decreases b.len() - at,
{
    let end = line_end(b, at);
    let rest = records_from(b, end, start);
    if end <= start {
        lemma_records_have_ids(b, end, start, k);
    } else {
        match record_of(without_line_ends(utf8_lossy(b.subrange(at, end))), end) {
            Some(r) => {
                if k > 0 {
                    assert((seq![r] + rest)[k] == rest[k - 1]);
                    lemma_records_have_ids(b, end, start, k - 1);
                }
            },
            None => {
                lemma_records_have_ids(b, end, start, k);
            },
        }
    }
}

proof fn lemma_message_ok(message: Seq<char>, prefixes: Seq<Seq<char>>, i: int)
    requires
        0 <= i < prefixes.len(),
        has_prefix(message, prefixes[i]),
    ensures
        message_ok(message, prefixes),
{
}

pub proof fn lemma_told_all(c: CursorView, changes: Seq<RefChangeView>, i: int)
    requires
        c.failure is None,
        0 <= i < changes.len(),
    ensures
        unless_failed(c, changes).contains(changes[i]),
{
    law_distinct_changes(changes);
    assert(changes.contains(changes[i]));
}

proof fn lemma_span_first(c: CursorView, logs: RefLogs, dir: Seq<char>, span: Seq<EntryView>)
    requires
        span.len() > 0,
    ensures
        span_told(c, logs, dir, span).0.failure is None ==> span_told(c, logs, dir, span).1.contains(
            change_of(span[0]),
        ),
        rebase_told(c, logs, dir, span).0.failure is None ==> rebase_told(
            c,
            logs,
            dir,
            span,
        ).1.contains(change_of(span[0])),
{
    let old = span[0].old;
    let new = span.last().new;
    let refs = logged_refs(logs.files, dir);
    let x = between_transition(Some(old), Some(new));
    let (c2, others) = swept(
        listed(consumed_all(c, span), logs.files, dir),
        refs,
        logs.files,
        dir,
        x,
        seq![],
    );
    let (c3, orig) = orig_head_moved(c2, logs.files, dir, old, new);
    let all = changes_of(span) + others + orig;
    assert(all[0] == change_of(span[0]));
    if c3.failure is None {
        lemma_told_all(c3, all, 0);
    }
    let (c4, same_end) = swept(
        listed(c2, logs.files, dir),
        refs,
        logs.files,
        dir,
        between_transition(None, Some(new)),
        seq!["rebase"@],
    );
    let more = changes_of(span) + others + same_end;
    assert(more[0] == change_of(span[0]));
    if c4.failure is None {
        lemma_told_all(c4, more, 0);
    }
}

proof fn lemma_next_found(
    c: CursorView,
    logs: RefLogs,
    worktree: Seq<char>,
    git_dir: Seq<char>,
    x: ExpectedView,
    prefixes: Seq<Seq<char>>,
    i: int,
)
    requires
        git_dir_of(logs.files, worktree) == Some(git_dir),
        unread_head_records(c, logs, git_dir).len() > 0,
        ({
            let r = unread_head_records(c, logs, git_dir)[0];
            &&& r.old != r.new
            &&& x.new_oid is None
            &&& x.old_oids.contains(r.old)
            &&& x.messages.len() == 0 || x.messages.contains(r.message)
            &&& 0 <= i < prefixes.len()
            &&& has_prefix(r.message, prefixes[i])
        }),
        looked_at_head(c, logs, Some(worktree)).failure is None,
    ensures
        ({
            let r = unread_head_records(c, logs, git_dir)[0];
            let h = looked_at_head(c, logs, Some(worktree));
            &&& find_head(h, logs, Some(worktree), prefixes, x) matches Some(e)
            &&& change_of(e) == (RefChangeView { reference: "HEAD"@, old: r.old, new: r.new })
            &&& e.end_offset == r.end_offset as u64
            &&& e.key == head_key_of(logs, git_dir)
        }),
{
    let key = head_key_of(logs, git_dir);
    let bytes = log_bytes_of(logs.files, log_path_of(git_dir, "HEAD"@));
    let records = unread_head_records(c, logs, git_dir);
    lemma_first_entry(records, key, "HEAD"@);
    lemma_records_have_ids(bytes, 0, start_of(bytes, offset_at(c, key)), 0);
    let h = looked_at_head(c, logs, Some(worktree));
    assert(h.offsets == c.offsets);
    let entries = head_entries(logs, git_dir, offset_at(h, key));
    lemma_message_ok(entries[0].message, prefixes, i);
    assert(x.old_oids != Set::<Seq<char>>::empty());
    assert(is_expected(x, entries[0]));
}

/// The next record of the reflog of `HEAD`, where it starts from where `HEAD` is known to
/// stand, is told as a move of `HEAD` by the command that leaves such a message: each
/// command with the messages that git writes for it.
#[verifier::rlimit(60)]
#[verifier::spinoff_prover]
pub proof fn law_next_head_move_is_told(
    cursor: RefCursor,
    cmd: NormalizedCommand,
    args: Seq<Seq<char>>,
    refs: Map<Seq<char>, Seq<char>>,
    logs: RefLogs,
    worktree: Seq<char>,
    git_dir: Seq<char>,
    r: RecordView,
)
    requires
        cmd.primary_command is Some,
        cmd.exit_code == 0,
        opt_view(cmd.worktree) == Some(worktree),
        git_dir_of(logs.files, worktree) == Some(git_dir),
        unread_head_records(cursor@, logs, git_dir).len() > 0,
        unread_head_records(cursor@, logs, git_dir)[0] == r,
        r.old != r.new,
        is_real_oid(r.old),
        refs.dom().contains("HEAD"@),
        refs["HEAD"@] == r.old,
        told_of(cursor, cmd, args, refs, logs).0.failure is None,
    ensures
        cmd.primary_command->0@ == "reset"@ && has_prefix(r.message, "reset:"@) ==> told_of(cursor, cmd, args, refs, logs).1.contains(
            RefChangeView { reference: "HEAD"@, old: r.old, new: r.new },
        ),
        cmd.primary_command->0@ == "revert"@ && has_prefix(r.message, "revert:"@) ==> told_of(cursor, cmd, args, refs, logs).1.contains(
            RefChangeView { reference: "HEAD"@, old: r.old, new: r.new },
        ),
        cmd.primary_command->0@ == "switch"@ && has_prefix(r.message, "checkout:"@) ==> told_of(cursor, cmd, args, refs, logs).1.contains(
            RefChangeView { reference: "HEAD"@, old: r.old, new: r.new },
        ),
        cmd.primary_command->0@ == "switch"@ && has_prefix(r.message, "switch:"@) ==> told_of(cursor, cmd, args, refs, logs).1.contains(
            RefChangeView { reference: "HEAD"@, old: r.old, new: r.new },
        ),
        cmd.primary_command->0@ == "merge"@ && has_prefix(r.message, "merge"@) ==> told_of(cursor, cmd, args, refs, logs).1.contains(
            RefChangeView { reference: "HEAD"@, old: r.old, new: r.new },
        ),
        cmd.primary_command->0@ == "checkout"@ && has_prefix(r.message, "checkout:"@) && !args.contains("--"@) && !args.contains("--ours"@) && !args.contains("--theirs"@) && (forall|i: int|
            0 <= i < args.len() ==> !has_prefix(#[trigger] args[i], "--pathspec"@)) ==> told_of(cursor, cmd, args, refs, logs).1.contains(
            RefChangeView { reference: "HEAD"@, old: r.old, new: r.new },
        ),
        cmd.primary_command->0@ == "rebase"@ && has_prefix(r.message, "rebase"@) ==> told_of(cursor, cmd, args, refs, logs).1.contains(
            RefChangeView { reference: "HEAD"@, old: r.old, new: r.new },
        ),
        cmd.primary_command->0@ == "rebase"@ && has_prefix(r.message, "checkout:"@) ==> told_of(cursor, cmd, args, refs, logs).1.contains(
            RefChangeView { reference: "HEAD"@, old: r.old, new: r.new },
        ),
        cmd.primary_command->0@ == "pull"@ && has_prefix(r.message, "pull"@) ==> told_of(cursor, cmd, args, refs, logs).1.contains(
            RefChangeView { reference: "HEAD"@, old: r.old, new: r.new },
        ),
        cmd.primary_command->0@ == "pull"@ && has_prefix(r.message, "merge"@) ==> told_of(cursor, cmd, args, refs, logs).1.contains(
            RefChangeView { reference: "HEAD"@, old: r.old, new: r.new },
        ),
        cmd.primary_command->0@ == "pull"@ && has_prefix(r.message, "rebase"@) ==> told_of(cursor, cmd, args, refs, logs).1.contains(
            RefChangeView { reference: "HEAD"@, old: r.old, new: r.new },
        ),
        cmd.primary_command->0@ == "pull"@ && has_prefix(r.message, "checkout:"@) ==> told_of(cursor, cmd, args, refs, logs).1.contains(
            RefChangeView { reference: "HEAD"@, old: r.old, new: r.new },
        ),
        cmd.primary_command->0@ == "pull"@ && has_prefix(r.message, "commit:"@) ==> told_of(cursor, cmd, args, refs, logs).1.contains(
            RefChangeView { reference: "HEAD"@, old: r.old, new: r.new },
        ),
        cmd.primary_command->0@ == "cherry-pick"@ && has_prefix(r.message, "cherry-pick:"@) && !args.contains("--no-commit"@) && !args.contains("-n"@) ==> told_of(cursor, cmd, args, refs, logs).1.contains(
            RefChangeView { reference: "HEAD"@, old: r.old, new: r.new },
        ),
        cmd.primary_command->0@ == "cherry-pick"@ && has_prefix(r.message, "commit:"@) && !args.contains("--no-commit"@) && !args.contains("-n"@) ==> told_of(cursor, cmd, args, refs, logs).1.contains(
            RefChangeView { reference: "HEAD"@, old: r.old, new: r.new },
        ),
        cmd.primary_command->0@ == "cherry-pick"@ && has_prefix(r.message, "commit (cherry-pick):"@) && !args.contains("--no-commit"@) && !args.contains("-n"@) ==> told_of(cursor, cmd, args, refs, logs).1.contains(
            RefChangeView { reference: "HEAD"@, old: r.old, new: r.new },
        ),
        cmd.primary_command->0@ == "commit"@ && has_prefix(r.message, "commit"@) && !args.contains("--amend"@) && commit_subject_of(args) is None ==> told_of(cursor, cmd, args, refs, logs).1.contains(
            RefChangeView { reference: "HEAD"@, old: r.old, new: r.new },
        ),
        cmd.primary_command->0@ == "commit"@ && has_prefix(r.message, "commit (amend):"@) && args.contains("--amend"@) && commit_subject_of(args) is None ==> told_of(cursor, cmd, args, refs, logs).1.contains(
            RefChangeView { reference: "HEAD"@, old: r.old, new: r.new },
        ),
        cmd.primary_command->0@ == "commit"@ && has_prefix(r.message, "commit:"@) && args.contains("--amend"@) && commit_subject_of(args) is None ==> told_of(cursor, cmd, args, refs, logs).1.contains(
            RefChangeView { reference: "HEAD"@, old: r.old, new: r.new },
        ),
        cmd.primary_command->0@ == "commit"@ && !args.contains("--amend"@) && commit_subject_of(args) is Some && r.message == "commit:"@ + " "@ + commit_subject_of(args)->0 ==> told_of(cursor, cmd, args, refs, logs).1.contains(
            RefChangeView { reference: "HEAD"@, old: r.old, new: r.new },
        ),
        cmd.primary_command->0@ == "commit"@ && !args.contains("--amend"@) && commit_subject_of(args) is Some && r.message == "commit (initial):"@ + " "@ + commit_subject_of(args)->0 ==> told_of(cursor, cmd, args, refs, logs).1.contains(
            RefChangeView { reference: "HEAD"@, old: r.old, new: r.new },
        ),
        cmd.primary_command->0@ == "commit"@ && !args.contains("--amend"@) && commit_subject_of(args) is Some && r.message == "commit (merge):"@ + " "@ + commit_subject_of(args)->0 ==> told_of(cursor, cmd, args, refs, logs).1.contains(
            RefChangeView { reference: "HEAD"@, old: r.old, new: r.new },
        ),
        cmd.primary_command->0@ == "commit"@ && !args.contains("--amend"@) && commit_subject_of(args) is Some && r.message == "commit (cherry-pick):"@ + " "@ + commit_subject_of(args)->0 ==> told_of(cursor, cmd, args, refs, logs).1.contains(
            RefChangeView { reference: "HEAD"@, old: r.old, new: r.new },
        ),
        cmd.primary_command->0@ == "commit"@ && !args.contains("--amend"@) && commit_subject_of(args) is Some && r.message == "commit (revert):"@ + " "@ + commit_subject_of(args)->0 ==> told_of(cursor, cmd, args, refs, logs).1.contains(
            RefChangeView { reference: "HEAD"@, old: r.old, new: r.new },
        ),
        cmd.primary_command->0@ == "commit"@ && args.contains("--amend"@) && commit_subject_of(args) is Some && r.message == "commit (amend):"@ + " "@ + commit_subject_of(args)->0 ==> told_of(cursor, cmd, args, refs, logs).1.contains(
            RefChangeView { reference: "HEAD"@, old: r.old, new: r.new },
        ),
        cmd.primary_command->0@ == "commit"@ && args.contains("--amend"@) && commit_subject_of(args) is Some && r.message == "commit:"@ + " "@ + commit_subject_of(args)->0 ==> told_of(cursor, cmd, args, refs, logs).1.contains(
            RefChangeView { reference: "HEAD"@, old: r.old, new: r.new },
        ),
{
    let c = recovered(cursor@);
    let primary = cmd.primary_command->0@;
    let dir = cursor.family.0@;
    let h = looked_at_head(c, logs, Some(worktree));
    let x = expected_from(refs, true, texts(logs.working_logs@));
    reveal_strlit("update-ref");
    reveal_strlit("stash");
    reveal_strlit("branch");
    reveal_strlit("rebase");
    reveal_strlit("checkout");
    reveal_strlit("cherry-pick");
    reveal_strlit("pull");
    reveal_strlit("commit");
    reveal_strlit("switch");
    reveal_strlit("revert");
    reveal_strlit("reset");
    reveal_strlit("merge");
    assert("update-ref"@.len() == 10);
    assert("stash"@.len() == 5);
    assert("branch"@.len() == 6);
    assert("rebase"@.len() == 6);
    assert("checkout"@.len() == 8);
    assert("cherry-pick"@.len() == 11);
    assert("pull"@.len() == 4);
    assert("commit"@.len() == 6);
    assert("switch"@.len() == 6);
    assert("revert"@.len() == 6);
    assert("reset"@.len() == 5);
    assert("merge"@.len() == 5);
    assert("stash"@[0] == 's');
    assert("branch"@[0] == 'b');
    assert("rebase"@[0] == 'r');
    assert("rebase"@[2] == 'b');
    assert("commit"@[0] == 'c');
    assert("switch"@[0] == 's');
    assert("revert"@[0] == 'r');
    assert("revert"@[2] == 'v');
    assert("reset"@[0] == 'r');
    assert("merge"@[0] == 'm');
    assert(x.old_oids.contains(r.old));
    assert(unread_head_records(c, logs, git_dir) == unread_head_records(cursor@, logs, git_dir));
    assert forall|prefixes: Seq<Seq<char>>|
        h.failure is Some implies #[trigger] head_step(h, logs, Some(worktree), prefixes, x).len()
        == 0 by {}
    if primary == "rebase"@ && (has_prefix(r.message, "rebase"@) || has_prefix(r.message, "checkout:"@)) {
        let prefixes = seq!["rebase"@, "checkout:"@];
        lemma_told_run(cursor@, logs, dir, worktree, git_dir, x, prefixes, seq!["rebase"@]);
        assert(prefixes[0] == "rebase"@ && prefixes[1] == "checkout:"@);
    }
    if primary == "pull"@ || (primary == "cherry-pick"@ && !picks_without_commit(args)) {
        let prefixes = span_prefixes(primary);
        lemma_told_run(cursor@, logs, dir, worktree, git_dir, x, prefixes, prefixes);
        if primary == "pull"@ {
            assert(prefixes[0] == "pull"@ && prefixes[1] == "merge"@ && prefixes[2] == "rebase"@
                && prefixes[3] == "checkout:"@ && prefixes[4] == "commit:"@);
        } else {
            assert(prefixes[0] == "cherry-pick:"@ && prefixes[1] == "commit:"@ && prefixes[2]
                == "commit (cherry-pick):"@);
        }
    }
    if primary == "reset"@ || primary == "revert"@ || primary == "merge"@ || primary == "switch"@
        || (primary == "checkout"@ && !checks_out_paths(args)) {
        let prefixes = step_prefixes(primary, args.contains("--amend"@));
        lemma_told_step(cursor@, logs, dir, worktree, git_dir, x, prefixes);
        assert(prefixes.len() > 0);
        let first = prefixes[0];
        if primary == "switch"@ {
            let second = prefixes[1];
            assert(first == "checkout:"@ && second == "switch:"@);
        }
    }
    if primary == "checkout"@ && checks_out_paths(args) {
        let i = choose|i: int|
            0 <= i < args.len() && {
                ||| #[trigger] args[i] == "--"@
                ||| has_prefix(args[i], "--pathspec"@)
                ||| args[i] == "--ours"@
                ||| args[i] == "--theirs"@
            };
        assert(args.contains(args[i]));
    }
    if primary == "commit"@ {
        let amend = args.contains("--amend"@);
        let subject = commit_subject_of(args);
        let x1 = ExpectedView { messages: reflog_messages_of(subject, amend), ..x };
        let prefixes = step_prefixes(primary, amend);
        lemma_told_step(cursor@, logs, dir, worktree, git_dir, x1, prefixes);
        if subject is Some {
            lemma_commit_messages(subject->0, amend);
        }
        if amend {
            assert(prefixes[0] == "commit (amend):"@ && prefixes[1] == "commit:"@);
        } else {
            assert(prefixes[0] == "commit"@ && prefixes[1] == "commit (initial):"@);
        }
    }
}

/// What the reflog messages of a commit with a subject begin with and are.
proof fn lemma_commit_messages(s: Seq<char>, amend: bool)
    ensures
        amend ==> reflog_messages_of(Some(s), true).contains("commit (amend):"@ + " "@ + s)
            && has_prefix("commit (amend):"@ + " "@ + s, "commit (amend):"@)
            && reflog_messages_of(Some(s), true).contains("commit:"@ + " "@ + s) && has_prefix(
            "commit:"@ + " "@ + s,
            "commit:"@,
        ),
        !amend ==> reflog_messages_of(Some(s), false).contains("commit:"@ + " "@ + s) && has_prefix(
            "commit:"@ + " "@ + s,
            "commit"@,
        ),
        !amend ==> reflog_messages_of(Some(s), false).contains("commit (initial):"@ + " "@ + s) && has_prefix(
            "commit (initial):"@ + " "@ + s,
            "commit"@,
        ),
        !amend ==> reflog_messages_of(Some(s), false).contains("commit (merge):"@ + " "@ + s) && has_prefix(
            "commit (merge):"@ + " "@ + s,
            "commit"@,
        ),
        !amend ==> reflog_messages_of(Some(s), false).contains("commit (cherry-pick):"@ + " "@ + s) && has_prefix(
            "commit (cherry-pick):"@ + " "@ + s,
            "commit"@,
        ),
        !amend ==> reflog_messages_of(Some(s), false).contains("commit (revert):"@ + " "@ + s) && has_prefix(
            "commit (revert):"@ + " "@ + s,
            "commit"@,
        ),
{
    reveal_strlit("commit");
    reveal_strlit("commit:");
    reveal_strlit("commit (initial):");
    reveal_strlit("commit (merge):");
    reveal_strlit("commit (cherry-pick):");
    reveal_strlit("commit (revert):");
    let a = reflog_messages_of(Some(s), true);
    assert(a[0] == "commit (amend):"@ + " "@ + s && a[1] == "commit:"@ + " "@ + s);
    assert(("commit (amend):"@ + " "@ + s).take("commit (amend):"@.len() as int)
        =~= "commit (amend):"@);
    assert(("commit:"@ + " "@ + s).take("commit:"@.len() as int) =~= "commit:"@);
    let b = reflog_messages_of(Some(s), false);
    assert(b[0] == "commit:"@ + " "@ + s);
    assert(("commit:"@ + " "@ + s).take("commit"@.len() as int) =~= "commit"@);
    assert(b[1] == "commit (initial):"@ + " "@ + s);
    assert(("commit (initial):"@ + " "@ + s).take("commit"@.len() as int) =~= "commit"@);
    assert(b[2] == "commit (merge):"@ + " "@ + s);
    assert(("commit (merge):"@ + " "@ + s).take("commit"@.len() as int) =~= "commit"@);
    assert(b[3] == "commit (cherry-pick):"@ + " "@ + s);
    assert(("commit (cherry-pick):"@ + " "@ + s).take("commit"@.len() as int) =~= "commit"@);
    assert(b[4] == "commit (revert):"@ + " "@ + s);
    assert(("commit (revert):"@ + " "@ + s).take("commit"@.len() as int) =~= "commit"@);
}

/// A command that moves `HEAD` once is told by the next record, where that is looked for.
proof fn lemma_told_step(
    c0: CursorView,
    logs: RefLogs,
    dir: Seq<char>,
    worktree: Seq<char>,
    git_dir: Seq<char>,
    x: ExpectedView,
    prefixes: Seq<Seq<char>>,
)
    requires
        git_dir_of(logs.files, worktree) == Some(git_dir),
        unread_head_records(c0, logs, git_dir).len() > 0,
        ({
            let r = unread_head_records(c0, logs, git_dir)[0];
            &&& r.old != r.new
            &&& x.new_oid is None
            &&& x.old_oids.contains(r.old)
        }),
    ensures
        ({
            let r = unread_head_records(c0, logs, git_dir)[0];
            let h = looked_at_head(recovered(c0), logs, Some(worktree));
            let told = span_told(h, logs, dir, head_step(h, logs, Some(worktree), prefixes, x));
            told.0.failure is None && (x.messages.len() == 0 || x.messages.contains(r.message))
                && message_ok(r.message, prefixes) && prefixes.len() > 0 ==> told.1.contains(
                RefChangeView { reference: "HEAD"@, old: r.old, new: r.new },
            )
        }),
{
    let r = unread_head_records(c0, logs, git_dir)[0];
    let c = recovered(c0);
    let h = looked_at_head(c, logs, Some(worktree));
    let span = head_step(h, logs, Some(worktree), prefixes, x);
    if span_told(h, logs, dir, span).0.failure is None && (x.messages.len() == 0
        || x.messages.contains(r.message)) && message_ok(r.message, prefixes) && prefixes.len() > 0 {
        let i = choose|i: int| 0 <= i < prefixes.len() && has_prefix(r.message, #[trigger] prefixes[i]);
        assert(h.failure is None);
        lemma_next_found(c, logs, worktree, git_dir, x, prefixes, i);
        lemma_span_first(h, logs, dir, span);
    }
}

/// A command that moves `HEAD` in a run is told by the next record, where that is looked
/// for.
proof fn lemma_told_run(
    c0: CursorView,
    logs: RefLogs,
    dir: Seq<char>,
    worktree: Seq<char>,
    git_dir: Seq<char>,
    x: ExpectedView,
    prefixes: Seq<Seq<char>>,
    rest: Seq<Seq<char>>,
)
    requires
        git_dir_of(logs.files, worktree) == Some(git_dir),
        unread_head_records(c0, logs, git_dir).len() > 0,
        ({
            let r = unread_head_records(c0, logs, git_dir)[0];
            &&& r.old != r.new
            &&& x.new_oid is None
            &&& x.messages.len() == 0
            &&& x.old_oids.contains(r.old)
        }),
    ensures
        ({
            let r = unread_head_records(c0, logs, git_dir)[0];
            let h = looked_at_head(recovered(c0), logs, Some(worktree));
            let span = head_span(h, logs, Some(worktree), prefixes, rest, x);
            let told = span_told(h, logs, dir, span);
            let rebased = rebase_told(h, logs, dir, span);
            let moved = RefChangeView { reference: "HEAD"@, old: r.old, new: r.new };
            message_ok(r.message, prefixes) && prefixes.len() > 0 ==> (told.0.failure is None
                ==> told.1.contains(moved)) && (rebased.0.failure is None ==> rebased.1.contains(
                moved,
            ))
        }),
{
    let r = unread_head_records(c0, logs, git_dir)[0];
    let c = recovered(c0);
    let h = looked_at_head(c, logs, Some(worktree));
    let span = head_span(h, logs, Some(worktree), prefixes, rest, x);
    if message_ok(r.message, prefixes) && prefixes.len() > 0 && h.failure is None {
        let i = choose|i: int| 0 <= i < prefixes.len() && has_prefix(r.message, #[trigger] prefixes[i]);
        lemma_next_found(c, logs, worktree, git_dir, x, prefixes, i);
        lemma_span_first(h, logs, dir, span);
    }
}

// --------------------------------------------------------------- what a command writes

/// The line that git writes for a command at the end of the reflog of `HEAD` is told as
/// a move of `HEAD`, where it starts from where `HEAD` is known to stand.
pub proof fn law_written_head_move_is_told(
    cursor: RefCursor,
    cmd: NormalizedCommand,
    args: Seq<Seq<char>>,
    refs: Map<Seq<char>, Seq<char>>,
    logs: RefLogs,
    worktree: Seq<char>,
    git_dir: Seq<char>,
    before: Seq<u8>,
    line: Seq<u8>,
    old_oid: Seq<char>,
    new_oid: Seq<char>,
    who: Seq<char>,
    message: Seq<char>,
    rest: Seq<char>,
)
    requires
        cmd.primary_command is Some,
        cmd.exit_code == 0,
        opt_view(cmd.worktree) == Some(worktree),
        git_dir_of(logs.files, worktree) == Some(git_dir),
        log_bytes_of(logs.files, log_path_of(git_dir, "HEAD"@)) == before + line,
        offset_at(cursor@, head_key_of(logs, git_dir)) == Some(before.len() as u64),
        before.len() + line.len() <= u64::MAX,
        before.len() == 0 || before.last() == 10,
        line.len() > 0,
        line.last() == 10,
        forall|i: int| 0 <= i < line.len() - 1 ==> #[trigger] line[i] != 10,
        is_real_oid(old_oid),
        is_oid(new_oid),
        old_oid != new_oid,
        !who.contains('\t'),
        message.len() == 0 || (message.last() != '\n' && message.last() != '\r'),
        refs.dom().contains("HEAD"@),
        refs["HEAD"@] == old_oid,
        told_of(cursor, cmd, args, refs, logs).0.failure is None,
    ensures
        utf8_lossy(line) == old_oid + seq![' '] + new_oid + seq![' '] + who + seq!['\t'] + message + seq!['\n'] && cmd.primary_command->0@ == "reset"@ && message == "reset:"@ + rest ==> told_of(cursor, cmd, args, refs, logs).1.contains(RefChangeView { reference: "HEAD"@, old: old_oid, new: new_oid }),
        utf8_lossy(line) == old_oid + seq![' '] + new_oid + seq![' '] + who + seq!['\t'] + message + seq!['\n'] && cmd.primary_command->0@ == "revert"@ && message == "revert:"@ + rest ==> told_of(cursor, cmd, args, refs, logs).1.contains(RefChangeView { reference: "HEAD"@, old: old_oid, new: new_oid }),
        utf8_lossy(line) == old_oid + seq![' '] + new_oid + seq![' '] + who + seq!['\t'] + message + seq!['\n'] && cmd.primary_command->0@ == "switch"@ && message == "checkout:"@ + rest ==> told_of(cursor, cmd, args, refs, logs).1.contains(RefChangeView { reference: "HEAD"@, old: old_oid, new: new_oid }),
        utf8_lossy(line) == old_oid + seq![' '] + new_oid + seq![' '] + who + seq!['\t'] + message + seq!['\n'] && cmd.primary_command->0@ == "switch"@ && message == "switch:"@ + rest ==> told_of(cursor, cmd, args, refs, logs).1.contains(RefChangeView { reference: "HEAD"@, old: old_oid, new: new_oid }),
        utf8_lossy(line) == old_oid + seq![' '] + new_oid + seq![' '] + who + seq!['\t'] + message + seq!['\n'] && cmd.primary_command->0@ == "merge"@ && message == "merge"@ + rest ==> told_of(cursor, cmd, args, refs, logs).1.contains(RefChangeView { reference: "HEAD"@, old: old_oid, new: new_oid }),
        utf8_lossy(line) == old_oid + seq![' '] + new_oid + seq![' '] + who + seq!['\t'] + message + seq!['\n'] && cmd.primary_command->0@ == "checkout"@ && message == "checkout:"@ + rest && !args.contains("--"@) && !args.contains("--ours"@) && !args.contains("--theirs"@) && (forall|i: int|
            0 <= i < args.len() ==> !has_prefix(#[trigger] args[i], "--pathspec"@)) ==> told_of(cursor, cmd, args, refs, logs).1.contains(RefChangeView { reference: "HEAD"@, old: old_oid, new: new_oid }),
{
    if utf8_lossy(line) == old_oid + seq![' '] + new_oid + seq![' '] + who + seq!['\t'] + message
        + seq!['\n'] {
        law_written_line_is_read(before, line, old_oid, new_oid, who, message);
        let r = RecordView {
            old: old_oid,
            new: new_oid,
            message,
            end_offset: (before + line).len() as int,
        };
        assert(unread_head_records(cursor@, logs, git_dir)[0] == r);
        law_next_head_move_is_told(cursor, cmd, args, refs, logs, worktree, git_dir, r);
        assert(("reset:"@ + rest).take("reset:"@.len() as int) =~= "reset:"@);
        assert(("revert:"@ + rest).take("revert:"@.len() as int) =~= "revert:"@);
        assert(("checkout:"@ + rest).take("checkout:"@.len() as int) =~= "checkout:"@);
        assert(("switch:"@ + rest).take("switch:"@.len() as int) =~= "switch:"@);
        assert(("merge"@ + rest).take("merge"@.len() as int) =~= "merge"@);
    }
}

// ------------------------------------------------------------------ nothing made up

proof fn lemma_entry_has_record(
    records: Seq<RecordView>,
    key: Seq<char>,
    reference: Seq<char>,
    e: EntryView,
)
    requires
        moving_entries(records, key, reference).contains(e),
    ensures
        exists|k: int|
            0 <= k < records.len() && (#[trigger] records[k]).old == e.old && records[k].new == e.new
                && records[k].message == e.message,
        e.key == key,
    decreases records.len(),
{
    let all = moving_entries(records, key, reference);
    let i = all.index_of(e);
    assert(all[i] == e);
    if records.len() > 0 {
        let front = records.drop_last();
        let before = moving_entries(front, key, reference);
        if i < before.len() {
            assert(before[i] == e);
            lemma_entry_has_record(front, key, reference, e);
            let k = choose|k: int|
                0 <= k < front.len() && (#[trigger] front[k]).old == e.old && front[k].new == e.new
                    && front[k].message == e.message;
            assert(records[k].old == e.old);
        } else {
            assert(records[records.len() - 1].old == e.old);
        }
    }
}

proof fn lemma_swept_references(
    c: CursorView,
    refs: Seq<Seq<char>>,
    files: FileTree,
    dir: Seq<char>,
    x: ExpectedView,
    prefixes: Seq<Seq<char>>,
    i: int,
)
    requires
        0 <= i < swept(c, refs, files, dir, x, prefixes).1.len(),
    ensures
        !is_special_ref(swept(c, refs, files, dir, x, prefixes).1[i].reference),
        refs.contains(swept(c, refs, files, dir, x, prefixes).1[i].reference),
    decreases refs.len(),
{
    if refs.len() > 0 {
        let front = refs.drop_last();
        let (c1, before) = swept(c, front, files, dir, x, prefixes);
        if i < before.len() {
            lemma_swept_references(c, front, files, dir, x, prefixes, i);
            let k = front.index_of(before[i].reference);
            assert(refs[k] == before[i].reference);
            assert(swept(c, refs, files, dir, x, prefixes).1[i] == before[i]);
        } else {
            let c2 = looked_at(c1, files, dir, refs.last());
            lemma_found_common_moves(c2, files, dir, refs.last(), x, prefixes);
            assert(refs[refs.len() - 1] == refs.last());
        }
    }
}

/// A step of `HEAD` is told by its own record and no other.
proof fn lemma_step_told_by_record(
    h: CursorView,
    logs: RefLogs,
    dir: Seq<char>,
    e: EntryView,
    change: RefChangeView,
)
    requires
        e.reference == "HEAD"@,
        span_told(h, logs, dir, seq![e]).1.contains(change),
        change.reference == "HEAD"@,
    ensures
        change == change_of(e),
{
    let span = seq![e];
    let refs = logged_refs(logs.files, dir);
    let x = between_transition(Some(e.old), Some(e.new));
    let c1 = listed(consumed_all(h, span), logs.files, dir);
    let (c2, others) = swept(c1, refs, logs.files, dir, x, seq![]);
    let (c3, orig) = orig_head_moved(c2, logs.files, dir, e.old, e.new);
    let all = changes_of(span) + others + orig;
    law_distinct_changes(all);
    assert(all.contains(change));
    let k = all.index_of(change);
    assert(all[k] == change);
    reveal_strlit("HEAD");
    reveal_strlit("ORIG_HEAD");
    assert("HEAD"@.len() == 4);
    assert("ORIG_HEAD"@.len() == 9);
    if k >= 1 && k < 1 + others.len() {
        assert(others[k - 1] == change);
        lemma_swept_references(c1, refs, logs.files, dir, x, seq![], k - 1);
    } else if k >= 1 {
        let o = looked_at(c2, logs.files, dir, "ORIG_HEAD"@);
        lemma_found_common_moves(o, logs.files, dir, "ORIG_HEAD"@, any_transition(), seq![]);
        assert(orig[k - 1 - others.len()] == change);
    }
}

/// Every move of `HEAD` that a command which moves it once is told with stands in a record
/// that was not told before, with a message that git writes for the command.
#[verifier::rlimit(40)]
#[verifier::spinoff_prover]
pub proof fn law_told_head_move_has_its_record(
    cursor: RefCursor,
    cmd: NormalizedCommand,
    args: Seq<Seq<char>>,
    refs: Map<Seq<char>, Seq<char>>,
    logs: RefLogs,
    worktree: Seq<char>,
    git_dir: Seq<char>,
    change: RefChangeView,
)
    requires
        cmd.primary_command is Some,
        opt_view(cmd.worktree) == Some(worktree),
        git_dir_of(logs.files, worktree) == Some(git_dir),
        told_of(cursor, cmd, args, refs, logs).1.contains(change),
        change.reference == "HEAD"@,
    ensures
        cmd.primary_command->0@ == "reset"@ ==> exists|k: int|
            0 <= k < unread_head_records(cursor@, logs, git_dir).len() && (
            #[trigger] unread_head_records(cursor@, logs, git_dir)[k]).old == change.old
                && unread_head_records(cursor@, logs, git_dir)[k].new == change.new && (has_prefix(unread_head_records(cursor@, logs, git_dir)[k].message, "reset:"@)),
        cmd.primary_command->0@ == "revert"@ ==> exists|k: int|
            0 <= k < unread_head_records(cursor@, logs, git_dir).len() && (
            #[trigger] unread_head_records(cursor@, logs, git_dir)[k]).old == change.old
                && unread_head_records(cursor@, logs, git_dir)[k].new == change.new && (has_prefix(unread_head_records(cursor@, logs, git_dir)[k].message, "revert:"@)),
        cmd.primary_command->0@ == "switch"@ ==> exists|k: int|
            0 <= k < unread_head_records(cursor@, logs, git_dir).len() && (
            #[trigger] unread_head_records(cursor@, logs, git_dir)[k]).old == change.old
                && unread_head_records(cursor@, logs, git_dir)[k].new == change.new && (has_prefix(unread_head_records(cursor@, logs, git_dir)[k].message, "checkout:"@) || has_prefix(unread_head_records(cursor@, logs, git_dir)[k].message, "switch:"@)),
        cmd.primary_command->0@ == "merge"@ ==> exists|k: int|
            0 <= k < unread_head_records(cursor@, logs, git_dir).len() && (
            #[trigger] unread_head_records(cursor@, logs, git_dir)[k]).old == change.old
                && unread_head_records(cursor@, logs, git_dir)[k].new == change.new && (has_prefix(unread_head_records(cursor@, logs, git_dir)[k].message, "merge"@)),
        cmd.primary_command->0@ == "checkout"@ ==> exists|k: int|
            0 <= k < unread_head_records(cursor@, logs, git_dir).len() && (
            #[trigger] unread_head_records(cursor@, logs, git_dir)[k]).old == change.old
                && unread_head_records(cursor@, logs, git_dir)[k].new == change.new && (has_prefix(unread_head_records(cursor@, logs, git_dir)[k].message, "checkout:"@)),
        cmd.primary_command->0@ == "commit"@ ==> exists|k: int|
            0 <= k < unread_head_records(cursor@, logs, git_dir).len() && (
            #[trigger] unread_head_records(cursor@, logs, git_dir)[k]).old == change.old
                && unread_head_records(cursor@, logs, git_dir)[k].new == change.new && (has_prefix(unread_head_records(cursor@, logs, git_dir)[k].message, "commit"@)),
{
    let c = recovered(cursor@);
    let primary = cmd.primary_command->0@;
    let dir = cursor.family.0@;
    let h = looked_at_head(c, logs, Some(worktree));
    let x = expected_from(refs, true, texts(logs.working_logs@));
    let amend = args.contains("--amend"@);
    reveal_strlit("update-ref");
    reveal_strlit("stash");
    reveal_strlit("branch");
    reveal_strlit("rebase");
    reveal_strlit("checkout");
    reveal_strlit("cherry-pick");
    reveal_strlit("pull");
    reveal_strlit("commit");
    reveal_strlit("switch");
    reveal_strlit("revert");
    reveal_strlit("reset");
    reveal_strlit("merge");
    assert("update-ref"@.len() == 10);
    assert("stash"@.len() == 5);
    assert("branch"@.len() == 6);
    assert("rebase"@.len() == 6);
    assert("checkout"@.len() == 8);
    assert("cherry-pick"@.len() == 11);
    assert("pull"@.len() == 4);
    assert("commit"@.len() == 6);
    assert("switch"@.len() == 6);
    assert("revert"@.len() == 6);
    assert("reset"@.len() == 5);
    assert("merge"@.len() == 5);
    assert("stash"@[0] == 's');
    assert("branch"@[0] == 'b');
    assert("rebase"@[0] == 'r');
    assert("rebase"@[2] == 'b');
    assert("commit"@[0] == 'c');
    assert("switch"@[0] == 's');
    assert("revert"@[0] == 'r');
    assert("revert"@[2] == 'v');
    assert("reset"@[0] == 'r');
    assert("merge"@[0] == 'm');
    if primary == "reset"@ || primary == "revert"@ || primary == "switch"@ || primary == "merge"@
        || primary == "checkout"@ || primary == "commit"@ {
        let x1 = if primary == "commit"@ {
            ExpectedView { messages: reflog_messages_of(commit_subject_of(args), amend), ..x }
        } else {
            x
        };
        let prefixes = step_prefixes(primary, amend);
        let span = head_step(h, logs, Some(worktree), prefixes, x1);
        assert(span.len() == 1);
        let e = span[0];
        assert(span =~= seq![e]);
        lemma_found_head_moves(h, logs, Some(worktree), prefixes, x1);
        lemma_step_told_by_record(h, logs, dir, e, change);
        let key = head_key_of(logs, git_dir);
        let entries = head_entries(logs, git_dir, offset_at(h, key));
        let p = |e: EntryView| is_expected(x1, e) && message_ok(e.message, prefixes);
        lemma_first_where_member(entries, p);
        assert(h.offsets == cursor@.offsets);
        let records = unread_head_records(cursor@, logs, git_dir);
        lemma_entry_has_record(records, key, "HEAD"@, e);
        let k = choose|k: int|
            0 <= k < records.len() && (#[trigger] records[k]).old == e.old && records[k].new == e.new
                && records[k].message == e.message;
        assert(message_ok(e.message, prefixes));
        let i = choose|i: int|
            0 <= i < prefixes.len() && has_prefix(e.message, #[trigger] prefixes[i]);
        if primary == "commit"@ {
            lemma_commit_prefix(e.message);
        }
        assert(records[k].old == change.old);
    }
}

proof fn lemma_commit_prefix(m: Seq<char>)
    ensures
        has_prefix(m, "commit:"@) || has_prefix(m, "commit (amend):"@) || has_prefix(
            m,
            "commit (initial):"@,
        ) ==> has_prefix(m, "commit"@),
{
    reveal_strlit("commit");
    reveal_strlit("commit:");
    reveal_strlit("commit (amend):");
    reveal_strlit("commit (initial):");
    assert("commit:"@.take(6) =~= "commit"@);
    assert("commit (amend):"@.take(6) =~= "commit"@);
    assert("commit (initial):"@.take(6) =~= "commit"@);
    if has_prefix(m, "commit:"@) {
        assert(m.take(6) =~= m.take(7).take(6));
    }
    if has_prefix(m, "commit (amend):"@) {
        assert(m.take(6) =~= m.take("commit (amend):"@.len() as int).take(6));
    }
    if has_prefix(m, "commit (initial):"@) {
        assert(m.take(6) =~= m.take("commit (initial):"@.len() as int).take(6));
    }
}

// -------------------------------------------------------------- refs that move along

proof fn lemma_common_keys(a: Seq<char>, b: Seq<char>)
    ensures
        common_key_of(a) == common_key_of(b) ==> a == b,
{
    if common_key_of(a) == common_key_of(b) {
        let n = "common:"@.len() as int;
        assert(common_key_of(a).skip(n) =~= a);
        assert(common_key_of(b).skip(n) =~= b);
    }
}

proof fn lemma_head_key_is_its_own(logs: RefLogs, git_dir: Seq<char>, reference: Seq<char>)
    ensures
        head_key_of(logs, git_dir) != common_key_of(reference),
{
    reveal_strlit("worktree:");
    reveal_strlit("common:");
    assert(head_key_of(logs, git_dir)[0] == 'w');
    assert(common_key_of(reference)[0] == 'c');
}

proof fn lemma_swept_keeps(
    c: CursorView,
    refs: Seq<Seq<char>>,
    files: FileTree,
    dir: Seq<char>,
    x: ExpectedView,
    prefixes: Seq<Seq<char>>,
    key: Seq<char>,
)
    requires
        forall|i: int| 0 <= i < refs.len() ==> common_key_of(#[trigger] refs[i]) != key,
    ensures
        offset_at(swept(c, refs, files, dir, x, prefixes).0, key) == offset_at(c, key),
        swept(c, refs, files, dir, x, prefixes).0.failure is None ==> c.failure is None,
    decreases refs.len(),
{
    if refs.len() > 0 {
        let front = refs.drop_last();
        assert forall|i: int| 0 <= i < front.len() implies common_key_of(#[trigger] front[i]) != key by {
            assert(front[i] == refs[i]);
        }
        lemma_swept_keeps(c, front, files, dir, x, prefixes, key);
        let (c1, before) = swept(c, front, files, dir, x, prefixes);
        let c2 = looked_at(c1, files, dir, refs.last());
        let name = refs.last();
        assert(common_key_of(refs[refs.len() - 1]) != key);
        if let Some(e) = find_common(c2, files, dir, name, x, prefixes) {
            lemma_found_key(c2, files, dir, name, x, prefixes);
        }
    }
}

proof fn lemma_found_key(
    c: CursorView,
    files: FileTree,
    dir: Seq<char>,
    reference: Seq<char>,
    x: ExpectedView,
    prefixes: Seq<Seq<char>>,
)
    ensures
        find_common(c, files, dir, reference, x, prefixes) matches Some(e) ==> e.key
            == common_key_of(reference),
{
    let key = common_key_of(reference);
    let bytes = log_bytes_of(files, log_path_of(dir, reference));
    let entries = entries_of(bytes, key, reference, offset_at(c, key));
    lemma_first_where_member(
        entries,
        |e: EntryView| is_expected(x, e) && message_ok(e.message, prefixes),
    );
    if let Some(e) = find_common(c, files, dir, reference, x, prefixes) {
        lemma_entry_has_record(records_of(bytes, offset_at(c, key)), key, reference, e);
    }
}

proof fn lemma_swept_tells(
    c: CursorView,
    refs: Seq<Seq<char>>,
    files: FileTree,
    dir: Seq<char>,
    x: ExpectedView,
    prefixes: Seq<Seq<char>>,
    k: int,
)
    requires
        strictly_sorted(refs),
        0 <= k < refs.len(),
        !is_special_ref(refs[k]),
        swept(c, refs, files, dir, x, prefixes).0.failure is None,
        find_common(c, files, dir, refs[k], x, prefixes) is Some,
    ensures
        swept(c, refs, files, dir, x, prefixes).1.contains(
            change_of(find_common(c, files, dir, refs[k], x, prefixes)->0),
        ),
    decreases refs.len(),
{
    let front = refs.drop_last();
    let (c1, before) = swept(c, front, files, dir, x, prefixes);
    let all = swept(c, refs, files, dir, x, prefixes).1;
    let change = change_of(find_common(c, files, dir, refs[k], x, prefixes)->0);
    assert forall|i: int, j: int| 0 <= i < j < front.len() implies text_lt(
        #[trigger] front[i],
        #[trigger] front[j],
    ) by {
        assert(text_lt(refs[i], refs[j]));
    }
    if k < front.len() {
        assert(front[k] == refs[k]);
        lemma_swept_tells(c, front, files, dir, x, prefixes, k);
        let i = before.index_of(change);
        assert(before[i] == change);
        assert(all[i] == change);
    } else {
        let key = common_key_of(refs[k]);
        assert forall|i: int| 0 <= i < front.len() implies common_key_of(#[trigger] front[i]) != key by {
            lemma_common_keys(front[i], refs[k]);
            assert(text_lt(refs[i], refs[k]));
            lemma_text_lt_irreflexive(refs[k]);
        }
        lemma_swept_keeps(c, front, files, dir, x, prefixes, key);
        let c2 = looked_at(c1, files, dir, refs[k]);
        assert(find_common(c2, files, dir, refs[k], x, prefixes) == find_common(
            c,
            files,
            dir,
            refs[k],
            x,
            prefixes,
        ));
        assert(all[before.len() as int] == change);
    }
}

/// Every ref whose next record makes the same way as a step of `HEAD` is told with it, and
/// the record of `HEAD` is not told again.
pub proof fn law_refs_move_along(
    h: CursorView,
    logs: RefLogs,
    dir: Seq<char>,
    git_dir: Seq<char>,
    e: EntryView,
    name: Seq<char>,
    r: RecordView,
)
    requires
        e.key == head_key_of(logs, git_dir),
        is_oid(e.old) && is_oid(e.new) && e.old != e.new,
        logged_refs(logs.files, dir).contains(name),
        name != "HEAD"@ && name != "ORIG_HEAD"@ && name != "refs/stash"@,
        records_of(
            log_bytes_of(logs.files, log_path_of(dir, name)),
            offset_at(h, common_key_of(name)),
        ).len() > 0,
        records_of(
            log_bytes_of(logs.files, log_path_of(dir, name)),
            offset_at(h, common_key_of(name)),
        )[0] == r,
        r.old == e.old,
        r.new == e.new,
        span_told(h, logs, dir, seq![e]).0.failure is None,
    ensures
        span_told(h, logs, dir, seq![e]).1.contains(change_of(e)),
        span_told(h, logs, dir, seq![e]).1.contains(
            RefChangeView { reference: name, old: e.old, new: e.new },
        ),
        offset_at(span_told(h, logs, dir, seq![e]).0, head_key_of(logs, git_dir)) == Some(
            e.end_offset,
        ),
{
    let span = seq![e];
    let refs = logged_refs(logs.files, dir);
    let x = between_transition(Some(e.old), Some(e.new));
    assert(span.drop_last() =~= seq![]);
    assert(consumed_all(h, seq![]) == h);
    assert(consumed_all(h, span) == consumed(h, e));
    let c1 = listed(consumed(h, e), logs.files, dir);
    let (c2, others) = swept(c1, refs, logs.files, dir, x, seq![]);
    let (c3, orig) = orig_head_moved(c2, logs.files, dir, e.old, e.new);
    let all = changes_of(span) + others + orig;
    law_distinct_changes(all);
    assert(all[0] == change_of(e));
    assert(all.contains(change_of(e)));
    law_logged_refs_sorted(logs.files, dir);
    let k = refs.index_of(name);
    assert(refs[k] == name);
    let key = common_key_of(name);
    lemma_head_key_is_its_own(logs, git_dir, name);
    assert(offset_at(c1, key) == offset_at(h, key));
    let records = records_of(log_bytes_of(logs.files, log_path_of(dir, name)), offset_at(h, key));
    lemma_first_entry(records, key, name);
    let entries = entries_of(
        log_bytes_of(logs.files, log_path_of(dir, name)),
        key,
        name,
        offset_at(c1, key),
    );
    assert(x.old_oids.contains(e.old));
    assert(message_ok(entries[0].message, seq![]));
    assert(is_expected(x, entries[0]));
    let hk = head_key_of(logs, git_dir);
    assert forall|i: int| 0 <= i < refs.len() implies common_key_of(#[trigger] refs[i]) != hk by {
        lemma_head_key_is_its_own(logs, git_dir, refs[i]);
    }
    lemma_head_key_is_its_own(logs, git_dir, "ORIG_HEAD"@);
    lemma_swept_keeps(c1, refs, logs.files, dir, x, seq![], hk);
    let o = looked_at(c2, logs.files, dir, "ORIG_HEAD"@);
    lemma_found_key(o, logs.files, dir, "ORIG_HEAD"@, any_transition(), seq![]);
    assert(c2.failure is None);
    lemma_swept_tells(c1, refs, logs.files, dir, x, seq![], k);
    let change = RefChangeView { reference: name, old: e.old, new: e.new };
    let i = others.index_of(change);
    assert(others[i] == change);
    assert(all[1 + i] == change);
    assert(all.contains(change));
}

} // verus!
