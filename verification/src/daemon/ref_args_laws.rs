//! What the readers of git's own arguments promise, stated over the arguments.
use vstd::prelude::*;

use crate::daemon::ref_args::{
    BranchCommandView, BranchFlags, BranchOption, UpdateRefView, branch_command_of,
    branch_command_with, branch_option_of, branch_option_width, branch_ref_of, branch_refs_of,
    branch_scan, commit_subject_of, message_subject, no_branch_flags, reflog_messages_of,
    subject_of, update_ref_of, update_ref_scan, with_branch_option, zero_oid_of,
};
use crate::text::{has_prefix, lines_of, trimmed};

verus! {

// --------------------------------------------------------------------------- messages

/// The id of nothing: forty zeros.
pub proof fn law_id_of_nothing(i: int)
    requires
        0 <= i < 40,
    ensures
        zero_oid_of().len() == 40,
        zero_oid_of()[i] == '0',
{
    reveal_strlit("0000000000000000000000000000000000000000");
    assert(zero_oid_of()[0] == '0');
    assert(zero_oid_of()[1] == '0');
    assert(zero_oid_of()[2] == '0');
    assert(zero_oid_of()[3] == '0');
    assert(zero_oid_of()[4] == '0');
    assert(zero_oid_of()[5] == '0');
    assert(zero_oid_of()[6] == '0');
    assert(zero_oid_of()[7] == '0');
    assert(zero_oid_of()[8] == '0');
    assert(zero_oid_of()[9] == '0');
    assert(zero_oid_of()[10] == '0');
    assert(zero_oid_of()[11] == '0');
    assert(zero_oid_of()[12] == '0');
    assert(zero_oid_of()[13] == '0');
    assert(zero_oid_of()[14] == '0');
    assert(zero_oid_of()[15] == '0');
    assert(zero_oid_of()[16] == '0');
    assert(zero_oid_of()[17] == '0');
    assert(zero_oid_of()[18] == '0');
    assert(zero_oid_of()[19] == '0');
    assert(zero_oid_of()[20] == '0');
    assert(zero_oid_of()[21] == '0');
    assert(zero_oid_of()[22] == '0');
    assert(zero_oid_of()[23] == '0');
    assert(zero_oid_of()[24] == '0');
    assert(zero_oid_of()[25] == '0');
    assert(zero_oid_of()[26] == '0');
    assert(zero_oid_of()[27] == '0');
    assert(zero_oid_of()[28] == '0');
    assert(zero_oid_of()[29] == '0');
    assert(zero_oid_of()[30] == '0');
    assert(zero_oid_of()[31] == '0');
    assert(zero_oid_of()[32] == '0');
    assert(zero_oid_of()[33] == '0');
    assert(zero_oid_of()[34] == '0');
    assert(zero_oid_of()[35] == '0');
    assert(zero_oid_of()[36] == '0');
    assert(zero_oid_of()[37] == '0');
    assert(zero_oid_of()[38] == '0');
    assert(zero_oid_of()[39] == '0');
}

/// The subject of a message is its first line that is not blank.
pub proof fn law_subject(rows: Seq<Seq<char>>)
    ensures
        match subject_of(rows) {
            Some(r) => exists|i: int| 0 <= i < rows.len() && r == #[trigger] rows[i] && trimmed(r).len() > 0 && (forall|j: int| 0 <= j < i ==> trimmed(#[trigger] rows[j]).len() == 0),
            None => forall|j: int| 0 <= j < rows.len() ==> trimmed(#[trigger] rows[j]).len() == 0,
        },
    decreases rows.len(),
{
    if rows.len() > 0 && trimmed(rows[0]).len() == 0 {
        let rest = rows.drop_first();
        law_subject(rest);
        match subject_of(rest) {
            Some(r) => {
                let k = choose|i: int| 0 <= i < rest.len() && r == #[trigger] rest[i] && trimmed(r).len() > 0 && (forall|j: int| 0 <= j < i ==> trimmed(#[trigger] rest[j]).len() == 0);
                assert(rows[k + 1] == rest[k]);
                assert forall|j: int| 0 <= j < k + 1 implies trimmed(#[trigger] rows[j]).len() == 0 by {
                    if j > 0 {
                        assert(rest[j - 1] == rows[j]);
                    }
                }
            },
            None => {
                assert forall|j: int| 0 <= j < rows.len() implies trimmed(#[trigger] rows[j]).len() == 0 by {
                    if j > 0 {
                        assert(rest[j - 1] == rows[j]);
                    }
                }
            },
        }
    } else if rows.len() > 0 {
        assert(subject_of(rows) == Some(rows[0]));
    }
}

proof fn lemma_starts(p: Seq<char>, value: Seq<char>)
    ensures
        has_prefix(p + value, p),
        (p + value).skip(p.len() as int) == value,
{
    assert((p + value).take(p.len() as int) =~= p);
    assert((p + value).skip(p.len() as int) =~= value);
}

/// The message of a commit is given behind `-m` or `--message`, in the next argument or in
/// the same one; the first that is given counts.
pub proof fn law_message_of_a_commit(m: Seq<char>, rest: Seq<Seq<char>>)
    ensures
        commit_subject_of(seq!["commit"@, "-m"@, m] + rest) == subject_of(lines_of(m)),
        commit_subject_of(seq!["commit"@, "--message"@, m] + rest) == subject_of(lines_of(m)),
        commit_subject_of(seq!["commit"@, "--message="@ + m] + rest) == subject_of(lines_of(m)),
        m.len() > 0 ==> commit_subject_of(seq!["commit"@, "-m"@ + m] + rest) == subject_of(lines_of(m)),
        commit_subject_of(seq!["-m"@, m] + rest) == subject_of(lines_of(m)),
        commit_subject_of(seq!["commit"@, "--"@] + rest) is None,
        commit_subject_of(seq!["commit"@]) is None,
        commit_subject_of(seq!["commit"@, "-m"@]) is None,
{
    reveal_strlit("commit");
    reveal_strlit("-m");
    reveal_strlit("--message");
    reveal_strlit("--message=");
    reveal_strlit("--");
    assert("commit"@.len() == 6);
    assert("-m"@.len() == 2);
    assert("--message"@.len() == 9);
    assert("--message="@.len() == 10);
    assert("--"@.len() == 2);
    assert("-m"@[1] == 'm');
    assert("--"@[1] == '-');
    reveal_with_fuel(message_subject, 3);
    lemma_starts("--message="@, m);
    lemma_starts("-m"@, m);
    assert("-m"@[1] == 'm');
    assert("--message"@[1] == '-');
    assert("--message="@[1] == '-');
    assert("--message="@[0] == '-');
    assert("--"@[1] == '-');
    let a = seq!["commit"@, "-m"@, m] + rest;
    assert(a[0] == "commit"@ && a[1] == "-m"@ && a[2] == m);
    let b = seq!["commit"@, "--message"@, m] + rest;
    assert(b[0] == "commit"@ && b[1] == "--message"@ && b[2] == m);
    let c = seq!["commit"@, "--message="@ + m] + rest;
    assert(c[0] == "commit"@ && c[1] == "--message="@ + m);
    assert(("--message="@ + m)[1] == '-');
    assert(("--message="@ + m).len() >= 10);
    let d = seq!["commit"@, "-m"@ + m] + rest;
    assert(d[0] == "commit"@ && d[1] == "-m"@ + m);
    assert(("-m"@ + m)[1] == 'm');
    if has_prefix("-m"@ + m, "--message="@) {
        assert(("-m"@ + m).take(10)[1] == ("-m"@ + m)[1]);
    }
    let e = seq!["-m"@, m] + rest;
    assert(e[0] == "-m"@ && e[1] == m);
    let f = seq!["commit"@, "--"@] + rest;
    assert(f[0] == "commit"@ && f[1] == "--"@);
    if has_prefix("--"@, "-m"@) {
        assert("--"@.take(2)[1] == "--"@[1]);
    }
    let g = seq!["commit"@];
    assert(g[0] == "commit"@);
    let h = seq!["commit"@, "-m"@];
    assert(h[0] == "commit"@ && h[1] == "-m"@);
}

/// An argument that is neither a message nor the end of the options is passed over.
pub proof fn law_other_arguments_of_a_commit(args: Seq<Seq<char>>, at: int)
    requires
        0 <= at < args.len(),
        args[at] != "--message"@,
        args[at] != "--"@,
        !has_prefix(args[at], "-m"@),
        !has_prefix(args[at], "--message="@),
    ensures
        message_subject(args, at) == message_subject(args, at + 1),
{
    reveal_strlit("-m");
    assert("-m"@.take(2) =~= "-m"@);
}

/// What the record of a commit says: the way it was made, and its subject.
pub proof fn law_records_of_a_commit(s: Seq<char>)
    ensures
        reflog_messages_of(None, true).len() == 0,
        reflog_messages_of(None, false).len() == 0,
        reflog_messages_of(Some(s), true) == seq!["commit (amend):"@ + " "@ + s, "commit:"@ + " "@ + s],
        reflog_messages_of(Some(s), false) == seq![
            "commit:"@ + " "@ + s,
            "commit (initial):"@ + " "@ + s,
            "commit (merge):"@ + " "@ + s,
            "commit (cherry-pick):"@ + " "@ + s,
            "commit (revert):"@ + " "@ + s,
        ],
{
}

// --------------------------------------------------------------------------- update-ref

/// Whether an argument is a name: not an option, not the command.
pub open spec fn is_plain(a: Seq<char>) -> bool {
    a.len() > 0 && a[0] != '-' && a != "update-ref"@
}

proof fn lemma_plain(a: Seq<char>)
    requires
        is_plain(a),
    ensures
        !has_prefix(a, "-"@),
        !has_prefix(a, "--message="@),
        a != "--create-reflog"@ && a != "--no-deref"@ && a != "--stdin"@ && a != "--batch-updates"@ && a != "-d"@ && a != "--delete"@ && a != "-m"@ && a != "--message"@,
{
    reveal_strlit("-");
    assert("-"@[0] == '-');
    reveal_strlit("--message=");
    assert("--message="@[0] == '-');
    reveal_strlit("--create-reflog");
    assert("--create-reflog"@[0] == '-');
    reveal_strlit("--no-deref");
    assert("--no-deref"@[0] == '-');
    reveal_strlit("--stdin");
    assert("--stdin"@[0] == '-');
    reveal_strlit("--batch-updates");
    assert("--batch-updates"@[0] == '-');
    reveal_strlit("-d");
    assert("-d"@[0] == '-');
    reveal_strlit("--delete");
    assert("--delete"@[0] == '-');
    reveal_strlit("-m");
    assert("-m"@[0] == '-');
    reveal_strlit("--message");
    assert("--message"@[0] == '-');
    if has_prefix(a, "-"@) {
        assert(a.take(1)[0] == a[0]);
    }
    if has_prefix(a, "--message="@) {
        assert(a.take(10)[0] == a[0]);
    }
}

/// A ref is set with its name, the new id and, where it is given, the old one; it is
/// removed with its name and, where it is given, the old id.
pub proof fn law_update_ref(name: Seq<char>, new: Seq<char>, old: Seq<char>, message: Seq<char>)
    requires
        is_plain(name),
        is_plain(new),
        is_plain(old),
    ensures
        update_ref_of(seq!["update-ref"@, name, new]) == Ok::<UpdateRefView, Seq<char>>(UpdateRefView { reference: name, new_oid: new, old_oid: None }),
        update_ref_of(seq!["update-ref"@, name, new, old]) == Ok::<UpdateRefView, Seq<char>>(UpdateRefView { reference: name, new_oid: new, old_oid: Some(old) }),
        update_ref_of(seq!["update-ref"@, "-m"@, message, name, new]) == Ok::<UpdateRefView, Seq<char>>(UpdateRefView { reference: name, new_oid: new, old_oid: None }),
        update_ref_of(seq!["update-ref"@, "-d"@, name]) == Ok::<UpdateRefView, Seq<char>>(UpdateRefView { reference: name, new_oid: "0000000000000000000000000000000000000000"@, old_oid: None }),
        update_ref_of(seq!["update-ref"@, "-d"@, name, old]) == Ok::<UpdateRefView, Seq<char>>(UpdateRefView { reference: name, new_oid: "0000000000000000000000000000000000000000"@, old_oid: Some(old) }),
        update_ref_of(seq!["update-ref"@, name]) == Err::<UpdateRefView, Seq<char>>("update-ref requires <ref> <new-oid> [<old-oid>]"@),
        update_ref_of(seq!["update-ref"@, "-d"@, name, new, old]) == Err::<UpdateRefView, Seq<char>>("update-ref delete requires <ref> [<old-oid>]"@),
        update_ref_of(seq!["update-ref"@, "-d"@]) == Err::<UpdateRefView, Seq<char>>("update-ref delete requires <ref> [<old-oid>]"@),
        update_ref_of(seq!["update-ref"@, "--stdin"@]) == Err::<UpdateRefView, Seq<char>>("trace2 cursor does not support update-ref stdin/batch updates"@),
        update_ref_of(seq!["update-ref"@, "-m"@]) == Err::<UpdateRefView, Seq<char>>("update-ref -m requires a message argument"@),
{
    lemma_plain(name);
    lemma_plain(new);
    lemma_plain(old);
    reveal_strlit("update-ref");
    reveal_strlit("--create-reflog");
    reveal_strlit("--no-deref");
    reveal_strlit("--stdin");
    reveal_strlit("--batch-updates");
    reveal_strlit("-d");
    reveal_strlit("--delete");
    reveal_strlit("-m");
    reveal_strlit("--message");
    assert("update-ref"@.len() == 10);
    assert("--create-reflog"@.len() == 15);
    assert("--no-deref"@.len() == 10);
    assert("--stdin"@.len() == 7);
    assert("--batch-updates"@.len() == 15);
    assert("-d"@.len() == 2);
    assert("--delete"@.len() == 8);
    assert("-m"@.len() == 2);
    assert("--message"@.len() == 9);
    assert("update-ref"@[0] == 'u');
    assert("--create-reflog"@[2] == 'c');
    assert("--no-deref"@[0] == '-');
    assert("--batch-updates"@[2] == 'b');
    assert("-d"@[1] == 'd');
    assert("-m"@[1] == 'm');
    reveal_with_fuel(update_ref_scan, 7);
    let a0 = seq!["update-ref"@, name, new];
    assert(a0[0] == "update-ref"@ && a0[1] == name && a0[2] == new);
    let a1 = seq!["update-ref"@, name, new, old];
    assert(a1[0] == "update-ref"@ && a1[1] == name && a1[2] == new && a1[3] == old);
    let a2 = seq!["update-ref"@, "-m"@, message, name, new];
    assert(a2[0] == "update-ref"@ && a2[1] == "-m"@ && a2[2] == message && a2[3] == name && a2[4] == new);
    let a3 = seq!["update-ref"@, "-d"@, name];
    assert(a3[0] == "update-ref"@ && a3[1] == "-d"@ && a3[2] == name);
    let a4 = seq!["update-ref"@, "-d"@, name, old];
    assert(a4[0] == "update-ref"@ && a4[1] == "-d"@ && a4[2] == name && a4[3] == old);
    let a5 = seq!["update-ref"@, name];
    assert(a5[0] == "update-ref"@ && a5[1] == name);
    let a6 = seq!["update-ref"@, "-d"@, name, new, old];
    assert(a6[0] == "update-ref"@ && a6[1] == "-d"@ && a6[2] == name && a6[3] == new && a6[4] == old);
    let a7 = seq!["update-ref"@, "-d"@];
    assert(a7[0] == "update-ref"@ && a7[1] == "-d"@);
    let a8 = seq!["update-ref"@, "--stdin"@];
    assert(a8[0] == "update-ref"@ && a8[1] == "--stdin"@);
    let a9 = seq!["update-ref"@, "-m"@];
    assert(a9[0] == "update-ref"@ && a9[1] == "-m"@);
    assert(update_ref_scan(a0, 3) == Ok::<(bool, Seq<Seq<char>>), Seq<char>>((false, Seq::empty())));
    assert(update_ref_scan(a0, 2) matches Ok(v) && v.0 == false && v.1 =~= seq![new]);
    assert(update_ref_scan(a0, 1) matches Ok(v) && v.0 == false && v.1 =~= seq![name, new]);
    assert(update_ref_scan(a0, 0) matches Ok(v) && v.0 == false && v.1 =~= seq![name, new]);
    assert(update_ref_scan(a1, 4) == Ok::<(bool, Seq<Seq<char>>), Seq<char>>((false, Seq::empty())));
    assert(update_ref_scan(a1, 3) matches Ok(v) && v.0 == false && v.1 =~= seq![old]);
    assert(update_ref_scan(a1, 2) matches Ok(v) && v.0 == false && v.1 =~= seq![new, old]);
    assert(update_ref_scan(a1, 1) matches Ok(v) && v.0 == false && v.1 =~= seq![name, new, old]);
    assert(update_ref_scan(a1, 0) matches Ok(v) && v.0 == false && v.1 =~= seq![name, new, old]);
    assert(update_ref_scan(a2, 5) == Ok::<(bool, Seq<Seq<char>>), Seq<char>>((false, Seq::empty())));
    assert(update_ref_scan(a2, 4) matches Ok(v) && v.0 == false && v.1 =~= seq![new]);
    assert(update_ref_scan(a2, 3) matches Ok(v) && v.0 == false && v.1 =~= seq![name, new]);
    assert(update_ref_scan(a2, 1) matches Ok(v) && v.0 == false && v.1 =~= seq![name, new]);
    assert(update_ref_scan(a2, 0) matches Ok(v) && v.0 == false && v.1 =~= seq![name, new]);
    assert(update_ref_scan(a3, 3) == Ok::<(bool, Seq<Seq<char>>), Seq<char>>((false, Seq::empty())));
    assert(update_ref_scan(a3, 2) matches Ok(v) && v.0 == false && v.1 =~= seq![name]);
    assert(update_ref_scan(a3, 1) matches Ok(v) && v.0 == true && v.1 =~= seq![name]);
    assert(update_ref_scan(a3, 0) matches Ok(v) && v.0 == true && v.1 =~= seq![name]);
    assert(update_ref_scan(a4, 4) == Ok::<(bool, Seq<Seq<char>>), Seq<char>>((false, Seq::empty())));
    assert(update_ref_scan(a4, 3) matches Ok(v) && v.0 == false && v.1 =~= seq![old]);
    assert(update_ref_scan(a4, 2) matches Ok(v) && v.0 == false && v.1 =~= seq![name, old]);
    assert(update_ref_scan(a4, 1) matches Ok(v) && v.0 == true && v.1 =~= seq![name, old]);
    assert(update_ref_scan(a4, 0) matches Ok(v) && v.0 == true && v.1 =~= seq![name, old]);
    assert(update_ref_scan(a5, 2) == Ok::<(bool, Seq<Seq<char>>), Seq<char>>((false, Seq::empty())));
    assert(update_ref_scan(a5, 1) matches Ok(v) && v.0 == false && v.1 =~= seq![name]);
    assert(update_ref_scan(a5, 0) matches Ok(v) && v.0 == false && v.1 =~= seq![name]);
    assert(update_ref_scan(a6, 5) == Ok::<(bool, Seq<Seq<char>>), Seq<char>>((false, Seq::empty())));
    assert(update_ref_scan(a6, 4) matches Ok(v) && v.0 == false && v.1 =~= seq![old]);
    assert(update_ref_scan(a6, 3) matches Ok(v) && v.0 == false && v.1 =~= seq![new, old]);
    assert(update_ref_scan(a6, 2) matches Ok(v) && v.0 == false && v.1 =~= seq![name, new, old]);
    assert(update_ref_scan(a6, 1) matches Ok(v) && v.0 == true && v.1 =~= seq![name, new, old]);
    assert(update_ref_scan(a6, 0) matches Ok(v) && v.0 == true && v.1 =~= seq![name, new, old]);
    assert(update_ref_scan(a7, 2) == Ok::<(bool, Seq<Seq<char>>), Seq<char>>((false, Seq::empty())));
    assert(update_ref_scan(a7, 1) matches Ok(v) && v.0 == true && v.1 =~= Seq::<Seq<char>>::empty());
    assert(update_ref_scan(a7, 0) matches Ok(v) && v.0 == true && v.1 =~= Seq::<Seq<char>>::empty());
}

/// An option that is not known is refused, with its text; so are updates from the input.
pub proof fn law_unknown_update_options(args: Seq<Seq<char>>, at: int)
    requires
        0 <= at < args.len(),
    ensures
        ({
            let a = args[at];
            &&& a == "--batch-updates"@ || a == "--stdin"@ ==> update_ref_scan(args, at) == Err::<(bool, Seq<Seq<char>>), Seq<char>>("trace2 cursor does not support update-ref stdin/batch updates"@)
            &&& a == "--create-reflog"@ || a == "--no-deref"@ || a == "update-ref"@ || has_prefix(a, "--message="@) ==> update_ref_scan(args, at) == update_ref_scan(args, at + 1)
            &&& (a == "-m"@ || a == "--message"@) && at + 1 < args.len() ==> update_ref_scan(args, at) == update_ref_scan(args, at + 2)
            &&& (a == "-d"@ || a == "--delete"@) && update_ref_scan(args, at + 1) is Ok ==> update_ref_scan(args, at) == Ok::<(bool, Seq<Seq<char>>), Seq<char>>((true, update_ref_scan(args, at + 1)->Ok_0.1))
            &&& update_ref_scan(args, at + 1) is Err && is_plain(a) ==> update_ref_scan(args, at) == update_ref_scan(args, at + 1)
            &&& has_prefix(a, "-"@) && !has_prefix(a, "--message="@) && a != "--batch-updates"@ && a != "--stdin"@ && a != "--create-reflog"@ && a != "--no-deref"@ && a != "-m"@ && a != "--message"@ && a != "-d"@ && a != "--delete"@
                ==> update_ref_scan(args, at) == Err::<(bool, Seq<Seq<char>>), Seq<char>>("trace2 cursor does not support update-ref option '"@ + a + "'"@)
        }),
{
    let a = args[at];
    if is_plain(a) {
        lemma_plain(a);
    }
    reveal_strlit("update-ref");
    reveal_strlit("--create-reflog");
    reveal_strlit("--no-deref");
    reveal_strlit("--stdin");
    reveal_strlit("--batch-updates");
    reveal_strlit("-d");
    reveal_strlit("--delete");
    reveal_strlit("-m");
    reveal_strlit("--message");
    reveal_strlit("--message=");
    reveal_strlit("-");
    assert("update-ref"@.len() == 10);
    assert("--create-reflog"@.len() == 15);
    assert("--no-deref"@.len() == 10);
    assert("--stdin"@.len() == 7);
    assert("--batch-updates"@.len() == 15);
    assert("-d"@.len() == 2);
    assert("--delete"@.len() == 8);
    assert("-m"@.len() == 2);
    assert("--message"@.len() == 9);
    assert("--message="@.len() == 10);
    assert("-"@.len() == 1);
    assert("update-ref"@[0] == 'u');
    assert("--create-reflog"@[2] == 'c');
    assert("--no-deref"@[0] == '-');
    assert("--no-deref"@[2] == 'n');
    assert("--batch-updates"@[2] == 'b');
    assert("-d"@[1] == 'd');
    assert("-m"@[1] == 'm');
    assert("--message="@[0] == '-');
    assert("--message="@[2] == 'm');
    assert("update-ref"@[0] == 'u');
    assert("--create-reflog"@[2] == 'c');
    assert("--no-deref"@[2] == 'n');
    assert("--stdin"@[2] == 's');
    assert("--batch-updates"@[2] == 'b');
    assert("--delete"@[2] == 'd');
    assert("--message="@[2] == 'm');

    if has_prefix(a, "-"@) {
        assert(a.take(1)[0] == a[0]);
    }
    if has_prefix(a, "--message="@) {
        assert(a.take(10)[2] == a[2]);
        assert(a.take(10)[9] == a[9]);
        assert(a.take(10)[0] == a[0]);
        assert("--message="@[9] == '=');
        assert("--message="@[0] == '-');
        assert("--message="@[2] == 'm');
    }
}

// --------------------------------------------------------------------------- branch

/// Each option of `git branch` and what it asks for.
#[verifier::rlimit(60)]
pub proof fn law_each_branch_option(a: Seq<char>)
    ensures
        (a == "--"@) ==> branch_option_of(a) == BranchOption::End,
        (a == "-d"@ || a == "-D"@ || a == "--delete"@) ==> branch_option_of(a) == BranchOption::Delete,
        (a == "-m"@ || a == "-M"@ || a == "--move"@) ==> branch_option_of(a) == BranchOption::Rename,
        (a == "-c"@ || a == "-C"@ || a == "--copy"@) ==> branch_option_of(a) == BranchOption::Copy,
        (a == "-r"@ || a == "--remotes"@) ==> branch_option_of(a) == BranchOption::Remotes,
        (a == "-a"@ || a == "--all"@ || a == "--list"@ || a == "--show-current"@ || a == "--contains"@ || a == "--no-contains"@ || a == "--merged"@ || a == "--no-merged"@) ==> branch_option_of(a) == BranchOption::List,
        (a == "--unset-upstream"@ || a == "--edit-description"@ || a == "--set-upstream"@) ==> branch_option_of(a) == BranchOption::Configure,
        (a == "-u"@ || a == "--set-upstream-to"@) ==> branch_option_of(a) == BranchOption::ConfigureWithValue,
        (a == "--points-at"@ || a == "--sort"@ || a == "--format"@) ==> branch_option_of(a) == BranchOption::ListWithValue,
        (a == "--color"@ || a == "--column"@ || a == "--abbrev"@) ==> branch_option_of(a) == BranchOption::SkipWithValue,
        (a == "--track"@ || a == "--no-track"@ || a == "--create-reflog"@ || a == "--no-create-reflog"@ || a == "--recurse-submodules"@ || a == "--no-color"@ || a == "--no-column"@ || a == "--no-abbrev"@ || a == "--quiet"@ || a == "-q"@ || a == "--verbose"@ || a == "-v"@ || a == "-vv"@ || a == "-f"@ || a == "--force"@ || a == "-l"@) ==> branch_option_of(a) == BranchOption::Skip,
{
    reveal(branch_option_of);
    reveal_strlit("--");
    reveal_strlit("-d");
    reveal_strlit("-D");
    reveal_strlit("--delete");
    reveal_strlit("-m");
    reveal_strlit("-M");
    reveal_strlit("--move");
    reveal_strlit("-c");
    reveal_strlit("-C");
    reveal_strlit("--copy");
    reveal_strlit("-r");
    reveal_strlit("--remotes");
    reveal_strlit("-a");
    reveal_strlit("--all");
    reveal_strlit("--list");
    reveal_strlit("--show-current");
    reveal_strlit("--contains");
    reveal_strlit("--no-contains");
    reveal_strlit("--merged");
    reveal_strlit("--no-merged");
    reveal_strlit("--unset-upstream");
    reveal_strlit("--edit-description");
    reveal_strlit("--set-upstream");
    reveal_strlit("-u");
    reveal_strlit("--set-upstream-to");
    reveal_strlit("--points-at");
    reveal_strlit("--sort");
    reveal_strlit("--format");
    reveal_strlit("--color");
    reveal_strlit("--column");
    reveal_strlit("--abbrev");
    reveal_strlit("--track");
    reveal_strlit("--no-track");
    reveal_strlit("--create-reflog");
    reveal_strlit("--no-create-reflog");
    reveal_strlit("--recurse-submodules");
    reveal_strlit("--no-color");
    reveal_strlit("--no-column");
    reveal_strlit("--no-abbrev");
    reveal_strlit("--quiet");
    reveal_strlit("-q");
    reveal_strlit("--verbose");
    reveal_strlit("-v");
    reveal_strlit("-vv");
    reveal_strlit("-f");
    reveal_strlit("--force");
    reveal_strlit("-l");
    assert("--"@.len() == 2);
    assert("-d"@.len() == 2);
    assert("-D"@.len() == 2);
    assert("--delete"@.len() == 8);
    assert("-m"@.len() == 2);
    assert("-M"@.len() == 2);
    assert("--move"@.len() == 6);
    assert("-c"@.len() == 2);
    assert("-C"@.len() == 2);
    assert("--copy"@.len() == 6);
    assert("-r"@.len() == 2);
    assert("--remotes"@.len() == 9);
    assert("-a"@.len() == 2);
    assert("--all"@.len() == 5);
    assert("--list"@.len() == 6);
    assert("--show-current"@.len() == 14);
    assert("--contains"@.len() == 10);
    assert("--no-contains"@.len() == 13);
    assert("--merged"@.len() == 8);
    assert("--no-merged"@.len() == 11);
    assert("--unset-upstream"@.len() == 16);
    assert("--edit-description"@.len() == 18);
    assert("--set-upstream"@.len() == 14);
    assert("-u"@.len() == 2);
    assert("--set-upstream-to"@.len() == 17);
    assert("--points-at"@.len() == 11);
    assert("--sort"@.len() == 6);
    assert("--format"@.len() == 8);
    assert("--color"@.len() == 7);
    assert("--column"@.len() == 8);
    assert("--abbrev"@.len() == 8);
    assert("--track"@.len() == 7);
    assert("--no-track"@.len() == 10);
    assert("--create-reflog"@.len() == 15);
    assert("--no-create-reflog"@.len() == 18);
    assert("--recurse-submodules"@.len() == 20);
    assert("--no-color"@.len() == 10);
    assert("--no-column"@.len() == 11);
    assert("--no-abbrev"@.len() == 11);
    assert("--quiet"@.len() == 7);
    assert("-q"@.len() == 2);
    assert("--verbose"@.len() == 9);
    assert("-v"@.len() == 2);
    assert("-vv"@.len() == 3);
    assert("-f"@.len() == 2);
    assert("--force"@.len() == 7);
    assert("-l"@.len() == 2);
    assert("--"@[1] == '-');
    assert("-d"@[1] == 'd');
    assert("-D"@[1] == 'D');
    assert("--delete"@[2] == 'd');
    assert("-m"@[1] == 'm');
    assert("-M"@[1] == 'M');
    assert("--move"@[2] == 'm');
    assert("-c"@[1] == 'c');
    assert("-C"@[1] == 'C');
    assert("--copy"@[2] == 'c');
    assert("-r"@[1] == 'r');
    assert("--remotes"@[2] == 'r');
    assert("-a"@[1] == 'a');
    assert("--list"@[2] == 'l');
    assert("--show-current"@[3] == 'h');
    assert("--contains"@[2] == 'c');
    assert("--merged"@[2] == 'm');
    assert("--no-merged"@[2] == 'n');
    assert("--no-merged"@[5] == 'm');
    assert("--edit-description"@[2] == 'e');
    assert("--set-upstream"@[3] == 'e');
    assert("-u"@[1] == 'u');
    assert("--points-at"@[2] == 'p');
    assert("--sort"@[2] == 's');
    assert("--format"@[2] == 'f');
    assert("--color"@[2] == 'c');
    assert("--column"@[2] == 'c');
    assert("--abbrev"@[2] == 'a');
    assert("--track"@[2] == 't');
    assert("--no-track"@[2] == 'n');
    assert("--no-track"@[5] == 't');
    assert("--no-create-reflog"@[2] == 'n');
    assert("--no-color"@[2] == 'n');
    assert("--no-color"@[5] == 'c');
    assert("--no-column"@[2] == 'n');
    assert("--no-column"@[5] == 'c');
    assert("--no-abbrev"@[2] == 'n');
    assert("--no-abbrev"@[5] == 'a');
    assert("--quiet"@[2] == 'q');
    assert("-q"@[1] == 'q');
    assert("--verbose"@[2] == 'v');
    assert("-v"@[1] == 'v');
    assert("-f"@[1] == 'f');
    assert("--force"@[2] == 'f');
    assert("-l"@[1] == 'l');
}

/// Without a dash in front an argument is a name; behind one dash several letters are as
/// many options.
pub proof fn law_names_and_letters(a: Seq<char>)
    ensures
        a.len() == 0 || a[0] != '-' ==> branch_option_of(a) == BranchOption::Name,
        a.len() > 2 && a[0] == '-' && a[1] != '-' && a != "-vv"@ ==> branch_option_of(a) == BranchOption::Short,
{
    reveal_strlit("--");
    reveal_strlit("-d");
    reveal_strlit("-D");
    reveal_strlit("--delete");
    reveal_strlit("-m");
    reveal_strlit("-M");
    reveal_strlit("--move");
    reveal_strlit("-c");
    reveal_strlit("-C");
    reveal_strlit("--copy");
    reveal_strlit("-r");
    reveal_strlit("--remotes");
    reveal_strlit("-a");
    reveal_strlit("--all");
    reveal_strlit("--list");
    reveal_strlit("--show-current");
    reveal_strlit("--contains");
    reveal_strlit("--no-contains");
    reveal_strlit("--merged");
    reveal_strlit("--no-merged");
    reveal_strlit("--unset-upstream");
    reveal_strlit("--edit-description");
    reveal_strlit("--set-upstream");
    reveal_strlit("-u");
    reveal_strlit("--set-upstream-to");
    reveal_strlit("--points-at");
    reveal_strlit("--sort");
    reveal_strlit("--format");
    reveal_strlit("--color");
    reveal_strlit("--column");
    reveal_strlit("--abbrev");
    reveal_strlit("--track");
    reveal_strlit("--no-track");
    reveal_strlit("--create-reflog");
    reveal_strlit("--no-create-reflog");
    reveal_strlit("--recurse-submodules");
    reveal_strlit("--no-color");
    reveal_strlit("--no-column");
    reveal_strlit("--no-abbrev");
    reveal_strlit("--quiet");
    reveal_strlit("-q");
    reveal_strlit("--verbose");
    reveal_strlit("-v");
    reveal_strlit("-vv");
    reveal_strlit("-f");
    reveal_strlit("--force");
    reveal_strlit("-l");
    reveal_strlit("--set-upstream-to=");
    reveal_strlit("--points-at=");
    reveal_strlit("--sort=");
    reveal_strlit("--format=");
    reveal_strlit("--contains=");
    reveal_strlit("--no-contains=");
    reveal_strlit("--merged=");
    reveal_strlit("--no-merged=");
    reveal_strlit("--track=");
    reveal_strlit("--color=");
    reveal_strlit("--column=");
    reveal_strlit("--abbrev=");
    reveal_strlit("-");
    assert("--"@[0] == '-');
    assert("-d"@[0] == '-');
    assert("-D"@[0] == '-');
    assert("--delete"@[0] == '-');
    assert("-m"@[0] == '-');
    assert("-M"@[0] == '-');
    assert("--move"@[0] == '-');
    assert("-c"@[0] == '-');
    assert("-C"@[0] == '-');
    assert("--copy"@[0] == '-');
    assert("-r"@[0] == '-');
    assert("--remotes"@[0] == '-');
    assert("-a"@[0] == '-');
    assert("--all"@[0] == '-');
    assert("--list"@[0] == '-');
    assert("--show-current"@[0] == '-');
    assert("--contains"@[0] == '-');
    assert("--no-contains"@[0] == '-');
    assert("--merged"@[0] == '-');
    assert("--no-merged"@[0] == '-');
    assert("--unset-upstream"@[0] == '-');
    assert("--edit-description"@[0] == '-');
    assert("--set-upstream"@[0] == '-');
    assert("-u"@[0] == '-');
    assert("--set-upstream-to"@[0] == '-');
    assert("--points-at"@[0] == '-');
    assert("--sort"@[0] == '-');
    assert("--format"@[0] == '-');
    assert("--color"@[0] == '-');
    assert("--column"@[0] == '-');
    assert("--abbrev"@[0] == '-');
    assert("--track"@[0] == '-');
    assert("--no-track"@[0] == '-');
    assert("--create-reflog"@[0] == '-');
    assert("--no-create-reflog"@[0] == '-');
    assert("--recurse-submodules"@[0] == '-');
    assert("--no-color"@[0] == '-');
    assert("--no-column"@[0] == '-');
    assert("--no-abbrev"@[0] == '-');
    assert("--quiet"@[0] == '-');
    assert("-q"@[0] == '-');
    assert("--verbose"@[0] == '-');
    assert("-v"@[0] == '-');
    assert("-vv"@[0] == '-');
    assert("-f"@[0] == '-');
    assert("--force"@[0] == '-');
    assert("-l"@[0] == '-');
    assert("--set-upstream-to="@[0] == '-');
    assert("--points-at="@[0] == '-');
    assert("--sort="@[0] == '-');
    assert("--format="@[0] == '-');
    assert("--contains="@[0] == '-');
    assert("--no-contains="@[0] == '-');
    assert("--merged="@[0] == '-');
    assert("--no-merged="@[0] == '-');
    assert("--track="@[0] == '-');
    assert("--color="@[0] == '-');
    assert("--column="@[0] == '-');
    assert("--abbrev="@[0] == '-');
    assert("--set-upstream-to="@[1] == '-');
    assert("--points-at="@[1] == '-');
    assert("--sort="@[1] == '-');
    assert("--format="@[1] == '-');
    assert("--contains="@[1] == '-');
    assert("--no-contains="@[1] == '-');
    assert("--merged="@[1] == '-');
    assert("--no-merged="@[1] == '-');
    assert("--track="@[1] == '-');
    assert("--color="@[1] == '-');
    assert("--column="@[1] == '-');
    assert("--abbrev="@[1] == '-');
    assert("--"@[1] == '-');
    assert("--delete"@[1] == '-');
    assert("--move"@[1] == '-');
    assert("--copy"@[1] == '-');
    assert("--remotes"@[1] == '-');
    assert("--all"@[1] == '-');
    assert("--list"@[1] == '-');
    assert("--show-current"@[1] == '-');
    assert("--contains"@[1] == '-');
    assert("--no-contains"@[1] == '-');
    assert("--merged"@[1] == '-');
    assert("--no-merged"@[1] == '-');
    assert("--unset-upstream"@[1] == '-');
    assert("--edit-description"@[1] == '-');
    assert("--set-upstream"@[1] == '-');
    assert("--set-upstream-to"@[1] == '-');
    assert("--points-at"@[1] == '-');
    assert("--sort"@[1] == '-');
    assert("--format"@[1] == '-');
    assert("--color"@[1] == '-');
    assert("--column"@[1] == '-');
    assert("--abbrev"@[1] == '-');
    assert("--track"@[1] == '-');
    assert("--no-track"@[1] == '-');
    assert("--create-reflog"@[1] == '-');
    assert("--no-create-reflog"@[1] == '-');
    assert("--recurse-submodules"@[1] == '-');
    assert("--no-color"@[1] == '-');
    assert("--no-column"@[1] == '-');
    assert("--no-abbrev"@[1] == '-');
    assert("--quiet"@[1] == '-');
    assert("--verbose"@[1] == '-');
    assert("--force"@[1] == '-');
    reveal(branch_option_of);
    assert("-"@.len() == 1 && "-"@[0] == '-');
    if a.len() > 0 {
        assert(a.take(1)[0] == a[0]);
        if a[0] == '-' {
            assert(a.take(1) =~= "-"@);
        }
    }
    assert forall|p: Seq<char>| p.len() >= 2 && #[trigger] has_prefix(a, p) implies a[0] == p[0] && a[1] == p[1] by {
        assert(a.take(p.len() as int)[0] == a[0]);
        assert(a.take(p.len() as int)[1] == a[1]);
    }
    assert("--"@.len() == 2);
    assert("-vv"@.len() == 3);
    assert("-d"@.len() == 2);
    assert("-D"@.len() == 2);
    assert("-m"@.len() == 2);
    assert("-M"@.len() == 2);
    assert("-c"@.len() == 2);
    assert("-C"@.len() == 2);
    assert("-r"@.len() == 2);
    assert("-a"@.len() == 2);
    assert("-u"@.len() == 2);
    assert("-q"@.len() == 2);
    assert("-v"@.len() == 2);
    assert("-f"@.len() == 2);
    assert("-l"@.len() == 2);
    assert("--set-upstream-to="@.len() == 18);
    assert("--points-at="@.len() == 12);
    assert("--sort="@.len() == 7);
    assert("--format="@.len() == 9);
    assert("--contains="@.len() == 11);
    assert("--no-contains="@.len() == 14);
    assert("--merged="@.len() == 9);
    assert("--no-merged="@.len() == 12);
    assert("--track="@.len() == 8);
    assert("--color="@.len() == 8);
    assert("--column="@.len() == 9);
    assert("--abbrev="@.len() == 9);
}

/// No option that stands alone holds an equals sign.
proof fn lemma_not_alone(a: Seq<char>, k: int)
    requires
        6 <= k < a.len(),
        a[k] == '=',
    ensures
        a != "--"@,
        a != "-d"@,
        a != "-D"@,
        a != "--delete"@,
        a != "-m"@,
        a != "-M"@,
        a != "--move"@,
        a != "-c"@,
        a != "-C"@,
        a != "--copy"@,
        a != "-r"@,
        a != "--remotes"@,
        a != "-a"@,
        a != "--all"@,
        a != "--list"@,
        a != "--show-current"@,
        a != "--contains"@,
        a != "--no-contains"@,
        a != "--merged"@,
        a != "--no-merged"@,
        a != "--unset-upstream"@,
        a != "--edit-description"@,
        a != "--set-upstream"@,
        a != "-u"@,
        a != "--set-upstream-to"@,
        a != "--points-at"@,
        a != "--sort"@,
        a != "--format"@,
        a != "--color"@,
        a != "--column"@,
        a != "--abbrev"@,
        a != "--track"@,
        a != "--no-track"@,
        a != "--create-reflog"@,
        a != "--no-create-reflog"@,
        a != "--recurse-submodules"@,
        a != "--no-color"@,
        a != "--no-column"@,
        a != "--no-abbrev"@,
        a != "--quiet"@,
        a != "-q"@,
        a != "--verbose"@,
        a != "-v"@,
        a != "-vv"@,
        a != "-f"@,
        a != "--force"@,
        a != "-l"@,
{
    reveal_strlit("--");
    assert("--"@.len() == 2);
    reveal_strlit("-d");
    assert("-d"@.len() == 2);
    reveal_strlit("-D");
    assert("-D"@.len() == 2);
    reveal_strlit("--delete");
    assert("--delete"@.len() == 8);
    assert("--delete"@[6] == 't');
    assert("--delete"@[7] == 'e');
    reveal_strlit("-m");
    assert("-m"@.len() == 2);
    reveal_strlit("-M");
    assert("-M"@.len() == 2);
    reveal_strlit("--move");
    assert("--move"@.len() == 6);
    reveal_strlit("-c");
    assert("-c"@.len() == 2);
    reveal_strlit("-C");
    assert("-C"@.len() == 2);
    reveal_strlit("--copy");
    assert("--copy"@.len() == 6);
    reveal_strlit("-r");
    assert("-r"@.len() == 2);
    reveal_strlit("--remotes");
    assert("--remotes"@.len() == 9);
    assert("--remotes"@[6] == 't');
    assert("--remotes"@[7] == 'e');
    assert("--remotes"@[8] == 's');
    reveal_strlit("-a");
    assert("-a"@.len() == 2);
    reveal_strlit("--all");
    assert("--all"@.len() == 5);
    reveal_strlit("--list");
    assert("--list"@.len() == 6);
    reveal_strlit("--show-current");
    assert("--show-current"@.len() == 14);
    assert("--show-current"@[6] == '-');
    assert("--show-current"@[7] == 'c');
    assert("--show-current"@[8] == 'u');
    assert("--show-current"@[9] == 'r');
    assert("--show-current"@[10] == 'r');
    assert("--show-current"@[11] == 'e');
    assert("--show-current"@[12] == 'n');
    assert("--show-current"@[13] == 't');
    reveal_strlit("--contains");
    assert("--contains"@.len() == 10);
    assert("--contains"@[6] == 'a');
    assert("--contains"@[7] == 'i');
    assert("--contains"@[8] == 'n');
    assert("--contains"@[9] == 's');
    reveal_strlit("--no-contains");
    assert("--no-contains"@.len() == 13);
    assert("--no-contains"@[6] == 'o');
    assert("--no-contains"@[7] == 'n');
    assert("--no-contains"@[8] == 't');
    assert("--no-contains"@[9] == 'a');
    assert("--no-contains"@[10] == 'i');
    assert("--no-contains"@[11] == 'n');
    assert("--no-contains"@[12] == 's');
    reveal_strlit("--merged");
    assert("--merged"@.len() == 8);
    assert("--merged"@[6] == 'e');
    assert("--merged"@[7] == 'd');
    reveal_strlit("--no-merged");
    assert("--no-merged"@.len() == 11);
    assert("--no-merged"@[6] == 'e');
    assert("--no-merged"@[7] == 'r');
    assert("--no-merged"@[8] == 'g');
    assert("--no-merged"@[9] == 'e');
    assert("--no-merged"@[10] == 'd');
    reveal_strlit("--unset-upstream");
    assert("--unset-upstream"@.len() == 16);
    assert("--unset-upstream"@[6] == 't');
    assert("--unset-upstream"@[7] == '-');
    assert("--unset-upstream"@[8] == 'u');
    assert("--unset-upstream"@[9] == 'p');
    assert("--unset-upstream"@[10] == 's');
    assert("--unset-upstream"@[11] == 't');
    assert("--unset-upstream"@[12] == 'r');
    assert("--unset-upstream"@[13] == 'e');
    assert("--unset-upstream"@[14] == 'a');
    assert("--unset-upstream"@[15] == 'm');
    reveal_strlit("--edit-description");
    assert("--edit-description"@.len() == 18);
    assert("--edit-description"@[6] == '-');
    assert("--edit-description"@[7] == 'd');
    assert("--edit-description"@[8] == 'e');
    assert("--edit-description"@[9] == 's');
    assert("--edit-description"@[10] == 'c');
    assert("--edit-description"@[11] == 'r');
    assert("--edit-description"@[12] == 'i');
    assert("--edit-description"@[13] == 'p');
    assert("--edit-description"@[14] == 't');
    assert("--edit-description"@[15] == 'i');
    assert("--edit-description"@[16] == 'o');
    assert("--edit-description"@[17] == 'n');
    reveal_strlit("--set-upstream");
    assert("--set-upstream"@.len() == 14);
    assert("--set-upstream"@[6] == 'u');
    assert("--set-upstream"@[7] == 'p');
    assert("--set-upstream"@[8] == 's');
    assert("--set-upstream"@[9] == 't');
    assert("--set-upstream"@[10] == 'r');
    assert("--set-upstream"@[11] == 'e');
    assert("--set-upstream"@[12] == 'a');
    assert("--set-upstream"@[13] == 'm');
    reveal_strlit("-u");
    assert("-u"@.len() == 2);
    reveal_strlit("--set-upstream-to");
    assert("--set-upstream-to"@.len() == 17);
    assert("--set-upstream-to"@[6] == 'u');
    assert("--set-upstream-to"@[7] == 'p');
    assert("--set-upstream-to"@[8] == 's');
    assert("--set-upstream-to"@[9] == 't');
    assert("--set-upstream-to"@[10] == 'r');
    assert("--set-upstream-to"@[11] == 'e');
    assert("--set-upstream-to"@[12] == 'a');
    assert("--set-upstream-to"@[13] == 'm');
    assert("--set-upstream-to"@[14] == '-');
    assert("--set-upstream-to"@[15] == 't');
    assert("--set-upstream-to"@[16] == 'o');
    reveal_strlit("--points-at");
    assert("--points-at"@.len() == 11);
    assert("--points-at"@[6] == 't');
    assert("--points-at"@[7] == 's');
    assert("--points-at"@[8] == '-');
    assert("--points-at"@[9] == 'a');
    assert("--points-at"@[10] == 't');
    reveal_strlit("--sort");
    assert("--sort"@.len() == 6);
    reveal_strlit("--format");
    assert("--format"@.len() == 8);
    assert("--format"@[6] == 'a');
    assert("--format"@[7] == 't');
    reveal_strlit("--color");
    assert("--color"@.len() == 7);
    assert("--color"@[6] == 'r');
    reveal_strlit("--column");
    assert("--column"@.len() == 8);
    assert("--column"@[6] == 'm');
    assert("--column"@[7] == 'n');
    reveal_strlit("--abbrev");
    assert("--abbrev"@.len() == 8);
    assert("--abbrev"@[6] == 'e');
    assert("--abbrev"@[7] == 'v');
    reveal_strlit("--track");
    assert("--track"@.len() == 7);
    assert("--track"@[6] == 'k');
    reveal_strlit("--no-track");
    assert("--no-track"@.len() == 10);
    assert("--no-track"@[6] == 'r');
    assert("--no-track"@[7] == 'a');
    assert("--no-track"@[8] == 'c');
    assert("--no-track"@[9] == 'k');
    reveal_strlit("--create-reflog");
    assert("--create-reflog"@.len() == 15);
    assert("--create-reflog"@[6] == 't');
    assert("--create-reflog"@[7] == 'e');
    assert("--create-reflog"@[8] == '-');
    assert("--create-reflog"@[9] == 'r');
    assert("--create-reflog"@[10] == 'e');
    assert("--create-reflog"@[11] == 'f');
    assert("--create-reflog"@[12] == 'l');
    assert("--create-reflog"@[13] == 'o');
    assert("--create-reflog"@[14] == 'g');
    reveal_strlit("--no-create-reflog");
    assert("--no-create-reflog"@.len() == 18);
    assert("--no-create-reflog"@[6] == 'r');
    assert("--no-create-reflog"@[7] == 'e');
    assert("--no-create-reflog"@[8] == 'a');
    assert("--no-create-reflog"@[9] == 't');
    assert("--no-create-reflog"@[10] == 'e');
    assert("--no-create-reflog"@[11] == '-');
    assert("--no-create-reflog"@[12] == 'r');
    assert("--no-create-reflog"@[13] == 'e');
    assert("--no-create-reflog"@[14] == 'f');
    assert("--no-create-reflog"@[15] == 'l');
    assert("--no-create-reflog"@[16] == 'o');
    assert("--no-create-reflog"@[17] == 'g');
    reveal_strlit("--recurse-submodules");
    assert("--recurse-submodules"@.len() == 20);
    assert("--recurse-submodules"@[6] == 'r');
    assert("--recurse-submodules"@[7] == 's');
    assert("--recurse-submodules"@[8] == 'e');
    assert("--recurse-submodules"@[9] == '-');
    assert("--recurse-submodules"@[10] == 's');
    assert("--recurse-submodules"@[11] == 'u');
    assert("--recurse-submodules"@[12] == 'b');
    assert("--recurse-submodules"@[13] == 'm');
    assert("--recurse-submodules"@[14] == 'o');
    assert("--recurse-submodules"@[15] == 'd');
    assert("--recurse-submodules"@[16] == 'u');
    assert("--recurse-submodules"@[17] == 'l');
    assert("--recurse-submodules"@[18] == 'e');
    assert("--recurse-submodules"@[19] == 's');
    reveal_strlit("--no-color");
    assert("--no-color"@.len() == 10);
    assert("--no-color"@[6] == 'o');
    assert("--no-color"@[7] == 'l');
    assert("--no-color"@[8] == 'o');
    assert("--no-color"@[9] == 'r');
    reveal_strlit("--no-column");
    assert("--no-column"@.len() == 11);
    assert("--no-column"@[6] == 'o');
    assert("--no-column"@[7] == 'l');
    assert("--no-column"@[8] == 'u');
    assert("--no-column"@[9] == 'm');
    assert("--no-column"@[10] == 'n');
    reveal_strlit("--no-abbrev");
    assert("--no-abbrev"@.len() == 11);
    assert("--no-abbrev"@[6] == 'b');
    assert("--no-abbrev"@[7] == 'b');
    assert("--no-abbrev"@[8] == 'r');
    assert("--no-abbrev"@[9] == 'e');
    assert("--no-abbrev"@[10] == 'v');
    reveal_strlit("--quiet");
    assert("--quiet"@.len() == 7);
    assert("--quiet"@[6] == 't');
    reveal_strlit("-q");
    assert("-q"@.len() == 2);
    reveal_strlit("--verbose");
    assert("--verbose"@.len() == 9);
    assert("--verbose"@[6] == 'o');
    assert("--verbose"@[7] == 's');
    assert("--verbose"@[8] == 'e');
    reveal_strlit("-v");
    assert("-v"@.len() == 2);
    reveal_strlit("-vv");
    assert("-vv"@.len() == 3);
    reveal_strlit("-f");
    assert("-f"@.len() == 2);
    reveal_strlit("--force");
    assert("--force"@.len() == 7);
    assert("--force"@[6] == 'e');
    reveal_strlit("-l");
    assert("-l"@.len() == 2);
}

proof fn lemma_value_0(value: Seq<char>)
    ensures
        branch_option_of("--set-upstream-to="@ + value) == BranchOption::Configure,
{
    reveal(branch_option_of);
    let a = "--set-upstream-to="@ + value;
    reveal_strlit("--set-upstream-to=");
    assert("--set-upstream-to="@.len() == 18);
    lemma_starts("--set-upstream-to="@, value);
    assert(a[17] == '=');
    lemma_not_alone(a, 17);
}

proof fn lemma_value_1(value: Seq<char>)
    ensures
        branch_option_of("--points-at="@ + value) == BranchOption::List,
{
    reveal(branch_option_of);
    let a = "--points-at="@ + value;
    reveal_strlit("--points-at=");
    assert("--points-at="@.len() == 12);
    lemma_starts("--points-at="@, value);
    assert(a[11] == '=');
    lemma_not_alone(a, 11);
    assert(!has_prefix(a, "--set-upstream-to="@)) by {
        reveal_strlit("--set-upstream-to=");
        assert("--set-upstream-to="@.len() == 18);
        if has_prefix(a, "--set-upstream-to="@) {
            assert(a.take(18)[2] == a[2]);
            assert(a[2] == 'p');
            assert("--set-upstream-to="@[2] == 's');
        }
    }
}

proof fn lemma_value_2(value: Seq<char>)
    ensures
        branch_option_of("--sort="@ + value) == BranchOption::List,
{
    reveal(branch_option_of);
    let a = "--sort="@ + value;
    reveal_strlit("--sort=");
    assert("--sort="@.len() == 7);
    lemma_starts("--sort="@, value);
    assert(a[6] == '=');
    lemma_not_alone(a, 6);
    assert(!has_prefix(a, "--set-upstream-to="@)) by {
        reveal_strlit("--set-upstream-to=");
        assert("--set-upstream-to="@.len() == 18);
        if has_prefix(a, "--set-upstream-to="@) {
            assert(a.take(18)[3] == a[3]);
            assert(a[3] == 'o');
            assert("--set-upstream-to="@[3] == 'e');
        }
    }
}

proof fn lemma_value_3(value: Seq<char>)
    ensures
        branch_option_of("--format="@ + value) == BranchOption::List,
{
    reveal(branch_option_of);
    let a = "--format="@ + value;
    reveal_strlit("--format=");
    assert("--format="@.len() == 9);
    lemma_starts("--format="@, value);
    assert(a[8] == '=');
    lemma_not_alone(a, 8);
    assert(!has_prefix(a, "--set-upstream-to="@)) by {
        reveal_strlit("--set-upstream-to=");
        assert("--set-upstream-to="@.len() == 18);
        if has_prefix(a, "--set-upstream-to="@) {
            assert(a.take(18)[2] == a[2]);
            assert(a[2] == 'f');
            assert("--set-upstream-to="@[2] == 's');
        }
    }
}

proof fn lemma_value_4(value: Seq<char>)
    ensures
        branch_option_of("--contains="@ + value) == BranchOption::List,
{
    reveal(branch_option_of);
    let a = "--contains="@ + value;
    reveal_strlit("--contains=");
    assert("--contains="@.len() == 11);
    lemma_starts("--contains="@, value);
    assert(a[10] == '=');
    lemma_not_alone(a, 10);
    assert(!has_prefix(a, "--set-upstream-to="@)) by {
        reveal_strlit("--set-upstream-to=");
        assert("--set-upstream-to="@.len() == 18);
        if has_prefix(a, "--set-upstream-to="@) {
            assert(a.take(18)[2] == a[2]);
            assert(a[2] == 'c');
            assert("--set-upstream-to="@[2] == 's');
        }
    }
}

proof fn lemma_value_5(value: Seq<char>)
    ensures
        branch_option_of("--no-contains="@ + value) == BranchOption::List,
{
    reveal(branch_option_of);
    let a = "--no-contains="@ + value;
    reveal_strlit("--no-contains=");
    assert("--no-contains="@.len() == 14);
    lemma_starts("--no-contains="@, value);
    assert(a[13] == '=');
    lemma_not_alone(a, 13);
    assert(!has_prefix(a, "--set-upstream-to="@)) by {
        reveal_strlit("--set-upstream-to=");
        assert("--set-upstream-to="@.len() == 18);
        if has_prefix(a, "--set-upstream-to="@) {
            assert(a.take(18)[2] == a[2]);
            assert(a[2] == 'n');
            assert("--set-upstream-to="@[2] == 's');
        }
    }
}

proof fn lemma_value_6(value: Seq<char>)
    ensures
        branch_option_of("--merged="@ + value) == BranchOption::List,
{
    reveal(branch_option_of);
    let a = "--merged="@ + value;
    reveal_strlit("--merged=");
    assert("--merged="@.len() == 9);
    lemma_starts("--merged="@, value);
    assert(a[8] == '=');
    lemma_not_alone(a, 8);
    assert(!has_prefix(a, "--set-upstream-to="@)) by {
        reveal_strlit("--set-upstream-to=");
        assert("--set-upstream-to="@.len() == 18);
        if has_prefix(a, "--set-upstream-to="@) {
            assert(a.take(18)[2] == a[2]);
            assert(a[2] == 'm');
            assert("--set-upstream-to="@[2] == 's');
        }
    }
}

proof fn lemma_value_7(value: Seq<char>)
    ensures
        branch_option_of("--no-merged="@ + value) == BranchOption::List,
{
    reveal(branch_option_of);
    let a = "--no-merged="@ + value;
    reveal_strlit("--no-merged=");
    assert("--no-merged="@.len() == 12);
    lemma_starts("--no-merged="@, value);
    assert(a[11] == '=');
    lemma_not_alone(a, 11);
    assert(!has_prefix(a, "--set-upstream-to="@)) by {
        reveal_strlit("--set-upstream-to=");
        assert("--set-upstream-to="@.len() == 18);
        if has_prefix(a, "--set-upstream-to="@) {
            assert(a.take(18)[2] == a[2]);
            assert(a[2] == 'n');
            assert("--set-upstream-to="@[2] == 's');
        }
    }
}

proof fn lemma_value_8(value: Seq<char>)
    ensures
        branch_option_of("--track="@ + value) == BranchOption::Skip,
{
    reveal(branch_option_of);
    let a = "--track="@ + value;
    reveal_strlit("--track=");
    assert("--track="@.len() == 8);
    lemma_starts("--track="@, value);
    assert(a[7] == '=');
    lemma_not_alone(a, 7);
    assert(!has_prefix(a, "--set-upstream-to="@)) by {
        reveal_strlit("--set-upstream-to=");
        assert("--set-upstream-to="@.len() == 18);
        if has_prefix(a, "--set-upstream-to="@) {
            assert(a.take(18)[2] == a[2]);
            assert(a[2] == 't');
            assert("--set-upstream-to="@[2] == 's');
        }
    }
    assert(!has_prefix(a, "--points-at="@)) by {
        reveal_strlit("--points-at=");
        assert("--points-at="@.len() == 12);
        if has_prefix(a, "--points-at="@) {
            assert(a.take(12)[2] == a[2]);
            assert(a[2] == 't');
            assert("--points-at="@[2] == 'p');
        }
    }
    assert(!has_prefix(a, "--sort="@)) by {
        reveal_strlit("--sort=");
        assert("--sort="@.len() == 7);
        if has_prefix(a, "--sort="@) {
            assert(a.take(7)[2] == a[2]);
            assert(a[2] == 't');
            assert("--sort="@[2] == 's');
        }
    }
    assert(!has_prefix(a, "--format="@)) by {
        reveal_strlit("--format=");
        assert("--format="@.len() == 9);
        if has_prefix(a, "--format="@) {
            assert(a.take(9)[2] == a[2]);
            assert(a[2] == 't');
            assert("--format="@[2] == 'f');
        }
    }
    assert(!has_prefix(a, "--contains="@)) by {
        reveal_strlit("--contains=");
        assert("--contains="@.len() == 11);
        if has_prefix(a, "--contains="@) {
            assert(a.take(11)[2] == a[2]);
            assert(a[2] == 't');
            assert("--contains="@[2] == 'c');
        }
    }
    assert(!has_prefix(a, "--no-contains="@)) by {
        reveal_strlit("--no-contains=");
        assert("--no-contains="@.len() == 14);
        if has_prefix(a, "--no-contains="@) {
            assert(a.take(14)[2] == a[2]);
            assert(a[2] == 't');
            assert("--no-contains="@[2] == 'n');
        }
    }
    assert(!has_prefix(a, "--merged="@)) by {
        reveal_strlit("--merged=");
        assert("--merged="@.len() == 9);
        if has_prefix(a, "--merged="@) {
            assert(a.take(9)[2] == a[2]);
            assert(a[2] == 't');
            assert("--merged="@[2] == 'm');
        }
    }
    assert(!has_prefix(a, "--no-merged="@)) by {
        reveal_strlit("--no-merged=");
        assert("--no-merged="@.len() == 12);
        if has_prefix(a, "--no-merged="@) {
            assert(a.take(12)[2] == a[2]);
            assert(a[2] == 't');
            assert("--no-merged="@[2] == 'n');
        }
    }
}

proof fn lemma_value_9(value: Seq<char>)
    ensures
        branch_option_of("--color="@ + value) == BranchOption::Skip,
{
    reveal(branch_option_of);
    let a = "--color="@ + value;
    reveal_strlit("--color=");
    assert("--color="@.len() == 8);
    lemma_starts("--color="@, value);
    assert(a[7] == '=');
    lemma_not_alone(a, 7);
    assert(!has_prefix(a, "--set-upstream-to="@)) by {
        reveal_strlit("--set-upstream-to=");
        assert("--set-upstream-to="@.len() == 18);
        if has_prefix(a, "--set-upstream-to="@) {
            assert(a.take(18)[2] == a[2]);
            assert(a[2] == 'c');
            assert("--set-upstream-to="@[2] == 's');
        }
    }
    assert(!has_prefix(a, "--points-at="@)) by {
        reveal_strlit("--points-at=");
        assert("--points-at="@.len() == 12);
        if has_prefix(a, "--points-at="@) {
            assert(a.take(12)[2] == a[2]);
            assert(a[2] == 'c');
            assert("--points-at="@[2] == 'p');
        }
    }
    assert(!has_prefix(a, "--sort="@)) by {
        reveal_strlit("--sort=");
        assert("--sort="@.len() == 7);
        if has_prefix(a, "--sort="@) {
            assert(a.take(7)[2] == a[2]);
            assert(a[2] == 'c');
            assert("--sort="@[2] == 's');
        }
    }
    assert(!has_prefix(a, "--format="@)) by {
        reveal_strlit("--format=");
        assert("--format="@.len() == 9);
        if has_prefix(a, "--format="@) {
            assert(a.take(9)[2] == a[2]);
            assert(a[2] == 'c');
            assert("--format="@[2] == 'f');
        }
    }
    assert(!has_prefix(a, "--contains="@)) by {
        reveal_strlit("--contains=");
        assert("--contains="@.len() == 11);
        if has_prefix(a, "--contains="@) {
            assert(a.take(11)[4] == a[4]);
            assert(a[4] == 'l');
            assert("--contains="@[4] == 'n');
        }
    }
    assert(!has_prefix(a, "--no-contains="@)) by {
        reveal_strlit("--no-contains=");
        assert("--no-contains="@.len() == 14);
        if has_prefix(a, "--no-contains="@) {
            assert(a.take(14)[2] == a[2]);
            assert(a[2] == 'c');
            assert("--no-contains="@[2] == 'n');
        }
    }
    assert(!has_prefix(a, "--merged="@)) by {
        reveal_strlit("--merged=");
        assert("--merged="@.len() == 9);
        if has_prefix(a, "--merged="@) {
            assert(a.take(9)[2] == a[2]);
            assert(a[2] == 'c');
            assert("--merged="@[2] == 'm');
        }
    }
    assert(!has_prefix(a, "--no-merged="@)) by {
        reveal_strlit("--no-merged=");
        assert("--no-merged="@.len() == 12);
        if has_prefix(a, "--no-merged="@) {
            assert(a.take(12)[2] == a[2]);
            assert(a[2] == 'c');
            assert("--no-merged="@[2] == 'n');
        }
    }
}

proof fn lemma_value_10(value: Seq<char>)
    ensures
        branch_option_of("--column="@ + value) == BranchOption::Skip,
{
    reveal(branch_option_of);
    let a = "--column="@ + value;
    reveal_strlit("--column=");
    assert("--column="@.len() == 9);
    lemma_starts("--column="@, value);
    assert(a[8] == '=');
    lemma_not_alone(a, 8);
    assert(!has_prefix(a, "--set-upstream-to="@)) by {
        reveal_strlit("--set-upstream-to=");
        assert("--set-upstream-to="@.len() == 18);
        if has_prefix(a, "--set-upstream-to="@) {
            assert(a.take(18)[2] == a[2]);
            assert(a[2] == 'c');
            assert("--set-upstream-to="@[2] == 's');
        }
    }
    assert(!has_prefix(a, "--points-at="@)) by {
        reveal_strlit("--points-at=");
        assert("--points-at="@.len() == 12);
        if has_prefix(a, "--points-at="@) {
            assert(a.take(12)[2] == a[2]);
            assert(a[2] == 'c');
            assert("--points-at="@[2] == 'p');
        }
    }
    assert(!has_prefix(a, "--sort="@)) by {
        reveal_strlit("--sort=");
        assert("--sort="@.len() == 7);
        if has_prefix(a, "--sort="@) {
            assert(a.take(7)[2] == a[2]);
            assert(a[2] == 'c');
            assert("--sort="@[2] == 's');
        }
    }
    assert(!has_prefix(a, "--format="@)) by {
        reveal_strlit("--format=");
        assert("--format="@.len() == 9);
        if has_prefix(a, "--format="@) {
            assert(a.take(9)[2] == a[2]);
            assert(a[2] == 'c');
            assert("--format="@[2] == 'f');
        }
    }
    assert(!has_prefix(a, "--contains="@)) by {
        reveal_strlit("--contains=");
        assert("--contains="@.len() == 11);
        if has_prefix(a, "--contains="@) {
            assert(a.take(11)[4] == a[4]);
            assert(a[4] == 'l');
            assert("--contains="@[4] == 'n');
        }
    }
    assert(!has_prefix(a, "--no-contains="@)) by {
        reveal_strlit("--no-contains=");
        assert("--no-contains="@.len() == 14);
        if has_prefix(a, "--no-contains="@) {
            assert(a.take(14)[2] == a[2]);
            assert(a[2] == 'c');
            assert("--no-contains="@[2] == 'n');
        }
    }
    assert(!has_prefix(a, "--merged="@)) by {
        reveal_strlit("--merged=");
        assert("--merged="@.len() == 9);
        if has_prefix(a, "--merged="@) {
            assert(a.take(9)[2] == a[2]);
            assert(a[2] == 'c');
            assert("--merged="@[2] == 'm');
        }
    }
    assert(!has_prefix(a, "--no-merged="@)) by {
        reveal_strlit("--no-merged=");
        assert("--no-merged="@.len() == 12);
        if has_prefix(a, "--no-merged="@) {
            assert(a.take(12)[2] == a[2]);
            assert(a[2] == 'c');
            assert("--no-merged="@[2] == 'n');
        }
    }
}

proof fn lemma_value_11(value: Seq<char>)
    ensures
        branch_option_of("--abbrev="@ + value) == BranchOption::Skip,
{
    reveal(branch_option_of);
    let a = "--abbrev="@ + value;
    reveal_strlit("--abbrev=");
    assert("--abbrev="@.len() == 9);
    lemma_starts("--abbrev="@, value);
    assert(a[8] == '=');
    lemma_not_alone(a, 8);
    assert(!has_prefix(a, "--set-upstream-to="@)) by {
        reveal_strlit("--set-upstream-to=");
        assert("--set-upstream-to="@.len() == 18);
        if has_prefix(a, "--set-upstream-to="@) {
            assert(a.take(18)[2] == a[2]);
            assert(a[2] == 'a');
            assert("--set-upstream-to="@[2] == 's');
        }
    }
    assert(!has_prefix(a, "--points-at="@)) by {
        reveal_strlit("--points-at=");
        assert("--points-at="@.len() == 12);
        if has_prefix(a, "--points-at="@) {
            assert(a.take(12)[2] == a[2]);
            assert(a[2] == 'a');
            assert("--points-at="@[2] == 'p');
        }
    }
    assert(!has_prefix(a, "--sort="@)) by {
        reveal_strlit("--sort=");
        assert("--sort="@.len() == 7);
        if has_prefix(a, "--sort="@) {
            assert(a.take(7)[2] == a[2]);
            assert(a[2] == 'a');
            assert("--sort="@[2] == 's');
        }
    }
    assert(!has_prefix(a, "--format="@)) by {
        reveal_strlit("--format=");
        assert("--format="@.len() == 9);
        if has_prefix(a, "--format="@) {
            assert(a.take(9)[2] == a[2]);
            assert(a[2] == 'a');
            assert("--format="@[2] == 'f');
        }
    }
    assert(!has_prefix(a, "--contains="@)) by {
        reveal_strlit("--contains=");
        assert("--contains="@.len() == 11);
        if has_prefix(a, "--contains="@) {
            assert(a.take(11)[2] == a[2]);
            assert(a[2] == 'a');
            assert("--contains="@[2] == 'c');
        }
    }
    assert(!has_prefix(a, "--no-contains="@)) by {
        reveal_strlit("--no-contains=");
        assert("--no-contains="@.len() == 14);
        if has_prefix(a, "--no-contains="@) {
            assert(a.take(14)[2] == a[2]);
            assert(a[2] == 'a');
            assert("--no-contains="@[2] == 'n');
        }
    }
    assert(!has_prefix(a, "--merged="@)) by {
        reveal_strlit("--merged=");
        assert("--merged="@.len() == 9);
        if has_prefix(a, "--merged="@) {
            assert(a.take(9)[2] == a[2]);
            assert(a[2] == 'a');
            assert("--merged="@[2] == 'm');
        }
    }
    assert(!has_prefix(a, "--no-merged="@)) by {
        reveal_strlit("--no-merged=");
        assert("--no-merged="@.len() == 12);
        if has_prefix(a, "--no-merged="@) {
            assert(a.take(12)[2] == a[2]);
            assert(a[2] == 'a');
            assert("--no-merged="@[2] == 'n');
        }
    }
}

/// An option with its value behind an equals sign.
pub proof fn law_branch_options_with_values(value: Seq<char>)
    ensures
        branch_option_of("--set-upstream-to="@ + value) == BranchOption::Configure,
        branch_option_of("--points-at="@ + value) == BranchOption::List,
        branch_option_of("--sort="@ + value) == BranchOption::List,
        branch_option_of("--format="@ + value) == BranchOption::List,
        branch_option_of("--contains="@ + value) == BranchOption::List,
        branch_option_of("--no-contains="@ + value) == BranchOption::List,
        branch_option_of("--merged="@ + value) == BranchOption::List,
        branch_option_of("--no-merged="@ + value) == BranchOption::List,
        branch_option_of("--track="@ + value) == BranchOption::Skip,
        branch_option_of("--color="@ + value) == BranchOption::Skip,
        branch_option_of("--column="@ + value) == BranchOption::Skip,
        branch_option_of("--abbrev="@ + value) == BranchOption::Skip,
{
    lemma_value_0(value);
    lemma_value_1(value);
    lemma_value_2(value);
    lemma_value_3(value);
    lemma_value_4(value);
    lemma_value_5(value);
    lemma_value_6(value);
    lemma_value_7(value);
    lemma_value_8(value);
    lemma_value_9(value);
    lemma_value_10(value);
    lemma_value_11(value);
}

/// What each option adds to what is asked for; nothing that was asked for is taken back.
pub proof fn law_branch_options_add_up(f: BranchFlags, a: Seq<char>)
    ensures
        ({
            let g = with_branch_option(f, a);
            let o = branch_option_of(a);
            &&& g.delete == (f.delete || o is Delete || (o is Short && (a.contains('d') || a.contains('D'))))
            &&& g.rename == (f.rename || o is Rename || (o is Short && (a.contains('m') || a.contains('M'))))
            &&& g.copy == (f.copy || o is Copy || (o is Short && (a.contains('c') || a.contains('C'))))
            &&& g.remote == (f.remote || o is Remotes || (o is Short && a.contains('r')))
            &&& g.list == (f.list || o is Remotes || o is List || o is ListWithValue || (o is Short && (a.contains('r') || a.contains('a'))))
            &&& g.configure == (f.configure || o is Configure || o is ConfigureWithValue)
        }),
        branch_option_width(a) == (if branch_option_of(a) is ConfigureWithValue || branch_option_of(a) is ListWithValue || branch_option_of(a) is SkipWithValue { 2int } else { 1int }),
{
}

/// Whether a text is the name of a branch without its namespace.
pub open spec fn is_branch_name(n: Seq<char>) -> bool {
    n.len() > 0 && n[0] != '-' && trimmed(n) == n && !has_prefix(n, "refs/"@)
}

/// The ref of a branch: a name gets its namespace; a ref of a branch stays; another ref, an
/// option and nothing give none.
pub proof fn law_ref_of_a_branch(n: Seq<char>, t: Seq<char>)
    requires
        is_branch_name(n),
    ensures
        branch_ref_of(n, false) == Some("refs/heads/"@ + n),
        branch_ref_of(n, true) == Some("refs/remotes/"@ + n),
        forall|remote: bool| trimmed(t) == "refs/heads/"@ + n ==> #[trigger] branch_ref_of(t, remote) == Some("refs/heads/"@ + n),
        forall|remote: bool| trimmed(t) == "refs/remotes/"@ + n ==> #[trigger] branch_ref_of(t, remote) == Some("refs/remotes/"@ + n),
        forall|remote: bool| trimmed(t) == "refs/tags/"@ + n ==> #[trigger] branch_ref_of(t, remote) is None,
        forall|remote: bool| trimmed(t).len() == 0 ==> #[trigger] branch_ref_of(t, remote) is None,
        forall|remote: bool| trimmed(t).len() > 0 && trimmed(t)[0] == '-' ==> #[trigger] branch_ref_of(t, remote) is None,
{
    reveal_strlit("--");
    reveal_strlit("-");
    reveal_strlit("refs/heads/");
    reveal_strlit("refs/remotes/");
    reveal_strlit("refs/tags/");
    reveal_strlit("refs/");
    assert("--"@.len() == 2);
    assert("-"@.len() == 1);
    assert("refs/heads/"@.len() == 11);
    assert("refs/remotes/"@.len() == 13);
    assert("refs/tags/"@.len() == 10);
    assert("refs/"@.len() == 5);
    lemma_starts("refs/heads/"@, n);
    lemma_starts("refs/remotes/"@, n);
    lemma_starts("refs/tags/"@, n);
    assert(("refs/heads/"@ + n)[0] == 'r');
    assert(("refs/heads/"@ + n)[5] == 'h');
    assert(("refs/heads/"@ + n).take(5) =~= "refs/"@);
    assert(("refs/remotes/"@ + n)[0] == 'r');
    assert(("refs/remotes/"@ + n)[5] == 'r');
    assert(("refs/remotes/"@ + n).take(5) =~= "refs/"@);
    assert(("refs/tags/"@ + n)[0] == 'r');
    assert(("refs/tags/"@ + n)[5] == 't');
    assert(("refs/tags/"@ + n).take(5) =~= "refs/"@);
    assert("--"@[0] == '-');
    assert("-"@[0] == '-');
    assert("refs/heads/"@[5] == 'h');
    assert("refs/remotes/"@[5] == 'r');
    assert("refs/tags/"@[5] == 't');
    let tags = "refs/tags/"@ + n;
    if has_prefix(tags, "refs/heads/"@) {
        assert(tags.take(11)[5] == tags[5]);
    }
    if has_prefix(tags, "refs/remotes/"@) {
        assert(tags.take(13)[5] == tags[5]);
    }
    if has_prefix(n, "-"@) {
        assert(n.take(1)[0] == n[0]);
    }
    if has_prefix(n, "refs/heads/"@) {
        assert(n.take(5) =~= n.take(11).take(5));
        assert("refs/heads/"@.take(5) =~= "refs/"@);
    }
    if has_prefix(n, "refs/remotes/"@) {
        assert(n.take(5) =~= n.take(13).take(5));
        assert("refs/remotes/"@.take(5) =~= "refs/"@);
    }
    if has_prefix("refs/heads/"@ + n, "-"@) {
        assert(("refs/heads/"@ + n).take(1)[0] == 'r');
    }
    if has_prefix("refs/remotes/"@ + n, "-"@) {
        assert(("refs/remotes/"@ + n).take(1)[0] == 'r');
    }
    if trimmed(t).len() > 0 && trimmed(t)[0] == '-' {
        assert(trimmed(t).take(1) =~= "-"@);
    }
}

/// The refs of several names, in their order; what has none is left out.
pub proof fn law_refs_of_branches(names: Seq<Seq<char>>, n: Seq<char>, remote: bool)
    ensures
        branch_refs_of(Seq::empty(), remote) == Seq::<Seq<char>>::empty(),
        branch_ref_of(n, remote) is None ==> branch_refs_of(names.push(n), remote) == branch_refs_of(names, remote),
        branch_ref_of(n, remote) matches Some(r) ==> branch_refs_of(names.push(n), remote) == branch_refs_of(names, remote).push(r),
{
    assert(names.push(n).drop_last() =~= names);
}

proof fn lemma_two_refs(a: Seq<char>, b: Seq<char>, remote: bool)
    ensures
        branch_ref_of(a, remote) is Some ==> branch_refs_of(seq![a], remote) == seq![branch_ref_of(a, remote)->0],
        branch_ref_of(a, remote) is Some && branch_ref_of(b, remote) is Some ==> branch_refs_of(seq![a, b], remote) == seq![branch_ref_of(a, remote)->0, branch_ref_of(b, remote)->0],
{
    let none = Seq::<Seq<char>>::empty();
    law_refs_of_branches(none, a, remote);
    law_refs_of_branches(seq![a], b, remote);
    assert(none.push(a) =~= seq![a]);
    assert(seq![a].push(b) =~= seq![a, b]);
}

proof fn lemma_scan_1(x: Seq<char>)
    ensures
        ({
            let none = Seq::<Seq<char>>::empty();
            let f = no_branch_flags();
            &&& !(branch_option_of(x) is End) && branch_option_width(x) == 1 ==> branch_scan(seq![x], 0, f, none) == (with_branch_option(f, x), (if branch_option_of(x) is Name { none.push(x) } else { none }))
        }),
{
    reveal_with_fuel(branch_scan, 5);
    let a = seq![x];
    assert(a[0] == x);
}

proof fn lemma_scan_2(x: Seq<char>, y: Seq<char>)
    ensures
        ({
            let none = Seq::<Seq<char>>::empty();
            let f = no_branch_flags();
            &&& !(branch_option_of(x) is End) && !(branch_option_of(y) is End) && branch_option_width(x) == 1 && branch_option_width(y) == 1 ==> branch_scan(seq![x, y], 0, f, none) == (with_branch_option(with_branch_option(f, x), y), (if branch_option_of(y) is Name { (if branch_option_of(x) is Name { none.push(x) } else { none }).push(y) } else { (if branch_option_of(x) is Name { none.push(x) } else { none }) }))
        }),
{
    reveal_with_fuel(branch_scan, 5);
    let a = seq![x, y];
    assert(a[0] == x && a[1] == y);
}

proof fn lemma_scan_3(x: Seq<char>, y: Seq<char>, z: Seq<char>)
    ensures
        ({
            let none = Seq::<Seq<char>>::empty();
            let f = no_branch_flags();
            &&& !(branch_option_of(x) is End) && !(branch_option_of(y) is End) && !(branch_option_of(z) is End) && branch_option_width(x) == 1 && branch_option_width(y) == 1 && branch_option_width(z) == 1 ==> branch_scan(seq![x, y, z], 0, f, none) == (with_branch_option(with_branch_option(with_branch_option(f, x), y), z), (if branch_option_of(z) is Name { (if branch_option_of(y) is Name { (if branch_option_of(x) is Name { none.push(x) } else { none }).push(y) } else { (if branch_option_of(x) is Name { none.push(x) } else { none }) }).push(z) } else { (if branch_option_of(y) is Name { (if branch_option_of(x) is Name { none.push(x) } else { none }).push(y) } else { (if branch_option_of(x) is Name { none.push(x) } else { none }) }) }))
            &&& branch_option_width(x) == 2 && !(branch_option_of(z) is End) && branch_option_width(z) == 1 ==> branch_scan(seq![x, y, z], 0, f, none) == (with_branch_option(with_branch_option(f, x), z), (if branch_option_of(z) is Name { none.push(z) } else { none }))
        }),
{
    reveal_with_fuel(branch_scan, 5);
    let a = seq![x, y, z];
    assert(a[0] == x && a[1] == y && a[2] == z);
}

/// What `git branch` does with a name, and with two: it makes the first, or removes, moves
/// or copies as its option says; with no name, or where it lists, nothing.
#[verifier::rlimit(60)]
pub proof fn law_branch_commands(o: Seq<char>, a: Seq<char>, b: Seq<char>)
    requires
        is_branch_name(a),
        is_branch_name(b),
        a != "branch"@,
    ensures
        branch_command_of(seq!["branch"@]) == BranchCommandView::Nothing,
        branch_command_of(seq!["branch"@, a]) == BranchCommandView::CreateOrReset("refs/heads/"@ + a),
        branch_command_of(seq![a]) == BranchCommandView::CreateOrReset("refs/heads/"@ + a),
        branch_command_of(seq!["branch"@, a, b]) == BranchCommandView::CreateOrReset("refs/heads/"@ + a),
        o == "-d"@ || o == "-D"@ || o == "--delete"@ ==> branch_command_of(seq!["branch"@, o, a, b]) == BranchCommandView::Delete(seq!["refs/heads/"@ + a, "refs/heads/"@ + b]),
        o == "-d"@ || o == "-D"@ || o == "--delete"@ ==> branch_command_of(seq!["branch"@, "-r"@, o, a]) == BranchCommandView::Delete(seq!["refs/remotes/"@ + a]),
        o == "-m"@ || o == "-M"@ || o == "--move"@ ==> branch_command_of(seq!["branch"@, o, a]) == BranchCommandView::Rename(None, "refs/heads/"@ + a),
        o == "-m"@ || o == "-M"@ || o == "--move"@ ==> branch_command_of(seq!["branch"@, o, a, b]) == BranchCommandView::Rename(Some("refs/heads/"@ + a), "refs/heads/"@ + b),
        o == "-c"@ || o == "-C"@ || o == "--copy"@ ==> branch_command_of(seq!["branch"@, o, a]) == BranchCommandView::Copy(None, "refs/heads/"@ + a),
        o == "-c"@ || o == "-C"@ || o == "--copy"@ ==> branch_command_of(seq!["branch"@, o, a, b]) == BranchCommandView::Copy(Some("refs/heads/"@ + a), "refs/heads/"@ + b),
        o == "-f"@ || o == "--force"@ || o == "--track"@ || o == "--quiet"@ ==> branch_command_of(seq!["branch"@, o, a, b]) == BranchCommandView::CreateOrReset("refs/heads/"@ + a),
        o == "--list"@ || o == "-a"@ || o == "-r"@ || o == "--contains"@ || o == "--merged"@ ==> branch_command_of(seq!["branch"@, o, a]) == BranchCommandView::Nothing,
        o == "-u"@ || o == "--set-upstream-to"@ ==> branch_command_of(seq!["branch"@, o, b, a]) == BranchCommandView::Nothing,
        branch_command_of(seq!["branch"@, "--"@, a]) == BranchCommandView::CreateOrReset("refs/heads/"@ + a),
{
    law_each_branch_option(o);
    law_each_branch_option(a);
    law_each_branch_option(b);
    law_names_and_letters(a);
    law_names_and_letters(b);
    law_each_branch_option("-r"@);
    law_each_branch_option("--"@);
    law_ref_of_a_branch(a, a);
    law_ref_of_a_branch(b, b);
    lemma_two_refs(a, b, false);
    lemma_two_refs(a, b, true);
    let none = Seq::<Seq<char>>::empty();
    let f = no_branch_flags();
    assert(seq!["branch"@].drop_first() =~= none);
    assert(seq!["branch"@, a].drop_first() =~= seq![a]);
    lemma_scan_1(a);
    assert(seq!["branch"@, a, b].drop_first() =~= seq![a, b]);
    lemma_scan_2(a, b);
    assert(seq!["branch"@, o, a, b].drop_first() =~= seq![o, a, b]);
    lemma_scan_3(o, a, b);
    assert(seq!["branch"@, "-r"@, o, a].drop_first() =~= seq!["-r"@, o, a]);
    lemma_scan_3("-r"@, o, a);
    assert(seq!["branch"@, o, a].drop_first() =~= seq![o, a]);
    lemma_scan_2(o, a);
    assert(seq!["branch"@, o, b, a].drop_first() =~= seq![o, b, a]);
    lemma_scan_3(o, b, a);
    assert(seq!["branch"@, "--"@, a].drop_first() =~= seq!["--"@, a]);
    assert(branch_scan(seq!["--"@, a], 0, f, none) == (f, none + seq!["--"@, a].skip(1)));
    assert(none + seq!["--"@, a].skip(1) =~= seq![a]);
    assert(none.push(a) =~= seq![a]);
    assert(none.push(a).push(b) =~= seq![a, b]);
    assert(branch_command_of(seq!["branch"@, a]) == branch_command_with(f, seq![a]));
}

} // verus!
