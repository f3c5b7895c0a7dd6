//! What the arguments of git commands say about the refs that they move.

use crate::error::GitAiError;
use crate::model::opt_view;
use crate::text::{
    chars_of, concat, has_prefix, lemma_texts_push, lines, lines_of, starts_with, str_eq, string_of,
    strip_prefix, texts, trim, trimmed,
};
use vstd::prelude::*;
use vstd::string::*;

verus! {

/// The object id of all zeros.
pub open spec fn zero_oid_of() -> Seq<char> {
    "0000000000000000000000000000000000000000"@
}

/// The object id of all zeros.
pub fn zero_oid() -> (r: String)
    ensures
        r@ == zero_oid_of(),
{
    "0000000000000000000000000000000000000000".to_owned()
}

/// Arguments without the command's own name, where it stands first.
pub open spec fn without_command(args: Seq<Seq<char>>, name: Seq<char>) -> Seq<Seq<char>> {
    if args.len() > 0 && args[0] == name {
        args.drop_first()
    } else {
        args
    }
}

/// The position of the first argument behind the command's own name.
pub(crate) fn args_start(args: &[String], name: &str) -> (n: usize)
    ensures
        n <= args@.len(),
        texts(args@).skip(n as int) == without_command(texts(args@), name@),
{
    if args.len() > 0 && str_eq(args[0].as_str(), name) {
        proof {
            assert(texts(args@)[0] == args@[0]@);
            assert(texts(args@).skip(1) =~= texts(args@).drop_first());
        }
        1
    } else {
        proof {
            if args@.len() > 0 {
                assert(texts(args@)[0] == args@[0]@);
            }
            assert(texts(args@).skip(0) =~= texts(args@));
        }
        0
    }
}

// --------------------------------------------------------------- commit subjects

/// The first line of a message that holds more than white space.
pub open spec fn subject_of(rows: Seq<Seq<char>>) -> Option<Seq<char>>
    decreases rows.len(),
{
    if rows.len() == 0 {
        None
    } else if trimmed(rows[0]).len() > 0 {
        Some(rows[0])
    } else {
        subject_of(rows.drop_first())
    }
}

/// The first line of a message that holds more than white space.
pub fn commit_subject(message: &str) -> (r: Option<String>)
    ensures
        opt_view(r) == subject_of(lines_of(message@)),
{
    let rows = lines(message);
    let ghost all = texts(rows@);
    let mut i: usize = 0;
    proof {
        assert(all.skip(0) =~= all);
    }
    while i < rows.len()
        invariant
            i <= rows@.len(),
            all == texts(rows@),
            all == lines_of(message@),
            subject_of(all) == subject_of(all.skip(i as int)),
        decreases rows.len() - i,
    {
        proof {
            assert(all.skip(i as int)[0] == rows@[i as int]@);
            assert(all.skip(i as int).drop_first() =~= all.skip(i + 1));
        }
        if !trim(rows[i].as_str()).as_str().is_empty() {
            return Some(rows[i].clone());
        }
        i += 1;
    }
    None
}

/// The subject of the message that the arguments from `at` on give a commit. The
/// first message option decides; behind `--` stand no options.
pub open spec fn message_subject(args: Seq<Seq<char>>, at: int) -> Option<Seq<char>>
    decreases args.len() - at,
{
    if !(0 <= at < args.len()) {
        None
    } else {
        let a = args[at];
        if a == "-m"@ || a == "--message"@ {
            if at + 1 < args.len() {
                subject_of(lines_of(args[at + 1]))
            } else {
                None
            }
        } else if has_prefix(a, "--message="@) {
            subject_of(lines_of(a.skip("--message="@.len() as int)))
        } else if has_prefix(a, "-m"@) && a.len() > 2 {
            subject_of(lines_of(a.skip(2)))
        } else if a == "--"@ {
            None
        } else {
            message_subject(args, at + 1)
        }
    }
}

/// The subject of the message that a commit's arguments give.
pub open spec fn commit_subject_of(args: Seq<Seq<char>>) -> Option<Seq<char>> {
    message_subject(
        args,
        if args.len() > 0 && args[0] == "commit"@ {
            1
        } else {
            0
        },
    )
}

/// The subject of the message that a commit's arguments give.
pub fn commit_subject_from_args(args: &[String]) -> (r: Option<String>)
    ensures
        opt_view(r) == commit_subject_of(texts(args@)),
{
    let ghost ts = texts(args@);
    let mut idx: usize = 0;
    if args.len() > 0 {
        proof {
            assert(ts[0] == args@[0]@);
        }
        if str_eq(args[0].as_str(), "commit") {
            idx = 1;
        }
    }
    while idx < args.len()
        invariant
            idx <= args@.len(),
            ts == texts(args@),
            commit_subject_of(ts) == message_subject(ts, idx as int),
        decreases args.len() - idx,
    {
        let arg: &str = args[idx].as_str();
        proof {
            assert(ts[idx as int] == arg@);
        }
        if str_eq(arg, "-m") || str_eq(arg, "--message") {
            if idx + 1 < args.len() {
                proof {
                    assert(ts[idx + 1] == args@[idx + 1]@);
                }
                return commit_subject(args[idx + 1].as_str());
            }
            return None;
        }
        if let Some(rest) = strip_prefix(arg, "--message=") {
            return commit_subject(rest.as_str());
        }
        if starts_with(arg, "-m") {
            let v = chars_of(arg);
            if v.len() > 2 {
                let rest = string_of(&v, 2, v.len());
                proof {
                    assert(rest@ =~= arg@.skip(2));
                }
                return commit_subject(rest.as_str());
            }
        }
        if str_eq(arg, "--") {
            return None;
        }
        idx += 1;
    }
    None
}

/// The reflog messages that a commit with a subject may leave.
pub open spec fn reflog_messages_of(subject: Option<Seq<char>>, amend: bool) -> Seq<Seq<char>> {
    match subject {
        None => seq![],
        Some(s) => if amend {
            seq!["commit (amend):"@ + " "@ + s, "commit:"@ + " "@ + s]
        } else {
            seq![
                "commit:"@ + " "@ + s,
                "commit (initial):"@ + " "@ + s,
                "commit (merge):"@ + " "@ + s,
                "commit (cherry-pick):"@ + " "@ + s,
                "commit (revert):"@ + " "@ + s,
            ]
        },
    }
}

fn reflog_message(mode: &str, subject: &str) -> (r: String)
    ensures
        r@ == mode@ + " "@ + subject@,
{
    let mut m = concat(mode, " ");
    m.append(subject);
    m
}

/// The reflog messages that a commit with the given arguments may leave.
pub fn commit_reflog_messages(args: &[String], amend: bool) -> (r: Vec<String>)
    ensures
        texts(r@) == reflog_messages_of(commit_subject_of(texts(args@)), amend),
{
    let mut out: Vec<String> = Vec::new();
    match commit_subject_from_args(args) {
        None => {
            proof {
                assert(texts(out@) =~= seq![]);
            }
        },
        Some(subject) => {
            let s: &str = subject.as_str();
            if amend {
                out.push(reflog_message("commit (amend):", s));
                out.push(reflog_message("commit:", s));
            } else {
                out.push(reflog_message("commit:", s));
                out.push(reflog_message("commit (initial):", s));
                out.push(reflog_message("commit (merge):", s));
                out.push(reflog_message("commit (cherry-pick):", s));
                out.push(reflog_message("commit (revert):", s));
            }
            proof {
                assert(texts(out@) =~= reflog_messages_of(Some(s@), amend));
            }
        },
    }
    out
}

// -------------------------------------------------------------------- update-ref

/// The ref that `git update-ref` moves.
pub struct UpdateRefSpec {
    pub reference: String,
    pub new_oid: String,
    pub old_oid: Option<String>,
}

/// The texts of what `git update-ref` moves.
pub struct UpdateRefView {
    pub reference: Seq<char>,
    pub new_oid: Seq<char>,
    pub old_oid: Option<Seq<char>>,
}

impl View for UpdateRefSpec {
    type V = UpdateRefView;

    open spec fn view(&self) -> UpdateRefView {
        UpdateRefView {
            reference: self.reference@,
            new_oid: self.new_oid@,
            old_oid: opt_view(self.old_oid),
        }
    }
}

/// Whether the arguments delete a ref, and those that are no options; or what is
/// wrong with them.
pub open spec fn update_ref_scan(args: Seq<Seq<char>>, at: int) -> Result<
    (bool, Seq<Seq<char>>),
    Seq<char>,
>
    decreases args.len() - at,
{
    if !(0 <= at < args.len()) {
        Ok((false, seq![]))
    } else {
        let a = args[at];
        if a == "update-ref"@ || a == "--create-reflog"@ || a == "--no-deref"@ {
            update_ref_scan(args, at + 1)
        } else if a == "--stdin"@ || a == "--batch-updates"@ {
            Err("trace2 cursor does not support update-ref stdin/batch updates"@)
        } else if a == "-d"@ || a == "--delete"@ {
            match update_ref_scan(args, at + 1) {
                Ok((_, names)) => Ok((true, names)),
                Err(e) => Err(e),
            }
        } else if a == "-m"@ || a == "--message"@ {
            if at + 1 >= args.len() {
                Err("update-ref -m requires a message argument"@)
            } else {
                update_ref_scan(args, at + 2)
            }
        } else if has_prefix(a, "--message="@) {
            update_ref_scan(args, at + 1)
        } else if has_prefix(a, "-"@) {
            Err("trace2 cursor does not support update-ref option '"@ + a + "'"@)
        } else {
            match update_ref_scan(args, at + 1) {
                Ok((delete, names)) => Ok((delete, seq![a] + names)),
                Err(e) => Err(e),
            }
        }
    }
}

/// What `git update-ref` with the given arguments moves, or what is wrong with
/// the arguments.
pub open spec fn update_ref_of(args: Seq<Seq<char>>) -> Result<UpdateRefView, Seq<char>> {
    match update_ref_scan(args, 0) {
        Err(e) => Err(e),
        Ok((delete, names)) => if delete {
            if names.len() == 1 || names.len() == 2 {
                Ok(
                    UpdateRefView {
                        reference: names[0],
                        new_oid: zero_oid_of(),
                        old_oid: if names.len() == 2 {
                            Some(names[1])
                        } else {
                            None
                        },
                    },
                )
            } else {
                Err("update-ref delete requires <ref> [<old-oid>]"@)
            }
        } else if names.len() == 2 || names.len() == 3 {
            Ok(
                UpdateRefView {
                    reference: names[0],
                    new_oid: names[1],
                    old_oid: if names.len() == 3 {
                        Some(names[2])
                    } else {
                        None
                    },
                },
            )
        } else {
            Err("update-ref requires <ref> <new-oid> [<old-oid>]"@)
        },
    }
}

/// What the arguments up to a point and those behind it say together.
spec fn update_ref_resumed(
    delete: bool,
    names: Seq<Seq<char>>,
    rest: Result<(bool, Seq<Seq<char>>), Seq<char>>,
) -> Result<(bool, Seq<Seq<char>>), Seq<char>> {
    match rest {
        Ok((d, more)) => Ok((delete || d, names + more)),
        Err(e) => Err(e),
    }
}

/// What `git update-ref` with the given arguments moves.
pub fn parse_update_ref_spec(args: &[String]) -> (r: Result<UpdateRefSpec, GitAiError>)
    ensures
        match r {
            Ok(spec_) => update_ref_of(texts(args@)) == Ok::<UpdateRefView, Seq<char>>(spec_@),
            Err(e) => update_ref_of(texts(args@)) == Err::<UpdateRefView, Seq<char>>(e@),
        },
{
    let ghost ts = texts(args@);
    let mut names: Vec<String> = Vec::new();
    let mut delete: bool = false;
    let mut idx: usize = 0;
    proof {
        assert(texts(names@) =~= seq![]);
        if let Ok((d, more)) = update_ref_scan(ts, 0) {
            assert(texts(names@) + more =~= more);
        }
    }
    while idx < args.len()
        invariant
            idx <= args@.len(),
            ts == texts(args@),
            update_ref_scan(ts, 0) == update_ref_resumed(
                delete,
                texts(names@),
                update_ref_scan(ts, idx as int),
            ),
        decreases args.len() - idx,
    {
        let a: &str = args[idx].as_str();
        proof {
            assert(ts[idx as int] == a@);
        }
        if str_eq(a, "update-ref") || str_eq(a, "--create-reflog") || str_eq(a, "--no-deref") {
            idx += 1;
        } else if str_eq(a, "--stdin") || str_eq(a, "--batch-updates") {
            return Err(
                GitAiError::Generic(
                    "trace2 cursor does not support update-ref stdin/batch updates".to_owned(),
                ),
            );
        } else if str_eq(a, "-d") || str_eq(a, "--delete") {
            delete = true;
            idx += 1;
        } else if str_eq(a, "-m") || str_eq(a, "--message") {
            if args.len() - idx < 2 {
                return Err(
                    GitAiError::Generic("update-ref -m requires a message argument".to_owned()),
                );
            }
            idx += 2;
        } else if starts_with(a, "--message=") {
            idx += 1;
        } else if starts_with(a, "-") {
            let mut m = "trace2 cursor does not support update-ref option '".to_owned();
            m.append(a);
            m.append("'");
            return Err(GitAiError::Generic(m));
        } else {
            let ghost before = texts(names@);
            names.push(args[idx].clone());
            proof {
                assert(texts(names@) =~= before.push(a@));
                if let Ok((d, more)) = update_ref_scan(ts, idx + 1) {
                    assert(before + (seq![a@] + more) =~= before.push(a@) + more);
                }
            }
            idx += 1;
        }
    }
    proof {
        assert(texts(names@) + Seq::<Seq<char>>::empty() =~= texts(names@));
        assert forall|k: int| 0 <= k < names@.len() implies texts(names@)[k] == names@[k]@ by {}
    }
    let n: usize = names.len();
    if delete {
        if n == 1 || n == 2 {
            return Ok(
                UpdateRefSpec {
                    reference: names[0].clone(),
                    new_oid: zero_oid(),
                    old_oid: if n == 2 {
                        Some(names[1].clone())
                    } else {
                        None
                    },
                },
            );
        }
        return Err(
            GitAiError::Generic("update-ref delete requires <ref> [<old-oid>]".to_owned()),
        );
    }
    if n == 2 || n == 3 {
        return Ok(
            UpdateRefSpec {
                reference: names[0].clone(),
                new_oid: names[1].clone(),
                old_oid: if n == 3 {
                    Some(names[2].clone())
                } else {
                    None
                },
            },
        );
    }
    Err(GitAiError::Generic("update-ref requires <ref> <new-oid> [<old-oid>]".to_owned()))
}

// ------------------------------------------------------------------------ branch

/// What `git branch` does to refs.
pub enum BranchCommandSpec {
    CreateOrReset { reference: String },
    Delete { references: Vec<String> },
    Rename { old_reference: Option<String>, new_reference: String },
    Copy { old_reference: Option<String>, new_reference: String },
    Nothing,
}

/// The texts of what `git branch` does to refs.
pub enum BranchCommandView {
    CreateOrReset(Seq<char>),
    Delete(Seq<Seq<char>>),
    Rename(Option<Seq<char>>, Seq<char>),
    Copy(Option<Seq<char>>, Seq<char>),
    Nothing,
}

impl View for BranchCommandSpec {
    type V = BranchCommandView;

    open spec fn view(&self) -> BranchCommandView {
        match self {
            BranchCommandSpec::CreateOrReset { reference } => BranchCommandView::CreateOrReset(
                reference@,
            ),
            BranchCommandSpec::Delete { references } => BranchCommandView::Delete(
                texts(references@),
            ),
            BranchCommandSpec::Rename { old_reference, new_reference } => BranchCommandView::Rename(
                opt_view(*old_reference),
                new_reference@,
            ),
            BranchCommandSpec::Copy { old_reference, new_reference } => BranchCommandView::Copy(
                opt_view(*old_reference),
                new_reference@,
            ),
            BranchCommandSpec::Nothing => BranchCommandView::Nothing,
        }
    }
}

/// What one argument of `git branch` is.
#[derive(Clone, Copy, PartialEq, Eq, Structural)]
pub enum BranchOption {
    /// All arguments behind it are names.
    End,
    Delete,
    Rename,
    Copy,
    /// Names are those of remote branches; alone it lists them.
    Remotes,
    List,
    Configure,
    ConfigureWithValue,
    ListWithValue,
    SkipWithValue,
    Skip,
    /// One-letter options run together.
    Short,
    Name,
}

/// What one argument of `git branch` is.
#[verifier::opaque]
pub open spec fn branch_option_of(a: Seq<char>) -> BranchOption {
    if a == "--"@ {
        BranchOption::End
    } else if a == "-d"@ || a == "-D"@ || a == "--delete"@ {
        BranchOption::Delete
    } else if a == "-m"@ || a == "-M"@ || a == "--move"@ {
        BranchOption::Rename
    } else if a == "-c"@ || a == "-C"@ || a == "--copy"@ {
        BranchOption::Copy
    } else if a == "-r"@ || a == "--remotes"@ {
        BranchOption::Remotes
    } else if a == "-a"@ || a == "--all"@ || a == "--list"@ || a == "--show-current"@ || a == "--contains"@ || a == "--no-contains"@ || a == "--merged"@ || a == "--no-merged"@ {
        BranchOption::List
    } else if a == "--unset-upstream"@ || a == "--edit-description"@ || a == "--set-upstream"@ {
        BranchOption::Configure
    } else if a == "-u"@ || a == "--set-upstream-to"@ {
        BranchOption::ConfigureWithValue
    } else if a == "--points-at"@ || a == "--sort"@ || a == "--format"@ {
        BranchOption::ListWithValue
    } else if a == "--color"@ || a == "--column"@ || a == "--abbrev"@ {
        BranchOption::SkipWithValue
    } else if a == "--track"@ || a == "--no-track"@ || a == "--create-reflog"@ || a == "--no-create-reflog"@ || a == "--recurse-submodules"@ || a == "--no-color"@ || a == "--no-column"@ || a == "--no-abbrev"@ || a == "--quiet"@ || a == "-q"@ || a == "--verbose"@ || a == "-v"@ || a == "-vv"@ || a == "-f"@ || a == "--force"@ || a == "-l"@ {
        BranchOption::Skip
    } else if has_prefix(a, "--set-upstream-to="@) {
        BranchOption::Configure
    } else if has_prefix(a, "--points-at="@) || has_prefix(a, "--sort="@) || has_prefix(a, "--format="@) || has_prefix(a, "--contains="@) || has_prefix(a, "--no-contains="@) || has_prefix(a, "--merged="@) || has_prefix(a, "--no-merged="@) {
        BranchOption::List
    } else if has_prefix(a, "--track="@) || has_prefix(a, "--color="@) || has_prefix(a, "--column="@) || has_prefix(a, "--abbrev="@) || has_prefix(a, "--"@) {
        BranchOption::Skip
    } else if has_prefix(a, "-"@) {
        BranchOption::Short
    } else {
        BranchOption::Name
    }
}

fn branch_option(a: &str) -> (r: BranchOption)
    ensures
        r == branch_option_of(a@),
{
    proof {
        reveal(branch_option_of);
    }
    if str_eq(a, "--") {
        BranchOption::End
    } else if str_eq(a, "-d") || str_eq(a, "-D") || str_eq(a, "--delete") {
        BranchOption::Delete
    } else if str_eq(a, "-m") || str_eq(a, "-M") || str_eq(a, "--move") {
        BranchOption::Rename
    } else if str_eq(a, "-c") || str_eq(a, "-C") || str_eq(a, "--copy") {
        BranchOption::Copy
    } else if str_eq(a, "-r") || str_eq(a, "--remotes") {
        BranchOption::Remotes
    } else if str_eq(a, "-a") || str_eq(a, "--all") || str_eq(a, "--list") || str_eq(a, "--show-current") || str_eq(a, "--contains") || str_eq(a, "--no-contains") || str_eq(a, "--merged") || str_eq(a, "--no-merged") {
        BranchOption::List
    } else if str_eq(a, "--unset-upstream") || str_eq(a, "--edit-description") || str_eq(a, "--set-upstream") {
        BranchOption::Configure
    } else if str_eq(a, "-u") || str_eq(a, "--set-upstream-to") {
        BranchOption::ConfigureWithValue
    } else if str_eq(a, "--points-at") || str_eq(a, "--sort") || str_eq(a, "--format") {
        BranchOption::ListWithValue
    } else if str_eq(a, "--color") || str_eq(a, "--column") || str_eq(a, "--abbrev") {
        BranchOption::SkipWithValue
    } else if str_eq(a, "--track") || str_eq(a, "--no-track") || str_eq(a, "--create-reflog") || str_eq(a, "--no-create-reflog") || str_eq(a, "--recurse-submodules") || str_eq(a, "--no-color") || str_eq(a, "--no-column") || str_eq(a, "--no-abbrev") || str_eq(a, "--quiet") || str_eq(a, "-q") || str_eq(a, "--verbose") || str_eq(a, "-v") || str_eq(a, "-vv") || str_eq(a, "-f") || str_eq(a, "--force") || str_eq(a, "-l") {
        BranchOption::Skip
    } else if starts_with(a, "--set-upstream-to=") {
        BranchOption::Configure
    } else if starts_with(a, "--points-at=") || starts_with(a, "--sort=") || starts_with(a, "--format=") || starts_with(a, "--contains=") || starts_with(a, "--no-contains=") || starts_with(a, "--merged=") || starts_with(a, "--no-merged=") {
        BranchOption::List
    } else if starts_with(a, "--track=") || starts_with(a, "--color=") || starts_with(a, "--column=") || starts_with(a, "--abbrev=") || starts_with(a, "--") {
        BranchOption::Skip
    } else if starts_with(a, "-") {
        BranchOption::Short
    } else {
        BranchOption::Name
    }
}

/// What the arguments of `git branch` ask for.
pub struct BranchFlags {
    pub delete: bool,
    pub remote: bool,
    pub rename: bool,
    pub copy: bool,
    pub list: bool,
    pub configure: bool,
}

/// What flags ask for together with an option.
pub open spec fn with_branch_option(f: BranchFlags, a: Seq<char>) -> BranchFlags {
    match branch_option_of(a) {
        BranchOption::Delete => BranchFlags { delete: true, ..f },
        BranchOption::Rename => BranchFlags { rename: true, ..f },
        BranchOption::Copy => BranchFlags { copy: true, ..f },
        BranchOption::Remotes => BranchFlags { remote: true, list: true, ..f },
        BranchOption::List | BranchOption::ListWithValue => BranchFlags { list: true, ..f },
        BranchOption::Configure | BranchOption::ConfigureWithValue => BranchFlags {
            configure: true,
            ..f
        },
        BranchOption::Short => BranchFlags {
            delete: f.delete || a.contains('d') || a.contains('D'),
            remote: f.remote || a.contains('r'),
            rename: f.rename || a.contains('m') || a.contains('M'),
            copy: f.copy || a.contains('c') || a.contains('C'),
            list: f.list || a.contains('r') || a.contains('a'),
            configure: f.configure,
        },
        _ => f,
    }
}

/// How many arguments an option takes up.
pub open spec fn branch_option_width(a: Seq<char>) -> int {
    match branch_option_of(a) {
        BranchOption::ConfigureWithValue
        | BranchOption::ListWithValue
        | BranchOption::SkipWithValue => 2,
        _ => 1,
    }
}

/// The flags and the names that the arguments from `at` on add to those before.
pub open spec fn branch_scan(
    args: Seq<Seq<char>>,
    at: int,
    flags: BranchFlags,
    names: Seq<Seq<char>>,
) -> (BranchFlags, Seq<Seq<char>>)
    decreases args.len() - at + 1,
{
    if !(0 <= at < args.len()) {
        (flags, names)
    } else if branch_option_of(args[at]) == BranchOption::End {
        (flags, names + args.skip(at + 1))
    } else {
        branch_scan(
            args,
            at + branch_option_width(args[at]),
            with_branch_option(flags, args[at]),
            if branch_option_of(args[at]) == BranchOption::Name {
                names.push(args[at])
            } else {
                names
            },
        )
    }
}

/// The ref that a branch's name stands for.
pub open spec fn branch_ref_of(name: Seq<char>, remote: bool) -> Option<Seq<char>> {
    let t = trimmed(name);
    if t.len() == 0 || t == "--"@ || has_prefix(t, "-"@) {
        None
    } else if has_prefix(t, "refs/heads/"@) || has_prefix(t, "refs/remotes/"@) {
        Some(t)
    } else if has_prefix(t, "refs/"@) {
        None
    } else if remote {
        Some("refs/remotes/"@ + t)
    } else {
        Some("refs/heads/"@ + t)
    }
}

/// The refs that branches' names stand for, without those that stand for none.
pub open spec fn branch_refs_of(names: Seq<Seq<char>>, remote: bool) -> Seq<Seq<char>>
    decreases names.len(),
{
    if names.len() == 0 {
        seq![]
    } else {
        let before = branch_refs_of(names.drop_last(), remote);
        match branch_ref_of(names.last(), remote) {
            Some(r) => before.push(r),
            None => before,
        }
    }
}

/// The source and the target that one or two names stand for: with one name, the
/// source is the current branch.
pub open spec fn relocation_of(names: Seq<Seq<char>>) -> Option<(Option<Seq<char>>, Seq<char>)> {
    if names.len() == 1 && branch_ref_of(names[0], false) is Some {
        Some((None, branch_ref_of(names[0], false)->0))
    } else if names.len() == 2 && branch_ref_of(names[0], false) is Some && branch_ref_of(
        names[1],
        false,
    ) is Some {
        Some((branch_ref_of(names[0], false), branch_ref_of(names[1], false)->0))
    } else {
        None
    }
}

/// What flags and names make `git branch` do to refs. Deleting wins over renaming,
/// renaming over copying, and each of these over listing and configuring.
pub open spec fn branch_command_with(f: BranchFlags, names: Seq<Seq<char>>) -> BranchCommandView {
    if f.delete {
        let refs = branch_refs_of(names, f.remote);
        if refs.len() == 0 {
            BranchCommandView::Nothing
        } else {
            BranchCommandView::Delete(refs)
        }
    } else if f.rename {
        match relocation_of(names) {
            Some((old, new)) => BranchCommandView::Rename(old, new),
            None => BranchCommandView::Nothing,
        }
    } else if f.copy {
        match relocation_of(names) {
            Some((old, new)) => BranchCommandView::Copy(old, new),
            None => BranchCommandView::Nothing,
        }
    } else if f.configure || f.list || names.len() == 0 {
        BranchCommandView::Nothing
    } else {
        match branch_ref_of(names[0], false) {
            Some(reference) => BranchCommandView::CreateOrReset(reference),
            None => BranchCommandView::Nothing,
        }
    }
}

/// No flags.
pub open spec fn no_branch_flags() -> BranchFlags {
    BranchFlags {
        delete: false,
        remote: false,
        rename: false,
        copy: false,
        list: false,
        configure: false,
    }
}

/// What `git branch` with the given arguments does to refs.
pub open spec fn branch_command_of(args: Seq<Seq<char>>) -> BranchCommandView {
    let (flags, names) = branch_scan(
        without_command(args, "branch"@),
        0,
        no_branch_flags(),
        seq![],
    );
    branch_command_with(flags, names)
}

fn has_char(v: &Vec<char>, c: char) -> (r: bool)
    ensures
        r == v@.contains(c),
{
    let mut i: usize = 0;
    while i < v.len()
        invariant
            i <= v@.len(),
            forall|k: int| 0 <= k < i ==> v@[k] != c,
        decreases v.len() - i,
    {
        if v[i] == c {
            return true;
        }
        i += 1;
    }
    false
}

fn apply_branch_option(flags: BranchFlags, a: &str) -> (r: BranchFlags)
    ensures
        r == with_branch_option(flags, a@),
{
    let mut f = flags;
    match branch_option(a) {
        BranchOption::Delete => {
            f.delete = true;
        },
        BranchOption::Rename => {
            f.rename = true;
        },
        BranchOption::Copy => {
            f.copy = true;
        },
        BranchOption::Remotes => {
            f.remote = true;
            f.list = true;
        },
        BranchOption::List | BranchOption::ListWithValue => {
            f.list = true;
        },
        BranchOption::Configure | BranchOption::ConfigureWithValue => {
            f.configure = true;
        },
        BranchOption::Short => {
            let v = chars_of(a);
            f.delete = f.delete || has_char(&v, 'd') || has_char(&v, 'D');
            f.remote = f.remote || has_char(&v, 'r');
            f.rename = f.rename || has_char(&v, 'm') || has_char(&v, 'M');
            f.copy = f.copy || has_char(&v, 'c') || has_char(&v, 'C');
            f.list = f.list || has_char(&v, 'r') || has_char(&v, 'a');
        },
        _ => {},
    }
    f
}

/// The ref that a branch's name stands for.
pub fn branch_ref_name(name: &str, remote: bool) -> (r: Option<String>)
    ensures
        opt_view(r) == branch_ref_of(name@, remote),
{
    let t = trim(name);
    let s: &str = t.as_str();
    if s.is_empty() || str_eq(s, "--") || starts_with(s, "-") {
        return None;
    }
    if starts_with(s, "refs/heads/") || starts_with(s, "refs/remotes/") {
        return Some(t);
    }
    if starts_with(s, "refs/") {
        return None;
    }
    if remote {
        Some(concat("refs/remotes/", s))
    } else {
        Some(concat("refs/heads/", s))
    }
}

fn branch_refs(names: &Vec<String>, remote: bool) -> (r: Vec<String>)
    ensures
        texts(r@) == branch_refs_of(texts(names@), remote),
{
    let ghost ts = texts(names@);
    let mut out: Vec<String> = Vec::new();
    let mut i: usize = 0;
    proof {
        assert(ts.take(0) =~= seq![]);
        assert(texts(out@) =~= seq![]);
    }
    while i < names.len()
        invariant
            i <= names@.len(),
            ts == texts(names@),
            texts(out@) == branch_refs_of(ts.take(i as int), remote),
        decreases names.len() - i,
    {
        proof {
            assert(ts.take(i + 1).drop_last() =~= ts.take(i as int));
            assert(ts.take(i + 1).last() == names@[i as int]@);
        }
        if let Some(reference) = branch_ref_name(names[i].as_str(), remote) {
            proof {
                lemma_texts_push(out@, reference);
            }
            out.push(reference);
        }
        i += 1;
    }
    proof {
        assert(ts.take(i as int) =~= ts);
    }
    out
}

fn relocation(names: &Vec<String>) -> (r: Option<(Option<String>, String)>)
    ensures
        match r {
            Some((old, new)) => relocation_of(texts(names@)) == Some((opt_view(old), new@)),
            None => relocation_of(texts(names@)) is None,
        },
{
    if names.len() == 1 {
        proof {
            assert(texts(names@)[0] == names@[0]@);
        }
        return match branch_ref_name(names[0].as_str(), false) {
            Some(new) => Some((None, new)),
            None => None,
        };
    }
    if names.len() == 2 {
        proof {
            assert(texts(names@)[0] == names@[0]@);
            assert(texts(names@)[1] == names@[1]@);
        }
        let old = branch_ref_name(names[0].as_str(), false);
        let new = branch_ref_name(names[1].as_str(), false);
        return match (old, new) {
            (Some(old), Some(new)) => Some((Some(old), new)),
            _ => None,
        };
    }
    None
}

/// What `git branch` with the given arguments does to refs.
pub fn parse_branch_command_spec(args: &[String]) -> (r: BranchCommandSpec)
    ensures
        r@ == branch_command_of(texts(args@)),
{
    let start: usize = args_start(args, "branch");
    let ghost ts = without_command(texts(args@), "branch"@);
    let mut flags = BranchFlags {
        delete: false,
        remote: false,
        rename: false,
        copy: false,
        list: false,
        configure: false,
    };
    let mut names: Vec<String> = Vec::new();
    let mut idx: usize = start;
    proof {
        assert(texts(names@) =~= seq![]);
    }
    let ghost whole = branch_scan(ts, 0, no_branch_flags(), seq![]);
    while idx < args.len()
        invariant
            start <= idx,
            ts == texts(args@).skip(start as int),
            ts == without_command(texts(args@), "branch"@),
            ts.len() == args@.len() - start,
            whole == branch_scan(ts, 0, no_branch_flags(), seq![]),
            whole == branch_scan(ts, idx - start, flags, texts(names@)),
        decreases args.len() - idx,
    {
        let a: &str = args[idx].as_str();
        proof {
            assert(ts[idx - start] == a@);
        }
        let option = branch_option(a);
        if option == BranchOption::End {
            let mut k: usize = idx + 1;
            let ghost before = texts(names@);
            proof {
                assert(before + ts.subrange(idx - start + 1, k - start) =~= before);
            }
            while k < args.len()
                invariant
                    start <= idx < k <= args@.len(),
                    ts == texts(args@).skip(start as int),
                    ts.len() == args@.len() - start,
                    texts(names@) == before + ts.subrange(idx - start + 1, k - start),
                decreases args.len() - k,
            {
                proof {
                    lemma_texts_push(names@, args@[k as int]);
                    assert(ts[k - start] == args@[k as int]@);
                    assert(before + ts.subrange(idx - start + 1, k - start + 1) =~= (before
                        + ts.subrange(idx - start + 1, k - start)).push(ts[k - start]));
                }
                let name = args[k].clone();
                names.push(name);
                k += 1;
            }
            proof {
                assert(ts.subrange(idx - start + 1, k - start) =~= ts.skip(idx - start + 1));
                assert(whole == (flags, texts(names@)));
            }
            return branch_command(flags, names);
        }
        flags = apply_branch_option(flags, a);
        if option == BranchOption::Name {
            proof {
                lemma_texts_push(names@, args@[idx as int]);
            }
            let name = args[idx].clone();
            names.push(name);
        }
        let two = match option {
            BranchOption::ConfigureWithValue
            | BranchOption::ListWithValue
            | BranchOption::SkipWithValue => true,
            _ => false,
        };
        if two && args.len() - idx >= 2 {
            idx += 2;
        } else if two {
            proof {
                assert(branch_scan(ts, idx - start + 2, flags, texts(names@)) == (
                    flags,
                    texts(names@),
                ));
                assert(whole == (flags, texts(names@)));
            }
            return branch_command(flags, names);
        } else {
            idx += 1;
        }
    }
    branch_command(flags, names)
}

fn branch_command(flags: BranchFlags, names: Vec<String>) -> (r: BranchCommandSpec)
    ensures
        r@ == branch_command_with(flags, texts(names@)),
{
    if flags.delete {
        let references = branch_refs(&names, flags.remote);
        return if references.len() == 0 {
            BranchCommandSpec::Nothing
        } else {
            BranchCommandSpec::Delete { references }
        };
    }
    if flags.rename {
        return match relocation(&names) {
            Some((old_reference, new_reference)) => BranchCommandSpec::Rename {
                old_reference,
                new_reference,
            },
            None => BranchCommandSpec::Nothing,
        };
    }
    if flags.copy {
        return match relocation(&names) {
            Some((old_reference, new_reference)) => BranchCommandSpec::Copy {
                old_reference,
                new_reference,
            },
            None => BranchCommandSpec::Nothing,
        };
    }
    if flags.configure || flags.list || names.len() == 0 {
        return BranchCommandSpec::Nothing;
    }
    proof {
        assert(texts(names@)[0] == names@[0]@);
    }
    match branch_ref_name(names[0].as_str(), false) {
        Some(reference) => BranchCommandSpec::CreateOrReset { reference },
        None => BranchCommandSpec::Nothing,
    }
}

} // verus!
