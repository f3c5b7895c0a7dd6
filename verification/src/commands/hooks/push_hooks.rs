//! Around `git push`: the remote that is pushed to, and its branches.

use crate::commands::git_handlers::ParsedGitInvocation;
use crate::file_tree::{lossy_text, utf8_lossy};
use crate::model::opt_view;
use crate::text::{
    chars_of, clone_option, has_prefix, lines, lines_of, list_contains, split_once, split_once_of,
    starts_with, str_eq, string_of, strip_prefix, texts, trim, trim_end_text, trim_end_text_of,
    trimmed,
};
use crate::text_map::{TextMap, text_values};
use vstd::prelude::*;

verus! {

// ------------------------------------------------------------------ the remote

/// Whether the arguments ask for a dry run.
pub fn is_dry_run(args: &[String]) -> (r: bool)
    ensures
        r == texts(args@).contains("--dry-run"@),
{
    list_contains(args, "--dry-run")
}

/// Whether no authorship is pushed along: for a dry run, when branches are
/// deleted, and when all refs are mirrored.
pub open spec fn skips_authorship(args: Seq<Seq<char>>) -> bool {
    args.contains("--dry-run"@) || args.contains("-d"@) || args.contains("--delete"@)
        || args.contains("--mirror"@)
}

/// Whether no authorship is pushed along.
pub fn should_skip_authorship_push(command_args: &[String]) -> (r: bool)
    ensures
        r == skips_authorship(texts(command_args@)),
{
    is_dry_run(command_args) || list_contains(command_args, "-d") || list_contains(
        command_args,
        "--delete",
    ) || list_contains(command_args, "--mirror")
}

/// An option and the value that stands in the same argument: behind the equals
/// sign, or right behind `-C` and `-c`.
pub open spec fn inline_value_of(arg: Seq<char>) -> Option<(Seq<char>, Seq<char>)> {
    match split_once_of(arg, "="@) {
        Some(pair) => Some(pair),
        None => if (has_prefix(arg, "-C"@) || has_prefix(arg, "-c"@)) && arg.len() > 2 {
            Some((arg.take(2), arg.skip(2)))
        } else {
            None
        },
    }
}

/// A pair of strings by its texts.
pub open spec fn opt_pair(p: Option<(String, String)>) -> Option<(Seq<char>, Seq<char>)> {
    match p {
        Some((a, b)) => Some((a@, b@)),
        None => None,
    }
}

/// An option and the value that stands in the same argument.
pub fn is_push_option_with_inline_value(arg: &str) -> (r: Option<(String, String)>)
    ensures
        opt_pair(r) == inline_value_of(arg@),
{
    if let Some(pair) = split_once(arg, "=") {
        return Some(pair);
    }
    let v = chars_of(arg);
    if (starts_with(arg, "-C") || starts_with(arg, "-c")) && v.len() > 2 {
        let flag = string_of(&v, 0, 2);
        let value = string_of(&v, 2, v.len());
        proof {
            assert(flag@ =~= arg@.take(2));
            assert(value@ =~= arg@.skip(2));
        }
        Some((flag, value))
    } else {
        None
    }
}

/// Whether an option takes the next argument as its value.
pub open spec fn takes_next(arg: Seq<char>) -> bool {
    arg == "--repo"@ || arg == "--receive-pack"@ || arg == "--exec"@ || arg == "-o"@ || arg
        == "--push-option"@ || arg == "-c"@ || arg == "-C"@
}

/// Whether an option takes the next argument as its value.
pub fn option_consumes_separate_value(arg: &str) -> (r: bool)
    ensures
        r == takes_next(arg@),
{
    str_eq(arg, "--repo") || str_eq(arg, "--receive-pack") || str_eq(arg, "--exec") || str_eq(
        arg,
        "-o",
    ) || str_eq(arg, "--push-option") || str_eq(arg, "-c") || str_eq(arg, "-C")
}

/// An argument, where there is one.
pub open spec fn arg_at(args: Seq<Seq<char>>, i: int) -> Option<Seq<char>> {
    if 0 <= i < args.len() {
        Some(args[i])
    } else {
        None
    }
}

/// The first of some texts that another list holds.
pub open spec fn first_in(list: Seq<Seq<char>>, other: Seq<Seq<char>>, i: int) -> Option<Seq<char>>
    decreases list.len() - i,
{
    if i < 0 || i >= list.len() {
        None
    } else if other.contains(list[i]) {
        Some(list[i])
    } else {
        first_in(list, other, i + 1)
    }
}

/// The remote that the arguments of a push name, read from one of them on: the
/// first that is no option, or the value of `--repo`. Without one, the first
/// known remote that occurs anywhere.
pub open spec fn named_remote(args: Seq<Seq<char>>, known: Seq<Seq<char>>, i: int) -> Option<
    Seq<char>,
>
    decreases args.len() - i + 1,
{
    if i < 0 || i >= args.len() {
        first_in(known, args, 0)
    } else if args[i] == "--"@ {
        arg_at(args, i + 1)
    } else if has_prefix(args[i], "-"@) {
        match inline_value_of(args[i]) {
            Some((flag, value)) => if flag == "--repo"@ {
                Some(value)
            } else {
                named_remote(args, known, i + 1)
            },
            None => if args[i] == "--repo"@ {
                arg_at(args, i + 1)
            } else if takes_next(args[i]) {
                named_remote(args, known, i + 2)
            } else {
                named_remote(args, known, i + 1)
            },
        }
    } else {
        Some(args[i])
    }
}

fn arg_after(args: &[String], i: usize) -> (r: Option<String>)
    requires
        i < args@.len(),
    ensures
        opt_view(r) == arg_at(texts(args@), i + 1),
{
    if args.len() - i > 1 {
        assert(texts(args@)[i + 1] == args@[i + 1]@);
        Some(args[i + 1].clone())
    } else {
        None
    }
}

fn first_contained(list: &[String], other: &[String]) -> (r: Option<String>)
    ensures
        opt_view(r) == first_in(texts(list@), texts(other@), 0),
{
    let mut i: usize = 0;
    while i < list.len()
        invariant
            i <= list@.len(),
            first_in(texts(list@), texts(other@), 0) == first_in(
                texts(list@),
                texts(other@),
                i as int,
            ),
        decreases list.len() - i,
    {
        assert(texts(list@)[i as int] == list@[i as int]@);
        if list_contains(other, list[i].as_str()) {
            return Some(list[i].clone());
        }
        i += 1;
    }
    None
}

/// The remote that the arguments of a push name.
pub fn extract_remote_from_push_args(args: &[String], known_remotes: &[String]) -> (r: Option<
    String,
>)
    ensures
        opt_view(r) == named_remote(texts(args@), texts(known_remotes@), 0),
{
    let ghost all = texts(args@);
    let ghost known = texts(known_remotes@);
    let mut i: usize = 0;
    while i < args.len()
        invariant
            all == texts(args@),
            known == texts(known_remotes@),
            named_remote(all, known, 0) == named_remote(all, known, i as int),
        decreases args.len() - i,
    {
        let arg = args[i].as_str();
        assert(all[i as int] == arg@);
        if str_eq(arg, "--") {
            return arg_after(args, i);
        }
        if !starts_with(arg, "-") {
            return Some(args[i].clone());
        }
        let mut step: usize = 1;
        if let Some((flag, value)) = is_push_option_with_inline_value(arg) {
            if str_eq(flag.as_str(), "--repo") {
                return Some(value);
            }
        } else if str_eq(arg, "--repo") {
            return arg_after(args, i);
        } else if option_consumes_separate_value(arg) {
            step = 2;
        }
        if args.len() - i <= step {
            proof {
                assert(named_remote(all, known, i + step) == first_in(known, all, 0));
                assert(named_remote(all, known, all.len() as int) == first_in(known, all, 0));
            }
            i = args.len();
        } else {
            i += step;
        }
    }
    first_contained(known_remotes, args)
}

/// The remote of a push: the one that its arguments name, else the first
/// argument that is a known remote, else the branch's own remote, else the
/// default one.
pub open spec fn push_remote_of(
    args: Seq<Seq<char>>,
    known: Seq<Seq<char>>,
    upstream: Option<Seq<char>>,
    default: Option<Seq<char>>,
) -> Option<Seq<char>> {
    let named = named_remote(args, known, 0);
    let found = first_in(args, known, 0);
    if named is Some {
        named
    } else if found is Some {
        found
    } else if upstream is Some {
        upstream
    } else {
        default
    }
}

/// The remote of a push.
pub fn resolve_push_remote_from_parts(
    command_args: &[String],
    known_remotes: &[String],
    upstream_remote: Option<String>,
    default_remote: Option<String>,
) -> (r: Option<String>)
    ensures
        opt_view(r) == push_remote_of(
            texts(command_args@),
            texts(known_remotes@),
            opt_view(upstream_remote),
            opt_view(default_remote),
        ),
{
    let named = extract_remote_from_push_args(command_args, known_remotes);
    if named.is_some() {
        return named;
    }
    let found = first_contained(command_args, known_remotes);
    if found.is_some() {
        return found;
    }
    if upstream_remote.is_some() {
        upstream_remote
    } else {
        default_remote
    }
}

/// The remote to which authorship is pushed along with a push, if any.
pub fn run_pre_push_hook_managed(
    parsed_args: &ParsedGitInvocation,
    known_remotes: &[String],
    upstream_remote: &Option<String>,
    default_remote: &Option<String>,
) -> (r: Option<String>)
    ensures
        opt_view(r) == (if skips_authorship(parsed_args@.command_args) {
            None
        } else {
            push_remote_of(
                parsed_args@.command_args,
                texts(known_remotes@),
                opt_view(*upstream_remote),
                opt_view(*default_remote),
            )
        }),
{
    let args = parsed_args.command_args.as_slice();
    if should_skip_authorship_push(args) {
        return None;
    }
    resolve_push_remote_from_parts(
        args,
        known_remotes,
        clone_option(upstream_remote),
        clone_option(default_remote),
    )
}

// ------------------------------------------------------------------ its branches

/// The branch and the commit that a line of `git ls-remote --heads` tells of.
pub open spec fn head_line_of(line: Seq<char>) -> Option<(Seq<char>, Seq<char>)> {
    match split_once_of(trim_end_text_of(line, "\r"@), "\t"@) {
        None => None,
        Some((sha, reference)) => if has_prefix(trimmed(reference), "refs/heads/"@) {
            Some((trimmed(reference).skip("refs/heads/"@.len() as int), trimmed(sha)))
        } else {
            None
        },
    }
}

/// The commits of the branches that some lines tell of. A later line counts.
pub open spec fn heads_of_lines(lines: Seq<Seq<char>>) -> Map<Seq<char>, Seq<char>>
    decreases lines.len(),
{
    if lines.len() == 0 {
        Map::empty()
    } else {
        match head_line_of(lines.last()) {
            Some((branch, sha)) => heads_of_lines(lines.drop_last()).insert(branch, sha),
            None => heads_of_lines(lines.drop_last()),
        }
    }
}

/// The commits of a remote's branches before a push, as `git ls-remote --heads`
/// printed them; nothing where the command failed.
pub fn capture_heads(success: bool, stdout: &[u8]) -> (r: Option<TextMap<String>>)
    ensures
        match r {
            Some(heads) => success && text_values(heads@) == heads_of_lines(
                lines_of(utf8_lossy(stdout@)),
            ),
            None => !success,
        },
{
    if !success {
        return None;
    }
    let text = lossy_text(stdout);
    let all = lines(text.as_str());
    let ghost seen = texts(all@);
    let mut heads: TextMap<String> = TextMap::new();
    let mut i: usize = 0;
    proof {
        assert(seen.take(0) =~= Seq::empty());
        assert(text_values(heads@) =~= Map::empty());
    }
    while i < all.len()
        invariant
            i <= all@.len(),
            seen == texts(all@),
            text_values(heads@) == heads_of_lines(seen.take(i as int)),
        decreases all.len() - i,
    {
        proof {
            assert(seen.take(i + 1).drop_last() =~= seen.take(i as int));
            assert(seen.take(i + 1).last() == all@[i as int]@);
        }
        if let Some((branch, sha)) = parse_head_line(all[i].as_str()) {
            let ghost before = heads@;
            let ghost k = branch@;
            let ghost v = sha;
            heads.insert(branch, sha);
            proof {
                assert(text_values(before.insert(k, v)) =~= text_values(before).insert(k, v@));
            }
        }
        i += 1;
    }
    proof {
        assert(seen.take(seen.len() as int) =~= seen);
    }
    Some(heads)
}

fn parse_head_line(line: &str) -> (r: Option<(String, String)>)
    ensures
        opt_pair(r) == head_line_of(line@),
{
    let line = trim_end_text(line, "\r");
    let (sha, reference) = split_once(line.as_str(), "\t")?;
    let reference = trim(reference.as_str());
    let branch = strip_prefix(reference.as_str(), "refs/heads/")?;
    Some((branch, trim(sha.as_str())))
}

/// Whether the commits of a push are reported: it succeeded, and what stood
/// on the remote before is known.
pub fn reports_push(success: bool, pre_push_refs: &Option<TextMap<String>>, remote: &Option<
    String,
>) -> (r: bool)
    ensures
        r == (success && pre_push_refs is Some && remote is Some),
{
    success && pre_push_refs.is_some() && remote.is_some()
}

// ------------------------------------------------------------------ laws

/// What the arguments name decides over the remotes of the branch and of the
/// repository, and the branch's remote decides over the repository's.
pub proof fn law_arguments_decide_the_remote(
    args: Seq<Seq<char>>,
    known: Seq<Seq<char>>,
    upstream: Option<Seq<char>>,
    default: Option<Seq<char>>,
)
    ensures
        named_remote(args, known, 0) is Some ==> push_remote_of(args, known, upstream, default)
            == named_remote(args, known, 0),
        args.len() == 0 && upstream is Some ==> push_remote_of(args, known, upstream, default)
            == upstream,
        args.len() == 0 && upstream is None ==> push_remote_of(args, known, upstream, default)
            == default,
{
    lemma_first_in_nothing(known, args, 0);
}

proof fn lemma_first_in_nothing(list: Seq<Seq<char>>, other: Seq<Seq<char>>, i: int)
    ensures
        other.len() == 0 ==> first_in(list, other, i) is None,
    decreases list.len() - i,
{
    if 0 <= i < list.len() {
        lemma_first_in_nothing(list, other, i + 1);
    }
}

} // verus!
