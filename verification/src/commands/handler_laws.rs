//! What holds of the commands that are told apart, of their arguments and of git's.

use crate::agents::AgentNamesView;
use crate::commands::checkpoint_args::absolute_of;
use crate::commands::git_ai_handlers::{
    StatsView, TrackerView, TranscriptAgent, binary_name_of, can_name_commit, head_rev_of,
    ignore_end, ignore_revs_of, is_program_name, machine_json_of, needs_service, stats_of,
    stats_scan, tracker_of, transcript_agent_name, transcript_agent_of, transcript_request_of,
    uses_database, without_bom,
};
use crate::commands::git_handlers::{
    AliasScan, AliasStepView, GitFacts, GitPlan, InvocationView, alias_scan, alias_start,
    alias_step_of, alias_tokens_of, child_args_of, child_env_of, child_hooks_of, git_plan_of,
    note_timeout_of, sets_hooks_path, sets_hooks_path_at, uses_managed_hooks,
};
use crate::commands::hooks::push_hooks::{
    first_in, head_line_of, heads_of_lines, inline_value_of, named_remote, skips_authorship,
    takes_next,
};
use crate::model::opt_view;
use crate::paths::{file_name_of, joined};
use crate::text::{
    ascii_lower_of, find_of, has_prefix, has_suffix, is_space, split_once_of, trim_end_text_of,
    trim_start_of, trimmed, unsigned_of,
};
use crate::text_laws::{law_no_split, law_split_once_at, law_trimming};
use vstd::prelude::*;
use vstd::string::*;

verus! {

// ------------------------------------------------------------------ git-ai's commands

/// The service is not needed for just those commands that help to set it up, to find out
/// what is wrong with it, or that do without it.
pub proof fn law_commands_without_service(name: Seq<char>)
    ensures
        !needs_service(name) <==> seq!["help"@, "--help"@, "-h"@, "version"@, "--version"@, "-v"@, "config"@, "bg"@, "d"@, "daemon"@, "debug"@, "upgrade"@, "install-hooks"@, "install"@, "uninstall-hooks"@, "report-token-usage"@].contains(name),
{
    let names = seq!["help"@, "--help"@, "-h"@, "version"@, "--version"@, "-v"@, "config"@, "bg"@, "d"@, "daemon"@, "debug"@, "upgrade"@, "install-hooks"@, "install"@, "uninstall-hooks"@, "report-token-usage"@];
    assert(names[0] == "help"@);
    assert(names[1] == "--help"@);
    assert(names[2] == "-h"@);
    assert(names[3] == "version"@);
    assert(names[4] == "--version"@);
    assert(names[5] == "-v"@);
    assert(names[6] == "config"@);
    assert(names[7] == "bg"@);
    assert(names[8] == "d"@);
    assert(names[9] == "daemon"@);
    assert(names[10] == "debug"@);
    assert(names[11] == "upgrade"@);
    assert(names[12] == "install-hooks"@);
    assert(names[13] == "install"@);
    assert(names[14] == "uninstall-hooks"@);
    assert(names[15] == "report-token-usage"@);
}

/// The database of prompts is used by just those commands that read or write prompts.
pub proof fn law_commands_with_database(name: Seq<char>)
    ensures
        uses_database(name) <==> seq!["checkpoint"@, "show-prompt"@, "share"@, "sync-prompts"@, "flush-cas"@, "search"@, "continue"@].contains(name),
{
    let names = seq!["checkpoint"@, "show-prompt"@, "share"@, "sync-prompts"@, "flush-cas"@, "search"@, "continue"@];
    assert(names[0] == "checkpoint"@);
    assert(names[1] == "show-prompt"@);
    assert(names[2] == "share"@);
    assert(names[3] == "sync-prompts"@);
    assert(names[4] == "flush-cas"@);
    assert(names[5] == "search"@);
    assert(names[6] == "continue"@);
}

/// The program's own names.
pub proof fn law_program_names(name: Seq<char>)
    ensures
        is_program_name(name) <==> seq!["git-ai"@, "git-ai.exe"@, "easylife-ai"@, "easylife-ai.exe"@].contains(name),
{
    let names = seq!["git-ai"@, "git-ai.exe"@, "easylife-ai"@, "easylife-ai.exe"@];
    assert(names[0] == "git-ai"@);
    assert(names[1] == "git-ai.exe"@);
    assert(names[2] == "easylife-ai"@);
    assert(names[3] == "easylife-ai.exe"@);
}

/// The program is known by the last part of its path; without one it is `git-ai`.
pub proof fn law_binary_name(path: Seq<char>)
    ensures
        binary_name_of(None) == "git-ai"@,
        file_name_of(path) matches Some(name) ==> binary_name_of(Some(path)) == name,
        file_name_of(path) is None ==> binary_name_of(Some(path)) == "git-ai"@,
{
}

/// What the tracker is asked for: each word has its own meaning, and the pattern of the
/// blacklist is the fourth argument.
pub proof fn law_tracker_words(args: Seq<Seq<char>>)
    ensures
        args.len() < 2 ==> tracker_of(args) is Usage,
        args.len() >= 2 && args[1] == "retry"@ ==> tracker_of(args) is Retry,
        args.len() >= 2 && args[1] == "log"@ ==> tracker_of(args) is Log,
        args.len() == 2 && args[1] == "blacklist"@ ==> tracker_of(args) is BlacklistUsage,
        args.len() >= 3 && args[1] == "blacklist"@ && args[2] == "list"@ ==> tracker_of(args)
            is BlacklistList,
        args.len() == 3 && args[1] == "blacklist"@ && args[2] == "add"@ ==> tracker_of(args)
            == TrackerView::BlacklistAdd(None),
        args.len() >= 4 && args[1] == "blacklist"@ && args[2] == "add"@ ==> tracker_of(args)
            == TrackerView::BlacklistAdd(Some(args[3])),
        args.len() == 3 && args[1] == "blacklist"@ && args[2] == "remove"@ ==> tracker_of(args)
            == TrackerView::BlacklistRemove(None),
        args.len() >= 4 && args[1] == "blacklist"@ && args[2] == "remove"@ ==> tracker_of(args)
            == TrackerView::BlacklistRemove(Some(args[3])),
        args.len() >= 3 && args[1] == "blacklist"@ && args[2] != "list"@ && args[2] != "add"@
            && args[2] != "remove"@ ==> tracker_of(args) == TrackerView::UnknownBlacklist(args[2]),
        args.len() >= 2 && args[1] != "retry"@ && args[1] != "log"@ && args[1] != "blacklist"@
            ==> tracker_of(args) == TrackerView::Unknown(args[1]),
{
    reveal_strlit("retry");
    reveal_strlit("log");
    reveal_strlit("blacklist");
    reveal_strlit("list");
    reveal_strlit("add");
    reveal_strlit("remove");
    assert("retry"@.len() == 5);
    assert("log"@.len() == 3);
    assert("blacklist"@.len() == 9);
    assert("list"@.len() == 4);
    assert("add"@.len() == 3);
    assert("remove"@.len() == 6);
    assert("log"@[0] == 'l');
    assert("add"@[0] == 'a');
}

/// The log is shown with the number of lines that is asked for, or with 100.
pub proof fn law_tracker_log_lines(args: Seq<Seq<char>>)
    requires
        args.len() >= 2,
        args[1] == "log"@,
    ensures
        args.len() > 3 && args[2] == "-n"@ ==> (unsigned_of(args[3], usize::MAX as nat) matches Some(
            n,
        ) ==> tracker_of(args) == TrackerView::Log(n)),
        args.len() > 3 && args[2] == "-n"@ && unsigned_of(args[3], usize::MAX as nat) is None
            ==> tracker_of(args) == TrackerView::Log(100),
        args.len() <= 3 || args[2] != "-n"@ ==> tracker_of(args) == TrackerView::Log(100),
{
    reveal_strlit("retry");
    reveal_strlit("log");
    reveal_strlit("blacklist");
    assert("retry"@.len() == 5);
    assert("log"@.len() == 3);
    assert("blacklist"@.len() == 9);
}

/// A byte order mark before a text is taken off, once, and nothing else.
pub proof fn law_byte_order_mark(s: Seq<char>)
    ensures
        without_bom(seq!['\u{feff}'] + s) == s,
        s.len() == 0 || s[0] != '\u{feff}' ==> without_bom(s) == s,
{
    assert((seq!['\u{feff}'] + s).drop_first() =~= s);
}

/// A payload is taken just where it is the one value of the option and is not blank.
pub proof fn law_machine_payload(args: Seq<Seq<char>>, command: Seq<char>)
    ensures
        machine_json_of(args, command) is Ok <==> args.len() == 2 && args[0] == "--json"@ && trimmed(
            without_bom(args[1]),
        ).len() > 0,
        machine_json_of(args, command) matches Ok(payload) ==> payload == without_bom(args[1]),
        args.len() != 2 || args[0] != "--json"@ ==> machine_json_of(args, command) == Err::<
            Seq<char>,
            Seq<char>,
        >("Usage: git-ai "@ + command + " --json '<json-payload>'"@),
        args.len() == 2 && args[0] == "--json"@ && trimmed(without_bom(args[1])).len() == 0
            ==> machine_json_of(args, command) == Err::<Seq<char>, Seq<char>>(
            "JSON payload cannot be empty"@,
        ),
{
}

/// A revision that begins with `head` in any case, alone or before one of the signs that
/// may follow it, gets it in capitals; any other stays as it is.
pub proof fn law_head_in_capitals(head: Seq<char>, rest: Seq<char>)
    requires
        head.len() == 4,
    ensures
        ascii_lower_of(head) == ascii_lower_of("head"@) && (rest.len() == 0 || rest[0] == '~' || rest[0]
            == '^' || rest[0] == '@') ==> head_rev_of(head + rest) == "HEAD"@ + rest,
        ascii_lower_of(head) != ascii_lower_of("head"@) ==> head_rev_of(head + rest) == head + rest,
        rest.len() > 0 && rest[0] != '~' && rest[0] != '^' && rest[0] != '@' ==> head_rev_of(
            head + rest,
        ) == head + rest,
{
    let rev = head + rest;
    assert(rev.take(4) =~= head);
    assert(rev.skip(4) =~= rest);
    if rest.len() > 0 {
        assert(rev[4] == rest[0]);
    }
}

/// Short revisions stay as they are.
pub proof fn law_short_revisions_stay(rev: Seq<char>)
    requires
        rev.len() < 4,
    ensures
        head_rev_of(rev) == rev,
{
}

/// The list of revisions that blame leaves out: the configured one, seen from the working
/// directory, before the repository's own; none without a working directory.
pub proof fn law_ignored_revisions(config: Seq<char>, dir: Seq<char>)
    ensures
        ignore_revs_of(Some(config), None).len() == 0,
        ignore_revs_of(None, None).len() == 0,
        ignore_revs_of(None, Some(dir)) == seq![joined(dir, ".git-blame-ignore-revs"@)],
        config.len() == 0 ==> ignore_revs_of(Some(config), Some(dir)) == seq![
            joined(dir, ".git-blame-ignore-revs"@),
        ],
        config.len() > 0 ==> ignore_revs_of(Some(config), Some(dir)) == seq![
            absolute_of(config, dir),
            joined(dir, ".git-blame-ignore-revs"@),
        ],
{
}

/// The name of each agent in what is said of its transcripts.
pub proof fn law_transcript_names(names: AgentNamesView)
    ensures
        transcript_agent_name(TranscriptAgent::Claude, names) == names.title,
        transcript_agent_name(TranscriptAgent::Codex, names) == "Codex"@,
        transcript_agent_name(TranscriptAgent::Gemini, names) == "Gemini"@,
        transcript_agent_name(TranscriptAgent::Windsurf, names) == "Windsurf"@,
        transcript_agent_name(TranscriptAgent::ContinueCli, names) == "Continue CLI"@,
        transcript_agent_name(TranscriptAgent::GithubCopilot, names) == "GitHub Copilot"@,
        transcript_agent_name(TranscriptAgent::Cursor, names) == "Cursor"@,
        transcript_agent_name(TranscriptAgent::Amp, names) == "Amp"@,
{
}

/// A transcript is shown of the agent that the first argument names, from where the second
/// says; not where one of them is missing or the agent is not known.
pub proof fn law_transcript_request(args: Seq<Seq<char>>, names: AgentNamesView)
    ensures
        transcript_request_of(args, names) is Ok <==> args.len() >= 2 && transcript_agent_of(
            args[0],
            names,
        ) is Some,
        transcript_request_of(args, names) matches Ok((agent, from)) ==> transcript_agent_of(
            args[0],
            names,
        ) == Some(agent) && from == args[1],
        transcript_request_of(args, names) matches Err(lines) ==> lines.len() == (if args.len() < 2 {
            4int
        } else {
            2int
        }),
{
}

// ----------------------------------------------------------------------------- stats

/// Whether an argument of `git-ai stats` can be a revision: neither an option of it nor a
/// range.
pub open spec fn is_plain_rev(s: Seq<char>) -> bool {
    s != "--json"@ && s != "--ignore"@ && find_of(s, ".."@) is None
}

/// Statistics of the last commit, or of one that is named, with `head` in capitals; as
/// JSON where that is asked for, before or behind the name. A second name is refused.
pub proof fn law_stats_of_a_commit(rev: Seq<char>, other: Seq<char>)
    requires
        is_plain_rev(rev),
    ensures
        stats_of(Seq::empty()) == (StatsView {
            json: false,
            commit: None,
            ranges: Seq::empty(),
            ignore: Seq::empty(),
            error: None,
        }),
        stats_of(seq!["--json"@]) == (StatsView {
            json: true,
            commit: None,
            ranges: Seq::empty(),
            ignore: Seq::empty(),
            error: None,
        }),
        stats_of(seq![rev]) == (StatsView {
            json: false,
            commit: Some(head_rev_of(rev)),
            ranges: Seq::empty(),
            ignore: Seq::empty(),
            error: None,
        }),
        stats_of(seq!["--json"@, rev]) == (StatsView {
            json: true,
            commit: Some(head_rev_of(rev)),
            ranges: Seq::empty(),
            ignore: Seq::empty(),
            error: None,
        }),
        stats_of(seq![rev, "--json"@]) == stats_of(seq!["--json"@, rev]),
        is_plain_rev(other) ==> stats_of(seq![rev, other]).error == Some(
            "Unknown stats argument: "@ + other,
        ),
{
    reveal_strlit("--json");
    reveal_strlit("--ignore");
    assert("--json"@.len() == 6);
    assert("--ignore"@.len() == 8);
    reveal_with_fuel(stats_scan, 4);
    let a = seq![rev];
    let b = seq!["--json"@, rev];
    let c = seq![rev, "--json"@];
    let d = seq![rev, other];
    let e = seq!["--json"@];
    assert(a[0] == rev && b[0] == "--json"@ && b[1] == rev && c[0] == rev && c[1] == "--json"@);
    assert(d[0] == rev && d[1] == other && e[0] == "--json"@);
    assert(split_once_of(rev, ".."@) is None);
}

/// Statistics of a range: its two ends, with `head` in capitals. Of two ranges, one stands
/// behind the other.
pub proof fn law_stats_of_a_range(from: Seq<char>, to: Seq<char>)
    requires
        split_once_of(from + ".."@ + to, ".."@) == Some((from, to)),
        find_of(to, ".."@) is None,
        from + ".."@ + to != "--json"@,
        from + ".."@ + to != "--ignore"@,
    ensures
        stats_of(seq![from + ".."@ + to]) == (StatsView {
            json: false,
            commit: None,
            ranges: seq![(head_rev_of(from), head_rev_of(to))],
            ignore: Seq::empty(),
            error: None,
        }),
        stats_of(seq![from + ".."@ + to, from + ".."@ + to]).ranges == seq![
            (head_rev_of(from), head_rev_of(to)),
            (head_rev_of(from), head_rev_of(to)),
        ],
{
    reveal_with_fuel(stats_scan, 4);
    let r = from + ".."@ + to;
    let a = seq![r];
    let b = seq![r, r];
    assert(a[0] == r && b[0] == r && b[1] == r);
    let one = Seq::<(Seq<char>, Seq<char>)>::empty().push((head_rev_of(from), head_rev_of(to)));
    assert(one =~= seq![(head_rev_of(from), head_rev_of(to))]);
    assert(one.push((head_rev_of(from), head_rev_of(to))) =~= seq![
        (head_rev_of(from), head_rev_of(to)),
        (head_rev_of(from), head_rev_of(to)),
    ]);
}

proof fn lemma_ignore_end(args: Seq<Seq<char>>, i: int, no_commit: bool)
    requires
        0 <= i <= args.len(),
        forall|k: int|
            i <= k < args.len() ==> !has_prefix(#[trigger] args[k], "--"@) && find_of(args[k], ".."@)
                is None,
    ensures
        ignore_end(args, i, no_commit, true) == args.len(),
    decreases args.len() - i,
{
    if i < args.len() {
        lemma_ignore_end(args, i + 1, no_commit);
    }
}

/// Behind `--ignore` stand patterns: all up to the next option or range, the first of which
/// may be no name of a commit. Without one the option is refused.
pub proof fn law_stats_ignore(first: Seq<char>, more: Seq<Seq<char>>)
    requires
        !has_prefix(first, "--"@),
        find_of(first, ".."@) is None,
        !can_name_commit(first),
        forall|k: int|
            0 <= k < more.len() ==> !has_prefix(#[trigger] more[k], "--"@) && find_of(more[k], ".."@)
                is None,
    ensures
        stats_of(seq!["--ignore"@]).error == Some(
            "--ignore requires at least one pattern argument"@,
        ),
        stats_of(seq!["--ignore"@, first] + more) == (StatsView {
            json: false,
            commit: None,
            ranges: Seq::empty(),
            ignore: seq![first] + more,
            error: None,
        }),
{
    reveal_strlit("--json");
    reveal_strlit("--ignore");
    assert("--json"@.len() == 6);
    assert("--ignore"@.len() == 8);
    reveal_with_fuel(stats_scan, 3);
    let alone = seq!["--ignore"@];
    assert(alone[0] == "--ignore"@);
    let args = seq!["--ignore"@, first] + more;
    assert(args[0] == "--ignore"@ && args[1] == first);
    assert forall|k: int| 2 <= k < args.len() implies !has_prefix(#[trigger] args[k], "--"@)
        && find_of(args[k], ".."@) is None by {
        assert(args[k] == more[k - 2]);
    }
    lemma_ignore_end(args, 2, true);
    assert(ignore_end(args, 1, true, false) == args.len());
    assert(Seq::<Seq<char>>::empty() + args.subrange(1, args.len() as int) =~= seq![first] + more);
}

// --------------------------------------------------------------------------- aliases

/// Whether a character stands for itself in an alias outside of quotes.
pub open spec fn is_plain(c: char) -> bool {
    c != '\'' && c != '"' && c != '\\' && !is_space(c)
}

proof fn lemma_plain_word(s: Seq<char>, word: Seq<char>)
    requires
        forall|i: int| 0 <= i < word.len() ==> is_plain(#[trigger] word[i]),
        !alias_scan(s).in_single && !alias_scan(s).in_double && !alias_scan(s).escaped,
    ensures
        alias_scan(s + word) == (AliasScan { current: alias_scan(s).current + word, ..alias_scan(s) }),
    decreases word.len(),
{
    if word.len() == 0 {
        assert(s + word =~= s);
        assert(alias_scan(s).current + word =~= alias_scan(s).current);
    } else {
        let front = word.drop_last();
        assert((s + word).drop_last() =~= s + front);
        assert forall|i: int| 0 <= i < front.len() implies is_plain(#[trigger] front[i]) by {
            assert(front[i] == word[i]);
        }
        lemma_plain_word(s, front);
        assert(is_plain(word[word.len() - 1]));
        assert((alias_scan(s).current + front).push(word.last()) =~= alias_scan(s).current + word);
    }
}

/// The words of an alias are those that blanks part.
pub proof fn law_alias_words(first: Seq<char>, second: Seq<char>)
    requires
        first.len() > 0,
        second.len() > 0,
        first[0] != '!',
        forall|i: int| 0 <= i < first.len() ==> is_plain(#[trigger] first[i]),
        forall|i: int| 0 <= i < second.len() ==> is_plain(#[trigger] second[i]),
    ensures
        alias_tokens_of(first) == Some(seq![first]),
        alias_tokens_of(first + seq![' '] + second) == Some(seq![first, second]),
{
    reveal_strlit("!");
    let none = Seq::<char>::empty();
    lemma_plain_word(none, first);
    assert(none + first =~= first);
    assert(alias_scan(first).current =~= first);
    let gap = first + seq![' '];
    assert(gap.drop_last() =~= first);
    assert(gap.last() == ' ');
    lemma_plain_word(gap, second);
    assert(none + second =~= second);
    let whole = first + seq![' '] + second;
    assert(is_plain(first[0]));
    assert(trim_start_of(first) == first);
    assert(whole[0] == first[0]);
    assert(trim_start_of(whole) == whole);
    assert(!has_prefix(first, "!"@)) by {
        if has_prefix(first, "!"@) {
            assert(first.take(1)[0] == first[0]);
        }
    }
    assert(!has_prefix(whole, "!"@)) by {
        if has_prefix(whole, "!"@) {
            assert(whole.take(1)[0] == whole[0]);
        }
    }
    assert(Seq::<Seq<char>>::empty().push(first) =~= seq![first]);
    assert(Seq::<Seq<char>>::empty().push(first).push(second) =~= seq![first, second]);
}

/// An alias that runs a shell command, and one whose quotes are not closed, are not read.
pub proof fn law_unreadable_aliases(rest: Seq<char>)
    ensures
        alias_tokens_of(seq!['!'] + rest) is None,
        (forall|i: int| 0 <= i < rest.len() ==> rest[i] != '\'') ==> alias_tokens_of(
            seq!['\''] + rest,
        ) is None,
{
    reveal_strlit("!");
    let s = seq!['!'] + rest;
    assert(s[0] == '!');
    assert(trim_start_of(s) == s);
    assert(s.take(1) =~= "!"@);
    let q = seq!['\''] + rest;
    assert(q[0] == '\'');
    assert(trim_start_of(q) == q);
    if forall|i: int| 0 <= i < rest.len() ==> rest[i] != '\'' {
        lemma_open_quote(rest);
    }
}

proof fn lemma_open_quote(t: Seq<char>)
    requires
        forall|i: int| 0 <= i < t.len() ==> t[i] != '\'',
    ensures
        alias_scan(seq!['\''] + t).in_single,
        !alias_scan(seq!['\''] + t).escaped,
    decreases t.len(),
{
    let s = seq!['\''] + t;
    if t.len() == 0 {
        assert(s.drop_last() =~= Seq::empty());
        assert(s.last() == '\'');
        assert(alias_scan(s.drop_last()) == alias_start());
    } else {
        assert(s.drop_last() =~= seq!['\''] + t.drop_last());
        lemma_open_quote(t.drop_last());
        assert(s.last() == t.last());
        assert(t[t.len() - 1] != '\'');
    }
}

/// A command that is an alias is read anew with the alias's words in its place, between the
/// arguments before and behind it; a command without an alias is as it is, and one that was
/// seen before, or whose alias cannot be read, stops the reading.
pub proof fn law_alias_expansion(call: InvocationView, seen: Seq<Seq<char>>, value: Seq<char>)
    ensures
        call.command is None ==> alias_step_of(call, seen, Some(value)) is Done,
        call.command is Some && seen.contains(call.command->0) ==> alias_step_of(
            call,
            seen,
            Some(value),
        ) is Stop,
        call.command is Some && !seen.contains(call.command->0) ==> alias_step_of(call, seen, None)
            is Done,
        call.command is Some && !seen.contains(call.command->0) && alias_tokens_of(value) is None
            ==> alias_step_of(call, seen, Some(value)) is Stop,
        call.command is Some && !seen.contains(call.command->0) ==> (alias_tokens_of(
            value,
        ) matches Some(words) ==> alias_step_of(call, seen, Some(value)) == AliasStepView::Expand(
            call.global_args + words + call.command_args,
        )),
{
}

// ------------------------------------------------------------------------- git itself

/// How a git command is run: as it is while a line is completed; watched in the
/// asynchronous mode unless it only reads or makes a repository; else with hooks in a
/// repository that may be worked on, and with its own hook after a clone.
pub proof fn law_git_plans(f: GitFacts)
    ensures
        f.completion ==> git_plan_of(f) is Passthrough,
        !f.completion && f.async_mode && (f.read_only || opt_view(f.command) == Some("clone"@)
            || opt_view(f.command) == Some("init"@)) ==> git_plan_of(f) is Passthrough,
        !f.completion && f.async_mode && !f.read_only && opt_view(f.command) != Some("clone"@)
            && opt_view(f.command) != Some("init"@) && opt_view(f.command) != Some("push"@)
            ==> git_plan_of(f) == (GitPlan::Observed { push: false }),
        !f.completion && f.async_mode && !f.read_only && opt_view(f.command) == Some("push"@)
            ==> git_plan_of(f) == (GitPlan::Observed { push: true }),
        !f.completion && !f.async_mode && f.is_help ==> git_plan_of(f) is WithoutHooks,
        !f.completion && !f.async_mode && !f.is_help && f.allowed && opt_view(f.command) == Some(
            "clone"@,
        ) ==> git_plan_of(f) is CloneWithHook,
        !f.completion && !f.async_mode && !f.is_help && f.allowed && f.has_repo && opt_view(
            f.command,
        ) != Some("clone"@) ==> git_plan_of(f) is WithHooks,
        !f.completion && !f.async_mode && !f.allowed ==> git_plan_of(f) is WithoutHooks,
        !f.completion && !f.async_mode && !f.has_repo && opt_view(f.command) != Some("clone"@)
            ==> git_plan_of(f) is WithoutHooks,
{
    reveal_strlit("clone");
    reveal_strlit("init");
    reveal_strlit("push");
    assert("clone"@.len() == 5);
    assert("init"@.len() == 4);
    assert("push"@.len() == 4);
    assert("init"@[0] == 'i');
    assert("push"@[0] == 'p');
}

/// The path of the hooks is set by the arguments in each of the ways in which git takes a
/// configuration.
pub proof fn law_hooks_path_settings(args: Seq<Seq<char>>, i: int, path: Seq<char>)
    requires
        0 <= i < args.len(),
    ensures
        args[i] == "-c"@ && i + 1 < args.len() && args[i + 1] == "core.hooksPath="@ + path
            ==> sets_hooks_path(args),
        args[i] == "-ccore.hooksPath="@ + path ==> sets_hooks_path(args),
        args[i] == "--config=core.hooksPath="@ + path ==> sets_hooks_path(args),
{
    assert(("core.hooksPath="@ + path).take("core.hooksPath="@.len() as int) =~= "core.hooksPath="@);
    assert(("-ccore.hooksPath="@ + path).take("-ccore.hooksPath="@.len() as int)
        =~= "-ccore.hooksPath="@);
    assert(("--config=core.hooksPath="@ + path).take("--config=core.hooksPath="@.len() as int)
        =~= "--config=core.hooksPath="@);
    if args[i] == "-c"@ && i + 1 < args.len() && args[i + 1] == "core.hooksPath="@ + path {
        assert(sets_hooks_path_at(args, i));
    }
    if args[i] == "-ccore.hooksPath="@ + path {
        assert(sets_hooks_path_at(args, i));
    }
    if args[i] == "--config=core.hooksPath="@ + path {
        assert(sets_hooks_path_at(args, i));
    }
}

/// The arguments set no path of the hooks where none of them speaks of it.
pub proof fn law_no_hooks_path_setting(args: Seq<Seq<char>>)
    requires
        forall|i: int|
            0 <= i < args.len() ==> !has_prefix(#[trigger] args[i], "core.hooksPath="@)
                && !has_prefix(args[i], "-ccore.hooksPath="@) && !has_prefix(
                args[i],
                "--config=core.hooksPath="@,
            ),
    ensures
        !sets_hooks_path(args),
{
    if sets_hooks_path(args) {
        let i = choose|i: int| 0 <= i < args.len() && #[trigger] sets_hooks_path_at(args, i);
        assert(!has_prefix(args[i], "-ccore.hooksPath="@));
        assert(i + 1 < args.len());
        assert(!has_prefix(args[i + 1], "core.hooksPath="@));
    }
}

/// A child of a command with managed hooks gets the path of the hooks that were there
/// before, or none at all; other commands get no path.
pub proof fn law_child_hooks(command: Option<Seq<char>>, path: Seq<char>, windows: bool)
    ensures
        !uses_managed_hooks(command) ==> child_hooks_of(command, true, Some(path), windows) is None,
        child_hooks_of(command, false, Some(path), windows) is None,
        uses_managed_hooks(command) ==> child_hooks_of(command, true, Some(path), windows) == Some(
            path,
        ),
        uses_managed_hooks(command) ==> child_hooks_of(command, true, None, true) == Some("NUL"@),
        uses_managed_hooks(command) ==> child_hooks_of(command, true, None, false) == Some(
            "/dev/null"@,
        ),
{
}

/// The path of the hooks stands before a child's arguments, unless they set one themselves.
pub proof fn law_child_arguments(args: Seq<Seq<char>>, path: Seq<char>)
    ensures
        child_args_of(args, None) == args,
        sets_hooks_path(args) ==> child_args_of(args, Some(path)) == args,
        !sets_hooks_path(args) ==> child_args_of(args, Some(path)) == seq![
            "-c"@,
            "core.hooksPath="@ + path,
        ] + args,
        sets_hooks_path(child_args_of(args, Some(path))),
{
    let child = seq!["-c"@, "core.hooksPath="@ + path] + args;
    assert(child[0] == "-c"@ && child[1] == "core.hooksPath="@ + path);
    law_hooks_path_settings(child, 0, path);
}

/// The environment of a child: the hooks are left out, the asynchronous mode is not handed
/// on, a command that only reads is not traced unless it is watched, and one that is
/// watched carries the name of its invocation.
pub proof fn law_child_environment(skip: Seq<char>, read_only: bool, id: Seq<char>)
    ensures
        child_env_of(skip, false, None) == seq![
            (skip, Some("1"@)),
            ("GIT_AI_ASYNC_MODE"@, None),
        ],
        child_env_of(skip, true, None) == seq![
            (skip, Some("1"@)),
            ("GIT_AI_ASYNC_MODE"@, None),
            ("GIT_TRACE2_EVENT"@, Some("0"@)),
        ],
        child_env_of(skip, read_only, Some(id)) == seq![
            (skip, Some("1"@)),
            ("GIT_AI_ASYNC_MODE"@, None),
            ("GIT_AI_WRAPPER_INVOCATION_ID"@, Some(id)),
            ("GIT_TRACE2_ENV_VARS"@, Some("GIT_AI_WRAPPER_INVOCATION_ID"@)),
        ],
{
    assert(child_env_of(skip, true, None) =~= seq![
        (skip, Some("1"@)),
        ("GIT_AI_ASYNC_MODE"@, None),
        ("GIT_TRACE2_EVENT"@, Some("0"@)),
    ]);
    assert(child_env_of(skip, read_only, Some(id)) =~= seq![
        (skip, Some("1"@)),
        ("GIT_AI_ASYNC_MODE"@, None),
        ("GIT_AI_WRAPPER_INVOCATION_ID"@, Some(id)),
        ("GIT_TRACE2_ENV_VARS"@, Some("GIT_AI_WRAPPER_INVOCATION_ID"@)),
    ]);
}

/// A note is waited for as long as is configured, where that is a number; else for half a
/// second, and in tests for twenty.
pub proof fn law_note_timeout(configured: Seq<char>, test: bool)
    ensures
        unsigned_of(configured, u64::MAX as nat) matches Some(n) ==> note_timeout_of(
            Some(configured),
            test,
        ) == n,
        unsigned_of(configured, u64::MAX as nat) is None ==> note_timeout_of(Some(configured), test)
            == note_timeout_of(None, test),
        note_timeout_of(None, true) == 20000,
        note_timeout_of(None, false) == 500,
{
}

// ------------------------------------------------------------------------------ push

/// Authorship is not pushed just where nothing is pushed, refs are deleted, or all of them
/// are mirrored.
pub proof fn law_pushes_without_authorship(args: Seq<Seq<char>>)
    ensures
        skips_authorship(args) <==> exists|i: int|
            0 <= i < args.len() && (#[trigger] args[i] == "--dry-run"@ || args[i] == "-d"@ || args[i]
                == "--delete"@ || args[i] == "--mirror"@),
{
    if skips_authorship(args) {
        let word = if args.contains("--dry-run"@) {
            "--dry-run"@
        } else if args.contains("-d"@) {
            "-d"@
        } else if args.contains("--delete"@) {
            "--delete"@
        } else {
            "--mirror"@
        };
        assert(args[args.index_of(word)] == word);
    }
}

/// The options of a push that take the next argument as their value.
pub proof fn law_push_options_with_value(arg: Seq<char>)
    ensures
        takes_next(arg) <==> seq!["--repo"@, "--receive-pack"@, "--exec"@, "-o"@, "--push-option"@, "-c"@, "-C"@].contains(arg),
{
    let names = seq!["--repo"@, "--receive-pack"@, "--exec"@, "-o"@, "--push-option"@, "-c"@, "-C"@];
    assert(names[0] == "--repo"@);
    assert(names[1] == "--receive-pack"@);
    assert(names[2] == "--exec"@);
    assert(names[3] == "-o"@);
    assert(names[4] == "--push-option"@);
    assert(names[5] == "-c"@);
    assert(names[6] == "-C"@);
}

/// The value of an option stands behind its first equals sign, or behind the two characters
/// of an option that takes a configuration or a directory.
pub proof fn law_inline_values(flag: Seq<char>, value: Seq<char>)
    ensures
        !flag.contains('=') ==> inline_value_of(flag + seq!['='] + value) == Some((flag, value)),
        (flag == "-C"@ || flag == "-c"@) && value.len() > 0 && !value.contains('=')
            ==> inline_value_of(flag + value) == Some((flag, value)),
        !flag.contains('=') && !has_prefix(flag, "-C"@) && !has_prefix(flag, "-c"@)
            ==> inline_value_of(flag) is None,
        inline_value_of("-C"@) is None,
        inline_value_of("-c"@) is None,
{
    reveal_strlit("=");
    reveal_strlit("-C");
    reveal_strlit("-c");
    assert("="@ =~= seq!['=']);
    if !flag.contains('=') {
        law_split_once_at(flag, '=', value);
        law_no_split(flag, '=');
    }
    if (flag == "-C"@ || flag == "-c"@) && value.len() > 0 && !value.contains('=') {
        let arg = flag + value;
        assert forall|i: int| 0 <= i < arg.len() implies arg[i] != '=' by {
            if i >= 2 {
                assert(arg[i] == value[i - 2]);
                assert(value.contains(value[i - 2]));
            }
        }
        law_no_split(arg, '=');
        assert(arg.take(2) =~= flag);
        assert(arg.skip(2) =~= value);
    }
    assert(!"-C"@.contains('='));
    assert(!"-c"@.contains('='));
    law_no_split("-C"@, '=');
    law_no_split("-c"@, '=');
}

/// The remote of a push is its first argument that is no option; behind `--` the next one;
/// the value of `--repo`, in either form; without any of them the first known remote that
/// stands among the arguments.
pub proof fn law_named_remote(name: Seq<char>, rest: Seq<Seq<char>>, known: Seq<Seq<char>>)
    ensures
        !has_prefix(name, "-"@) ==> named_remote(seq![name] + rest, known, 0) == Some(name),
        named_remote(seq!["--"@, name] + rest, known, 0) == Some(name),
        named_remote(seq!["--repo"@, name] + rest, known, 0) == Some(name),
        named_remote(seq!["--repo"@ + seq!['='] + name] + rest, known, 0) == Some(name),
        named_remote(seq!["--repo"@], known, 0) is None,
        named_remote(seq!["--"@], known, 0) is None,
{
    reveal_with_fuel(named_remote, 3);
    reveal_strlit("--");
    reveal_strlit("--repo");
    reveal_strlit("-");
    reveal_strlit("-C");
    reveal_strlit("-c");
    assert("--"@.len() == 2);
    assert("--repo"@.len() == 6);
    assert("-"@.len() == 1);
    assert("-C"@.len() == 2);
    assert("-c"@.len() == 2);
    assert("--"@[1] == '-');
    assert("-C"@[1] == 'C');
    assert("-c"@[1] == 'c');
    assert("--repo"@.take(1) =~= "-"@);
    assert("--"@.take(1) =~= "-"@);
    assert(!"--repo"@.contains('='));
    law_inline_values("--repo"@, name);
    assert("--repo"@.take(2)[1] == '-');
    assert(!has_prefix("--repo"@, "-C"@) && !has_prefix("--repo"@, "-c"@)) by {
        assert("-C"@[1] == 'C');
        assert("-c"@[1] == 'c');
    }
    let a = seq![name] + rest;
    assert(a[0] == name);
    if !has_prefix(name, "-"@) && name == "--"@ {
        assert(false);
    }
    let b = seq!["--"@, name] + rest;
    assert(b[0] == "--"@ && b[1] == name);
    let c = seq!["--repo"@, name] + rest;
    assert(c[0] == "--repo"@ && c[1] == name);
    let inline = "--repo"@ + seq!['='] + name;
    let d = seq![inline] + rest;
    assert(d[0] == inline);
    assert(inline.take(1) =~= "-"@);
    assert(inline.len() > 6);
    let e = seq!["--repo"@];
    assert(e[0] == "--repo"@);
    let f = seq!["--"@];
    assert(f[0] == "--"@);
}

/// Options before the remote are passed over, with their values where they take the next
/// argument.
pub proof fn law_options_before_the_remote(
    option: Seq<char>,
    value: Seq<char>,
    name: Seq<char>,
    rest: Seq<Seq<char>>,
    known: Seq<Seq<char>>,
)
    requires
        !has_prefix(name, "-"@),
        has_prefix(option, "-"@),
        option != "--"@,
        inline_value_of(option) is None,
        option != "--repo"@,
    ensures
        takes_next(option) ==> named_remote(seq![option, value, name] + rest, known, 0) == Some(
            name,
        ),
        !takes_next(option) ==> named_remote(seq![option, name] + rest, known, 0) == Some(name),
{
    reveal_with_fuel(named_remote, 3);
    reveal_strlit("--");
    reveal_strlit("-");
    assert("--"@.take(1) =~= "-"@);
    let a = seq![option, value, name] + rest;
    let b = seq![option, name] + rest;
    assert(a[0] == option && a[2] == name && b[0] == option && b[1] == name);
}

/// The first known remote among the arguments is taken where nothing else names one.
pub proof fn law_first_in(list: Seq<Seq<char>>, other: Seq<Seq<char>>, i: int)
    ensures
        0 <= i < list.len() && other.contains(list[i]) && (forall|j: int|
            0 <= j < i ==> !other.contains(#[trigger] list[j])) ==> first_in(list, other, 0) == Some(
            list[i],
        ),
        (forall|j: int| 0 <= j < list.len() ==> !other.contains(#[trigger] list[j])) ==> first_in(
            list,
            other,
            0,
        ) is None,
{
    lemma_first_in(list, other, 0, i);
}

proof fn lemma_first_in(list: Seq<Seq<char>>, other: Seq<Seq<char>>, from: int, i: int)
    requires
        0 <= from,
    ensures
        from <= i < list.len() && other.contains(list[i]) && (forall|j: int|
            from <= j < i ==> !other.contains(#[trigger] list[j])) ==> first_in(list, other, from)
            == Some(list[i]),
        (forall|j: int| from <= j < list.len() ==> !other.contains(#[trigger] list[j])) ==> first_in(
            list,
            other,
            from,
        ) is None,
    decreases list.len() - from,
{
    if from < list.len() {
        lemma_first_in(list, other, from + 1, i);
    }
}

/// A branch of the remote is named in a line with its commit, a tab and its full name; the
/// last line of a branch stands.
pub proof fn law_remote_heads(
    lines: Seq<Seq<char>>,
    sha: Seq<char>,
    branch: Seq<char>,
    other: Seq<char>,
)
    requires
        sha.len() > 0,
        !sha.contains('\t'),
        !is_space(sha[0]),
        !is_space(sha.last()),
        branch.len() > 0,
        !is_space(branch.last()),
    ensures
        heads_of_lines(Seq::empty()) == Map::<Seq<char>, Seq<char>>::empty(),
        heads_of_lines(lines.push(sha + seq!['\t'] + "refs/heads/"@ + branch)) == heads_of_lines(
            lines,
        ).insert(branch, sha),
        head_line_of(other) is None ==> heads_of_lines(lines.push(other)) == heads_of_lines(lines),
{
    let reference = "refs/heads/"@ + branch;
    let line = sha + seq!['\t'] + "refs/heads/"@ + branch;
    reveal_strlit("\t");
    reveal_strlit("\r");
    reveal_strlit("refs/heads/");
    assert("\t"@ =~= seq!['\t']);
    assert(line =~= sha + seq!['\t'] + reference);
    assert(!has_suffix(line, "\r"@)) by {
        if has_suffix(line, "\r"@) {
            assert(line.skip(line.len() - 1)[0] == line.last());
            assert(line.last() == branch.last());
            assert("\r"@[0] == '\r');
        }
    }
    assert(trim_end_text_of(line, "\r"@) == line);
    law_split_once_at(sha, '\t', reference);
    let none = Seq::<char>::empty();
    law_trimming(none, sha, none);
    assert(none + sha + none =~= sha);
    assert(reference[0] == 'r');
    assert(reference.last() == branch.last());
    law_trimming(none, reference, none);
    assert(none + reference + none =~= reference);
    assert(reference.take("refs/heads/"@.len() as int) =~= "refs/heads/"@);
    assert(reference.skip("refs/heads/"@.len() as int) =~= branch);
    assert(lines.push(line).drop_last() =~= lines);
    assert(lines.push(other).drop_last() =~= lines);
}

} // verus!
