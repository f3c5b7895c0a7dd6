//! What is said where something is missing, wrong or not found, and how small pieces of
//! text are read and written.
use vstd::prelude::*;
use vstd::utf8::{decode_utf8, valid_utf8};

use crate::agents::AgentNamesView;
use crate::commands::checkpoint_args::{CourseView, absolutes_of, course_of, found_by_files};
use crate::commands::checkpoint_dispatch::CHECKPOINT_EXIT_CODE;
use crate::commands::git_ai_handlers::{
    StatsView, machine_error_of, stats_scan, transcript_agents_listed,
};
use crate::commands::git_handlers::{CONTROL_C_EXIT, SIGINT};
use crate::commands::hooks::push_hooks::{head_line_of, inline_value_of};
use crate::commands::prompt_replay::{
    ToolCallView, arguments_of, arguments_text, is_tool_call, pointer_key_of, tool_call_of,
    tool_call_text,
};
use crate::commands::prompts_db::{
    FETCH_CHUNK, default_columns, object_size_of, since_of, tsv_escaped,
};
use crate::commands::report_token_usage::{MAX_TOOL_RESULT_LEN, transcript_of};
use crate::commands::search::no_mode_message;
use crate::commands::search_args::{
    SearchArgsView, absolute_time, after_flag, cut_end, date_shaped, date_time, days_to_date,
    format_named, line_range_of, time_ago, time_of, two_formats_message,
};
use crate::commands::tracker::diff::MAX_DIFF_SIZE;
use crate::commands::tracker::retry::MAX_RETRIES;
use crate::commands::tracker::upload::API_PATH;
use crate::commands::uninstall::{
    StepView, UninstallOptions, data_paths_of, first_steps_of, home_steps_of, removes_everything,
    uninstall_steps_of,
};
use crate::config::{Config, ConfigEnv, FileConfig, attributes_of, follows};
use crate::daemon::ref_cursor::{RefLogs, head_key_of};
use crate::json::{json_keys_of, json_kind_of, json_quoted_of};
use crate::json_members::{
    field_count, field_in, field_text, fields_of, is_record, once_in, value_or_missing,
};
use crate::paths::joined;
use crate::text::{
    decimal_of, find_of, has_prefix, has_suffix, signed_decimal_of, signed_of, split_once_of,
    trimmed, unsigned_of, words_of,
};
use crate::text_laws::{law_no_split, law_split_once_at};
use crate::text_map::text_values;


verus! {

// --------------------------------------------------------------------------- checkpoints and requests

/// A checkpoint in a repository that is not worked on, or outside of one without files, is
/// not taken, and why is said.
pub proof fn law_checkpoints_that_stop(found: bool, allowed: bool, files: Option<Seq<Seq<char>>>, inside: Seq<bool>, base: Seq<char>)
    ensures
        course_of(true, false, files, inside, base) == CourseView::Stop("Skipping checkpoint because repository is excluded or not in allow_repositories list"@),
        (!found || allowed) && found_by_files(found, inside) && (files is None || files->0.len() == 0) ==> course_of(found, allowed, files, inside, base) == CourseView::Stop("Failed to find repository: workspace root is not a git repository and no edited files provided"@),
        (!found || allowed) && found_by_files(found, inside) && files is Some && files->0.len() > 0 ==> course_of(found, allowed, files, inside, base) == CourseView::Repositories(absolutes_of(files->0, base)),
        (!found || allowed) && !found_by_files(found, inside) ==> course_of(found, allowed, files, inside, base) is Here,
{
}

/// An error for programs is an object with its text.
pub proof fn law_errors_for_programs(message: Seq<char>)
    ensures
        machine_error_of(message) == "{\"error\":"@ + json_quoted_of(message) + "}"@,
{
}

/// The agents whose transcripts can be shown.
pub proof fn law_agents_with_transcripts(names: AgentNamesView)
    ensures
        transcript_agents_listed(names) == names.name + ", codex, gemini, continue-cli, github-copilot, cursor, amp, windsurf"@,
{
}

/// A range with more than one pair of dots is refused.
pub proof fn law_bad_ranges(args: Seq<Seq<char>>, i: int, st: StatsView)
    requires
        0 <= i < args.len(),
        args[i] != "--json"@,
        args[i] != "--ignore"@,
    ensures
        st.commit is Some ==> stats_scan(args, i, st) == (StatsView { error: Some("Unknown stats argument: "@ + args[i]), ..st }),
        st.commit is None ==> (split_once_of(args[i], ".."@) matches Some(ends) ==> find_of(ends.1, ".."@) is Some ==> stats_scan(args, i, st) == (StatsView { error: Some("Invalid commit range format. Expected: <commit>..<commit>"@), ..st })),
{
}

/// A line of a remote's heads: the commit, a tab, and the branch. An end of line of another
/// system is taken off.
pub proof fn law_line_of_a_head(sha: Seq<char>, reference: Seq<char>, branch: Seq<char>)
    requires
        !sha.contains('\t'),
        !has_suffix(sha + seq!['\t'] + reference, "\r"@),
    ensures
        trimmed(reference) == "refs/heads/"@ + branch ==> head_line_of(sha + seq!['\t'] + reference) == Some((branch, trimmed(sha))),
        !has_prefix(trimmed(reference), "refs/heads/"@) ==> head_line_of(sha + seq!['\t'] + reference) is None,
        head_line_of(sha + seq!['\t'] + reference + "\r"@) == head_line_of(sha + seq!['\t'] + reference),
{
    reveal_strlit("\t");
    reveal_strlit("\r");
    assert("\t"@ =~= seq!['\t']);
    let line = sha + seq!['\t'] + reference;
    law_split_once_at(sha, '\t', reference);
    let p = "refs/heads/"@;
    assert((p + branch).take(p.len() as int) =~= p);
    assert((p + branch).skip(p.len() as int) =~= branch);
    let ended = line + "\r"@;
    assert(ended.skip(ended.len() - 1) =~= "\r"@);
    assert(ended.take(ended.len() - 1) =~= line);
}

/// An option holds its value behind an equals sign; two short options hold it right behind
/// their letter.
pub proof fn law_values_in_options(name: Seq<char>, value: Seq<char>)
    ensures
        !name.contains('=') ==> inline_value_of(name + seq!['='] + value) == Some((name, value)),
        !name.contains('=') && !has_prefix(name, "-C"@) && !has_prefix(name, "-c"@) ==> inline_value_of(name) is None,
        value.len() > 0 && !value.contains('=') ==> inline_value_of("-C"@ + value) == Some(("-C"@, value)) && inline_value_of("-c"@ + value) == Some(("-c"@, value)),
{
    reveal_strlit("=");
    assert("="@ =~= seq!['=']);
    if !name.contains('=') {
        law_split_once_at(name, '=', value);
        law_no_split(name, '=');
    }
    if value.len() > 0 && !value.contains('=') {
        reveal_strlit("-C");
        reveal_strlit("-c");
        let a = "-C"@ + value;
        let b = "-c"@ + value;
        assert(a.take(2) =~= "-C"@ && a.skip(2) =~= value);
        assert(b.take(2) =~= "-c"@ && b.skip(2) =~= value);
        assert forall|i: int| 0 <= i < a.len() implies a[i] != '=' && b[i] != '=' by {
            if i >= 2 {
                assert(a[i] == value[i - 2] && b[i] == value[i - 2]);
                assert(value.contains(value[i - 2]));
            } else {
                assert("-C"@[0] == '-' && "-C"@[1] == 'C' && "-c"@[0] == '-' && "-c"@[1] == 'c');
            }
        }
        law_no_split(a, '=');
        law_no_split(b, '=');
    }
}

// --------------------------------------------------------------------------- transcripts

/// A call is read from its fields: its place, its name and its arguments.
pub proof fn law_calls_of_tools(text: Seq<char>)
    ensures
        !is_tool_call(text) ==> tool_call_of(text) is None,
        is_tool_call(text) ==> (tool_call_of(text) matches Some(c) && ({
            let f = fields_of(text);
            let arguments = "["@ + ("["@ + field_in(f, "arguments"@, 2)->0 + "]"@) + "]"@;
            &&& c.order == field_count(field_in(f, "order"@, 0)) as i32
            &&& Some(c.name) == field_text(field_in(f, "name"@, 1))
            &&& json_keys_of(arguments, "/0/0"@) is None ==> c.arguments.len() == 0
            &&& json_keys_of(arguments, "/0/0"@) matches Some(keys) ==> c.arguments == arguments_of(arguments, "/0/0"@, keys)
        })),
        is_tool_call(text) ==> is_record(text, 5, 5) && once_in(fields_of(text), "order"@) && once_in(fields_of(text), "name"@) && once_in(fields_of(text), "arguments"@) && once_in(fields_of(text), "id"@) && once_in(fields_of(text), "result"@),
{
}

/// A call is written under a title with its place and its name.
pub proof fn law_written_call(call: ToolCallView)
    ensures
        tool_call_text(call) == "\n### "@ + signed_decimal_of(call.order as int) + " "@ + call.name + "\n"@ + arguments_text(call.arguments),
{
}

/// In a pointer a tilde and a slash of a key are written otherwise.
pub proof fn law_keys_in_pointers(key: Seq<char>, c: char)
    ensures
        pointer_key_of(Seq::empty()).len() == 0,
        pointer_key_of(key.push('~')) == pointer_key_of(key) + "~0"@,
        pointer_key_of(key.push('/')) == pointer_key_of(key) + "~1"@,
        c != '~' && c != '/' ==> pointer_key_of(key.push(c)) == pointer_key_of(key).push(c),
{
    assert(key.push('~').drop_last() =~= key);
    assert(key.push('/').drop_last() =~= key);
    assert(key.push(c).drop_last() =~= key);
}

/// The transcript that a hook names: the record must hold these fields, each once.
pub proof fn law_transcript_of_a_hook(text: Seq<char>)
    ensures
        ({
            let f = fields_of(text);
            let event = field_in(f, "hook_event_name"@, 3);
            let read = is_record(text, 3, 4) && once_in(f, "session_id"@) && once_in(f, "transcript_path"@) && once_in(f, "cwd"@) && once_in(f, "hook_event_name"@)
                && field_text(field_in(f, "session_id"@, 0)) is Some && field_text(field_in(f, "cwd"@, 2)) is Some && (event is None || field_text(event) is Some);
            transcript_of(text) == (if read { field_text(field_in(f, "transcript_path"@, 1)) } else { None })
        }),
        value_or_missing(None),
        value_or_missing(Some(text)) <==> json_kind_of("["@ + text + "]"@, "/0"@) is Some,
{
}

// --------------------------------------------------------------------------- prompts

/// The columns of a list where none are named.
pub proof fn law_usual_columns()
    ensures
        default_columns() == "seq_id, tool, model, human_author, commit_sha, total_additions, total_deletions, accepted_lines, overridden_lines, accepted_rate, (last_time - start_time) AS duration"@,
{
}

/// The size of an object is the third word of its head; a missing object has none.
pub proof fn law_size_of_an_object(header: Seq<u8>)
    ensures
        !valid_utf8(header) ==> object_size_of(header) is None,
        valid_utf8(header) && words_of(decode_utf8(header)).len() < 3 ==> object_size_of(header) is None,
        valid_utf8(header) && words_of(decode_utf8(header)).len() >= 3 && words_of(decode_utf8(header))[1] == "missing"@ ==> object_size_of(header) is None,
        valid_utf8(header) && words_of(decode_utf8(header)).len() >= 3 && words_of(decode_utf8(header))[1] != "missing"@ ==> object_size_of(header) == unsigned_of(words_of(decode_utf8(header))[2], usize::MAX as nat),
{
}

/// What is said of a number of days that is none.
pub proof fn law_bad_days(now: i64, days: Seq<char>)
    requires
        unsigned_of(days, u64::MAX as nat) is None,
    ensures
        since_of(now, days) == Err::<i64, Seq<char>>("Invalid --since value: '"@ + days + "'. Expected number of days (e.g., 30)"@),
{
}

/// In a table a tab and a line break of a value are written with a backslash.
pub proof fn law_values_of_a_table(s: Seq<char>, c: char)
    ensures
        tsv_escaped(Seq::empty()).len() == 0,
        tsv_escaped(s.push('\t')) == tsv_escaped(s) + "\\t"@,
        tsv_escaped(s.push('\n')) == tsv_escaped(s) + "\\n"@,
        c != '\t' && c != '\n' ==> tsv_escaped(s.push(c)) == tsv_escaped(s).push(c),
{
    assert(s.push('\t').drop_last() =~= s);
    assert(s.push('\n').drop_last() =~= s);
    assert(s.push(c).drop_last() =~= s);
}

// --------------------------------------------------------------------------- searches

/// What is said of a search for nothing, and of one with two forms.
pub proof fn law_searches_that_are_refused(st: SearchArgsView, a: Seq<char>)
    ensures
        no_mode_message() == "Error: No search mode specified. Use --commit, --file, --pattern, or --prompt-id."@,
        two_formats_message() == "Only one output format can be specified. Use one of: --json, --verbose, --porcelain, --count"@,
        a != "--help"@ && a != "-h"@ && format_named(a) is Some && st.format_set ==> after_flag(st, a) == Err::<SearchArgsView, Seq<char>>("Only one output format can be specified. Use one of: --json, --verbose, --porcelain, --count"@),
        a != "--help"@ && a != "-h"@ && format_named(a) is None ==> after_flag(st, a) == Err::<SearchArgsView, Seq<char>>("Unknown argument: "@ + a),
{
}

/// What is said of lines that cannot be read: which number is none, or that they end before
/// they start.
pub proof fn law_bad_lines(a: Seq<char>, b: Seq<char>)
    requires
        !a.contains('-'),
    ensures
        ({
            let r = line_range_of(a + seq!['-'] + b);
            let m = unsigned_of(a, u32::MAX as nat);
            let n = unsigned_of(b, u32::MAX as nat);
            &&& m is None ==> r == Err::<(nat, nat), Seq<char>>("Invalid line number: "@ + a)
            &&& m is Some && n is None ==> r == Err::<(nat, nat), Seq<char>>("Invalid line number: "@ + b)
            &&& m is Some && n is Some && m->0 > n->0 ==> r == Err::<(nat, nat), Seq<char>>("Invalid line range: start ("@ + decimal_of(m->0) + ") > end ("@ + decimal_of(n->0) + ")"@)
        }),
        unsigned_of(a, u32::MAX as nat) is None ==> line_range_of(a) == Err::<(nat, nat), Seq<char>>("Invalid line number: "@ + a),
{
    reveal_strlit("-");
    assert("-"@ =~= seq!['-']);
    law_split_once_at(a, '-', b);
    law_no_split(a, '-');
}

/// A time is so many days, hours, weeks or minutes ago; what is no number of them is said.
pub proof fn law_times_ago(now: i64, n: Seq<char>)
    ensures
        signed_of(n) matches Some(k) ==> time_of(now, n + "d"@) == Ok::<int, Seq<char>>(time_ago(now, k, 86400)),
        signed_of(n) matches Some(k) ==> time_of(now, n + "h"@) == Ok::<int, Seq<char>>(time_ago(now, k, 3600)),
        signed_of(n) matches Some(k) ==> time_of(now, n + "w"@) == Ok::<int, Seq<char>>(time_ago(now, k, 604800)),
        signed_of(n) matches Some(k) ==> time_of(now, n + "m"@) == Ok::<int, Seq<char>>(time_ago(now, k, 60)),
        signed_of(n) is None ==> time_of(now, n + "d"@) == Err::<int, Seq<char>>("Invalid "@ + "day"@ + " count: "@ + n),
        signed_of(n) is None ==> time_of(now, n + "h"@) == Err::<int, Seq<char>>("Invalid "@ + "hour"@ + " count: "@ + n),
        signed_of(n) is None ==> time_of(now, n + "w"@) == Err::<int, Seq<char>>("Invalid "@ + "week"@ + " count: "@ + n),
        signed_of(n) is None ==> time_of(now, n + "m"@) == Err::<int, Seq<char>>("Invalid "@ + "minute"@ + " count: "@ + n),
{
    reveal_strlit("d");
    reveal_strlit("h");
    reveal_strlit("w");
    reveal_strlit("m");
    assert("d"@.len() == 1 && "d"@[0] == 'd');
    assert("h"@.len() == 1 && "h"@[0] == 'h');
    assert("w"@.len() == 1 && "w"@[0] == 'w');
    assert("m"@.len() == 1 && "m"@[0] == 'm');
    lemma_unit(n, "d"@);
    lemma_unit(n, "h"@);
    lemma_unit(n, "w"@);
    lemma_unit(n, "m"@);
}

proof fn lemma_unit(n: Seq<char>, u: Seq<char>)
    requires
        u.len() == 1,
    ensures
        cut_end(n + u, 1) == n,
        forall|v: Seq<char>| v.len() == 1 ==> (#[trigger] has_suffix(n + u, v) <==> v[0] == u[0]),
{
    let s = n + u;
    assert(s.take(s.len() - 1) =~= n);
    assert forall|v: Seq<char>| v.len() == 1 implies (#[trigger] has_suffix(s, v) <==> v[0] == u[0]) by {
        assert(s.skip(s.len() - 1) =~= u);
        if v[0] == u[0] {
            assert(v =~= u);
        }
    }
}

/// A time that is not relative is a number or a date; what is neither is said, and so is
/// the part of a date that is wrong.
pub proof fn law_absolute_times(s: Seq<char>)
    ensures
        signed_of(s) matches Some(n) ==> absolute_time(s) == Ok::<int, Seq<char>>(n),
        signed_of(s) is None && date_shaped(s) ==> absolute_time(s) == date_time(s),
        signed_of(s) is None && !date_shaped(s) ==> absolute_time(s) == Err::<int, Seq<char>>("Invalid time format: "@ + s + ". Use relative (7d, 2h, 1w) or YYYY-MM-DD or Unix timestamp."@),
        ({
            let year = signed_of(s.take(4));
            let month = unsigned_of(s.subrange(5, 7), u32::MAX as nat);
            let day = unsigned_of(s.skip(8), u32::MAX as nat);
            &&& year is None ==> date_time(s) == Err::<int, Seq<char>>("Invalid year in date: "@ + s)
            &&& year is Some && i32::MIN <= year->0 <= i32::MAX && month is None ==> date_time(s) == Err::<int, Seq<char>>("Invalid month in date: "@ + s)
            &&& year is Some && i32::MIN <= year->0 <= i32::MAX && month is Some && day is None ==> date_time(s) == Err::<int, Seq<char>>("Invalid day in date: "@ + s)
            &&& year is Some && i32::MIN <= year->0 <= i32::MAX && month is Some && day is Some ==> (match days_to_date(year->0, month->0 as int, day->0 as int) {
                Some(days) => date_time(s) == Ok::<int, Seq<char>>(days * 86400),
                None => date_time(s) == Err::<int, Seq<char>>("Invalid date: "@ + s),
            })
        }),
{
}

// --------------------------------------------------------------------------- other places

/// What is removed of the application's data: all of it, or what is of use to it alone.
pub proof fn law_data_that_is_removed(o: UninstallOptions, home: Seq<char>)
    ensures
        removes_everything(o) ==> data_paths_of(o, home) == seq![joined(home, ".easylife-ai"@)],
        !removes_everything(o) ==> data_paths_of(o, home) == seq![
            joined(joined(home, ".easylife-ai"@), "internal"@),
            joined(joined(home, ".easylife-ai"@), "tmp"@),
            joined(joined(home, ".easylife-ai"@), "skills"@),
        ],
{
}

/// Without a home directory the end of the application fails behind its first steps.
pub proof fn law_no_home_directory(o: UninstallOptions, program: Option<Seq<char>>, home: Seq<char>, windows: bool)
    ensures
        uninstall_steps_of(o, None, program, windows) == first_steps_of(o, program) + seq![StepView::Fail("Could not determine application directory"@)],
        uninstall_steps_of(o, Some(home), program, windows) == first_steps_of(o, program) + home_steps_of(o, home, windows),
{
}

/// The attributes of the environment are read from their variable.
pub proof fn law_attributes_of_the_environment(c: Config, f: FileConfig, env: ConfigEnv, git_path: Seq<char>)
    requires
        follows(c, f, env, git_path),
        f.custom_attributes is None,
    ensures
        ({
            let vars = text_values(env.vars@);
            let name = "GIT_AI_CUSTOM_ATTRIBUTES"@;
            &&& vars.dom().contains(name) ==> text_values(c.custom_attributes@) == attributes_of(Map::empty(), Some(vars[name]))
            &&& !vars.dom().contains(name) ==> text_values(c.custom_attributes@) == Map::<Seq<char>, Seq<char>>::empty()
        }),
{
}

/// The reflog of `HEAD` is told for each worktree by itself: by the path of its git
/// directory, with links resolved where that is known.
pub proof fn law_key_of_head(logs: RefLogs, git_dir: Seq<char>)
    ensures
        logs.canonical@.dom().contains(git_dir) ==> head_key_of(logs, git_dir) == "worktree:"@ + logs.canonical@[git_dir]@ + ":HEAD"@,
        !logs.canonical@.dom().contains(git_dir) ==> head_key_of(logs, git_dir) == "worktree:"@ + git_dir + ":HEAD"@,
{
}

/// The bounds and codes that others rely on: changes are cut behind a hundred kibibytes,
/// results of tools behind five thousand characters, prompts are asked for by the hundred,
/// a commit is tried three times, and a checkpoint never fails the command that it is for.
pub proof fn law_bounds_and_codes()
    ensures
        MAX_DIFF_SIZE == 100 * 1024,
        MAX_TOOL_RESULT_LEN == 5_000,
        FETCH_CHUNK == 100,
        MAX_RETRIES == 3,
        CHECKPOINT_EXIT_CODE == 0,
        SIGINT == 2,
        CONTROL_C_EXIT == 0xC000013A,
        API_PATH@ == "/ai-code-boost/open/report/stats"@,
{
}

} // verus!
