//! What holds of the arguments of `git-ai search`.

use crate::commands::search_args::{
    FiltersView, ModeView, OutputFormat, SearchArgsView, after_value, date_time, days_to_date,
    leap_year, line_range_of, month_days, no_filters, search_args_of, search_scan, search_start,
    takes_value, time_of, two_formats_message,
};
use crate::text::{
    decimal_of, find_of, is_digit, law_decimal_reads_back, signed_of, split_once_of, unsigned_of,
};
use crate::text_laws::{law_no_split, law_split_once_at};
use vstd::prelude::*;
use vstd::string::*;

verus! {

/// The options of a search that take a value.
pub proof fn law_search_options(a: Seq<char>)
    ensures
        takes_value(a) <==> seq!["--commit"@, "--file"@, "--lines"@, "--pattern"@, "--prompt-id"@, "--tool"@, "--author"@, "--since"@, "--until"@, "--workdir"@].contains(a),
{
    let names = seq!["--commit"@, "--file"@, "--lines"@, "--pattern"@, "--prompt-id"@, "--tool"@, "--author"@, "--since"@, "--until"@, "--workdir"@];
    assert(names[0] == "--commit"@);
    assert(names[1] == "--file"@);
    assert(names[2] == "--lines"@);
    assert(names[3] == "--pattern"@);
    assert(names[4] == "--prompt-id"@);
    assert(names[5] == "--tool"@);
    assert(names[6] == "--author"@);
    assert(names[7] == "--since"@);
    assert(names[8] == "--until"@);
    assert(names[9] == "--workdir"@);
}

/// What is asked for once the arguments have been read.
spec fn finished(st: SearchArgsView) -> Result<SearchArgsView, Seq<char>> {
    if st.pending.len() > 0 {
        Err("--lines requires --file to be specified"@)
    } else {
        Ok(st)
    }
}

proof fn lemma_one_option(now: i64, a: Seq<char>, v: Seq<char>)
    requires
        takes_value(a),
    ensures
        search_args_of(now, seq![a, v]) == (match after_value(now, search_start(), a, v) {
            Ok(next) => finished(next),
            Err(e) => Err(e),
        }),
{
    reveal_with_fuel(search_scan, 2);
    let args = seq![a, v];
    assert(args[0] == a && args[1] == v);
}

proof fn lemma_two_options(now: i64, a: Seq<char>, v: Seq<char>, b: Seq<char>, w: Seq<char>)
    requires
        takes_value(a),
        takes_value(b),
    ensures
        search_args_of(now, seq![a, v, b, w]) == (match after_value(now, search_start(), a, v) {
            Ok(next) => match after_value(now, next, b, w) {
                Ok(last) => finished(last),
                Err(e) => Err(e),
            },
            Err(e) => Err(e),
        }),
{
    reveal_with_fuel(search_scan, 3);
    let args = seq![a, v, b, w];
    assert(args[0] == a && args[1] == v && args[2] == b && args[3] == w);
}

/// Each way of searching is asked for by its own option, whatever the value.
pub proof fn law_search_modes(now: i64, value: Seq<char>, from: Seq<char>, to: Seq<char>)
    ensures
        search_args_of(now, Seq::empty()) == Ok::<SearchArgsView, Seq<char>>(search_start()),
        search_args_of(now, seq!["--pattern"@, value]) == Ok::<SearchArgsView, Seq<char>>(SearchArgsView { mode: Some(ModeView::Pattern(value)), ..search_start() }),
        search_args_of(now, seq!["--prompt-id"@, value]) == Ok::<SearchArgsView, Seq<char>>(SearchArgsView { mode: Some(ModeView::PromptId(value)), ..search_start() }),
        search_args_of(now, seq!["--file"@, value]) == Ok::<SearchArgsView, Seq<char>>(SearchArgsView { mode: Some(ModeView::File(value, seq![])), ..search_start() }),
        find_of(value, ".."@) is None ==> search_args_of(now, seq!["--commit"@, value]) == Ok::<SearchArgsView, Seq<char>>(SearchArgsView { mode: Some(ModeView::Commit(value)), ..search_start() }),
        split_once_of(value, ".."@) == Some((from, to)) ==> search_args_of(now, seq!["--commit"@, value]) == Ok::<SearchArgsView, Seq<char>>(SearchArgsView { mode: Some(ModeView::CommitRange(from, to)), ..search_start() }),
{
    assert(search_args_of(now, Seq::empty()) == finished(search_start()));
    reveal_strlit("--commit");
    reveal_strlit("--file");
    reveal_strlit("--lines");
    reveal_strlit("--pattern");
    reveal_strlit("--prompt-id");
    reveal_strlit("--tool");
    reveal_strlit("--author");
    reveal_strlit("--since");
    reveal_strlit("--until");
    reveal_strlit("--workdir");
    assert("--commit"@.len() == 8);
    assert("--file"@.len() == 6);
    assert("--lines"@.len() == 7);
    assert("--pattern"@.len() == 9);
    assert("--prompt-id"@.len() == 11);
    assert("--tool"@.len() == 6);
    assert("--author"@.len() == 8);
    assert("--since"@.len() == 7);
    assert("--until"@.len() == 7);
    assert("--workdir"@.len() == 9);
    assert("--commit"@[2] == 'c');
    assert("--file"@[2] == 'f');
    assert("--lines"@[2] == 'l');
    assert("--pattern"@[2] == 'p');
    assert("--tool"@[2] == 't');
    assert("--author"@[2] == 'a');
    assert("--since"@[2] == 's');
    assert("--until"@[2] == 'u');
    assert("--workdir"@[2] == 'w');
    lemma_one_option(now, "--pattern"@, value);
    lemma_one_option(now, "--prompt-id"@, value);
    lemma_one_option(now, "--file"@, value);
    lemma_one_option(now, "--commit"@, value);
}

/// Each filter is set by its own option, and by no other; filters in any order are the
/// same filters.
pub proof fn law_search_filters(now: i64, tool: Seq<char>, author: Seq<char>, dir: Seq<char>, time: Seq<char>)
    ensures
        search_args_of(now, seq!["--tool"@, tool]) == Ok::<SearchArgsView, Seq<char>>(SearchArgsView { filters: FiltersView { tool: Some(tool), ..no_filters() }, ..search_start() }),
        search_args_of(now, seq!["--author"@, author]) == Ok::<SearchArgsView, Seq<char>>(SearchArgsView { filters: FiltersView { author: Some(author), ..no_filters() }, ..search_start() }),
        search_args_of(now, seq!["--workdir"@, dir]) == Ok::<SearchArgsView, Seq<char>>(SearchArgsView { filters: FiltersView { workdir: Some(dir), ..no_filters() }, ..search_start() }),
        search_args_of(now, seq!["--tool"@, tool, "--author"@, author]) == Ok::<SearchArgsView, Seq<char>>(SearchArgsView { filters: FiltersView { tool: Some(tool), author: Some(author), ..no_filters() }, ..search_start() }),
        search_args_of(now, seq!["--author"@, author, "--tool"@, tool]) == search_args_of(now, seq!["--tool"@, tool, "--author"@, author]),
        time_of(now, time) matches Ok(t) ==> search_args_of(now, seq!["--since"@, time]) == Ok::<SearchArgsView, Seq<char>>(SearchArgsView { filters: FiltersView { since: Some(t as i64), ..no_filters() }, ..search_start() }),
        time_of(now, time) matches Ok(t) ==> search_args_of(now, seq!["--until"@, time]) == Ok::<SearchArgsView, Seq<char>>(SearchArgsView { filters: FiltersView { until: Some(t as i64), ..no_filters() }, ..search_start() }),
        time_of(now, time) matches Err(e) ==> search_args_of(now, seq!["--since"@, time]) == Err::<SearchArgsView, Seq<char>>(e) && search_args_of(now, seq!["--until"@, time]) == Err::<SearchArgsView, Seq<char>>(e),
{
    reveal_strlit("--commit");
    reveal_strlit("--file");
    reveal_strlit("--lines");
    reveal_strlit("--pattern");
    reveal_strlit("--prompt-id");
    reveal_strlit("--tool");
    reveal_strlit("--author");
    reveal_strlit("--since");
    reveal_strlit("--until");
    reveal_strlit("--workdir");
    assert("--commit"@.len() == 8);
    assert("--file"@.len() == 6);
    assert("--lines"@.len() == 7);
    assert("--pattern"@.len() == 9);
    assert("--prompt-id"@.len() == 11);
    assert("--tool"@.len() == 6);
    assert("--author"@.len() == 8);
    assert("--since"@.len() == 7);
    assert("--until"@.len() == 7);
    assert("--workdir"@.len() == 9);
    assert("--commit"@[2] == 'c');
    assert("--file"@[2] == 'f');
    assert("--lines"@[2] == 'l');
    assert("--pattern"@[2] == 'p');
    assert("--tool"@[2] == 't');
    assert("--author"@[2] == 'a');
    assert("--since"@[2] == 's');
    assert("--until"@[2] == 'u');
    assert("--workdir"@[2] == 'w');
    lemma_one_option(now, "--tool"@, tool);
    lemma_one_option(now, "--author"@, author);
    lemma_one_option(now, "--workdir"@, dir);
    lemma_one_option(now, "--since"@, time);
    lemma_one_option(now, "--until"@, time);
    lemma_two_options(now, "--tool"@, tool, "--author"@, author);
    lemma_two_options(now, "--author"@, author, "--tool"@, tool);
}

/// The lines of a file, before or behind it, are those of the file; without a file they are
/// refused.
pub proof fn law_search_lines(now: i64, path: Seq<char>, lines: Seq<char>)
    ensures
        line_range_of(lines) matches Ok((x, y)) ==> search_args_of(now, seq!["--file"@, path, "--lines"@, lines]) == Ok::<SearchArgsView, Seq<char>>(SearchArgsView { mode: Some(ModeView::File(path, seq![(x as u32, y as u32)])), ..search_start() }),
        search_args_of(now, seq!["--lines"@, lines, "--file"@, path]) == search_args_of(now, seq!["--file"@, path, "--lines"@, lines]),
        line_range_of(lines) is Ok ==> search_args_of(now, seq!["--lines"@, lines]) == Err::<SearchArgsView, Seq<char>>("--lines requires --file to be specified"@),
        line_range_of(lines) matches Err(e) ==> search_args_of(now, seq!["--lines"@, lines]) == Err::<SearchArgsView, Seq<char>>(e),
{
    reveal_strlit("--commit");
    reveal_strlit("--file");
    reveal_strlit("--lines");
    reveal_strlit("--pattern");
    reveal_strlit("--prompt-id");
    reveal_strlit("--tool");
    reveal_strlit("--author");
    reveal_strlit("--since");
    reveal_strlit("--until");
    reveal_strlit("--workdir");
    assert("--commit"@.len() == 8);
    assert("--file"@.len() == 6);
    assert("--lines"@.len() == 7);
    assert("--pattern"@.len() == 9);
    assert("--prompt-id"@.len() == 11);
    assert("--tool"@.len() == 6);
    assert("--author"@.len() == 8);
    assert("--since"@.len() == 7);
    assert("--until"@.len() == 7);
    assert("--workdir"@.len() == 9);
    assert("--commit"@[2] == 'c');
    assert("--file"@[2] == 'f');
    assert("--lines"@[2] == 'l');
    assert("--pattern"@[2] == 'p');
    assert("--tool"@[2] == 't');
    assert("--author"@[2] == 'a');
    assert("--since"@[2] == 's');
    assert("--until"@[2] == 'u');
    assert("--workdir"@[2] == 'w');
    lemma_two_options(now, "--file"@, path, "--lines"@, lines);
    lemma_two_options(now, "--lines"@, lines, "--file"@, path);
    lemma_one_option(now, "--lines"@, lines);
    if let Ok((x, y)) = line_range_of(lines) {
        assert(Seq::<(u32, u32)>::empty().push((x as u32, y as u32)) =~= seq![(x as u32, y as u32)]);
    }
}

/// Each output format is asked for by its own flag; two of them are refused, and so are an
/// argument that is not known and an option without its value.
pub proof fn law_search_formats(now: i64, a: Seq<char>, b: Seq<char>)
    ensures
        search_args_of(now, seq!["--json"@]) == Ok::<SearchArgsView, Seq<char>>(SearchArgsView { format: OutputFormat::Json, format_set: true, ..search_start() }),
        search_args_of(now, seq!["--verbose"@]) == Ok::<SearchArgsView, Seq<char>>(SearchArgsView { format: OutputFormat::Verbose, format_set: true, ..search_start() }),
        search_args_of(now, seq!["--porcelain"@]) == Ok::<SearchArgsView, Seq<char>>(SearchArgsView { format: OutputFormat::Porcelain, format_set: true, ..search_start() }),
        search_args_of(now, seq!["--count"@]) == Ok::<SearchArgsView, Seq<char>>(SearchArgsView { format: OutputFormat::Count, format_set: true, ..search_start() }),
        search_args_of(now, seq!["--help"@]) == Ok::<SearchArgsView, Seq<char>>(SearchArgsView { help: true, ..search_start() }),
        search_args_of(now, seq!["-h"@]) == Ok::<SearchArgsView, Seq<char>>(SearchArgsView { help: true, ..search_start() }),
        (a == "--json"@ || a == "--verbose"@ || a == "--porcelain"@ || a == "--count"@) && (b == "--json"@ || b == "--verbose"@ || b == "--porcelain"@ || b == "--count"@) ==> search_args_of(now, seq![a, b]) == Err::<SearchArgsView, Seq<char>>(two_formats_message()),
        takes_value(a) ==> search_args_of(now, seq![a]) == Err::<SearchArgsView, Seq<char>>(a + " requires a value"@),
        !takes_value(a) && a != "--json"@ && a != "--verbose"@ && a != "--porcelain"@ && a != "--count"@ && a != "--help"@ && a != "-h"@ ==> search_args_of(now, seq![a]) == Err::<SearchArgsView, Seq<char>>("Unknown argument: "@ + a),
{
    reveal_with_fuel(search_scan, 4);
    reveal_strlit("--commit");
    reveal_strlit("--file");
    reveal_strlit("--lines");
    reveal_strlit("--pattern");
    reveal_strlit("--prompt-id");
    reveal_strlit("--tool");
    reveal_strlit("--author");
    reveal_strlit("--since");
    reveal_strlit("--until");
    reveal_strlit("--workdir");
    reveal_strlit("--json");
    reveal_strlit("--verbose");
    reveal_strlit("--porcelain");
    reveal_strlit("--count");
    reveal_strlit("--help");
    reveal_strlit("-h");
    assert("--commit"@.len() == 8);
    assert("--file"@.len() == 6);
    assert("--lines"@.len() == 7);
    assert("--pattern"@.len() == 9);
    assert("--prompt-id"@.len() == 11);
    assert("--tool"@.len() == 6);
    assert("--author"@.len() == 8);
    assert("--since"@.len() == 7);
    assert("--until"@.len() == 7);
    assert("--workdir"@.len() == 9);
    assert("--json"@.len() == 6);
    assert("--verbose"@.len() == 9);
    assert("--porcelain"@.len() == 11);
    assert("--count"@.len() == 7);
    assert("--help"@.len() == 6);
    assert("-h"@.len() == 2);
    assert("--commit"@[2] == 'c');
    assert("--file"@[2] == 'f');
    assert("--lines"@[2] == 'l');
    assert("--pattern"@[2] == 'p');
    assert("--prompt-id"@[3] == 'r');
    assert("--tool"@[2] == 't');
    assert("--author"@[2] == 'a');
    assert("--since"@[2] == 's');
    assert("--until"@[2] == 'u');
    assert("--workdir"@[2] == 'w');
    assert("--json"@[2] == 'j');
    assert("--verbose"@[2] == 'v');
    assert("--porcelain"@[3] == 'o');
    assert("--count"@[2] == 'c');
    assert("--help"@[2] == 'h');
    assert(seq!["--json"@][0] == "--json"@);
    assert(seq!["--verbose"@][0] == "--verbose"@);
    assert(seq!["--porcelain"@][0] == "--porcelain"@);
    assert(seq!["--count"@][0] == "--count"@);
    assert(seq!["--help"@][0] == "--help"@);
    assert(seq!["-h"@][0] == "-h"@);
    assert(seq![a][0] == a);
    assert(seq![a, b][0] == a && seq![a, b][1] == b);
}

/// A range of lines is written with its two ends, the same line as one number; a start
/// behind the end is refused.
pub proof fn law_line_ranges(a: nat, b: nat)
    requires
        a <= u32::MAX,
        b <= u32::MAX,
    ensures
        line_range_of(decimal_of(a)) == Ok::<(nat, nat), Seq<char>>((a, a)),
        a <= b ==> line_range_of(decimal_of(a) + seq!['-'] + decimal_of(b)) == Ok::<(nat, nat), Seq<char>>((a, b)),
        a > b ==> line_range_of(decimal_of(a) + seq!['-'] + decimal_of(b)) is Err,
{
    reveal_strlit("-");
    assert("-"@ =~= seq!['-']);
    law_decimal_reads_back(a);
    law_decimal_reads_back(b);
    let da = decimal_of(a);
    assert forall|i: int| 0 <= i < da.len() implies da[i] != '-' by {
        assert(is_digit(da[i]));
    }
    assert(!da.contains('-'));
    law_no_split(da, '-');
    law_split_once_at(da, '-', decimal_of(b));
}

/// The months have the days that the calendar gives them.
pub proof fn law_days_of_months(year: int)
    ensures
        forall|m: int| #![trigger month_days(year, m)]
            (m == 1 || m == 3 || m == 5 || m == 7 || m == 8 || m == 10 || m == 12) ==> month_days(year, m) == 31,
        forall|m: int| #![trigger month_days(year, m)]
            (m == 4 || m == 6 || m == 9 || m == 11) ==> month_days(year, m) == 30,
        leap_year(year) ==> month_days(year, 2) == 29,
        !leap_year(year) ==> month_days(year, 2) == 28,
        year % 4 != 0 ==> !leap_year(year),
        year % 4 == 0 && year % 100 != 0 ==> leap_year(year),
        year % 100 == 0 && year % 400 != 0 ==> !leap_year(year),
        year % 400 == 0 ==> leap_year(year),
{
}

/// A date stands for the start of its day, in seconds: the year, the month and the day are
/// the three numbers of its text.
pub proof fn law_dates_are_read(s: Seq<char>, year: nat, month: nat, day: nat)
    requires
        s.len() == 10,
        signed_of(s.take(4)) == Some(year as int),
        year <= i32::MAX,
        unsigned_of(s.subrange(5, 7), u32::MAX as nat) == Some(month),
        unsigned_of(s.skip(8), u32::MAX as nat) == Some(day),
    ensures
        1 <= month <= 12 && 1 <= day <= 31 ==> date_time(s) == Ok::<int, Seq<char>>(days_to_date(year as int, month as int, day as int)->0 * 86400),
        month == 0 || month > 12 || day == 0 || day > 31 ==> date_time(s) == Err::<int, Seq<char>>("Invalid date: "@ + s),
{
}

/// A plain number stands for itself as a time.
pub proof fn law_timestamps_stand_for_themselves(now: i64, n: nat)
    requires
        n <= i64::MAX,
    ensures
        time_of(now, decimal_of(n)) == Ok::<int, Seq<char>>(n as int),
{
    law_decimal_reads_back(n);
    let s = decimal_of(n);
    reveal_strlit("d");
    reveal_strlit("h");
    reveal_strlit("w");
    reveal_strlit("m");
    assert(is_digit(s[s.len() - 1]));
    assert(is_digit(s[0]));
    let last = s.skip(s.len() - 1);
    assert(last[0] == s[s.len() - 1]);
    assert("d"@[0] == 'd' && "h"@[0] == 'h' && "w"@[0] == 'w' && "m"@[0] == 'm');
}

} // verus!
