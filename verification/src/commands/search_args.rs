//! The arguments of `git-ai search`.

use crate::model::opt_view;
use crate::text::{
    chars_of, concat, decimal, decimal_of, has_suffix, is_digit, law_decimal_reads_back, parse_i64,
    parse_u32, signed_of, split_once, split_once_of, str_eq, string_of, strip_suffix, texts,
    unsigned_of,
};
use vstd::prelude::*;
use vstd::string::*;
use vstd::utf8::*;

verus! {

// ------------------------------------------------------------------------- dates

/// Whether a year is a leap year.
pub open spec fn leap_year(year: int) -> bool {
    (year % 4 == 0 && year % 100 != 0) || year % 400 == 0
}

/// The number of days of a year.
pub open spec fn year_days(year: int) -> int {
    if leap_year(year) {
        366
    } else {
        365
    }
}

/// The number of days from the start of 1970 to the start of a year.
pub open spec fn days_to_year(year: int) -> int
    decreases
            if year >= 1970 {
                year - 1970
            } else {
                1970 - year
            },
{
    if year > 1970 {
        days_to_year(year - 1) + year_days(year - 1)
    } else if year < 1970 {
        days_to_year(year + 1) - year_days(year)
    } else {
        0
    }
}

/// The number of days of a month.
pub open spec fn month_days(year: int, month: int) -> int {
    if month == 2 {
        if leap_year(year) {
            29
        } else {
            28
        }
    } else if month == 4 || month == 6 || month == 9 || month == 11 {
        30
    } else {
        31
    }
}

/// The number of days from the start of a year to the start of a month.
pub open spec fn days_to_month(year: int, month: int) -> int
    decreases month,
{
    if month <= 1 {
        0
    } else {
        days_to_month(year, month - 1) + month_days(year, month - 1)
    }
}

/// The number of days from the start of 1970 to a date. Months have up to 31 days.
pub open spec fn days_to_date(year: int, month: int, day: int) -> Option<int> {
    if 1 <= month <= 12 && 1 <= day <= 31 {
        Some(days_to_year(year) + days_to_month(year, month) + day - 1)
    } else {
        None
    }
}

/// Whether a year is a leap year.
pub fn is_leap_year(year: i32) -> (r: bool)
    ensures
        r == leap_year(year as int),
{
    let y: u64 = if year < 0 {
        (-(year as i64)) as u64
    } else {
        year as u64
    };
    (y % 4 == 0 && y % 100 != 0) || y % 400 == 0
}

/// The number of days from the start of 1970 to a date.
pub fn days_since_unix_epoch(year: i32, month: u32, day: u32) -> (r: Option<i64>)
    ensures
        match r {
            Some(n) => days_to_date(year as int, month as int, day as int) == Some(n as int),
            None => days_to_date(year as int, month as int, day as int) is None,
        },
        r is Some ==> -800_000_000_000 <= r->0 <= 800_000_000_000,
{
    if month < 1 || month > 12 || day < 1 || day > 31 {
        return None;
    }
    let mut days: i64 = 0;
    let mut y: i32 = 1970;
    while y < year
        invariant
            1970 <= y,
            y <= year || y == 1970,
            days == days_to_year(y as int),
            0 <= days <= 366 * (y - 1970),
        decreases year - y,
    {
        days += if is_leap_year(y) {
            366
        } else {
            365
        };
        y += 1;
    }
    while y > year
        invariant
            y >= year,
            y == year || y <= 1970,
            days == days_to_year(y as int),
            y <= 1970 ==> -366 * (1970 - y) <= days <= 0,
            y >= 1970 ==> 0 <= days <= 366 * (y - 1970),
        decreases y - year,
    {
        y -= 1;
        days -= if is_leap_year(y) {
            366
        } else {
            365
        };
    }
    let leap = is_leap_year(year);
    let mut m: u32 = 1;
    while m < month
        invariant
            1 <= m <= month <= 12,
            leap == leap_year(year as int),
            days == days_to_year(year as int) + days_to_month(year as int, m as int),
            -800_000_000_000 <= days_to_year(year as int) <= 799_000_000_000,
            0 <= days_to_month(year as int, m as int) <= 31 * (m - 1),
        decreases month - m,
    {
        let n: i64 = if m == 2 {
            if leap {
                29
            } else {
                28
            }
        } else if m == 4 || m == 6 || m == 9 || m == 11 {
            30
        } else {
            31
        };
        days += n;
        m += 1;
    }
    days += (day - 1) as i64;
    Some(days)
}

/// The days of a year's months together are the days of the year.
pub proof fn law_months_fill_year(year: int)
    ensures
        days_to_month(year, 13) == year_days(year),
        days_to_year(year + 1) == days_to_year(year) + days_to_month(year, 13),
{
    reveal_with_fuel(days_to_month, 14);
}

/// A later day of the same month is as many days later.
pub proof fn law_days_count_up(year: int, month: int, day: int, more: int)
    requires
        1 <= month <= 12,
        1 <= day <= 31,
        1 <= day + more <= 31,
    ensures
        days_to_date(year, month, day + more)->0 == days_to_date(year, month, day)->0 + more,
{
}

proof fn lemma_months_in_order(year: int, month: int, later: int)
    requires
        1 <= month < later,
    ensures
        days_to_month(year, month) + month_days(year, month) <= days_to_month(year, later),
    decreases later - month,
{
    if month + 1 < later {
        lemma_months_in_order(year, month, later - 1);
    }
}

proof fn lemma_years_in_order(year: int, later: int)
    requires
        year < later,
    ensures
        days_to_year(year) + year_days(year) <= days_to_year(later),
    decreases later - year,
{
    if year + 1 < later {
        lemma_years_in_order(year, later - 1);
        law_months_fill_year(later - 1);
    } else {
        law_months_fill_year(year);
    }
}

/// Whether a month of a year has a day.
pub open spec fn is_date(year: int, month: int, day: int) -> bool {
    1 <= month <= 12 && 1 <= day <= month_days(year, month)
}

/// A later date has more days before it, and no two dates have the same.
pub proof fn law_dates_are_in_order(
    year: int,
    month: int,
    day: int,
    later_year: int,
    later_month: int,
    later_day: int,
)
    requires
        is_date(year, month, day),
        is_date(later_year, later_month, later_day),
        year < later_year || (year == later_year && (month < later_month || (month == later_month
            && day < later_day))),
    ensures
        days_to_date(year, month, day)->0 < days_to_date(later_year, later_month, later_day)->0,
{
    if year < later_year {
        lemma_years_in_order(year, later_year);
        lemma_months_in_order(year, month, 13);
        law_months_fill_year(year);
        if later_month > 1 {
            lemma_months_in_order(later_year, 1, later_month);
        }
    } else if month < later_month {
        lemma_months_in_order(year, month, later_month);
    }
}

// -------------------------------------------------------------------- time and lines

/// The time that lies `count` units before now.
pub open spec fn time_ago(now: i64, count: int, unit: i64) -> int {
    now.wrapping_sub((count as i64).wrapping_mul(unit)) as int
}

/// A text without its last `n` characters.
pub open spec fn cut_end(s: Seq<char>, n: int) -> Seq<char> {
    s.take(s.len() - n)
}

/// The time that a count with a unit's letter behind it stands for.
pub open spec fn relative_time(now: i64, s: Seq<char>, name: Seq<char>, unit: i64) -> Result<
    int,
    Seq<char>,
> {
    match signed_of(cut_end(s, 1)) {
        Some(n) => Ok(time_ago(now, n, unit)),
        None => Err("Invalid "@ + name + " count: "@ + cut_end(s, 1)),
    }
}

/// The time of midnight, in UTC, of a date written `YYYY-MM-DD`.
pub open spec fn date_time(s: Seq<char>) -> Result<int, Seq<char>> {
    let year = signed_of(s.take(4));
    let month = unsigned_of(s.subrange(5, 7), u32::MAX as nat);
    let day = unsigned_of(s.skip(8), u32::MAX as nat);
    if year is None || !(i32::MIN <= year->0 <= i32::MAX) {
        Err("Invalid year in date: "@ + s)
    } else if month is None {
        Err("Invalid month in date: "@ + s)
    } else if day is None {
        Err("Invalid day in date: "@ + s)
    } else {
        match days_to_date(year->0, month->0 as int, day->0 as int) {
            Some(days) => Ok(days * 86400),
            None => Err("Invalid date: "@ + s),
        }
    }
}

/// Whether a text has the shape of a date.
pub open spec fn date_shaped(s: Seq<char>) -> bool {
    encode_utf8(s).len() == 10 && s.len() > 7 && s[4] == '-' && s[7] == '-'
}

/// The time that a number of seconds or a date stands for.
pub open spec fn absolute_time(s: Seq<char>) -> Result<int, Seq<char>> {
    if signed_of(s) is Some {
        Ok(signed_of(s)->0)
    } else if date_shaped(s) {
        date_time(s)
    } else {
        Err(
            "Invalid time format: "@ + s
                + ". Use relative (7d, 2h, 1w) or YYYY-MM-DD or Unix timestamp."@,
        )
    }
}

/// The time that a text stands for: a count of days, hours, weeks or minutes before
/// now, a number of seconds, or a date.
pub open spec fn time_of(now: i64, s: Seq<char>) -> Result<int, Seq<char>> {
    if has_suffix(s, "d"@) {
        relative_time(now, s, "day"@, 86400)
    } else if has_suffix(s, "h"@) {
        relative_time(now, s, "hour"@, 3600)
    } else if has_suffix(s, "w"@) {
        relative_time(now, s, "week"@, 604800)
    } else if has_suffix(s, "m"@) {
        relative_time(now, s, "minute"@, 60)
    } else {
        absolute_time(s)
    }
}

fn parse_relative(now: i64, count: &str, name: &str, unit: i64, Ghost(s): Ghost<Seq<char>>) -> (r:
    Result<i64, String>)
    requires
        count@ == cut_end(s, 1),
    ensures
        match r {
            Ok(t) => relative_time(now, s, name@, unit) == Ok::<int, Seq<char>>(t as int),
            Err(e) => relative_time(now, s, name@, unit) == Err::<int, Seq<char>>(e@),
        },
{
    match parse_i64(count) {
        Some(n) => Ok(now.wrapping_sub(n.wrapping_mul(unit))),
        None => {
            let mut m = "Invalid ".to_owned();
            m.append(name);
            m.append(" count: ");
            m.append(count);
            Err(m)
        },
    }
}

fn parse_date(s: &str) -> (r: Result<i64, String>)
    requires
        s@.len() > 7,
    ensures
        match r {
            Ok(t) => date_time(s@) == Ok::<int, Seq<char>>(t as int),
            Err(e) => date_time(s@) == Err::<int, Seq<char>>(e@),
        },
{
    let v = chars_of(s);
    let n: usize = v.len();
    let year_text = string_of(&v, 0, 4);
    let month_text = string_of(&v, 5, 7);
    let day_text = string_of(&v, 8, n);
    proof {
        assert(year_text@ =~= s@.take(4));
        assert(day_text@ =~= s@.skip(8));
    }
    let year: i32 = match parse_i64(year_text.as_str()) {
        Some(y) => {
            if y < -2147483648 || y > 2147483647 {
                return Err(concat("Invalid year in date: ", s));
            }
            y as i32
        },
        None => {
            return Err(concat("Invalid year in date: ", s));
        },
    };
    let month: u32 = match parse_u32(month_text.as_str()) {
        Some(m) => m,
        None => {
            return Err(concat("Invalid month in date: ", s));
        },
    };
    let day: u32 = match parse_u32(day_text.as_str()) {
        Some(d) => d,
        None => {
            return Err(concat("Invalid day in date: ", s));
        },
    };
    match days_since_unix_epoch(year, month, day) {
        Some(days) => Ok(days * 86400),
        None => Err(concat("Invalid date: ", s)),
    }
}

fn has_date_shape(s: &str) -> (r: bool)
    ensures
        r == date_shaped(s@),
{
    let v = chars_of(s);
    s.as_bytes().len() == 10 && v.len() > 7 && v[4] == '-' && v[7] == '-'
}

fn parse_absolute(s: &str) -> (r: Result<i64, String>)
    ensures
        match r {
            Ok(t) => absolute_time(s@) == Ok::<int, Seq<char>>(t as int),
            Err(e) => absolute_time(s@) == Err::<int, Seq<char>>(e@),
        },
{
    if let Some(t) = parse_i64(s) {
        return Ok(t);
    }
    if has_date_shape(s) {
        return parse_date(s);
    }
    let mut m = "Invalid time format: ".to_owned();
    m.append(s);
    m.append(". Use relative (7d, 2h, 1w) or YYYY-MM-DD or Unix timestamp.");
    Err(m)
}

/// The time that a text stands for, seen from now.
pub fn parse_time_spec(now: i64, s: &str) -> (r: Result<i64, String>)
    ensures
        match r {
            Ok(t) => time_of(now, s@) == Ok::<int, Seq<char>>(t as int),
            Err(e) => time_of(now, s@) == Err::<int, Seq<char>>(e@),
        },
{
    proof {
        reveal_strlit("d");
        reveal_strlit("h");
        reveal_strlit("w");
        reveal_strlit("m");
    }
    if let Some(count) = strip_suffix(s, "d") {
        return parse_relative(now, count.as_str(), "day", 86400, Ghost(s@));
    }
    if let Some(count) = strip_suffix(s, "h") {
        return parse_relative(now, count.as_str(), "hour", 3600, Ghost(s@));
    }
    if let Some(count) = strip_suffix(s, "w") {
        return parse_relative(now, count.as_str(), "week", 604800, Ghost(s@));
    }
    if let Some(count) = strip_suffix(s, "m") {
        return parse_relative(now, count.as_str(), "minute", 60, Ghost(s@));
    }
    parse_absolute(s)
}

proof fn lemma_count_with_unit(n: nat, unit: Seq<char>)
    requires
        n <= i64::MAX,
        unit.len() == 1,
    ensures
        has_suffix(decimal_of(n) + unit, unit),
        forall|other: Seq<char>|
            other.len() == 1 && other[0] != unit[0] ==> !#[trigger] has_suffix(
                decimal_of(n) + unit,
                other,
            ),
        signed_of(cut_end(decimal_of(n) + unit, 1)) == Some(n as int),
{
    let text = decimal_of(n) + unit;
    law_decimal_reads_back(n);
    assert(text.skip(text.len() - 1) =~= unit);
    assert(cut_end(text, 1) =~= decimal_of(n));
    assert(is_digit(decimal_of(n)[0]));
    assert forall|other: Seq<char>| other.len() == 1 && other[0] != unit[0] implies
        !#[trigger] has_suffix(text, other) by {
        assert(text.skip(text.len() - 1)[0] == unit[0]);
    }
}

proof fn lemma_time_ago(now: i64, n: nat, unit: i64)
    requires
        unit == 60 || unit == 3600 || unit == 86400 || unit == 604800,
        n * unit <= i64::MAX,
        i64::MIN <= now - n * unit,
    ensures
        time_ago(now, n as int, unit) == now - n * unit,
{
    assert(n <= n * unit) by (nonlinear_arith)
        requires
            unit >= 1,
    ;
    assert((n as int as i64) == n);
}

/// A count with a unit's letter stands for the time that lies so many units before now,
/// where a time can be that early.
pub proof fn law_units_count_back(now: i64, n: nat)
    ensures
        n * 60 <= i64::MAX && i64::MIN <= now - n * 60 ==> time_of(now, decimal_of(n) + "m"@) == Ok::<
            int,
            Seq<char>,
        >(now - n * 60),
        n * 3600 <= i64::MAX && i64::MIN <= now - n * 3600 ==> time_of(now, decimal_of(n) + "h"@)
            == Ok::<int, Seq<char>>(now - n * 3600),
        n * 86400 <= i64::MAX && i64::MIN <= now - n * 86400 ==> time_of(now, decimal_of(n) + "d"@)
            == Ok::<int, Seq<char>>(now - n * 86400),
        n * 604800 <= i64::MAX && i64::MIN <= now - n * 604800 ==> time_of(
            now,
            decimal_of(n) + "w"@,
        ) == Ok::<int, Seq<char>>(now - n * 604800),
{
    reveal_strlit("d");
    reveal_strlit("h");
    reveal_strlit("w");
    reveal_strlit("m");
    assert("m"@[0] == 'm' && "h"@[0] == 'h' && "d"@[0] == 'd' && "w"@[0] == 'w');
    if n * 60 <= i64::MAX && i64::MIN <= now - n * 60 {
        assert(time_of(now, decimal_of(n) + "m"@) == Ok::<int, Seq<char>>(now - n * 60)) by {
            lemma_count_with_unit(n, "m"@);
            lemma_time_ago(now, n, 60);
        }
    }
    if n * 3600 <= i64::MAX && i64::MIN <= now - n * 3600 {
        assert(time_of(now, decimal_of(n) + "h"@) == Ok::<int, Seq<char>>(now - n * 3600)) by {
            lemma_count_with_unit(n, "h"@);
            lemma_time_ago(now, n, 3600);
        }
    }
    if n * 86400 <= i64::MAX && i64::MIN <= now - n * 86400 {
        assert(time_of(now, decimal_of(n) + "d"@) == Ok::<int, Seq<char>>(now - n * 86400)) by {
            lemma_count_with_unit(n, "d"@);
            lemma_time_ago(now, n, 86400);
        }
    }
    if n * 604800 <= i64::MAX && i64::MIN <= now - n * 604800 {
        assert(time_of(now, decimal_of(n) + "w"@) == Ok::<int, Seq<char>>(now - n * 604800)) by {
            lemma_count_with_unit(n, "w"@);
            lemma_time_ago(now, n, 604800);
        }
    }
}

/// A week is seven days.
pub proof fn law_week_is_seven_days(now: i64, n: nat)
    requires
        n * 604800 <= i64::MAX,
        i64::MIN <= now - n * 604800,
    ensures
        time_of(now, decimal_of(n) + "w"@) == time_of(now, decimal_of(7 * n) + "d"@),
{
    law_units_count_back(now, n);
    law_units_count_back(now, 7 * n);
}

// ------------------------------------------------------------------- line ranges

/// The range of lines that a text writes: one number, or two with a dash between.
pub open spec fn line_range_of(s: Seq<char>) -> Result<(nat, nat), Seq<char>> {
    match split_once_of(s, "-"@) {
        Some((a, b)) => match (unsigned_of(a, u32::MAX as nat), unsigned_of(b, u32::MAX as nat)) {
            (None, _) => Err("Invalid line number: "@ + a),
            (Some(_), None) => Err("Invalid line number: "@ + b),
            (Some(start), Some(end)) => if start > end {
                Err(
                    "Invalid line range: start ("@ + decimal_of(start) + ") > end ("@ + decimal_of(
                        end,
                    ) + ")"@,
                )
            } else {
                Ok((start, end))
            },
        },
        None => match unsigned_of(s, u32::MAX as nat) {
            Some(n) => Ok((n, n)),
            None => Err("Invalid line number: "@ + s),
        },
    }
}

/// The range of lines that a text writes.
pub fn parse_line_range(s: &str) -> (r: Result<(u32, u32), String>)
    ensures
        match r {
            Ok((a, b)) => line_range_of(s@) == Ok::<(nat, nat), Seq<char>>((a as nat, b as nat)),
            Err(e) => line_range_of(s@) == Err::<(nat, nat), Seq<char>>(e@),
        },
{
    match split_once(s, "-") {
        Some((a, b)) => {
            let start: u32 = match parse_u32(a.as_str()) {
                Some(n) => n,
                None => {
                    return Err(concat("Invalid line number: ", a.as_str()));
                },
            };
            let end: u32 = match parse_u32(b.as_str()) {
                Some(n) => n,
                None => {
                    return Err(concat("Invalid line number: ", b.as_str()));
                },
            };
            if start > end {
                let mut m = "Invalid line range: start (".to_owned();
                m.append(decimal(start as u64).as_str());
                m.append(") > end (");
                m.append(decimal(end as u64).as_str());
                m.append(")");
                return Err(m);
            }
            Ok((start, end))
        },
        None => match parse_u32(s) {
            Some(n) => Ok((n, n)),
            None => Err(concat("Invalid line number: ", s)),
        },
    }
}

/// A line range that parses is one with its start no later than its end.
pub proof fn law_line_range_in_order(s: Seq<char>)
    ensures
        line_range_of(s) matches Ok((a, b)) ==> a <= b <= u32::MAX,
{
}

// --------------------------------------------------------------------- arguments

/// What is searched.
#[derive(Clone, PartialEq, Debug)]
pub enum SearchMode {
    /// One commit.
    Commit { commit_rev: String },
    /// A range of commits.
    CommitRange { start: String, end: String },
    /// A file, or ranges of its lines.
    File { file_path: String, line_ranges: Vec<(u32, u32)> },
    /// The messages of prompts.
    Pattern { query: String },
    /// One prompt.
    PromptId { prompt_id: String },
}

/// The texts of what is searched.
pub enum ModeView {
    Commit(Seq<char>),
    CommitRange(Seq<char>, Seq<char>),
    File(Seq<char>, Seq<(u32, u32)>),
    Pattern(Seq<char>),
    PromptId(Seq<char>),
}

impl View for SearchMode {
    type V = ModeView;

    open spec fn view(&self) -> ModeView {
        match self {
            SearchMode::Commit { commit_rev } => ModeView::Commit(commit_rev@),
            SearchMode::CommitRange { start, end } => ModeView::CommitRange(start@, end@),
            SearchMode::File { file_path, line_ranges } => ModeView::File(
                file_path@,
                line_ranges@,
            ),
            SearchMode::Pattern { query } => ModeView::Pattern(query@),
            SearchMode::PromptId { prompt_id } => ModeView::PromptId(prompt_id@),
        }
    }
}

/// What is left of a search's results.
#[derive(Clone, Debug)]
pub struct SearchFilters {
    pub tool: Option<String>,
    pub author: Option<String>,
    pub since: Option<i64>,
    pub until: Option<i64>,
    pub workdir: Option<String>,
}

/// The texts and times of filters.
pub struct FiltersView {
    pub tool: Option<Seq<char>>,
    pub author: Option<Seq<char>>,
    pub since: Option<i64>,
    pub until: Option<i64>,
    pub workdir: Option<Seq<char>>,
}

impl View for SearchFilters {
    type V = FiltersView;

    open spec fn view(&self) -> FiltersView {
        FiltersView {
            tool: opt_view(self.tool),
            author: opt_view(self.author),
            since: self.since,
            until: self.until,
            workdir: opt_view(self.workdir),
        }
    }
}

/// No filters.
pub open spec fn no_filters() -> FiltersView {
    FiltersView { tool: None, author: None, since: None, until: None, workdir: None }
}

impl Default for SearchFilters {
    fn default() -> (r: Self)
        ensures
            r@ == no_filters(),
    {
        SearchFilters { tool: None, author: None, since: None, until: None, workdir: None }
    }
}

impl SearchFilters {
    /// No filters.
    pub fn new() -> (r: Self)
        ensures
            r@ == no_filters(),
    {
        SearchFilters { tool: None, author: None, since: None, until: None, workdir: None }
    }

    /// Whether there are no filters.
    pub fn is_empty(&self) -> (r: bool)
        ensures
            r == (self@ == no_filters()),
    {
        self.tool.is_none() && self.author.is_none() && self.since.is_none()
            && self.until.is_none() && self.workdir.is_none()
    }
}

/// How results are written.
#[derive(Clone, Copy, PartialEq, Eq, Structural, Debug)]
pub enum OutputFormat {
    Default,
    Json,
    Verbose,
    Porcelain,
    Count,
}

impl Default for OutputFormat {
    fn default() -> (r: Self)
        ensures
            r == OutputFormat::Default,
    {
        OutputFormat::Default
    }
}

/// What the arguments of a search ask for.
#[derive(Debug)]
pub struct ParsedSearchArgs {
    pub mode: Option<SearchMode>,
    pub filters: SearchFilters,
    pub output_format: OutputFormat,
    pub help: bool,
}

/// What the arguments of a search read so far ask for: with the format, whether
/// one was named; and the line ranges that wait for a file.
pub struct SearchArgsView {
    pub mode: Option<ModeView>,
    pub filters: FiltersView,
    pub format: OutputFormat,
    pub format_set: bool,
    pub help: bool,
    pub pending: Seq<(u32, u32)>,
}

/// Whether an argument takes the next one as its value.
pub open spec fn takes_value(a: Seq<char>) -> bool {
    ||| a == "--commit"@
    ||| a == "--file"@
    ||| a == "--lines"@
    ||| a == "--pattern"@
    ||| a == "--prompt-id"@
    ||| a == "--tool"@
    ||| a == "--author"@
    ||| a == "--since"@
    ||| a == "--until"@
    ||| a == "--workdir"@
}

/// The format that an argument names.
pub open spec fn format_named(a: Seq<char>) -> Option<OutputFormat> {
    if a == "--json"@ {
        Some(OutputFormat::Json)
    } else if a == "--verbose"@ {
        Some(OutputFormat::Verbose)
    } else if a == "--porcelain"@ {
        Some(OutputFormat::Porcelain)
    } else if a == "--count"@ {
        Some(OutputFormat::Count)
    } else {
        None
    }
}

/// What a commit's name asks for: a range, where it holds two dots.
pub open spec fn commit_mode(rev: Seq<char>) -> ModeView {
    match split_once_of(rev, ".."@) {
        Some((start, end)) => ModeView::CommitRange(start, end),
        None => ModeView::Commit(rev),
    }
}

/// What is asked for after an argument with a value.
pub open spec fn after_value(
    now: i64,
    st: SearchArgsView,
    a: Seq<char>,
    value: Seq<char>,
) -> Result<SearchArgsView, Seq<char>> {
    if a == "--commit"@ {
        Ok(SearchArgsView { mode: Some(commit_mode(value)), ..st })
    } else if a == "--file"@ {
        Ok(
            SearchArgsView {
                mode: Some(ModeView::File(value, st.pending)),
                pending: seq![],
                ..st
            },
        )
    } else if a == "--lines"@ {
        match line_range_of(value) {
            Ok((x, y)) => Ok(
                match st.mode {
                    Some(ModeView::File(path, ranges)) => SearchArgsView {
                        mode: Some(ModeView::File(path, ranges.push((x as u32, y as u32)))),
                        ..st
                    },
                    _ => SearchArgsView { pending: st.pending.push((x as u32, y as u32)), ..st },
                },
            ),
            Err(e) => Err(e),
        }
    } else if a == "--pattern"@ {
        Ok(SearchArgsView { mode: Some(ModeView::Pattern(value)), ..st })
    } else if a == "--prompt-id"@ {
        Ok(SearchArgsView { mode: Some(ModeView::PromptId(value)), ..st })
    } else if a == "--tool"@ {
        Ok(
            SearchArgsView {
                filters: FiltersView { tool: Some(value), ..st.filters },
                ..st
            },
        )
    } else if a == "--author"@ {
        Ok(
            SearchArgsView {
                filters: FiltersView { author: Some(value), ..st.filters },
                ..st
            },
        )
    } else if a == "--since"@ {
        match time_of(now, value) {
            Ok(t) => Ok(
                SearchArgsView {
                    filters: FiltersView { since: Some(t as i64), ..st.filters },
                    ..st
                },
            ),
            Err(e) => Err(e),
        }
    } else if a == "--until"@ {
        match time_of(now, value) {
            Ok(t) => Ok(
                SearchArgsView {
                    filters: FiltersView { until: Some(t as i64), ..st.filters },
                    ..st
                },
            ),
            Err(e) => Err(e),
        }
    } else {
        Ok(
            SearchArgsView {
                filters: FiltersView { workdir: Some(value), ..st.filters },
                ..st
            },
        )
    }
}

/// What is said where two formats are named.
pub open spec fn two_formats_message() -> Seq<char> {
    "Only one output format can be specified. Use one of: --json, --verbose, --porcelain, --count"@
}

/// What is asked for after an argument without a value.
pub open spec fn after_flag(st: SearchArgsView, a: Seq<char>) -> Result<SearchArgsView, Seq<char>> {
    if a == "--help"@ || a == "-h"@ {
        Ok(SearchArgsView { help: true, ..st })
    } else {
        match format_named(a) {
            Some(format) => if st.format_set {
                Err(two_formats_message())
            } else {
                Ok(SearchArgsView { format, format_set: true, ..st })
            },
            None => Err("Unknown argument: "@ + a),
        }
    }
}

/// What the arguments from `at` on ask for, behind those read so far.
pub open spec fn search_scan(
    now: i64,
    args: Seq<Seq<char>>,
    at: int,
    st: SearchArgsView,
) -> Result<SearchArgsView, Seq<char>>
    decreases args.len() - at,
{
    if !(0 <= at < args.len()) {
        if st.pending.len() > 0 {
            Err("--lines requires --file to be specified"@)
        } else {
            Ok(st)
        }
    } else if takes_value(args[at]) {
        if at + 1 >= args.len() {
            Err(args[at] + " requires a value"@)
        } else {
            match after_value(now, st, args[at], args[at + 1]) {
                Ok(next) => search_scan(now, args, at + 2, next),
                Err(e) => Err(e),
            }
        }
    } else {
        match after_flag(st, args[at]) {
            Ok(next) => search_scan(now, args, at + 1, next),
            Err(e) => Err(e),
        }
    }
}

/// Nothing asked for yet.
pub open spec fn search_start() -> SearchArgsView {
    SearchArgsView {
        mode: None,
        filters: no_filters(),
        format: OutputFormat::Default,
        format_set: false,
        help: false,
        pending: seq![],
    }
}

/// What the arguments of a search ask for, or what is wrong with them.
pub open spec fn search_args_of(now: i64, args: Seq<Seq<char>>) -> Result<
    SearchArgsView,
    Seq<char>,
> {
    search_scan(now, args, 0, search_start())
}

struct SearchScan {
    mode: Option<SearchMode>,
    filters: SearchFilters,
    format: OutputFormat,
    format_set: bool,
    help: bool,
    pending: Vec<(u32, u32)>,
}

impl View for SearchScan {
    type V = SearchArgsView;

    closed spec fn view(&self) -> SearchArgsView {
        SearchArgsView {
            mode: opt_view(self.mode),
            filters: self.filters@,
            format: self.format,
            format_set: self.format_set,
            help: self.help,
            pending: self.pending@,
        }
    }
}

fn is_value_argument(a: &str) -> (r: bool)
    ensures
        r == takes_value(a@),
{
    str_eq(a, "--commit") || str_eq(a, "--file") || str_eq(a, "--lines") || str_eq(a, "--pattern")
        || str_eq(a, "--prompt-id") || str_eq(a, "--tool") || str_eq(a, "--author") || str_eq(
        a,
        "--since",
    ) || str_eq(a, "--until") || str_eq(a, "--workdir")
}

fn named_format(a: &str) -> (r: Option<OutputFormat>)
    ensures
        r == format_named(a@),
{
    if str_eq(a, "--json") {
        Some(OutputFormat::Json)
    } else if str_eq(a, "--verbose") {
        Some(OutputFormat::Verbose)
    } else if str_eq(a, "--porcelain") {
        Some(OutputFormat::Porcelain)
    } else if str_eq(a, "--count") {
        Some(OutputFormat::Count)
    } else {
        None
    }
}

fn apply_lines(st: SearchScan, range: (u32, u32)) -> (r: SearchScan)
    ensures
        r@ == (match st@.mode {
            Some(ModeView::File(path, ranges)) => SearchArgsView {
                mode: Some(ModeView::File(path, ranges.push(range))),
                ..st@
            },
            _ => SearchArgsView { pending: st@.pending.push(range), ..st@ },
        }),
{
    let mut st = st;
    match st.mode {
        Some(SearchMode::File { file_path, line_ranges }) => {
            let mut ranges = line_ranges;
            ranges.push(range);
            st.mode = Some(SearchMode::File { file_path, line_ranges: ranges });
        },
        other => {
            st.mode = other;
            st.pending.push(range);
        },
    }
    st
}

fn apply_value(now: i64, st: SearchScan, a: &str, value: &str) -> (r: Result<SearchScan, String>)
    requires
        takes_value(a@),
    ensures
        match r {
            Ok(next) => after_value(now, st@, a@, value@) == Ok::<SearchArgsView, Seq<char>>(next@),
            Err(e) => after_value(now, st@, a@, value@) == Err::<SearchArgsView, Seq<char>>(e@),
        },
{
    let mut st = st;
    if str_eq(a, "--commit") {
        st.mode = Some(
            match split_once(value, "..") {
                Some((start, end)) => SearchMode::CommitRange { start, end },
                None => SearchMode::Commit { commit_rev: value.to_owned() },
            },
        );
    } else if str_eq(a, "--file") {
        let mut waiting: Vec<(u32, u32)> = Vec::new();
        std::mem::swap(&mut waiting, &mut st.pending);
        st.mode = Some(SearchMode::File { file_path: value.to_owned(), line_ranges: waiting });
        proof {
            assert(st.pending@ =~= seq![]);
        }
    } else if str_eq(a, "--lines") {
        return match parse_line_range(value) {
            Ok(range) => {
                proof {
                    law_line_range_in_order(value@);
                }
                Ok(apply_lines(st, range))
            },
            Err(e) => Err(e),
        };
    } else if str_eq(a, "--pattern") {
        st.mode = Some(SearchMode::Pattern { query: value.to_owned() });
    } else if str_eq(a, "--prompt-id") {
        st.mode = Some(SearchMode::PromptId { prompt_id: value.to_owned() });
    } else if str_eq(a, "--tool") {
        st.filters.tool = Some(value.to_owned());
    } else if str_eq(a, "--author") {
        st.filters.author = Some(value.to_owned());
    } else if str_eq(a, "--since") {
        match parse_time_spec(now, value) {
            Ok(t) => {
                st.filters.since = Some(t);
            },
            Err(e) => {
                return Err(e);
            },
        }
    } else if str_eq(a, "--until") {
        match parse_time_spec(now, value) {
            Ok(t) => {
                st.filters.until = Some(t);
            },
            Err(e) => {
                return Err(e);
            },
        }
    } else {
        st.filters.workdir = Some(value.to_owned());
    }
    Ok(st)
}

fn apply_flag(st: SearchScan, a: &str) -> (r: Result<SearchScan, String>)
    ensures
        match r {
            Ok(next) => after_flag(st@, a@) == Ok::<SearchArgsView, Seq<char>>(next@),
            Err(e) => after_flag(st@, a@) == Err::<SearchArgsView, Seq<char>>(e@),
        },
{
    let mut st = st;
    if str_eq(a, "--help") || str_eq(a, "-h") {
        st.help = true;
        return Ok(st);
    }
    match named_format(a) {
        Some(format) => {
            if st.format_set {
                return Err(
                    "Only one output format can be specified. Use one of: --json, --verbose, --porcelain, --count".to_owned(),
                );
            }
            st.format = format;
            st.format_set = true;
            Ok(st)
        },
        None => Err(concat("Unknown argument: ", a)),
    }
}

/// What the arguments of a search ask for, at the time `now`.
pub fn parse_search_args(now: i64, args: &[String]) -> (r: Result<ParsedSearchArgs, String>)
    ensures
        match r {
            Ok(parsed) => search_args_of(now, texts(args@)) matches Ok(asked) && {
                &&& opt_view(parsed.mode) == asked.mode
                &&& parsed.filters@ == asked.filters
                &&& parsed.output_format == asked.format
                &&& parsed.help == asked.help
            },
            Err(e) => search_args_of(now, texts(args@)) == Err::<SearchArgsView, Seq<char>>(e@),
        },
{
    let ghost ts = texts(args@);
    let mut st = SearchScan {
        mode: None,
        filters: SearchFilters::new(),
        format: OutputFormat::Default,
        format_set: false,
        help: false,
        pending: Vec::new(),
    };
    let mut i: usize = 0;
    proof {
        assert(st.pending@ =~= seq![]);
    }
    while i < args.len()
        invariant
            i <= args@.len(),
            ts == texts(args@),
            search_args_of(now, ts) == search_scan(now, ts, i as int, st@),
        decreases args.len() - i,
    {
        let a: &str = args[i].as_str();
        proof {
            assert(ts[i as int] == a@);
        }
        if is_value_argument(a) {
            if args.len() - i < 2 {
                return Err(concat(a, " requires a value"));
            }
            proof {
                assert(ts[i + 1] == args@[i + 1]@);
            }
            match apply_value(now, st, a, args[i + 1].as_str()) {
                Ok(next) => {
                    st = next;
                },
                Err(e) => {
                    return Err(e);
                },
            }
            i += 2;
        } else {
            match apply_flag(st, a) {
                Ok(next) => {
                    st = next;
                },
                Err(e) => {
                    return Err(e);
                },
            }
            i += 1;
        }
    }
    if st.pending.len() > 0 {
        return Err("--lines requires --file to be specified".to_owned());
    }
    Ok(
        ParsedSearchArgs {
            mode: st.mode,
            filters: st.filters,
            output_format: st.format,
            help: st.help,
        },
    )
}

} // verus!
