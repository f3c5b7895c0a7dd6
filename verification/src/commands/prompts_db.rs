//! What goes into the database of prompts: which notes count, which prompts are kept,
//! and where their messages come from.

use crate::authorship::PromptRecord;
use crate::error::GitAiError;
use crate::file_tree::utf8_text;
use crate::model::{lemma_views_push, opt_view, views};
use crate::text::{
    chars_of, clone_option, concat, contains, decimal, decimal_of, find_of, has_prefix, is_digit,
    is_space, join, join_of, law_decimal_reads_back, lemma_scan_space, lemma_scan_word,
    lemma_texts_push, lines, lines_of, list_contains, parse_i64, parse_u64, parse_usize,
    signed_decimal, signed_decimal_of, signed_of, split, split_of, split_once, split_once_of,
    starts_with, str_eq, string_of, texts, trim, trimmed, unsigned_of, words, words_of,
};
use crate::text_map::TextMap;
use vstd::prelude::*;
use vstd::string::*;
use vstd::utf8::*;

verus! {

// -------------------------------------------------------------------------- arguments

/// What `git-ai prompts` is asked for.
#[derive(Clone, Copy, PartialEq, Eq, Structural, Debug)]
pub enum PromptsCommand {
    Populate,
    Exec,
    List,
    Next,
    Reset,
    Count,
    Unknown,
}

/// What `git-ai prompts` with the given arguments is asked for: without any, or with
/// flags, to fill the database.
pub open spec fn prompts_command_of(args: Seq<Seq<char>>) -> PromptsCommand {
    if args.len() == 0 {
        PromptsCommand::Populate
    } else if args[0] == "exec"@ {
        PromptsCommand::Exec
    } else if args[0] == "list"@ {
        PromptsCommand::List
    } else if args[0] == "next"@ {
        PromptsCommand::Next
    } else if args[0] == "reset"@ {
        PromptsCommand::Reset
    } else if args[0] == "count"@ {
        PromptsCommand::Count
    } else if has_prefix(args[0], "-"@) {
        PromptsCommand::Populate
    } else {
        PromptsCommand::Unknown
    }
}

/// What `git-ai prompts` with the given arguments is asked for.
pub fn prompts_command(args: &[String]) -> (r: PromptsCommand)
    ensures
        r == prompts_command_of(texts(args@)),
{
    if args.len() == 0 {
        return PromptsCommand::Populate;
    }
    proof {
        assert(texts(args@)[0] == args@[0]@);
    }
    let name: &str = args[0].as_str();
    if str_eq(name, "exec") {
        PromptsCommand::Exec
    } else if str_eq(name, "list") {
        PromptsCommand::List
    } else if str_eq(name, "next") {
        PromptsCommand::Next
    } else if str_eq(name, "reset") {
        PromptsCommand::Reset
    } else if str_eq(name, "count") {
        PromptsCommand::Count
    } else if starts_with(name, "-") {
        PromptsCommand::Populate
    } else {
        PromptsCommand::Unknown
    }
}

/// With what the database is filled.
pub struct PopulateArgs {
    pub since: Option<String>,
    pub author: Option<String>,
    pub all_authors: bool,
}

/// The texts of what the database is filled with.
pub struct PopulateView {
    pub since: Option<Seq<char>>,
    pub author: Option<Seq<char>>,
    pub all_authors: bool,
}

impl View for PopulateArgs {
    type V = PopulateView;

    open spec fn view(&self) -> PopulateView {
        PopulateView {
            since: opt_view(self.since),
            author: opt_view(self.author),
            all_authors: self.all_authors,
        }
    }
}

/// With what the arguments from a place on fill the database, after `st`, or what is
/// wrong with them.
pub open spec fn populate_scan(args: Seq<Seq<char>>, i: int, st: PopulateView) -> Result<
    PopulateView,
    Seq<char>,
>
    decreases args.len() - i,
{
    if i < 0 || i >= args.len() {
        Ok(st)
    } else if args[i] == "--since"@ {
        if i + 1 >= args.len() {
            Err("Error: --since requires a value"@)
        } else {
            populate_scan(args, i + 2, PopulateView { since: Some(args[i + 1]), ..st })
        }
    } else if args[i] == "--author"@ {
        if i + 1 >= args.len() {
            Err("Error: --author requires a value"@)
        } else {
            populate_scan(args, i + 2, PopulateView { author: Some(args[i + 1]), ..st })
        }
    } else if args[i] == "--all-authors"@ {
        populate_scan(args, i + 1, PopulateView { all_authors: true, ..st })
    } else {
        Err("Unknown option: "@ + args[i])
    }
}

/// With what the arguments fill the database, or what is wrong with them.
pub fn parse_populate_args(args: &[String]) -> (r: Result<PopulateArgs, String>)
    ensures
        match r {
            Ok(p) => populate_scan(
                texts(args@),
                0,
                PopulateView { since: None, author: None, all_authors: false },
            ) == Ok::<PopulateView, Seq<char>>(p@),
            Err(e) => populate_scan(
                texts(args@),
                0,
                PopulateView { since: None, author: None, all_authors: false },
            ) == Err::<PopulateView, Seq<char>>(e@),
        },
{
    let ghost ts = texts(args@);
    let ghost whole = populate_scan(
        ts,
        0,
        PopulateView { since: None, author: None, all_authors: false },
    );
    let mut since: Option<String> = None;
    let mut author: Option<String> = None;
    let mut all_authors = false;
    let mut i: usize = 0;
    while i < args.len()
        invariant
            i <= args@.len(),
            ts == texts(args@),
            whole == populate_scan(
                ts,
                0,
                PopulateView { since: None, author: None, all_authors: false },
            ),
            populate_scan(
                ts,
                i as int,
                PopulateView {
                    since: opt_view(since),
                    author: opt_view(author),
                    all_authors,
                },
            ) == whole,
        decreases args.len() - i,
    {
        let last = args.len() - i < 2;
        proof {
            assert(ts[i as int] == args@[i as int]@);
            if !last {
                assert(ts[i + 1] == args@[i + 1]@);
            }
        }
        let arg: &str = args[i].as_str();
        if str_eq(arg, "--since") {
            if last {
                return Err("Error: --since requires a value".to_owned());
            }
            since = Some(args[i + 1].clone());
            i += 2;
        } else if str_eq(arg, "--author") {
            if last {
                return Err("Error: --author requires a value".to_owned());
            }
            author = Some(args[i + 1].clone());
            i += 2;
        } else if str_eq(arg, "--all-authors") {
            all_authors = true;
            i += 1;
        } else {
            return Err(concat("Unknown option: ", arg));
        }
    }
    Ok(PopulateArgs { since, author, all_authors })
}

/// Whose prompts go into the database: everyone's, those of a named author, or those of
/// the current user.
pub fn author_filter(p: &PopulateArgs, current_user: Option<String>) -> (r: Option<String>)
    ensures
        opt_view(r) == if p.all_authors {
            None
        } else if p@.author is Some {
            p@.author
        } else {
            opt_view(current_user)
        },
{
    if p.all_authors {
        return None;
    }
    match &p.author {
        Some(a) => Some(a.clone()),
        None => current_user,
    }
}

/// The time, in seconds, that lies a number of days before now, or what is wrong with
/// the number.
pub open spec fn since_of(now: i64, days: Seq<char>) -> Result<i64, Seq<char>> {
    match unsigned_of(days, u64::MAX as nat) {
        Some(n) => Ok(now.wrapping_sub((n as u64 as i64).wrapping_mul(86400))),
        None => Err(
            "Invalid --since value: '"@ + days + "'. Expected number of days (e.g., 30)"@,
        ),
    }
}

/// The time that lies a number of days before now.
pub fn parse_since_arg(now: i64, days: &str) -> (r: Result<i64, GitAiError>)
    ensures
        match r {
            Ok(t) => since_of(now, days@) == Ok::<i64, Seq<char>>(t),
            Err(e) => since_of(now, days@) == Err::<i64, Seq<char>>(e@),
        },
{
    match parse_u64(days) {
        Some(n) => Ok(now.wrapping_sub((n as i64).wrapping_mul(86400))),
        None => {
            let mut m = concat("Invalid --since value: '", days);
            m.append("'. Expected number of days (e.g., 30)");
            Err(GitAiError::Generic(m))
        },
    }
}

/// The time of a number of days before now lies that many days before now, where a
/// time can be that early.
pub proof fn law_since_counts_days(now: i64, n: nat)
    requires
        n * 86400 <= i64::MAX,
        i64::MIN <= now - n * 86400,
    ensures
        since_of(now, decimal_of(n)) == Ok::<i64, Seq<char>>((now - n * 86400) as i64),
{
    law_decimal_reads_back(n);
    assert(n <= i64::MAX);
    assert((n as u64 as i64) == n);
    assert((n as u64 as i64).wrapping_mul(86400) == n * 86400);
}

/// The columns that a list shows where none are named.
pub open spec fn default_columns() -> Seq<char> {
    "seq_id, tool, model, human_author, commit_sha, total_additions, total_deletions, accepted_lines, overridden_lines, accepted_rate, (last_time - start_time) AS duration"@
}

/// Names with commas between them, without the spaces around them.
pub open spec fn column_names(list: Seq<char>) -> Seq<Seq<char>> {
    Seq::new(split_of(list, ',').len(), |i: int| trimmed(split_of(list, ',')[i]))
}

/// The columns that the arguments from a place on name, after `columns`, or what is
/// wrong with them.
pub open spec fn columns_scan(args: Seq<Seq<char>>, i: int, columns: Option<Seq<char>>) -> Result<
    Option<Seq<char>>,
    Seq<char>,
>
    decreases args.len() - i,
{
    if i < 0 || i >= args.len() {
        Ok(columns)
    } else if args[i] == "--columns"@ {
        if i + 1 >= args.len() {
            Err("Error: --columns requires a value"@)
        } else {
            columns_scan(args, i + 2, Some(join_of(column_names(args[i + 1]), ", "@)))
        }
    } else {
        Err("Unknown option: "@ + args[i])
    }
}

/// The query of `prompts list`, or what is wrong with its arguments.
pub open spec fn list_query_of(args: Seq<Seq<char>>) -> Result<Seq<char>, Seq<char>> {
    match columns_scan(args, 0, None) {
        Ok(columns) => Ok(
            "SELECT "@ + match columns {
                Some(c) => c,
                None => default_columns(),
            } + " FROM prompts ORDER BY seq_id ASC"@,
        ),
        Err(e) => Err(e),
    }
}

fn trimmed_names(list: &str) -> (r: Vec<String>)
    ensures
        texts(r@) == column_names(list@),
{
    let parts = split(list, ',');
    let ghost want = column_names(list@);
    let mut out: Vec<String> = Vec::new();
    let mut i: usize = 0;
    while i < parts.len()
        invariant
            i <= parts@.len(),
            texts(parts@) == split_of(list@, ','),
            want == column_names(list@),
            out@.len() == i,
            forall|k: int| 0 <= k < i ==> (#[trigger] out@[k])@ == want[k],
        decreases parts.len() - i,
    {
        proof {
            assert(texts(parts@)[i as int] == parts@[i as int]@);
        }
        out.push(trim(parts[i].as_str()));
        i += 1;
    }
    proof {
        assert(texts(out@) =~= want);
    }
    out
}

/// The query of `prompts list`, or what is wrong with its arguments.
pub fn list_query(args: &[String]) -> (r: Result<String, String>)
    ensures
        match r {
            Ok(sql) => list_query_of(texts(args@)) == Ok::<Seq<char>, Seq<char>>(sql@),
            Err(e) => list_query_of(texts(args@)) == Err::<Seq<char>, Seq<char>>(e@),
        },
{
    let ghost ts = texts(args@);
    let mut columns: Option<String> = None;
    let mut i: usize = 0;
    while i < args.len()
        invariant
            i <= args@.len(),
            ts == texts(args@),
            columns_scan(ts, i as int, opt_view(columns)) == columns_scan(ts, 0, None),
        decreases args.len() - i,
    {
        let last = args.len() - i < 2;
        proof {
            assert(ts[i as int] == args@[i as int]@);
            if !last {
                assert(ts[i + 1] == args@[i + 1]@);
            }
        }
        if !str_eq(args[i].as_str(), "--columns") {
            return Err(concat("Unknown option: ", args[i].as_str()));
        }
        if last {
            return Err("Error: --columns requires a value".to_owned());
        }
        let names = trimmed_names(args[i + 1].as_str());
        columns = Some(join(names.as_slice(), ", "));
        i += 2;
    }
    let list = match columns {
        Some(c) => c,
        None =>
            "seq_id, tool, model, human_author, commit_sha, total_additions, total_deletions, accepted_lines, overridden_lines, accepted_rate, (last_time - start_time) AS duration".to_owned(),
    };
    let mut sql = concat("SELECT ", list.as_str());
    sql.append(" FROM prompts ORDER BY seq_id ASC");
    Ok(sql)
}

/// A text with its ASCII letters in upper case.
pub open spec fn ascii_upper_of(s: Seq<char>) -> Seq<char> {
    Seq::new(
        s.len(),
        |i: int|
            if 'a' <= s[i] <= 'z' {
                (s[i] as int - 32) as char
            } else {
                s[i]
            },
    )
}

/// What `str::to_uppercase` makes of a text.
pub uninterp spec fn uppercase_of(s: Seq<char>) -> Seq<char>;

/// `str::to_uppercase`: the text in upper case, as Unicode has it. An ASCII text gets
/// its ASCII letters in upper case.
#[verifier::external_body]
pub(crate) fn to_uppercase(s: &str) -> (r: String)
    ensures
        r@ == uppercase_of(s@),
        is_ascii_chars(s@) ==> r@ == ascii_upper_of(s@),
{
    s.to_uppercase()
}

/// Whether a statement in upper case asks for rows.
pub fn asks_for_rows(upper: &str) -> (r: bool)
    ensures
        r == has_prefix(upper@, "SELECT"@),
{
    starts_with(upper, "SELECT")
}

/// Whether a statement asks for rows.
pub fn is_select(sql: &str) -> (r: bool)
    ensures
        r == has_prefix(uppercase_of(trimmed(sql@)), "SELECT"@),
        is_ascii_chars(trimmed(sql@)) ==> r == has_prefix(
            ascii_upper_of(trimmed(sql@)),
            "SELECT"@,
        ),
{
    asks_for_rows(to_uppercase(trim(sql).as_str()).as_str())
}

/// A value of the database. A number with a fraction is held as its text.
pub enum SqlValue {
    Null,
    Integer(i64),
    Real(String),
    Text(String),
    /// The number of bytes.
    Blob(usize),
}

/// A text in which tabs and line ends are written out.
pub open spec fn tsv_escaped(s: Seq<char>) -> Seq<char>
    decreases s.len(),
{
    if s.len() == 0 {
        Seq::empty()
    } else {
        let before = tsv_escaped(s.drop_last());
        if s.last() == '\t' {
            before + "\\t"@
        } else if s.last() == '\n' {
            before + "\\n"@
        } else {
            before.push(s.last())
        }
    }
}

/// How a value of the database is shown.
pub open spec fn value_text(v: SqlValue) -> Seq<char> {
    match v {
        SqlValue::Null => "NULL"@,
        SqlValue::Integer(n) => signed_decimal_of(n as int),
        SqlValue::Real(s) => s@,
        SqlValue::Text(s) => tsv_escaped(s@),
        SqlValue::Blob(n) => "<blob "@ + decimal_of(n as nat) + " bytes>"@,
    }
}

fn escape_tsv(s: &str) -> (r: String)
    ensures
        r@ == tsv_escaped(s@),
{
    let v = chars_of(s);
    let mut out = String::new();
    let mut i: usize = 0;
    proof {
        assert(s@.take(0) =~= Seq::empty());
        assert(out@ =~= Seq::empty());
    }
    while i < v.len()
        invariant
            i <= v@.len(),
            v@ == s@,
            out@ == tsv_escaped(s@.take(i as int)),
        decreases v.len() - i,
    {
        proof {
            assert(s@.take(i + 1).drop_last() =~= s@.take(i as int));
            assert(s@.take(i + 1).last() == v@[i as int]);
        }
        if v[i] == '\t' {
            out.append("\\t");
        } else if v[i] == '\n' {
            out.append("\\n");
        } else {
            out.push(v[i]);
        }
        i += 1;
    }
    proof {
        assert(s@.take(s@.len() as int) =~= s@);
    }
    out
}

/// How a value of the database is shown.
pub fn format_value(v: &SqlValue) -> (r: String)
    ensures
        r@ == value_text(*v),
{
    match v {
        SqlValue::Null => "NULL".to_owned(),
        SqlValue::Integer(n) => signed_decimal(*n),
        SqlValue::Real(s) => s.clone(),
        SqlValue::Text(s) => escape_tsv(s.as_str()),
        SqlValue::Blob(n) => {
            let mut m = concat("<blob ", decimal(*n as u64).as_str());
            m.append(" bytes>");
            m
        },
    }
}

/// A value that is shown takes one cell of one line: it holds no tab and no line end,
/// where numbers hold none.
pub proof fn law_shown_text_is_one_cell(s: Seq<char>, i: int)
    requires
        0 <= i < tsv_escaped(s).len(),
    ensures
        tsv_escaped(s)[i] != '\t',
        tsv_escaped(s)[i] != '\n',
    decreases s.len(),
{
    reveal_strlit("\\t");
    reveal_strlit("\\n");
    if s.len() > 0 {
        let before = tsv_escaped(s.drop_last());
        if i < before.len() {
            law_shown_text_is_one_cell(s.drop_last(), i);
        }
    }
}

// ----------------------------------------------------------------------- what git prints

/// A pair of texts.
pub struct Pair {
    pub first: String,
    pub second: String,
}

impl View for Pair {
    type V = (Seq<char>, Seq<char>);

    open spec fn view(&self) -> (Seq<char>, Seq<char>) {
        (self.first@, self.second@)
    }
}

/// The commits that lines name.
pub open spec fn commits_in(lines: Seq<Seq<char>>) -> Seq<Seq<char>>
    decreases lines.len(),
{
    if lines.len() == 0 {
        Seq::empty()
    } else {
        let before = commits_in(lines.drop_last());
        if lines.last().len() == 0 {
            before
        } else {
            before.push(lines.last())
        }
    }
}

/// The commits that `git rev-list` prints.
pub fn reachable_commits(stdout: &str) -> (r: Vec<String>)
    ensures
        texts(r@) == commits_in(lines_of(stdout@)),
{
    broadcast use lemma_texts_push;

    let all = lines(stdout);
    let ghost ls = texts(all@);
    let mut out: Vec<String> = Vec::new();
    let mut i: usize = 0;
    proof {
        assert(ls.take(0) =~= Seq::empty());
        assert(texts(out@) =~= Seq::empty());
    }
    while i < all.len()
        invariant
            i <= all@.len(),
            ls == texts(all@),
            texts(out@) == commits_in(ls.take(i as int)),
        decreases all.len() - i,
    {
        proof {
            assert(ls.take(i + 1).drop_last() =~= ls.take(i as int));
            assert(ls.take(i + 1).last() == all@[i as int]@);
        }
        if !all[i].as_str().is_empty() {
            out.push(all[i].clone());
        }
        i += 1;
    }
    proof {
        assert(ls.take(ls.len() as int) =~= ls);
    }
    out
}

/// The commit and its date, in seconds, that a line gives.
pub open spec fn commit_date_of(line: Seq<char>) -> Option<(Seq<char>, i64)> {
    match split_once_of(line, " "@) {
        Some(parts) => match signed_of(trimmed(parts.1)) {
            Some(n) => Some((parts.0, n as i64)),
            None => None,
        },
        None => None,
    }
}

/// The dates of commits that lines give. Lines that give none are passed over.
pub open spec fn commit_dates_of(lines: Seq<Seq<char>>) -> Map<Seq<char>, i64>
    decreases lines.len(),
{
    if lines.len() == 0 {
        Map::empty()
    } else {
        let before = commit_dates_of(lines.drop_last());
        match commit_date_of(lines.last()) {
            Some(d) => before.insert(d.0, d.1),
            None => before,
        }
    }
}

/// The dates of commits that `git show` prints.
pub fn commit_dates(stdout: &str) -> (r: TextMap<i64>)
    ensures
        r@ == commit_dates_of(lines_of(stdout@)),
{
    let all = lines(stdout);
    let ghost ls = texts(all@);
    let mut out: TextMap<i64> = TextMap::new();
    let mut i: usize = 0;
    proof {
        assert(ls.take(0) =~= Seq::empty());
    }
    while i < all.len()
        invariant
            i <= all@.len(),
            ls == texts(all@),
            out@ == commit_dates_of(ls.take(i as int)),
        decreases all.len() - i,
    {
        proof {
            assert(ls.take(i + 1).drop_last() =~= ls.take(i as int));
            assert(ls.take(i + 1).last() == all@[i as int]@);
        }
        if let Some((sha, ts)) = split_once(all[i].as_str(), " ") {
            if let Some(n) = parse_i64(trim(ts.as_str()).as_str()) {
                out.insert(sha, n);
            }
        }
        i += 1;
    }
    proof {
        assert(ls.take(ls.len() as int) =~= ls);
    }
    out
}

/// The notes that lines name: the note, and the commit that it belongs to.
pub open spec fn notes_of(lines: Seq<Seq<char>>) -> Seq<(Seq<char>, Seq<char>)>
    decreases lines.len(),
{
    if lines.len() == 0 {
        Seq::empty()
    } else {
        let before = notes_of(lines.drop_last());
        let parts = words_of(lines.last());
        if parts.len() >= 2 {
            before.push((parts[0], parts[1]))
        } else {
            before
        }
    }
}

/// The notes that `git notes list` prints.
pub fn notes_list(stdout: &str) -> (r: Vec<Pair>)
    ensures
        views(r@) == notes_of(lines_of(stdout@)),
{
    let all = lines(stdout);
    let ghost ls = texts(all@);
    let mut out: Vec<Pair> = Vec::new();
    let mut i: usize = 0;
    proof {
        assert(ls.take(0) =~= Seq::empty());
        assert(views(out@) =~= Seq::empty());
    }
    while i < all.len()
        invariant
            i <= all@.len(),
            ls == texts(all@),
            views(out@) == notes_of(ls.take(i as int)),
        decreases all.len() - i,
    {
        proof {
            assert(ls.take(i + 1).drop_last() =~= ls.take(i as int));
            assert(ls.take(i + 1).last() == all@[i as int]@);
        }
        let parts = words(all[i].as_str());
        if parts.len() >= 2 {
            proof {
                assert(texts(parts@)[0] == parts@[0]@);
                assert(texts(parts@)[1] == parts@[1]@);
            }
            let pair = Pair { first: parts[0].clone(), second: parts[1].clone() };
            let ghost before = out@;
            out.push(pair);
            proof {
                lemma_views_push(before, pair);
            }
        }
        i += 1;
    }
    proof {
        assert(ls.take(ls.len() as int) =~= ls);
    }
    out
}

/// The place of the first line end from a place on; the length where there is none.
pub open spec fn line_end(data: Seq<u8>, i: int) -> int
    decreases data.len() - i,
{
    if i < 0 || i >= data.len() {
        data.len() as int
    } else if data[i] == 10 {
        i
    } else {
        line_end(data, i + 1)
    }
}

/// The size of the object that a header announces; none where it announces none.
pub open spec fn object_size_of(header: Seq<u8>) -> Option<nat> {
    if !valid_utf8(header) {
        None
    } else {
        let parts = words_of(decode_utf8(header));
        if parts.len() < 3 || parts[1] == "missing"@ {
            None
        } else {
            unsigned_of(parts[2], usize::MAX as nat)
        }
    }
}

/// The texts of the objects that `git cat-file --batch` prints from a place on. A
/// header that announces no object is passed over, and so is an object that is no text;
/// one that is cut short ends the list.
pub open spec fn objects_from(data: Seq<u8>, pos: int) -> Seq<Seq<char>>
    decreases data.len() - pos + 1,
{
    let end = line_end(data, pos);
    if pos < 0 || pos >= data.len() || end < pos || end >= data.len() {
        Seq::empty()
    } else {
        match object_size_of(data.subrange(pos, end)) {
            None => objects_from(data, end + 1),
            Some(size) => {
                let start = end + 1;
                if start + size > data.len() {
                    Seq::empty()
                } else {
                    let rest = objects_from(data, start + size as int + 1);
                    let body = data.subrange(start, start + size as int);
                    if valid_utf8(body) {
                        seq![decode_utf8(body)] + rest
                    } else {
                        rest
                    }
                }
            },
        }
    }
}

fn find_line_end(data: &[u8], from: usize) -> (r: usize)
    requires
        from <= data@.len(),
    ensures
        r == line_end(data@, from as int),
        from <= r <= data@.len(),
        r < data@.len() ==> data@[r as int] == 10,
{
    let mut i: usize = from;
    while i < data.len()
        invariant
            from <= i <= data@.len(),
            line_end(data@, i as int) == line_end(data@, from as int),
        decreases data.len() - i,
    {
        if data[i] == 10 {
            return i;
        }
        i += 1;
    }
    i
}

fn copy_bytes(data: &[u8], from: usize, to: usize) -> (r: Vec<u8>)
    requires
        from <= to <= data@.len(),
    ensures
        r@ == data@.subrange(from as int, to as int),
{
    let mut out: Vec<u8> = Vec::new();
    let mut i: usize = from;
    proof {
        assert(out@ =~= data@.subrange(from as int, from as int));
    }
    while i < to
        invariant
            from <= i <= to <= data@.len(),
            out@ == data@.subrange(from as int, i as int),
        decreases to - i,
    {
        out.push(data[i]);
        proof {
            assert(data@.subrange(from as int, i + 1) =~= data@.subrange(from as int, i as int).push(
                data@[i as int],
            ));
        }
        i += 1;
    }
    out
}

fn object_size(header: &Vec<u8>) -> (r: Option<usize>)
    ensures
        match r {
            Some(n) => object_size_of(header@) == Some(n as nat),
            None => object_size_of(header@) is None,
        },
{
    let text = match utf8_text(header.as_slice()) {
        Some(t) => t,
        None => {
            return None;
        },
    };
    let parts = words(text.as_str());
    if parts.len() < 3 {
        return None;
    }
    proof {
        assert(texts(parts@)[1] == parts@[1]@);
        assert(texts(parts@)[2] == parts@[2]@);
    }
    if str_eq(parts[1].as_str(), "missing") {
        return None;
    }
    parse_usize(parts[2].as_str())
}

/// The texts of the objects that `git cat-file --batch` prints.
pub fn parse_cat_file_batch_output(data: &[u8]) -> (r: Vec<String>)
    ensures
        texts(r@) == objects_from(data@, 0),
{
    broadcast use lemma_texts_push;

    let ghost d = data@;
    let mut out: Vec<String> = Vec::new();
    let mut pos: usize = 0;
    proof {
        assert(texts(out@) + objects_from(d, 0) =~= objects_from(d, 0));
    }
    while pos < data.len()
        invariant
            d == data@,
            texts(out@) + objects_from(d, pos as int) == objects_from(d, 0),
        decreases data@.len() + 1 - pos,
    {
        let end = find_line_end(data, pos);
        if end >= data.len() {
            proof {
                assert(objects_from(d, pos as int) =~= Seq::empty());
                assert(texts(out@) + Seq::<Seq<char>>::empty() =~= texts(out@));
            }
            return out;
        }
        let header = copy_bytes(data, pos, end);
        match object_size(&header) {
            None => {
                pos = end + 1;
            },
            Some(size) => {
                let start: usize = end + 1;
                if size > data.len() - start {
                    proof {
                        assert(objects_from(d, pos as int) =~= Seq::empty());
                        assert(texts(out@) + Seq::<Seq<char>>::empty() =~= texts(out@));
                    }
                    return out;
                }
                let stop: usize = start + size;
                let body = copy_bytes(data, start, stop);
                let ghost before = texts(out@);
                let ghost rest = objects_from(d, stop + 1);
                if let Some(text) = utf8_text(body.as_slice()) {
                    let ghost tv = text@;
                    out.push(text);
                    proof {
                        assert(before.push(tv) + rest =~= before + (seq![tv] + rest));
                    }
                }
                if stop == data.len() {
                    proof {
                        assert(rest =~= Seq::empty());
                        assert(texts(out@) + Seq::<Seq<char>>::empty() =~= texts(out@));
                    }
                    return out;
                }
                pos = stop + 1;
            },
        }
    }
    proof {
        assert(objects_from(d, pos as int) =~= Seq::empty());
        assert(texts(out@) + Seq::<Seq<char>>::empty() =~= texts(out@));
    }
    out
}

/// An object as `git cat-file --batch` prints it: its name, its type and its text.
pub struct PrintedObject {
    pub name: Seq<char>,
    pub kind: Seq<char>,
    pub text: Seq<char>,
}

/// Whether a text is one word of ASCII characters.
pub open spec fn is_word(s: Seq<char>) -> bool {
    &&& s.len() > 0
    &&& is_ascii_chars(s)
    &&& forall|i: int| 0 <= i < s.len() ==> !is_space(#[trigger] s[i])
}

/// Whether an object's header can be told from that of one that is missing, and a size
/// can hold how long it is.
pub open spec fn is_printable(o: PrintedObject) -> bool {
    &&& is_word(o.name)
    &&& is_word(o.kind)
    &&& o.kind != "missing"@
    &&& encode_utf8(o.text).len() <= usize::MAX
}

/// The line that goes before an object: its name, its type and its size.
pub open spec fn header_of(o: PrintedObject) -> Seq<char> {
    o.name + seq![' '] + o.kind + seq![' '] + decimal_of(encode_utf8(o.text).len())
}

/// What `git cat-file --batch` prints of some objects.
pub open spec fn printed(objects: Seq<PrintedObject>) -> Seq<u8>
    decreases objects.len(),
{
    if objects.len() == 0 {
        Seq::empty()
    } else {
        let o = objects[0];
        encode_utf8(header_of(o)) + seq![10u8] + encode_utf8(o.text) + seq![10u8] + printed(
            objects.drop_first(),
        )
    }
}

/// The texts of some objects.
pub open spec fn object_texts(objects: Seq<PrintedObject>) -> Seq<Seq<char>> {
    objects.map_values(|o: PrintedObject| o.text)
}

proof fn lemma_line_end(data: Seq<u8>, from: int, to: int)
    requires
        0 <= from <= to < data.len(),
        data[to] == 10,
        forall|k: int| from <= k < to ==> #[trigger] data[k] != 10,
    ensures
        line_end(data, from) == to,
    decreases to - from,
{
    if from < to {
        assert(data[from] != 10);
        lemma_line_end(data, from + 1, to);
    }
}

proof fn lemma_three_words(a: Seq<char>, b: Seq<char>, c: Seq<char>)
    requires
        is_word(a),
        is_word(b),
        is_word(c),
    ensures
        words_of(a + seq![' '] + b + seq![' '] + c) == seq![a, b, c],
{
    let none = Seq::<char>::empty();
    let one = a + seq![' '];
    let two = one + b + seq![' '];
    lemma_scan_word(none, a);
    assert(none + a =~= a);
    lemma_scan_space(a);
    lemma_scan_word(one, b);
    assert(none + b =~= b);
    lemma_scan_space(one + b);
    lemma_scan_word(two, c);
    assert(none + c =~= c);
    assert(words_of(two + c) =~= seq![a, b, c]);
}

proof fn lemma_decimal_is_word(n: nat)
    ensures
        is_word(decimal_of(n)),
{
    law_decimal_reads_back(n);
    let t = decimal_of(n);
    assert forall|i: int| 0 <= i < t.len() implies !is_space(#[trigger] t[i]) && '\0' <= t[i]
        <= '\u{7f}' by {
        assert(is_digit(t[i]));
    }
}

/// The header of an object tells its size, and is one line.
proof fn lemma_header(o: PrintedObject)
    requires
        is_printable(o),
    ensures
        object_size_of(encode_utf8(header_of(o))) == Some(encode_utf8(o.text).len()),
        forall|i: int|
            0 <= i < encode_utf8(header_of(o)).len() ==> #[trigger] encode_utf8(header_of(o))[i]
                != 10,
{
    let size = encode_utf8(o.text).len();
    let header = header_of(o);
    lemma_decimal_is_word(size);
    lemma_three_words(o.name, o.kind, decimal_of(size));
    law_decimal_reads_back(size);
    encode_utf8_valid_utf8(header);
    encode_utf8_decode_utf8(header);
    assert forall|i: int| 0 <= i < header.len() implies '\0' <= #[trigger] header[i] <= '\u{7f}'
        && header[i] != '\n' by {
        let n = o.name.len();
        let k = o.kind.len();
        if i < n {
            assert(header[i] == o.name[i]);
            assert(!is_space(o.name[i]));
        } else if i > n && i < n + 1 + k {
            assert(header[i] == o.kind[i - n - 1]);
            assert(!is_space(o.kind[i - n - 1]));
        } else if i > n + 1 + k {
            let at = i - n - k - 2;
            assert(header[i] == decimal_of(size)[at]);
            assert(!is_space(decimal_of(size)[at]));
        }
    }
    is_ascii_chars_encode_utf8(header);
    assert forall|i: int| 0 <= i < encode_utf8(header).len() implies #[trigger] encode_utf8(
        header,
    )[i] != 10 by {
        assert(header[i] as u8 == encode_utf8(header)[i]);
    }
}

proof fn lemma_printed_objects(before: Seq<u8>, objects: Seq<PrintedObject>)
    requires
        forall|i: int| 0 <= i < objects.len() ==> is_printable(#[trigger] objects[i]),
    ensures
        objects_from(before + printed(objects), before.len() as int) == object_texts(objects),
    decreases objects.len(),
{
    let data = before + printed(objects);
    let pos = before.len() as int;
    if objects.len() == 0 {
        assert(objects_from(data, pos) =~= object_texts(objects));
    } else {
        let o = objects[0];
        let rest = objects.drop_first();
        let header = encode_utf8(header_of(o));
        let body = encode_utf8(o.text);
        let through = before + header + seq![10u8] + body + seq![10u8];
        assert forall|i: int| 0 <= i < rest.len() implies is_printable(#[trigger] rest[i]) by {
            assert(rest[i] == objects[i + 1]);
        }
        assert(is_printable(objects[0]));
        assert(data =~= through + printed(rest));
        lemma_printed_objects(through, rest);
        lemma_header(o);
        let end = pos + header.len();
        assert forall|k: int| pos <= k < end implies #[trigger] data[k] != 10 by {
            assert(data[k] == header[k - pos]);
        }
        assert(data[end] == 10);
        lemma_line_end(data, pos, end);
        assert(data.subrange(pos, end) =~= header);
        let start = end + 1;
        let stop = start + body.len();
        assert(data.subrange(start, stop) =~= body);
        assert(through.len() == stop + 1);
        encode_utf8_valid_utf8(o.text);
        encode_utf8_decode_utf8(o.text);
        assert(objects_from(data, pos) == seq![o.text] + objects_from(data, stop + 1));
        assert(seq![o.text] + object_texts(rest) =~= object_texts(objects));
    }
}

/// What git prints of objects reads back: the texts of all of them, in order, whatever
/// characters and line ends they hold.
pub proof fn law_printed_objects_read_back(objects: Seq<PrintedObject>)
    requires
        forall|i: int| 0 <= i < objects.len() ==> is_printable(#[trigger] objects[i]),
    ensures
        objects_from(printed(objects), 0) == object_texts(objects),
{
    lemma_printed_objects(Seq::empty(), objects);
    assert(Seq::<u8>::empty() + printed(objects) =~= printed(objects));
}

// ------------------------------------------------------------------------------- notes

/// The notes whose commits can be reached.
pub open spec fn live_of(notes: Seq<(Seq<char>, Seq<char>)>, reachable: Seq<Seq<char>>) -> Seq<
    (Seq<char>, Seq<char>),
>
    decreases notes.len(),
{
    if notes.len() == 0 {
        Seq::empty()
    } else {
        let before = live_of(notes.drop_last(), reachable);
        if reachable.contains(notes.last().1) {
            before.push(notes.last())
        } else {
            before
        }
    }
}

/// A note counts exactly where its commit can be reached.
pub proof fn law_orphaned_notes_do_not_count(
    notes: Seq<(Seq<char>, Seq<char>)>,
    reachable: Seq<Seq<char>>,
    note: (Seq<char>, Seq<char>),
)
    ensures
        live_of(notes, reachable).contains(note) <==> notes.contains(note) && reachable.contains(
            note.1,
        ),
    decreases notes.len(),
{
    if notes.len() > 0 {
        let front = notes.drop_last();
        let before = live_of(front, reachable);
        let now = live_of(notes, reachable);
        law_orphaned_notes_do_not_count(front, reachable, note);
        assert(notes[notes.len() - 1] == notes.last());
        if front.contains(note) {
            assert(notes[front.index_of(note)] == note);
        }
        if notes.contains(note) && note != notes.last() {
            assert(front[notes.index_of(note)] == note);
        }
        if before.contains(note) {
            assert(now[before.index_of(note)] == note);
        }
        if now.contains(note) && !before.contains(note) {
            let k = now.index_of(note);
            if k < before.len() {
                assert(before[k] == note);
            }
        }
        if reachable.contains(notes.last().1) {
            assert(now.last() == notes.last());
        }
    }
}

/// The notes whose commits can be reached: those that a squash or a rebase left behind
/// do not count.
pub fn live_notes(notes: &Vec<Pair>, reachable: &[String]) -> (r: Vec<Pair>)
    ensures
        views(r@) == live_of(views(notes@), texts(reachable@)),
{
    let ghost all = views(notes@);
    let mut out: Vec<Pair> = Vec::new();
    let mut i: usize = 0;
    proof {
        assert(all.take(0) =~= Seq::empty());
        assert(views(out@) =~= Seq::empty());
    }
    while i < notes.len()
        invariant
            i <= notes@.len(),
            all == views(notes@),
            views(out@) == live_of(all.take(i as int), texts(reachable@)),
        decreases notes.len() - i,
    {
        proof {
            assert(all.take(i + 1).drop_last() =~= all.take(i as int));
            assert(all.take(i + 1).last() == notes@[i as int]@);
        }
        if list_contains(reachable, notes[i].second.as_str()) {
            let pair = Pair { first: notes[i].first.clone(), second: notes[i].second.clone() };
            let ghost before = out@;
            out.push(pair);
            proof {
                lemma_views_push(before, pair);
            }
        }
        i += 1;
    }
    proof {
        assert(all.take(all.len() as int) =~= all);
    }
    out
}

/// The commits of notes, each once, in the order in which they occur first.
pub open spec fn distinct_commits_of(notes: Seq<(Seq<char>, Seq<char>)>) -> Seq<Seq<char>>
    decreases notes.len(),
{
    if notes.len() == 0 {
        Seq::empty()
    } else {
        let before = distinct_commits_of(notes.drop_last());
        if before.contains(notes.last().1) {
            before
        } else {
            before.push(notes.last().1)
        }
    }
}

/// The commits of notes, each once.
pub fn unique_commits(notes: &Vec<Pair>) -> (r: Vec<String>)
    ensures
        texts(r@) == distinct_commits_of(views(notes@)),
{
    broadcast use lemma_texts_push;

    let ghost all = views(notes@);
    let mut out: Vec<String> = Vec::new();
    let mut i: usize = 0;
    proof {
        assert(all.take(0) =~= Seq::empty());
        assert(texts(out@) =~= Seq::empty());
    }
    while i < notes.len()
        invariant
            i <= notes@.len(),
            all == views(notes@),
            texts(out@) == distinct_commits_of(all.take(i as int)),
        decreases notes.len() - i,
    {
        proof {
            assert(all.take(i + 1).drop_last() =~= all.take(i as int));
            assert(all.take(i + 1).last() == notes@[i as int]@);
        }
        if !list_contains(out.as_slice(), notes[i].second.as_str()) {
            out.push(notes[i].second.clone());
        }
        i += 1;
    }
    proof {
        assert(all.take(all.len() as int) =~= all);
    }
    out
}

// ---------------------------------------------------------------------------- the latest

/// A prompt in a note: its name, and what the note records of it.
pub struct NotePrompt {
    pub hash: String,
    pub record: PromptRecord,
}

/// Where a prompt stands, and the date of the commit.
#[derive(Clone, Copy, PartialEq, Eq, Structural, Debug)]
pub struct Pick {
    /// The place of the note.
    pub note: usize,
    /// The place of the prompt in the note.
    pub entry: usize,
    pub date: i64,
}

/// The names of the prompts in a note.
pub open spec fn hashes_of(entries: Seq<NotePrompt>) -> Seq<Seq<char>> {
    Seq::new(entries.len(), |i: int| entries[i].hash@)
}

/// The names of the prompts in notes; none for a note that cannot be read.
pub open spec fn logs_view(logs: Seq<Option<Vec<NotePrompt>>>) -> Seq<Option<Seq<Seq<char>>>> {
    Seq::new(
        logs.len(),
        |i: int|
            match logs[i] {
                Some(v) => Some(hashes_of(v@)),
                None => None,
            },
    )
}

/// Where each prompt stands, by its name, with one more place: the later commit counts,
/// and of two with one date the first.
pub open spec fn with_pick(picks: Map<Seq<char>, Pick>, hash: Seq<char>, pick: Pick) -> Map<
    Seq<char>,
    Pick,
> {
    if picks.dom().contains(hash) && picks[hash].date >= pick.date {
        picks
    } else {
        picks.insert(hash, pick)
    }
}

/// Where each prompt stands, with the first prompts of a note.
pub open spec fn with_entries(
    picks: Map<Seq<char>, Pick>,
    hashes: Seq<Seq<char>>,
    note: nat,
    date: i64,
    n: nat,
) -> Map<Seq<char>, Pick>
    decreases n,
{
    if n == 0 {
        picks
    } else {
        with_pick(
            with_entries(picks, hashes, note, date, (n - 1) as nat),
            hashes[n - 1],
            Pick { note: note as usize, entry: (n - 1) as usize, date },
        )
    }
}

/// Where each prompt stands, among the first notes. A note counts where the date of its
/// commit is known and it can be read.
pub open spec fn best_of(
    notes: Seq<(Seq<char>, Seq<char>)>,
    dates: Map<Seq<char>, i64>,
    logs: Seq<Option<Seq<Seq<char>>>>,
    n: nat,
) -> Map<Seq<char>, Pick>
    decreases n,
{
    if n == 0 {
        Map::empty()
    } else {
        let before = best_of(notes, dates, logs, (n - 1) as nat);
        let commit = notes[n - 1].1;
        if dates.dom().contains(commit) && logs[n - 1] is Some {
            with_entries(
                before,
                logs[n - 1]->0,
                (n - 1) as nat,
                dates[commit],
                logs[n - 1]->0.len(),
            )
        } else {
            before
        }
    }
}

fn add_entries(
    picks: &mut TextMap<Pick>,
    entries: &Vec<NotePrompt>,
    note: usize,
    date: i64,
)
    ensures
        final(picks)@ == with_entries(
            old(picks)@,
            hashes_of(entries@),
            note as nat,
            date,
            entries@.len(),
        ),
{
    let ghost start = picks@;
    let ghost hs = hashes_of(entries@);
    let mut i: usize = 0;
    while i < entries.len()
        invariant
            i <= entries@.len(),
            hs == hashes_of(entries@),
            picks@ == with_entries(start, hs, note as nat, date, i as nat),
        decreases entries.len() - i,
    {
        proof {
            assert(hs[i as int] == entries@[i as int].hash@);
        }
        let keep = match picks.get(entries[i].hash.as_str()) {
            Some(p) => p.date >= date,
            None => false,
        };
        if !keep {
            picks.insert(entries[i].hash.clone(), Pick { note, entry: i, date });
        }
        i += 1;
    }
}

/// Where each prompt stands among notes and what was read of them: in the note of the
/// latest commit.
pub fn best_prompts(
    notes: &Vec<Pair>,
    dates: &TextMap<i64>,
    logs: &Vec<Option<Vec<NotePrompt>>>,
) -> (r: TextMap<Pick>)
    ensures
        r@ == best_of(
            views(notes@),
            dates@,
            logs_view(logs@),
            read_notes(notes@.len(), logs@.len()),
        ),
{
    let n: usize = if notes.len() <= logs.len() {
        notes.len()
    } else {
        logs.len()
    };
    let ghost ns = views(notes@);
    let ghost ls = logs_view(logs@);
    let mut picks: TextMap<Pick> = TextMap::new();
    let mut i: usize = 0;
    while i < n
        invariant
            i <= n <= notes@.len(),
            n <= logs@.len(),
            ns == views(notes@),
            ls == logs_view(logs@),
            picks@ == best_of(ns, dates@, ls, i as nat),
        decreases n - i,
    {
        proof {
            assert(ns[i as int] == notes@[i as int]@);
        }
        if let Some(date) = dates.get(notes[i].second.as_str()) {
            if let Some(entries) = &logs[i] {
                proof {
                    assert(ls[i as int] == Some(hashes_of(entries@)));
                    assert(hashes_of(entries@).len() == entries@.len());
                }
                add_entries(&mut picks, entries, i, *date);
            }
        }
        i += 1;
    }
    picks
}

proof fn lemma_entries_keep_later(
    picks: Map<Seq<char>, Pick>,
    hashes: Seq<Seq<char>>,
    note: nat,
    date: i64,
    n: nat,
    hash: Seq<char>,
)
    requires
        picks.dom().contains(hash),
    ensures
        with_entries(picks, hashes, note, date, n).dom().contains(hash),
        with_entries(picks, hashes, note, date, n)[hash].date >= picks[hash].date,
    decreases n,
{
    if n > 0 {
        lemma_entries_keep_later(picks, hashes, note, date, (n - 1) as nat, hash);
    }
}

proof fn lemma_entry_counts(
    picks: Map<Seq<char>, Pick>,
    hashes: Seq<Seq<char>>,
    note: nat,
    date: i64,
    n: nat,
    j: int,
)
    requires
        0 <= j < n <= hashes.len(),
    ensures
        with_entries(picks, hashes, note, date, n).dom().contains(hashes[j]),
        with_entries(picks, hashes, note, date, n)[hashes[j]].date >= date,
    decreases n,
{
    if j < n - 1 {
        lemma_entry_counts(picks, hashes, note, date, (n - 1) as nat, j);
    }
}

/// A prompt is taken from the latest commit that has it: no note that counts is of a
/// later one.
pub proof fn law_pick_is_latest(
    notes: Seq<(Seq<char>, Seq<char>)>,
    dates: Map<Seq<char>, i64>,
    logs: Seq<Option<Seq<Seq<char>>>>,
    n: nat,
    i: int,
    j: int,
)
    requires
        0 <= i < n,
        dates.dom().contains(notes[i].1),
        logs[i] is Some,
        0 <= j < logs[i]->0.len(),
    ensures
        best_of(notes, dates, logs, n).dom().contains(logs[i]->0[j]),
        best_of(notes, dates, logs, n)[logs[i]->0[j]].date >= dates[notes[i].1],
    decreases n,
{
    let before = best_of(notes, dates, logs, (n - 1) as nat);
    let hash = logs[i]->0[j];
    if i < n - 1 {
        law_pick_is_latest(notes, dates, logs, (n - 1) as nat, i, j);
        if dates.dom().contains(notes[n - 1].1) && logs[n - 1] is Some {
            lemma_entries_keep_later(
                before,
                logs[n - 1]->0,
                (n - 1) as nat,
                dates[notes[n - 1].1],
                logs[n - 1]->0.len(),
                hash,
            );
        }
    } else {
        lemma_entry_counts(
            before,
            logs[i]->0,
            (n - 1) as nat,
            dates[notes[i].1],
            logs[i]->0.len(),
            j,
        );
    }
}

/// Whether a prompt is kept: its commit is recent enough, and its author is the one that
/// is asked for.
pub open spec fn is_kept(
    date: i64,
    since: i64,
    author: Option<Seq<char>>,
    human_author: Option<Seq<char>>,
) -> bool {
    date >= since && match author {
        Some(a) => human_author is Some && find_of(human_author->0, a) is Some,
        None => true,
    }
}

/// Whether a prompt is kept.
pub fn keeps_prompt(
    date: i64,
    since: i64,
    author: &Option<String>,
    human_author: &Option<String>,
) -> (r: bool)
    ensures
        r == is_kept(date, since, opt_view(*author), opt_view(*human_author)),
{
    if date < since {
        return false;
    }
    match author {
        None => true,
        Some(a) => match human_author {
            Some(h) => contains(h.as_str(), a.as_str()),
            None => false,
        },
    }
}

/// Where the messages of a prompt come from.
#[derive(Clone, Copy, PartialEq, Eq, Structural, Debug)]
pub enum MessageSource {
    /// The note itself.
    Note,
    /// The address that the note gives.
    Address,
    /// The local database.
    LocalDatabase,
}

/// Where the messages of a prompt come from: from its note, where they stand there.
pub open spec fn source_of(record: PromptRecord) -> MessageSource {
    if record.messages@.len() > 0 {
        MessageSource::Note
    } else if record.messages_url is Some {
        MessageSource::Address
    } else {
        MessageSource::LocalDatabase
    }
}

/// Where the messages of a prompt come from.
pub fn message_source(record: &PromptRecord) -> (r: MessageSource)
    ensures
        r == source_of(*record),
{
    if record.messages.len() > 0 {
        MessageSource::Note
    } else if record.messages_url.is_some() {
        MessageSource::Address
    } else {
        MessageSource::LocalDatabase
    }
}

/// A prompt that goes into the database: where it stands, and where its messages come
/// from.
pub struct ChosenPrompt {
    pub id: String,
    pub pick: Pick,
    pub source: MessageSource,
}

/// Whether a place is one of a note that was read.
pub open spec fn stands(logs: Seq<Option<Vec<NotePrompt>>>, pick: Pick) -> bool {
    &&& pick.note < logs.len()
    &&& logs[pick.note as int] is Some
    &&& pick.entry < logs[pick.note as int]->0@.len()
}

/// What a note records at a place.
pub open spec fn record_at(logs: Seq<Option<Vec<NotePrompt>>>, pick: Pick) -> PromptRecord {
    logs[pick.note as int]->0@[pick.entry as int].record
}

/// Whether the prompt at a place is kept.
pub open spec fn pick_is_kept(
    logs: Seq<Option<Vec<NotePrompt>>>,
    pick: Pick,
    since: i64,
    author: Option<Seq<char>>,
) -> bool {
    is_kept(pick.date, since, author, opt_view(record_at(logs, pick).human_author))
}

/// Whether prompts are those that go into the database: each that is kept, once, at its
/// latest place.
pub open spec fn are_chosen(
    chosen: Seq<ChosenPrompt>,
    best: Map<Seq<char>, Pick>,
    logs: Seq<Option<Vec<NotePrompt>>>,
    since: i64,
    author: Option<Seq<char>>,
) -> bool {
    &&& forall|i: int|
        0 <= i < chosen.len() ==> {
            let c = #[trigger] chosen[i];
            &&& best.dom().contains(c.id@)
            &&& c.pick == best[c.id@]
            &&& pick_is_kept(logs, c.pick, since, author)
            &&& c.source == source_of(record_at(logs, c.pick))
        }
    &&& forall|h: Seq<char>| #[trigger]
        best.dom().contains(h) && pick_is_kept(logs, best[h], since, author) ==> exists|i: int|
            0 <= i < chosen.len() && (#[trigger] chosen[i]).id@ == h
    &&& forall|i: int, j: int|
        0 <= i < j < chosen.len() ==> (#[trigger] chosen[i]).id@ != (#[trigger] chosen[j]).id@
}

/// The number of notes that were read.
pub open spec fn read_notes(notes: nat, logs: nat) -> nat {
    if notes <= logs {
        notes
    } else {
        logs
    }
}

proof fn lemma_entries_stand(
    picks: Map<Seq<char>, Pick>,
    logs: Seq<Option<Vec<NotePrompt>>>,
    note: nat,
    date: i64,
    n: nat,
    hash: Seq<char>,
)
    requires
        note < logs.len(),
        note <= usize::MAX,
        logs[note as int] is Some,
        n <= logs[note as int]->0@.len(),
        forall|h: Seq<char>| #[trigger] picks.dom().contains(h) ==> stands(logs, picks[h]),
        with_entries(picks, hashes_of(logs[note as int]->0@), note, date, n).dom().contains(hash),
    ensures
        stands(logs, with_entries(picks, hashes_of(logs[note as int]->0@), note, date, n)[hash]),
    decreases n,
{
    let hs = hashes_of(logs[note as int]->0@);
    if n > 0 {
        let before = with_entries(picks, hs, note, date, (n - 1) as nat);
        if before.dom().contains(hash) {
            lemma_entries_stand(picks, logs, note, date, (n - 1) as nat, hash);
        }
        assert(logs[note as int]->0.len() <= usize::MAX);
    } else {
        assert(picks.dom().contains(hash));
    }
}

/// The place where a prompt counts is a place of a note that was read.
pub proof fn law_picks_stand_in_notes(
    notes: Seq<(Seq<char>, Seq<char>)>,
    dates: Map<Seq<char>, i64>,
    logs: Seq<Option<Vec<NotePrompt>>>,
    n: nat,
    hash: Seq<char>,
)
    requires
        n <= logs.len() <= usize::MAX,
        best_of(notes, dates, logs_view(logs), n).dom().contains(hash),
    ensures
        stands(logs, best_of(notes, dates, logs_view(logs), n)[hash]),
    decreases n,
{
    if n > 0 {
        let before = best_of(notes, dates, logs_view(logs), (n - 1) as nat);
        assert forall|h: Seq<char>| #[trigger] before.dom().contains(h) implies stands(
            logs,
            before[h],
        ) by {
            law_picks_stand_in_notes(notes, dates, logs, (n - 1) as nat, h);
        }
        let commit = notes[n - 1].1;
        if dates.dom().contains(commit) && logs_view(logs)[n - 1] is Some {
            let entries = logs[n - 1]->0@;
            assert(logs_view(logs)[n - 1] == Some(hashes_of(entries)));
            lemma_entries_stand(
                before,
                logs,
                (n - 1) as nat,
                dates[commit],
                entries.len(),
                hash,
            );
        }
    }
}

/// The prompts that go into the database, of notes and what was read of them: each that
/// is recent enough and by the right author.
pub fn chosen_prompts(
    notes: &Vec<Pair>,
    dates: &TextMap<i64>,
    logs: &Vec<Option<Vec<NotePrompt>>>,
    since: i64,
    author: &Option<String>,
) -> (r: Vec<ChosenPrompt>)
    ensures
        are_chosen(
            r@,
            best_of(
                views(notes@),
                dates@,
                logs_view(logs@),
                read_notes(notes@.len(), logs@.len()),
            ),
            logs@,
            since,
            opt_view(*author),
        ),
{
    let best = best_prompts(notes, dates, logs);
    let ghost who = opt_view(*author);
    let ghost order = best.key_order();
    let n: usize = best.len();
    let mut out: Vec<ChosenPrompt> = Vec::new();
    let mut i: usize = 0;
    let count: usize = logs.len();
    proof {
        assert(logs@.len() == count);
        assert forall|k: int| 0 <= k < order.len() implies best@.dom().contains(
            #[trigger] order[k],
        ) by {
            assert(order.contains(order[k]));
        }
        assert forall|h: Seq<char>| #[trigger] best@.dom().contains(h) implies stands(
            logs@,
            best@[h],
        ) by {
            law_picks_stand_in_notes(
                views(notes@),
                dates@,
                logs@,
                read_notes(notes@.len(), logs@.len()),
                h,
            );
        }
    }
    while i < n
        invariant
            i <= n == order.len(),
            order == best.key_order(),
            order.no_duplicates(),
            who == opt_view(*author),
            forall|h: Seq<char>| #[trigger] best@.dom().contains(h) ==> stands(logs@, best@[h]),
            forall|k: int| 0 <= k < order.len() ==> best@.dom().contains(#[trigger] order[k]),
            forall|a: int|
                0 <= a < out@.len() ==> {
                    let c = #[trigger] out@[a];
                    &&& best@.dom().contains(c.id@)
                    &&& c.pick == best@[c.id@]
                    &&& pick_is_kept(logs@, c.pick, since, who)
                    &&& c.source == source_of(record_at(logs@, c.pick))
                    &&& exists|k: int| 0 <= k < i && #[trigger] order[k] == c.id@
                },
            forall|k: int|
                0 <= k < i && pick_is_kept(logs@, best@[#[trigger] order[k]], since, who)
                    ==> exists|a: int|
                    0 <= a < out@.len() && (#[trigger] out@[a]).id@ == order[k],
            forall|a: int, b: int|
                0 <= a < b < out@.len() ==> (#[trigger] out@[a]).id@ != (#[trigger] out@[b]).id@,
        decreases n - i,
    {
        let id = best.key_at(i);
        let pick = *best.value_at(i);
        proof {
            assert(order[i as int] == id@);
            assert(best@[id@] == pick);
            assert(stands(logs@, pick));
        }
        let ghost before = out@;
        if let Some(entries) = &logs[pick.note] {
            let record = &entries[pick.entry].record;
            if keeps_prompt(pick.date, since, author, &record.human_author) {
                let chosen = ChosenPrompt {
                    id: id.clone(),
                    pick,
                    source: message_source(record),
                };
                out.push(chosen);
                proof {
                    assert(out@ == before.push(chosen));
                    assert(out@[before.len() as int].id@ == order[i as int]);
                    assert forall|a: int| 0 <= a < before.len() implies (#[trigger] out@[a]).id@
                        != id@ by {
                        assert(out@[a] == before[a]);
                        let k = choose|k: int| 0 <= k < i && #[trigger] order[k] == before[a].id@;
                        assert(order[k] != order[i as int]);
                    }
                }
            }
        }
        proof {
            assert forall|k: int|
                0 <= k < i + 1 && pick_is_kept(
                    logs@,
                    best@[#[trigger] order[k]],
                    since,
                    who,
                ) implies exists|a: int|
                0 <= a < out@.len() && (#[trigger] out@[a]).id@ == order[k] by {
                if k < i {
                    let a = choose|a: int|
                        0 <= a < before.len() && (#[trigger] before[a]).id@ == order[k];
                    assert(out@[a] == before[a]);
                } else {
                    assert(out@[before.len() as int].id@ == order[k]);
                }
            }
            assert forall|a: int| 0 <= a < out@.len() implies exists|k: int|
                0 <= k < i + 1 && #[trigger] order[k] == (#[trigger] out@[a]).id@ by {
                if a < before.len() {
                    assert(out@[a] == before[a]);
                    let k = choose|k: int| 0 <= k < i && #[trigger] order[k] == before[a].id@;
                    assert(order[k] == out@[a].id@);
                } else {
                    assert(order[i as int] == out@[a].id@);
                }
            }
        }
        i += 1;
    }
    proof {
        assert forall|h: Seq<char>| #[trigger]
            best@.dom().contains(h) && pick_is_kept(logs@, best@[h], since, who) implies exists|
            a: int,
        |
            0 <= a < out@.len() && (#[trigger] out@[a]).id@ == h by {
            assert(order.contains(h));
            let k = order.index_of(h);
            assert(order[k] == h);
        }
    }
    out
}

/// A row of the database of prompts.
pub struct PromptRow {
    pub id: String,
    pub tool: String,
    pub model: String,
    pub external_thread_id: String,
    pub human_author: Option<String>,
    pub commit_sha: String,
    pub workdir: String,
    pub total_additions: u32,
    pub total_deletions: u32,
    pub accepted_lines: u32,
    pub overridden_lines: u32,
    pub messages: Option<String>,
    pub start_time: Option<i64>,
    pub last_time: Option<i64>,
    pub created_at: i64,
    pub updated_at: i64,
}

/// Whether a row holds what a note records of a prompt.
pub open spec fn row_holds(row: PromptRow, record: PromptRecord) -> bool {
    &&& row.tool@ == record.agent_id.tool@
    &&& row.model@ == record.agent_id.model@
    &&& row.external_thread_id@ == record.agent_id.id@
    &&& opt_view(row.human_author) == opt_view(record.human_author)
    &&& row.total_additions == record.total_additions
    &&& row.total_deletions == record.total_deletions
    &&& row.accepted_lines == record.accepted_lines
    &&& row.overridden_lines == record.overriden_lines
}

/// The row of a prompt with the messages that the store of this machine keeps. Where the
/// note names a place for the messages, the row has the times of the store.
pub fn local_prompt_row(
    id: &str,
    record: &PromptRecord,
    commit_sha: &str,
    workdir: &str,
    messages: String,
    start_time: Option<i64>,
    last_time: Option<i64>,
    stored_at: i64,
    changed_at: i64,
    now: i64,
) -> (r: PromptRow)
    ensures
        row_holds(r, *record),
        r.id@ == id@,
        r.commit_sha@ == commit_sha@,
        r.workdir@ == workdir@,
        r.messages == Some(messages),
        r.start_time == start_time,
        r.last_time == last_time,
        r.created_at == match (record.messages_url, start_time) {
            (Some(_), _) => stored_at,
            (None, Some(t)) => t,
            (None, None) => now,
        },
        r.updated_at == match (record.messages_url, last_time) {
            (Some(_), _) => changed_at,
            (None, Some(t)) => t,
            (None, None) => r.created_at,
        },
{
    let mut row = prompt_row(
        id,
        record,
        commit_sha,
        workdir,
        Some(messages),
        start_time,
        last_time,
        now,
    );
    if record.messages_url.is_some() {
        row.created_at = stored_at;
        row.updated_at = changed_at;
    }
    row
}

/// The row of a prompt whose messages are there. It is as old as its first message, and
/// was changed with its last one.
pub fn prompt_row(
    id: &str,
    record: &PromptRecord,
    commit_sha: &str,
    workdir: &str,
    messages: Option<String>,
    start_time: Option<i64>,
    last_time: Option<i64>,
    now: i64,
) -> (r: PromptRow)
    ensures
        row_holds(r, *record),
        r.id@ == id@,
        r.commit_sha@ == commit_sha@,
        r.workdir@ == workdir@,
        r.messages == messages,
        r.start_time == start_time,
        r.last_time == last_time,
        r.created_at == match start_time {
            Some(t) => t,
            None => now,
        },
        r.updated_at == match last_time {
            Some(t) => t,
            None => r.created_at,
        },
{
    let created_at: i64 = match start_time {
        Some(t) => t,
        None => now,
    };
    let updated_at: i64 = match last_time {
        Some(t) => t,
        None => created_at,
    };
    PromptRow {
        id: id.to_owned(),
        tool: record.agent_id.tool.clone(),
        model: record.agent_id.model.clone(),
        external_thread_id: record.agent_id.id.clone(),
        human_author: clone_option(&record.human_author),
        commit_sha: commit_sha.to_owned(),
        workdir: workdir.to_owned(),
        total_additions: record.total_additions,
        total_deletions: record.total_deletions,
        accepted_lines: record.accepted_lines,
        overridden_lines: record.overriden_lines,
        messages,
        start_time,
        last_time,
        created_at,
        updated_at,
    }
}

/// The row of a prompt whose messages are still to be fetched: without them, and as old
/// as now.
pub fn deferred_row(
    id: &str,
    record: &PromptRecord,
    commit_sha: &str,
    workdir: &str,
    now: i64,
) -> (r: PromptRow)
    ensures
        row_holds(r, *record),
        r.id@ == id@,
        r.commit_sha@ == commit_sha@,
        r.workdir@ == workdir@,
        r.messages is None,
        r.start_time is None,
        r.last_time is None,
        r.created_at == now,
        r.updated_at == now,
{
    prompt_row(id, record, commit_sha, workdir, None, None, None, now)
}

// --------------------------------------------------------------------- fetching messages

/// A text without the slashes at its end.
pub open spec fn without_slashes(s: Seq<char>) -> Seq<char>
    decreases s.len(),
{
    if s.len() > 0 && s.last() == '/' {
        without_slashes(s.drop_last())
    } else {
        s
    }
}

/// What the addresses of this instance's messages start with.
pub fn instance_prefix(base_url: &str) -> (r: String)
    ensures
        r@ == without_slashes(base_url@) + "/cas/"@,
{
    let v = chars_of(base_url);
    let mut n: usize = v.len();
    proof {
        assert(base_url@.take(n as int) =~= base_url@);
    }
    while n > 0 && v[n - 1] == '/'
        invariant
            n <= v@.len(),
            v@ == base_url@,
            without_slashes(base_url@.take(n as int)) == without_slashes(base_url@),
        decreases n,
    {
        proof {
            assert(base_url@.take(n as int).drop_last() =~= base_url@.take(n - 1));
        }
        n -= 1;
    }
    let base = string_of(&v, 0, n);
    proof {
        assert(base@ =~= base_url@.take(n as int));
    }
    concat(base.as_str(), "/cas/")
}

/// The last segment of an address, where it is not empty.
pub open spec fn last_segment(url: Seq<char>) -> Option<Seq<char>> {
    let last = split_of(url, '/').last();
    if last.len() > 0 {
        Some(last)
    } else {
        None
    }
}

/// Where the messages of a prompt are looked for first.
pub enum Route {
    /// Its address is of another instance: in the local database.
    Foreign,
    /// Its address is of this instance: under this hash.
    Stored(String),
    /// Its address is of this instance, but names nothing.
    Nowhere,
}

/// The texts of where the messages of a prompt are looked for.
pub enum RouteView {
    Foreign,
    Stored(Seq<char>),
    Nowhere,
}

impl View for Route {
    type V = RouteView;

    open spec fn view(&self) -> RouteView {
        match self {
            Route::Foreign => RouteView::Foreign,
            Route::Stored(h) => RouteView::Stored(h@),
            Route::Nowhere => RouteView::Nowhere,
        }
    }
}

/// Where the messages at an address are looked for first.
pub open spec fn route_of(url: Seq<char>, prefix: Seq<char>) -> RouteView {
    if !has_prefix(url, prefix) {
        RouteView::Foreign
    } else {
        match last_segment(url) {
            Some(hash) => RouteView::Stored(hash),
            None => RouteView::Nowhere,
        }
    }
}

proof fn lemma_split_not_empty(s: Seq<char>, c: char)
    ensures
        split_of(s, c).len() > 0,
{
}

/// Where the messages at an address are looked for first.
pub fn message_route(url: &str, prefix: &str) -> (r: Route)
    ensures
        r@ == route_of(url@, prefix@),
{
    if !starts_with(url, prefix) {
        return Route::Foreign;
    }
    let parts = split(url, '/');
    proof {
        lemma_split_not_empty(url@, '/');
    }
    let n: usize = parts.len();
    proof {
        assert(texts(parts@)[n - 1] == parts@[n - 1]@);
    }
    if parts[n - 1].as_str().is_empty() {
        Route::Nowhere
    } else {
        Route::Stored(parts[n - 1].clone())
    }
}

/// What is known of the messages under a hash, once the cache and the service were
/// asked.
#[derive(Clone, Copy, PartialEq, Eq, Structural, Debug)]
pub enum HashStatus {
    Cached,
    Fetched,
    NotLoggedIn,
    NetworkError,
    NotFound,
}

/// What the service says of a hash.
#[derive(Clone, Copy, PartialEq, Eq, Structural, Debug)]
pub enum FetchReply {
    /// It was not asked.
    NotAsked,
    /// It sent messages that can be read.
    Messages,
    /// It sent nothing that can be read.
    Nothing,
    /// It could not be reached.
    Failed,
}

/// What is known of the messages under a hash. The service is asked only where the
/// cache does not have them and the user is logged in.
pub open spec fn status_of(cached: bool, logged_in: bool, reply: FetchReply) -> HashStatus {
    if cached {
        HashStatus::Cached
    } else if !logged_in {
        HashStatus::NotLoggedIn
    } else {
        match reply {
            FetchReply::Messages => HashStatus::Fetched,
            FetchReply::Failed => HashStatus::NetworkError,
            _ => HashStatus::NotFound,
        }
    }
}

/// What is known of the messages under a hash.
pub fn hash_status(cached: bool, logged_in: bool, reply: FetchReply) -> (r: HashStatus)
    ensures
        r == status_of(cached, logged_in, reply),
{
    if cached {
        HashStatus::Cached
    } else if !logged_in {
        HashStatus::NotLoggedIn
    } else {
        match reply {
            FetchReply::Messages => HashStatus::Fetched,
            FetchReply::Failed => HashStatus::NetworkError,
            _ => HashStatus::NotFound,
        }
    }
}

/// Why a prompt was skipped.
#[derive(Clone, Copy, PartialEq, Eq, Structural, Debug)]
pub enum SkipReason {
    WrongHost,
    NotLoggedIn,
    NetworkError,
    NotFound,
}

/// What became of a prompt whose messages had to be fetched.
#[derive(Clone, Copy, PartialEq, Eq, Structural, Debug)]
pub enum PromptOutcome {
    FromCache,
    FromService,
    FromLocalDatabase,
    Skipped(SkipReason),
    /// Skipped without a reason: its messages were found but could not be written, or its
    /// address names nothing.
    Left,
}

/// What became of a prompt. Messages that were found are written; where none were, the
/// local database is asked.
pub open spec fn outcome_of(
    route: RouteView,
    status: HashStatus,
    written: bool,
    local: bool,
) -> PromptOutcome {
    match route {
        RouteView::Foreign => if local {
            PromptOutcome::FromLocalDatabase
        } else {
            PromptOutcome::Skipped(SkipReason::WrongHost)
        },
        RouteView::Nowhere => PromptOutcome::Left,
        RouteView::Stored(hash) => match status {
            HashStatus::Cached => if written {
                PromptOutcome::FromCache
            } else {
                PromptOutcome::Left
            },
            HashStatus::Fetched => if written {
                PromptOutcome::FromService
            } else {
                PromptOutcome::Left
            },
            _ => if local {
                PromptOutcome::FromLocalDatabase
            } else {
                PromptOutcome::Skipped(
                    match status {
                        HashStatus::NotLoggedIn => SkipReason::NotLoggedIn,
                        HashStatus::NetworkError => SkipReason::NetworkError,
                        _ => SkipReason::NotFound,
                    },
                )
            },
        },
    }
}

/// Whether a prompt's messages are looked for in the local database.
pub open spec fn asks_local(route: RouteView, status: HashStatus) -> bool {
    match route {
        RouteView::Foreign => true,
        RouteView::Nowhere => false,
        RouteView::Stored(hash) => !(status is Cached) && !(status is Fetched),
    }
}

/// Whether a prompt's messages are looked for in the local database.
pub fn asks_local_database(route: &Route, status: HashStatus) -> (r: bool)
    ensures
        r == asks_local(route@, status),
{
    match route {
        Route::Foreign => true,
        Route::Nowhere => false,
        Route::Stored(_) => match status {
            HashStatus::Cached => false,
            HashStatus::Fetched => false,
            _ => true,
        },
    }
}

/// What became of a prompt.
pub fn prompt_outcome(route: &Route, status: HashStatus, written: bool, local: bool) -> (r:
    PromptOutcome)
    ensures
        r == outcome_of(route@, status, written, local),
{
    match route {
        Route::Foreign => if local {
            PromptOutcome::FromLocalDatabase
        } else {
            PromptOutcome::Skipped(SkipReason::WrongHost)
        },
        Route::Nowhere => PromptOutcome::Left,
        Route::Stored(_) => match status {
            HashStatus::Cached => if written {
                PromptOutcome::FromCache
            } else {
                PromptOutcome::Left
            },
            HashStatus::Fetched => if written {
                PromptOutcome::FromService
            } else {
                PromptOutcome::Left
            },
            _ => if local {
                PromptOutcome::FromLocalDatabase
            } else {
                PromptOutcome::Skipped(
                    match status {
                        HashStatus::NotLoggedIn => SkipReason::NotLoggedIn,
                        HashStatus::NetworkError => SkipReason::NetworkError,
                        _ => SkipReason::NotFound,
                    },
                )
            },
        },
    }
}

/// How a reason for skipping a prompt is written.
pub open spec fn skip_reason_text(reason: SkipReason) -> Seq<char> {
    match reason {
        SkipReason::WrongHost => "wrong hostname (and no body in local sqlite)"@,
        SkipReason::NotLoggedIn => "not logged in"@,
        SkipReason::NetworkError => "CAS network error"@,
        SkipReason::NotFound => "not found in remote prompt store"@,
    }
}

/// How a reason for skipping a prompt is written.
pub fn skip_reason(reason: SkipReason) -> (r: &'static str)
    ensures
        r@ == skip_reason_text(reason),
{
    match reason {
        SkipReason::WrongHost => "wrong hostname (and no body in local sqlite)",
        SkipReason::NotLoggedIn => "not logged in",
        SkipReason::NetworkError => "CAS network error",
        SkipReason::NotFound => "not found in remote prompt store",
    }
}

/// How many prompts were written, by where their messages came from, and how many were
/// skipped.
#[derive(Clone, Copy, PartialEq, Eq, Structural, Debug)]
pub struct MessageTally {
    pub cached: usize,
    pub fetched: usize,
    pub local: usize,
    pub skipped: usize,
}

/// The number of prompts of which a thing became.
pub open spec fn count_where(outcomes: Seq<PromptOutcome>, p: spec_fn(PromptOutcome) -> bool) -> nat
    decreases outcomes.len(),
{
    if outcomes.len() == 0 {
        0
    } else {
        count_where(outcomes.drop_last(), p) + if p(outcomes.last()) {
            1nat
        } else {
            0nat
        }
    }
}

/// Whether a tally counts what became of prompts.
pub open spec fn tallies(t: MessageTally, outcomes: Seq<PromptOutcome>) -> bool {
    &&& t.cached == count_where(outcomes, |o: PromptOutcome| o is FromCache)
    &&& t.fetched == count_where(outcomes, |o: PromptOutcome| o is FromService)
    &&& t.local == count_where(outcomes, |o: PromptOutcome| o is FromLocalDatabase)
    &&& t.skipped == count_where(outcomes, |o: PromptOutcome| o is Skipped || o is Left)
}

/// Counts what became of prompts.
pub fn tally_outcomes(outcomes: &[PromptOutcome]) -> (r: MessageTally)
    ensures
        tallies(r, outcomes@),
        r.cached + r.fetched + r.local + r.skipped == outcomes@.len(),
{
    let mut t = MessageTally { cached: 0, fetched: 0, local: 0, skipped: 0 };
    let mut i: usize = 0;
    proof {
        assert(outcomes@.take(0) =~= Seq::empty());
    }
    while i < outcomes.len()
        invariant
            i <= outcomes@.len(),
            tallies(t, outcomes@.take(i as int)),
            t.cached + t.fetched + t.local + t.skipped == i,
        decreases outcomes.len() - i,
    {
        proof {
            assert(outcomes@.take(i + 1).drop_last() =~= outcomes@.take(i as int));
        }
        match outcomes[i] {
            PromptOutcome::FromCache => {
                t.cached += 1;
            },
            PromptOutcome::FromService => {
                t.fetched += 1;
            },
            PromptOutcome::FromLocalDatabase => {
                t.local += 1;
            },
            PromptOutcome::Skipped(_) => {
                t.skipped += 1;
            },
            PromptOutcome::Left => {
                t.skipped += 1;
            },
        }
        i += 1;
    }
    proof {
        assert(outcomes@.take(outcomes@.len() as int) =~= outcomes@);
    }
    t
}

/// What is said of how the messages of prompts were found.
pub open spec fn tally_lines_of(t: MessageTally) -> Seq<Seq<char>> {
    let a = if t.cached > 0 {
        seq!["    "@ + decimal_of(t.cached as nat) + " cached"@]
    } else {
        Seq::empty()
    };
    let b = if t.fetched > 0 {
        seq!["    + "@ + decimal_of(t.fetched as nat) + " fetched from prompt store"@]
    } else {
        Seq::empty()
    };
    let c = if t.local > 0 {
        seq!["    + "@ + decimal_of(t.local as nat) + " from local sqlite"@]
    } else {
        Seq::empty()
    };
    let d = if t.skipped > 0 {
        seq!["    "@ + decimal_of(t.skipped as nat) + " skipped"@]
    } else {
        Seq::empty()
    };
    a + b + c + d
}

fn counted_line(start: &str, n: usize, end: &str) -> (r: String)
    ensures
        r@ == start@ + decimal_of(n as nat) + end@,
{
    let mut m = concat(start, decimal(n as u64).as_str());
    m.append(end);
    m
}

/// What is said of how the messages of prompts were found.
pub fn tally_lines(t: &MessageTally) -> (r: Vec<String>)
    ensures
        texts(r@) == tally_lines_of(*t),
{
    let mut out: Vec<String> = Vec::new();
    if t.cached > 0 {
        out.push(counted_line("    ", t.cached, " cached"));
    }
    if t.fetched > 0 {
        out.push(counted_line("    + ", t.fetched, " fetched from prompt store"));
    }
    if t.local > 0 {
        out.push(counted_line("    + ", t.local, " from local sqlite"));
    }
    if t.skipped > 0 {
        out.push(counted_line("    ", t.skipped, " skipped"));
    }
    proof {
        assert(texts(out@) =~= tally_lines_of(*t));
    }
    out
}

/// The hashes that the service is asked for: those that messages stand under and the
/// cache does not have, each once.
pub open spec fn wanted_of(routes: Seq<RouteView>, cached: Seq<bool>) -> Seq<Seq<char>>
    decreases routes.len(),
{
    if routes.len() == 0 {
        seq![]
    } else {
        let before = wanted_of(routes.drop_last(), cached);
        match routes.last() {
            RouteView::Stored(hash) => if !cached[routes.len() - 1] && !before.contains(hash) {
                before.push(hash)
            } else {
                before
            },
            _ => before,
        }
    }
}

/// The hashes that the service is asked for. `cached` says of each prompt whether the
/// cache has its messages.
pub fn wanted_hashes(routes: &Vec<Route>, cached: &[bool]) -> (r: Vec<String>)
    requires
        routes@.len() == cached@.len(),
    ensures
        texts(r@) == wanted_of(views(routes@), cached@),
{
    let ghost rs = views(routes@);
    let mut out: Vec<String> = Vec::new();
    let mut i: usize = 0;
    proof {
        assert(rs.take(0) =~= seq![]);
        assert(texts(out@) =~= seq![]);
    }
    while i < routes.len()
        invariant
            i <= routes@.len() == cached@.len(),
            rs == views(routes@),
            texts(out@) == wanted_of(rs.take(i as int), cached@),
        decreases routes.len() - i,
    {
        proof {
            assert(rs.take(i + 1).drop_last() =~= rs.take(i as int));
            assert(rs.take(i + 1).last() == routes@[i as int]@);
        }
        if let Route::Stored(hash) = &routes[i] {
            if !cached[i] && !list_contains(out.as_slice(), hash.as_str()) {
                proof {
                    lemma_texts_push(out@, *hash);
                }
                out.push(hash.clone());
            }
        }
        i += 1;
    }
    proof {
        assert(rs.take(i as int) =~= rs);
    }
    out
}

/// The most hashes that the service is asked for at once.
pub const FETCH_CHUNK: usize = 100;

/// Where the chunk ends that starts at a place of a list of hashes.
pub fn chunk_end(start: usize, total: usize) -> (r: usize)
    requires
        start < total,
    ensures
        start < r <= total,
        r == if total - start <= FETCH_CHUNK {
            total as int
        } else {
            start + FETCH_CHUNK
        },
{
    if total - start <= FETCH_CHUNK {
        total
    } else {
        start + FETCH_CHUNK
    }
}

/// A prompt that is written was looked for where its address says: the cache and the
/// service give only what this instance holds.
pub proof fn law_foreign_prompts_are_local(
    url: Seq<char>,
    prefix: Seq<char>,
    status: HashStatus,
    written: bool,
    local: bool,
)
    requires
        !has_prefix(url, prefix),
    ensures
        !(outcome_of(route_of(url, prefix), status, written, local) is FromCache),
        !(outcome_of(route_of(url, prefix), status, written, local) is FromService),
{
}

/// A hash is asked for once, where some prompt's messages stand under it and the cache
/// does not have them.
pub proof fn law_hashes_are_asked_for_once(routes: Seq<RouteView>, cached: Seq<bool>)
    requires
        routes.len() <= cached.len(),
    ensures
        wanted_of(routes, cached).no_duplicates(),
        forall|h: Seq<char>| #[trigger]
            wanted_of(routes, cached).contains(h) <==> exists|i: int|
                0 <= i < routes.len() && !cached[i] && #[trigger] routes[i] == RouteView::Stored(h),
    decreases routes.len(),
{
    if routes.len() > 0 {
        let shorter = routes.drop_last();
        let before = wanted_of(shorter, cached);
        let now = wanted_of(routes, cached);
        let last = routes.len() - 1;
        law_hashes_are_asked_for_once(shorter, cached);
        assert forall|h: Seq<char>| #[trigger] now.contains(h) <==> exists|i: int|
            0 <= i < routes.len() && !cached[i] && #[trigger] routes[i] == RouteView::Stored(h) by {
            if now.contains(h) {
                let k = now.index_of(h);
                if k < before.len() {
                    assert(before[k] == h);
                    assert(before.contains(h));
                    let i = choose|i: int|
                        0 <= i < shorter.len() && !cached[i] && #[trigger] shorter[i]
                            == RouteView::Stored(h);
                    assert(routes[i] == RouteView::Stored(h));
                } else {
                    assert(routes[last] == RouteView::Stored(h));
                }
            }
            if exists|i: int|
                0 <= i < routes.len() && !cached[i] && #[trigger] routes[i] == RouteView::Stored(
                    h,
                ) {
                let i = choose|i: int|
                    0 <= i < routes.len() && !cached[i] && #[trigger] routes[i]
                        == RouteView::Stored(h);
                if i < last {
                    assert(shorter[i] == RouteView::Stored(h));
                    assert(before.contains(h));
                    assert(now[before.index_of(h)] == h);
                } else if before.contains(h) {
                    assert(now[before.index_of(h)] == h);
                } else {
                    assert(now[before.len() as int] == h);
                }
            }
        }
        assert(now.no_duplicates()) by {
            if now.len() > before.len() {
                assert forall|a: int, b: int| 0 <= a < now.len() && 0 <= b < now.len() && a
                    != b implies now[a] != now[b] by {
                    if a < before.len() && b < before.len() {
                        assert(before[a] != before[b]);
                    } else if a < before.len() {
                        assert(before.contains(before[a]));
                    } else {
                        assert(before.contains(before[b]));
                    }
                }
            }
        }
    }
}

} // verus!
