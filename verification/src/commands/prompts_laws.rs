//! What holds of the database of prompts and of where prompts' messages come from.

use crate::authorship::PromptRecord;
use crate::commands::prompts_db::{
    FetchReply, HashStatus, MessageTally, Pick, PopulateView, PromptOutcome, RouteView, SkipReason,
    SqlValue, ascii_upper_of, asks_local, best_of, column_names, columns_scan, commit_dates_of,
    commits_in, default_columns, distinct_commits_of, is_kept, list_query_of, live_of, notes_of,
    outcome_of, populate_scan, prompts_command_of, route_of, skip_reason_text, source_of, status_of,
    tally_lines_of, tsv_escaped, value_text, with_entries, with_pick, without_slashes,
};
use crate::text::{
    decimal_of, find_of, has_prefix, join_of, signed_decimal_of, signed_of, split_of, trimmed,
    words_of,
};
use crate::text_laws::{law_split_once_at, law_splitting};
use vstd::prelude::*;
use vstd::string::*;

verus! {

// --------------------------------------------------------------------------- commands

/// Each word of `git-ai prompts` has its own meaning; without a word, or with an option in
/// its place, the database is filled.
pub proof fn law_prompts_words(args: Seq<Seq<char>>)
    ensures
        args.len() == 0 ==> prompts_command_of(args) is Populate,
        args.len() > 0 && args[0] == "exec"@ ==> prompts_command_of(args) is Exec,
        args.len() > 0 && args[0] == "list"@ ==> prompts_command_of(args) is List,
        args.len() > 0 && args[0] == "next"@ ==> prompts_command_of(args) is Next,
        args.len() > 0 && args[0] == "reset"@ ==> prompts_command_of(args) is Reset,
        args.len() > 0 && args[0] == "count"@ ==> prompts_command_of(args) is Count,
        args.len() > 0 && has_prefix(args[0], "-"@) ==> prompts_command_of(args) is Populate,
        args.len() > 0 && args[0] != "exec"@ && args[0] != "list"@ && args[0] != "next"@ && args[0]
            != "reset"@ && args[0] != "count"@ && !has_prefix(args[0], "-"@) ==> prompts_command_of(
            args,
        ) is Unknown,
{
    reveal_strlit("exec");
    reveal_strlit("list");
    reveal_strlit("next");
    reveal_strlit("reset");
    reveal_strlit("count");
    reveal_strlit("-");
    assert("exec"@.len() == 4);
    assert("list"@.len() == 4);
    assert("next"@.len() == 4);
    assert("reset"@.len() == 5);
    assert("count"@.len() == 5);
    assert("-"@.len() == 1);
    assert("exec"@[0] == 'e');
    assert("list"@[0] == 'l');
    assert("next"@[0] == 'n');
    assert("reset"@[0] == 'r');
    assert("count"@[0] == 'c');
    if args.len() > 0 && has_prefix(args[0], "-"@) {
        assert(args[0].take(1)[0] == args[0][0]);
        assert("-"@[0] == '-');
        assert("exec"@[0] == 'e' && "list"@[0] == 'l' && "next"@[0] == 'n' && "reset"@[0] == 'r'
            && "count"@[0] == 'c');
    }
}

/// The options that fill the database, in one order; each needs its value, and no other
/// option is taken.
pub proof fn law_populate_options(since: Seq<char>, author: Seq<char>, other: Seq<char>)
    ensures
        ({
            let start = PopulateView { since: None, author: None, all_authors: false };
            &&& populate_scan(Seq::empty(), 0, start) == Ok::<PopulateView, Seq<char>>(start)
            &&& populate_scan(seq!["--since"@, since, "--author"@, author], 0, start) == Ok::<
                PopulateView,
                Seq<char>,
            >(PopulateView { since: Some(since), author: Some(author), all_authors: false })
            &&& populate_scan(seq!["--all-authors"@, "--since"@, since], 0, start) == Ok::<
                PopulateView,
                Seq<char>,
            >(PopulateView { since: Some(since), author: None, all_authors: true })
            &&& populate_scan(seq!["--since"@], 0, start) == Err::<PopulateView, Seq<char>>(
                "Error: --since requires a value"@,
            )
            &&& populate_scan(seq!["--author"@], 0, start) == Err::<PopulateView, Seq<char>>(
                "Error: --author requires a value"@,
            )
            &&& other != "--since"@ && other != "--author"@ && other != "--all-authors"@
                ==> populate_scan(seq![other], 0, start) == Err::<PopulateView, Seq<char>>(
                "Unknown option: "@ + other,
            )
        }),
{
    reveal_with_fuel(populate_scan, 4);
    reveal_strlit("--since");
    reveal_strlit("--author");
    reveal_strlit("--all-authors");
    assert("--since"@.len() == 7);
    assert("--author"@.len() == 8);
    assert("--all-authors"@.len() == 13);
    let a = seq!["--since"@, since, "--author"@, author];
    assert(a[0] == "--since"@ && a[1] == since && a[2] == "--author"@ && a[3] == author);
    let b = seq!["--all-authors"@, "--since"@, since];
    assert(b[0] == "--all-authors"@ && b[1] == "--since"@ && b[2] == since);
    let c = seq!["--since"@];
    let d = seq!["--author"@];
    let e = seq![other];
    assert(c[0] == "--since"@ && d[0] == "--author"@ && e[0] == other);
}

/// The list shows all prompts in their order, with the columns that are named, without the
/// blanks round the names, or with the usual ones.
pub proof fn law_listed_columns(first: Seq<char>, second: Seq<char>, other: Seq<char>)
    requires
        !first.contains(','),
        !second.contains(','),
    ensures
        list_query_of(Seq::empty()) == Ok::<Seq<char>, Seq<char>>(
            "SELECT "@ + default_columns() + " FROM prompts ORDER BY seq_id ASC"@,
        ),
        list_query_of(seq!["--columns"@, first + seq![','] + second]) == Ok::<Seq<char>, Seq<char>>(
            "SELECT "@ + (trimmed(first) + ", "@ + trimmed(second))
                + " FROM prompts ORDER BY seq_id ASC"@,
        ),
        list_query_of(seq!["--columns"@]) == Err::<Seq<char>, Seq<char>>(
            "Error: --columns requires a value"@,
        ),
        other != "--columns"@ ==> list_query_of(seq![other]) == Err::<Seq<char>, Seq<char>>(
            "Unknown option: "@ + other,
        ),
{
    reveal_with_fuel(columns_scan, 3);
    let list = first + seq![','] + second;
    let a = seq!["--columns"@, list];
    let b = seq!["--columns"@];
    let c = seq![other];
    assert(a[0] == "--columns"@ && a[1] == list && b[0] == "--columns"@ && c[0] == other);
    law_splitting(first, ',', second);
    law_splitting(second, ',', Seq::empty());
    assert(split_of(list, ',') =~= seq![first, second]);
    assert(column_names(list) =~= seq![trimmed(first), trimmed(second)]);
    reveal_with_fuel(join_of, 3);
    assert(seq![trimmed(first), trimmed(second)].drop_last() =~= seq![trimmed(first)]);
}

/// Upper case by ASCII changes small letters and nothing else.
pub proof fn law_ascii_upper(s: Seq<char>, i: int)
    requires
        0 <= i < s.len(),
    ensures
        ascii_upper_of(s).len() == s.len(),
        'a' <= s[i] <= 'z' ==> ascii_upper_of(s)[i] as int == s[i] as int - ('a' as int
            - 'A' as int),
        !('a' <= s[i] <= 'z') ==> ascii_upper_of(s)[i] == s[i],
{
}

/// How values are shown: nothing, numbers in decimal, texts without tabs and line ends,
/// and the size of what is no text.
pub proof fn law_shown_values(n: i64, s: String, size: usize)
    ensures
        value_text(SqlValue::Null) == "NULL"@,
        value_text(SqlValue::Integer(n)) == signed_decimal_of(n as int),
        value_text(SqlValue::Real(s)) == s@,
        value_text(SqlValue::Text(s)) == tsv_escaped(s@),
        value_text(SqlValue::Blob(size)) == "<blob "@ + decimal_of(size as nat) + " bytes>"@,
{
}

/// A text is shown character by character: a tab and a line end as two characters each, any
/// other as it is.
pub proof fn law_shown_characters(s: Seq<char>, c: char)
    ensures
        tsv_escaped(Seq::empty()) == Seq::<char>::empty(),
        tsv_escaped(s.push('\t')) == tsv_escaped(s) + seq!['\\', 't'],
        tsv_escaped(s.push('\n')) == tsv_escaped(s) + seq!['\\', 'n'],
        c != '\t' && c != '\n' ==> tsv_escaped(s.push(c)) == tsv_escaped(s).push(c),
{
    reveal_strlit("\\t");
    reveal_strlit("\\n");
    assert("\\t"@ =~= seq!['\\', 't']);
    assert("\\n"@ =~= seq!['\\', 'n']);
    assert(s.push('\t').drop_last() =~= s);
    assert(s.push('\n').drop_last() =~= s);
    assert(s.push(c).drop_last() =~= s);
}

// ----------------------------------------------------------------------- what git says

/// The commits that can be reached are the lines that are not empty, in their order.
pub proof fn law_reachable_commits(lines: Seq<Seq<char>>)
    ensures
        commits_in(lines) == lines.filter(|s: Seq<char>| s.len() > 0),
    decreases lines.len(),
{
    reveal(Seq::filter);
    if lines.len() > 0 {
        law_reachable_commits(lines.drop_last());
    }
}

/// A line with a commit, a blank and a number of seconds gives the commit that date; any
/// other line gives none. The last line of a commit stands.
pub proof fn law_commit_dates(lines: Seq<Seq<char>>, sha: Seq<char>, number: Seq<char>)
    requires
        !sha.contains(' '),
    ensures
        commit_dates_of(Seq::empty()) == Map::<Seq<char>, i64>::empty(),
        signed_of(trimmed(number)) matches Some(n) ==> commit_dates_of(
            lines.push(sha + seq![' '] + number),
        ) == commit_dates_of(lines).insert(sha, n as i64),
        signed_of(trimmed(number)) is None ==> commit_dates_of(lines.push(sha + seq![' '] + number))
            == commit_dates_of(lines),
{
    reveal_strlit(" ");
    assert(" "@ =~= seq![' ']);
    law_split_once_at(sha, ' ', number);
    assert(lines.push(sha + seq![' '] + number).drop_last() =~= lines);
}

/// The notes are the first two words of each line that has two, in order.
pub proof fn law_notes(lines: Seq<Seq<char>>)
    ensures
        notes_of(lines) == lines.map_values(|s: Seq<char>| words_of(s)).filter(
            |w: Seq<Seq<char>>| w.len() >= 2,
        ).map_values(|w: Seq<Seq<char>>| (w[0], w[1])),
    decreases lines.len(),
{
    reveal(Seq::filter);
    let split = |s: Seq<char>| words_of(s);
    let two = |w: Seq<Seq<char>>| w.len() >= 2;
    let pair = |w: Seq<Seq<char>>| (w[0], w[1]);
    let all = lines.map_values(split);
    if lines.len() == 0 {
        assert(all =~= seq![]);
        assert(all.filter(two).map_values(pair) =~= seq![]);
    } else {
        let front = lines.drop_last();
        law_notes(front);
        assert(all.drop_last() =~= front.map_values(split));
        if two(all.last()) {
            assert(all.filter(two) == front.map_values(split).filter(two).push(all.last()));
            assert(all.filter(two).map_values(pair) =~= front.map_values(split).filter(
                two,
            ).map_values(pair).push(pair(all.last())));
        }
    }
}

/// The notes that count are those whose commits can be reached, in their order.
pub proof fn law_live_notes(notes: Seq<(Seq<char>, Seq<char>)>, reachable: Seq<Seq<char>>)
    ensures
        live_of(notes, reachable) == notes.filter(
            |n: (Seq<char>, Seq<char>)| reachable.contains(n.1),
        ),
    decreases notes.len(),
{
    reveal(Seq::filter);
    if notes.len() > 0 {
        law_live_notes(notes.drop_last(), reachable);
    }
}

/// The commits of notes, each once, and no others.
pub proof fn law_distinct_commits(notes: Seq<(Seq<char>, Seq<char>)>, commit: Seq<char>)
    ensures
        distinct_commits_of(notes).no_duplicates(),
        distinct_commits_of(notes).contains(commit) <==> exists|i: int|
            0 <= i < notes.len() && (#[trigger] notes[i]).1 == commit,
    decreases notes.len(),
{
    if notes.len() > 0 {
        let front = notes.drop_last();
        law_distinct_commits(front, commit);
        law_distinct_commits(front, notes.last().1);
        let before = distinct_commits_of(front);
        let after = distinct_commits_of(notes);
        if before.contains(commit) {
            assert(after[before.index_of(commit)] == commit);
            let i = choose|i: int| 0 <= i < front.len() && (#[trigger] front[i]).1 == commit;
            assert(notes[i].1 == commit);
        }
        if exists|i: int| 0 <= i < notes.len() && (#[trigger] notes[i]).1 == commit {
            let i = choose|i: int| 0 <= i < notes.len() && (#[trigger] notes[i]).1 == commit;
            if i < front.len() {
                assert(front[i].1 == commit);
            } else if !before.contains(commit) {
                assert(after[before.len() as int] == commit);
            }
        }
        if after.contains(commit) && !before.contains(commit) {
            let k = after.index_of(commit);
            if k < before.len() {
                assert(before[k] == commit);
            }
            assert(notes[notes.len() - 1].1 == commit);
        }
    }
}

// -------------------------------------------------------------------------- the picks

/// The place at which a prompt counts is one where it stands: of a note with a date, which
/// is the place's own, and under the prompt's hash.
pub proof fn law_pick_has_its_note(
    notes: Seq<(Seq<char>, Seq<char>)>,
    dates: Map<Seq<char>, i64>,
    logs: Seq<Option<Seq<Seq<char>>>>,
    n: nat,
    hash: Seq<char>,
)
    requires
        n <= logs.len() <= usize::MAX,
        forall|i: int| 0 <= i < n && #[trigger] logs[i] is Some ==> logs[i]->0.len() <= usize::MAX,
        best_of(notes, dates, logs, n).dom().contains(hash),
    ensures
        ({
            let p = best_of(notes, dates, logs, n)[hash];
            &&& p.note < n
            &&& logs[p.note as int] is Some
            &&& p.entry < logs[p.note as int]->0.len()
            &&& logs[p.note as int]->0[p.entry as int] == hash
            &&& dates.dom().contains(notes[p.note as int].1)
            &&& p.date == dates[notes[p.note as int].1]
        }),
    decreases n,
{
    if n > 0 {
        let m = (n - 1) as nat;
        let before = best_of(notes, dates, logs, m);
        let commit = notes[n - 1].1;
        if dates.dom().contains(commit) && logs[n - 1] is Some {
            let hashes = logs[n - 1]->0;
            lemma_entries_pick(before, hashes, m, dates[commit], hashes.len(), hash);
            let p = best_of(notes, dates, logs, n)[hash];
            if before.dom().contains(hash) && p == before[hash] {
                law_pick_has_its_note(notes, dates, logs, m, hash);
            }
        } else {
            law_pick_has_its_note(notes, dates, logs, m, hash);
        }
    }
}

proof fn lemma_entries_pick(
    picks: Map<Seq<char>, Pick>,
    hashes: Seq<Seq<char>>,
    note: nat,
    date: i64,
    n: nat,
    hash: Seq<char>,
)
    requires
        n <= hashes.len() <= usize::MAX,
        note <= usize::MAX,
        with_entries(picks, hashes, note, date, n).dom().contains(hash),
    ensures
        ({
            let p = with_entries(picks, hashes, note, date, n)[hash];
            ||| picks.dom().contains(hash) && p == picks[hash]
            ||| p.note == note && p.entry < n && hashes[p.entry as int] == hash && p.date == date
        }),
    decreases n,
{
    if n > 0 {
        let before = with_entries(picks, hashes, note, date, (n - 1) as nat);
        if before.dom().contains(hash) {
            lemma_entries_pick(picks, hashes, note, date, (n - 1) as nat, hash);
        }
    }
}

/// Of two places of a prompt the later one counts, and of two of the same date the first.
pub proof fn law_later_pick_counts(picks: Map<Seq<char>, Pick>, hash: Seq<char>, pick: Pick)
    ensures
        with_pick(picks, hash, pick).dom().contains(hash),
        !picks.dom().contains(hash) ==> with_pick(picks, hash, pick)[hash] == pick,
        picks.dom().contains(hash) && picks[hash].date < pick.date ==> with_pick(
            picks,
            hash,
            pick,
        )[hash] == pick,
        picks.dom().contains(hash) && picks[hash].date >= pick.date ==> with_pick(
            picks,
            hash,
            pick,
        )[hash] == picks[hash],
        forall|other: Seq<char>|
            other != hash ==> (#[trigger] with_pick(picks, hash, pick).dom().contains(other)
                <==> picks.dom().contains(other)),
{
}

/// A prompt is kept where it is not too old and its author's name holds the one that is
/// asked for; a prompt without an author is kept only where none is asked for.
pub proof fn law_kept_prompts(date: i64, since: i64, author: Seq<char>, name: Seq<char>)
    ensures
        date < since ==> !is_kept(date, since, None, Some(name)) && !is_kept(
            date,
            since,
            Some(author),
            Some(name),
        ),
        date >= since ==> is_kept(date, since, None, Some(name)) && is_kept(date, since, None, None),
        date >= since ==> (is_kept(date, since, Some(author), Some(name)) <==> find_of(name, author)
            is Some),
        !is_kept(date, since, Some(author), None),
{
}

// ------------------------------------------------------------------------ the messages

/// Messages come from the note where it has them, else from the address that it gives, else
/// from the local database.
pub proof fn law_message_sources(record: PromptRecord)
    ensures
        record.messages@.len() > 0 ==> source_of(record) is Note,
        record.messages@.len() == 0 && record.messages_url is Some ==> source_of(record) is Address,
        record.messages@.len() == 0 && record.messages_url is None ==> source_of(record)
            is LocalDatabase,
{
}

/// An address of this instance stands for the hash behind its last slash, or for nothing
/// where nothing stands there; any other address is foreign.
pub proof fn law_message_routes(url: Seq<char>, base: Seq<char>, hash: Seq<char>)
    requires
        !hash.contains('/'),
    ensures
        hash.len() > 0 ==> route_of(base + seq!['/'] + hash, base + seq!['/']) == RouteView::Stored(
            hash,
        ),
        route_of(base + seq!['/'], base + seq!['/']) is Nowhere,
        !has_prefix(url, base) ==> route_of(url, base) is Foreign,
{
    let prefix = base + seq!['/'];
    assert((prefix + hash).take(prefix.len() as int) =~= prefix);
    assert(prefix.take(prefix.len() as int) =~= prefix);
    lemma_last_part(base, hash);
    lemma_last_part(base, Seq::empty());
    assert(prefix + Seq::<char>::empty() =~= prefix);
}

proof fn lemma_last_part(base: Seq<char>, hash: Seq<char>)
    requires
        !hash.contains('/'),
    ensures
        split_of(base + seq!['/'] + hash, '/').len() > 0,
        split_of(base + seq!['/'] + hash, '/').last() == hash,
    decreases base.len(),
{
    let s = base + seq!['/'] + hash;
    law_splitting(hash, '/', Seq::empty());
    if base.contains('/') {
        let (head, rest) = lemma_first_slash(base);
        assert(s =~= head + seq!['/'] + (rest + seq!['/'] + hash));
        law_splitting(head, '/', rest + seq!['/'] + hash);
        lemma_last_part(rest, hash);
    } else {
        law_splitting(base, '/', hash);
    }
}

proof fn lemma_first_slash(s: Seq<char>) -> (r: (Seq<char>, Seq<char>))
    requires
        s.contains('/'),
    ensures
        s == r.0 + seq!['/'] + r.1,
        !r.0.contains('/'),
    decreases s.len(),
{
    if s[0] == '/' {
        let none = Seq::<char>::empty();
        assert(s =~= none + seq!['/'] + s.drop_first());
        (none, s.drop_first())
    } else {
        let k = s.index_of('/');
        assert(s[k] == '/');
        assert(s.drop_first()[k - 1] == '/');
        let (a, b) = lemma_first_slash(s.drop_first());
        let head = seq![s[0]] + a;
        assert(s =~= head + seq!['/'] + b) by {
            assert(s =~= seq![s[0]] + s.drop_first());
        }
        assert forall|i: int| 0 <= i < head.len() implies head[i] != '/' by {
            if i > 0 {
                assert(head[i] == a[i - 1]);
                assert(a.contains(a[i - 1]));
            }
        }
        (head, b)
    }
}

/// The slashes at the end of an address are taken off, all of them.
pub proof fn law_slashes_at_the_end(s: Seq<char>)
    ensures
        without_slashes(s.push('/')) == without_slashes(s),
        s.len() == 0 || s.last() != '/' ==> without_slashes(s) == s,
{
    assert(s.push('/').drop_last() =~= s);
}

/// What becomes of a hash: in the cache before all; without a login it is not asked for;
/// else the service's answer decides.
pub proof fn law_hash_status(logged_in: bool, reply: FetchReply)
    ensures
        status_of(true, logged_in, reply) is Cached,
        status_of(false, false, reply) is NotLoggedIn,
        status_of(false, true, FetchReply::Messages) is Fetched,
        status_of(false, true, FetchReply::Failed) is NetworkError,
        status_of(false, true, FetchReply::Nothing) is NotFound,
        status_of(false, true, FetchReply::NotAsked) is NotFound,
{
}

/// What becomes of a prompt: what was found and written counts as found there; what was not
/// found is taken from the local database, or skipped with its reason.
pub proof fn law_prompt_outcomes(hash: Seq<char>, status: HashStatus, written: bool, local: bool)
    ensures
        outcome_of(RouteView::Stored(hash), HashStatus::Cached, true, local) is FromCache,
        outcome_of(RouteView::Stored(hash), HashStatus::Fetched, true, local) is FromService,
        outcome_of(RouteView::Stored(hash), HashStatus::Cached, false, local) is Left,
        outcome_of(RouteView::Stored(hash), HashStatus::Fetched, false, local) is Left,
        outcome_of(RouteView::Nowhere, status, written, local) is Left,
        outcome_of(RouteView::Foreign, status, written, true) is FromLocalDatabase,
        outcome_of(RouteView::Foreign, status, written, false) == PromptOutcome::Skipped(
            SkipReason::WrongHost,
        ),
        status is NotLoggedIn || status is NetworkError || status is NotFound ==> outcome_of(
            RouteView::Stored(hash),
            status,
            written,
            true,
        ) is FromLocalDatabase,
        outcome_of(RouteView::Stored(hash), HashStatus::NotLoggedIn, written, false)
            == PromptOutcome::Skipped(SkipReason::NotLoggedIn),
        outcome_of(RouteView::Stored(hash), HashStatus::NetworkError, written, false)
            == PromptOutcome::Skipped(SkipReason::NetworkError),
        outcome_of(RouteView::Stored(hash), HashStatus::NotFound, written, false)
            == PromptOutcome::Skipped(SkipReason::NotFound),
{
}

/// The local database is asked just where what it says can matter.
pub proof fn law_local_database_is_asked(route: RouteView, status: HashStatus, written: bool)
    ensures
        asks_local(route, status) <==> outcome_of(route, status, written, true) != outcome_of(
            route,
            status,
            written,
            false,
        ),
{
}

/// The reasons why prompts are skipped, in words.
pub proof fn law_skip_reasons()
    ensures
        skip_reason_text(SkipReason::WrongHost) == "wrong hostname (and no body in local sqlite)"@,
        skip_reason_text(SkipReason::NotLoggedIn) == "not logged in"@,
        skip_reason_text(SkipReason::NetworkError) == "CAS network error"@,
        skip_reason_text(SkipReason::NotFound) == "not found in remote prompt store"@,
{
}

/// The tally has a line for each number that is not zero, in its order, and no other.
pub proof fn law_tally_lines(t: MessageTally)
    ensures
        tally_lines_of(t).len() == (if t.cached > 0 {
            1int
        } else {
            0
        }) + (if t.fetched > 0 {
            1int
        } else {
            0
        }) + (if t.local > 0 {
            1int
        } else {
            0
        }) + (if t.skipped > 0 {
            1int
        } else {
            0
        }),
        t.cached > 0 ==> tally_lines_of(t)[0] == "    "@ + decimal_of(t.cached as nat) + " cached"@,
        t.fetched > 0 ==> tally_lines_of(t).contains(
            "    + "@ + decimal_of(t.fetched as nat) + " fetched from prompt store"@,
        ),
        t.local > 0 ==> tally_lines_of(t).contains(
            "    + "@ + decimal_of(t.local as nat) + " from local sqlite"@,
        ),
        t.skipped > 0 ==> tally_lines_of(t).last() == "    "@ + decimal_of(t.skipped as nat)
            + " skipped"@,
{
    let n = if t.cached > 0 {
        1int
    } else {
        0
    };
    let m = n + if t.fetched > 0 {
        1int
    } else {
        0
    };
    if t.fetched > 0 {
        assert(tally_lines_of(t)[n] == "    + "@ + decimal_of(t.fetched as nat)
            + " fetched from prompt store"@);
    }
    if t.local > 0 {
        assert(tally_lines_of(t)[m] == "    + "@ + decimal_of(t.local as nat)
            + " from local sqlite"@);
    }
}

} // verus!
