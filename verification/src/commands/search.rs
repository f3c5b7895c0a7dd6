//! The results of `git-ai search`: putting them together, filtering and writing them.

use crate::authorship::{LineRange, Message, PromptRecord, increasing, line_range_text, ranges_of};
use crate::commands::search_args::{FiltersView, ModeView, no_filters, search_args_of};
use crate::error::GitAiError;
use crate::model::opt_view;
use crate::paths::{is_absolute, is_absolute_path, tail_trimmed, trim_tail};
use crate::text::{
    ascii_lower_of, chars_of, concat, contains, decimal, decimal_of, eq_ignore_ascii_case, find_of,
    has_prefix, join, join_of, lemma_texts_push, lines, lines_of, lowercase_of, replace_char,
    replaced, str_eq, string_of, strip_prefix, texts, to_lowercase, trim, trim_end, trim_end_of,
    trimmed,
};
use crate::text_map::TextMap;
use vstd::prelude::*;
use vstd::string::*;

pub use crate::commands::search_args::{
    days_since_unix_epoch, is_leap_year, parse_line_range, parse_search_args, parse_time_spec,
    OutputFormat, ParsedSearchArgs, SearchFilters, SearchMode,
};

verus! {

/// What a search has found, by prompt: the prompt, the lines that it wrote, and
/// the commits that it is part of.
pub struct SearchResult {
    pub prompts: TextMap<PromptRecord>,
    pub prompt_locations: TextMap<Vec<(String, Vec<LineRange>)>>,
    pub prompt_commits: TextMap<Vec<String>>,
}

/// The list that a key has; without the key, the empty list.
pub open spec fn list_at<X>(m: Map<Seq<char>, Seq<X>>, k: Seq<char>) -> Seq<X> {
    if m.dom().contains(k) {
        m[k]
    } else {
        seq![]
    }
}

/// The texts and ranges of places: a file's path and ranges of its lines.
pub open spec fn places(v: Seq<(String, Vec<LineRange>)>) -> Seq<(Seq<char>, Seq<LineRange>)> {
    Seq::new(v.len(), |i: int| (v[i].0@, v[i].1@))
}

/// The places of a map of lists of places.
pub open spec fn place_lists(m: Map<Seq<char>, Vec<(String, Vec<LineRange>)>>) -> Map<
    Seq<char>,
    Seq<(Seq<char>, Seq<LineRange>)>,
> {
    m.map_values(|v: Vec<(String, Vec<LineRange>)>| places(v@))
}

/// The contents of a search's results.
#[verifier::ext_equal]
pub struct SearchView {
    pub prompts: Map<Seq<char>, PromptRecord>,
    pub locations: Map<Seq<char>, Seq<(Seq<char>, Seq<LineRange>)>>,
    pub commits: Map<Seq<char>, Seq<Seq<char>>>,
}

impl View for SearchResult {
    type V = SearchView;

    open spec fn view(&self) -> SearchView {
        SearchView {
            prompts: self.prompts@,
            locations: place_lists(self.prompt_locations@),
            commits: text_lists(self.prompt_commits@),
        }
    }
}

/// Nothing found.
pub open spec fn nothing_found() -> SearchView {
    SearchView { prompts: Map::empty(), locations: Map::empty(), commits: Map::empty() }
}

/// What two searches have found. A prompt that both found stays as the first has
/// it; its lines are those of both, and its commits those of both, each once.
pub open spec fn merged(a: SearchView, b: SearchView) -> SearchView {
    SearchView {
        prompts: b.prompts.union_prefer_right(a.prompts),
        locations: appended(a.locations, b.locations),
        commits: united(a.commits, b.commits),
    }
}

/// The texts of a map of lists of strings.
pub open spec fn text_lists(m: Map<Seq<char>, Vec<String>>) -> Map<Seq<char>, Seq<Seq<char>>> {
    m.map_values(|v: Vec<String>| texts(v@))
}

/// Two maps of lists together: each key has the first map's list, then the second's.
pub open spec fn appended<X>(a: Map<Seq<char>, Seq<X>>, b: Map<Seq<char>, Seq<X>>) -> Map<
    Seq<char>,
    Seq<X>,
> {
    Map::new(
        |k: Seq<char>| a.dom().contains(k) || b.dom().contains(k),
        |k: Seq<char>| list_at(a, k) + list_at(b, k),
    )
}

/// A list with those items of another that it lacks, in their order.
pub open spec fn with_new<X>(s: Seq<X>, more: Seq<X>) -> Seq<X>
    decreases more.len(),
{
    if more.len() == 0 {
        s
    } else {
        let before = with_new(s, more.drop_last());
        if before.contains(more.last()) {
            before
        } else {
            before.push(more.last())
        }
    }
}

/// Two maps of lists together: each key has the first map's list, then what is new
/// in the second's.
pub open spec fn united<X>(a: Map<Seq<char>, Seq<X>>, b: Map<Seq<char>, Seq<X>>) -> Map<
    Seq<char>,
    Seq<X>,
> {
    Map::new(
        |k: Seq<char>| a.dom().contains(k) || b.dom().contains(k),
        |k: Seq<char>| with_new(list_at(a, k), list_at(b, k)),
    )
}

fn add_new_texts(list: &mut Vec<String>, more: Vec<String>)
    ensures
        texts(final(list)@) == with_new(texts(old(list)@), texts(more@)),
{
    let ghost start = texts(list@);
    let ghost all = texts(more@);
    let mut i: usize = 0;
    proof {
        assert(all.take(0) =~= seq![]);
    }
    while i < more.len()
        invariant
            i <= more@.len(),
            all == texts(more@),
            texts(list@) == with_new(start, all.take(i as int)),
        decreases more.len() - i,
    {
        proof {
            assert(all.take(i + 1).drop_last() =~= all.take(i as int));
            assert(all.take(i + 1).last() == more@[i as int]@);
            lemma_texts_push(list@, more@[i as int]);
        }
        if !crate::text::list_contains(list.as_slice(), more[i].as_str()) {
            let item = more[i].clone();
            proof {
                lemma_texts_push(list@, item);
            }
            list.push(item);
        }
        i += 1;
    }
    proof {
        assert(all.take(i as int) =~= all);
    }
}

impl SearchResult {
    /// Nothing found.
    pub fn new() -> (r: Self)
        ensures
            r@ == nothing_found(),
            r.prompts.key_order() == Seq::<Seq<char>>::empty(),
    {
        let r = SearchResult {
            prompts: TextMap::new(),
            prompt_locations: TextMap::new(),
            prompt_commits: TextMap::new(),
        };
        proof {
            assert(r@ =~= nothing_found());
        }
        r
    }

    /// The number of prompts found.
    pub fn len(&self) -> (n: usize)
        ensures
            n == self.prompts.key_order().len(),
            self.prompts.key_order().no_duplicates(),
            forall|k: Seq<char>|
                self.prompts.key_order().contains(k) <==> self.prompts@.dom().contains(k),
    {
        self.prompts.len()
    }

    /// Whether no prompt was found.
    pub fn is_empty(&self) -> (r: bool)
        ensures
            r == (self.prompts@ == Map::<Seq<char>, PromptRecord>::empty()),
    {
        let n: usize = self.prompts.len();
        proof {
            let order = self.prompts.key_order();
            if n == 0 {
                assert forall|k: Seq<char>| !self.prompts@.dom().contains(k) by {
                    assert(!order.contains(k));
                }
                assert(self.prompts@ =~= Map::<Seq<char>, PromptRecord>::empty());
            } else {
                assert(order.contains(order[0]));
                assert(self.prompts@.dom().contains(order[0]));
            }
        }
        n == 0
    }

    /// Adds what another search has found. A prompt that both found stays as this one
    /// has it; its lines are those of both, and its commits those of both, each once.
    pub fn merge(&mut self, other: SearchResult)
        ensures
            final(self)@ == merged(old(self)@, other@),
    {
        let SearchResult { prompts, prompt_locations, prompt_commits } = other;
        merge_prompts(&mut self.prompts, prompts);
        merge_locations(&mut self.prompt_locations, prompt_locations);
        merge_commits(&mut self.prompt_commits, prompt_commits);
    }
}

fn merge_prompts(into: &mut TextMap<PromptRecord>, from: TextMap<PromptRecord>)
    ensures
        final(into)@ == from@.union_prefer_right(old(into)@),
{
    let ghost whole = from@.union_prefer_right(into@);
    let mut left = from;
    let mut more = true;
    while more
        invariant
            whole == left@.union_prefer_right(into@),
            !more ==> left@ == Map::<Seq<char>, PromptRecord>::empty(),
        decreases left.key_order().len() + (if more {
            1int
        } else {
            0int
        }),
    {
        match left.pop() {
            Some((hash, prompt)) => {
                if !into.contains_key(hash.as_str()) {
                    let ghost before = into@;
                    let ghost key = hash@;
                    into.insert(hash, prompt);
                    proof {
                        assert(left@.union_prefer_right(into@) =~= left@.insert(
                            key,
                            prompt,
                        ).union_prefer_right(before));
                    }
                } else {
                    proof {
                        assert(left@.union_prefer_right(into@) =~= left@.insert(
                            hash@,
                            prompt,
                        ).union_prefer_right(into@));
                    }
                }
            },
            None => {
                more = false;
            },
        }
    }
    proof {
        assert(left@.union_prefer_right(into@) =~= into@);
    }
}

fn merge_locations(
    into: &mut TextMap<Vec<(String, Vec<LineRange>)>>,
    from: TextMap<Vec<(String, Vec<LineRange>)>>,
)
    ensures
        place_lists(final(into)@) == appended(place_lists(old(into)@), place_lists(from@)),
{
    let ghost whole = appended(place_lists(into@), place_lists(from@));
    let mut left = from;
    let mut more = true;
    while more
        invariant
            whole == appended(place_lists(into@), place_lists(left@)),
            !more ==> left@ == Map::<Seq<char>, Vec<(String, Vec<LineRange>)>>::empty(),
        decreases left.key_order().len() + (if more {
            1int
        } else {
            0int
        }),
    {
        let ghost left0 = left@;
        let ghost into0 = into@;
        match left.pop() {
            Some((hash, mut locations)) => {
                let ghost key = hash@;
                let ghost added = places(locations@);
                let mut list = match into.take(hash.as_str()) {
                    Some(list) => list,
                    None => Vec::new(),
                };
                let ghost had = list@;
                list.append(&mut locations);
                proof {
                    assert(places(list@) =~= places(had) + added);
                    assert(places(had) =~= list_at(place_lists(into0), key));
                }
                into.insert(hash, list);
                proof {
                    assert(place_lists(into0).dom() =~= into0.dom());
                    assert(place_lists(left0).dom() =~= left0.dom());
                    assert(place_lists(into@)[key] == list_at(place_lists(into0), key) + added);
                    assert forall|k: Seq<char>| whole.dom().contains(k) <==> appended(
                        place_lists(into@),
                        place_lists(left@),
                    ).dom().contains(k) by {}
                    assert forall|k: Seq<char>| whole.dom().contains(k) implies #[trigger] whole[k]
                        == appended(place_lists(into@), place_lists(left@))[k] by {
                        if k == key {
                            assert(list_at(place_lists(left0), key) == added);
                            assert(list_at(place_lists(left@), key) == Seq::<(Seq<char>, Seq<LineRange>)>::empty());
                            assert((list_at(place_lists(into0), key) + added) + Seq::<
                                (Seq<char>, Seq<LineRange>),
                            >::empty() =~= list_at(place_lists(into0), key) + added);
                        } else {
                            assert(list_at(place_lists(into@), k) == list_at(place_lists(into0), k));
                            assert(list_at(place_lists(left@), k) == list_at(place_lists(left0), k));
                        }
                    }
                    assert(whole =~= appended(place_lists(into@), place_lists(left@)));
                }
            },
            None => {
                more = false;
            },
        }
    }
    proof {
        assert forall|k: Seq<char>| whole.dom().contains(k) implies #[trigger] whole[k] == place_lists(
            into@,
        )[k] by {
            assert(list_at(place_lists(left@), k) == Seq::<(Seq<char>, Seq<LineRange>)>::empty());
            assert(list_at(place_lists(into@), k) + Seq::<(Seq<char>, Seq<LineRange>)>::empty() =~= list_at(
                place_lists(into@),
                k,
            ));
        }
        assert(whole =~= place_lists(into@));
    }
}

fn merge_commits(into: &mut TextMap<Vec<String>>, from: TextMap<Vec<String>>)
    ensures
        text_lists(final(into)@) == united(text_lists(old(into)@), text_lists(from@)),
{
    let ghost whole = united(text_lists(into@), text_lists(from@));
    let mut left = from;
    let mut more = true;
    while more
        invariant
            whole == united(text_lists(into@), text_lists(left@)),
            !more ==> left@ == Map::<Seq<char>, Vec<String>>::empty(),
        decreases left.key_order().len() + (if more {
            1int
        } else {
            0int
        }),
    {
        let ghost left0 = left@;
        let ghost into0 = into@;
        match left.pop() {
            Some((hash, commits)) => {
                let ghost key = hash@;
                let ghost added = texts(commits@);
                let mut list = match into.take(hash.as_str()) {
                    Some(list) => list,
                    None => Vec::new(),
                };
                proof {
                    assert(texts(list@) =~= list_at(text_lists(into0), key));
                }
                add_new_texts(&mut list, commits);
                into.insert(hash, list);
                proof {
                    assert(text_lists(into@)[key] == with_new(
                        list_at(text_lists(into0), key),
                        added,
                    ));
                    assert forall|k: Seq<char>| whole.dom().contains(k) implies #[trigger] whole[k]
                        == united(text_lists(into@), text_lists(left@))[k] by {
                        if k == key {
                            assert(list_at(text_lists(left0), key) == added);
                            assert(list_at(text_lists(left@), key) == Seq::<Seq<char>>::empty());
                        } else {
                            assert(list_at(text_lists(into@), k) == list_at(
                                text_lists(into0),
                                k,
                            ));
                            assert(list_at(text_lists(left@), k) == list_at(
                                text_lists(left0),
                                k,
                            ));
                        }
                    }
                    assert(whole =~= united(text_lists(into@), text_lists(left@)));
                }
            },
            None => {
                more = false;
            },
        }
    }
    proof {
        assert(whole =~= text_lists(into@));
    }
}

/// Merging keeps the prompts of the first search as they are.
pub proof fn law_merge_first_wins(
    first: Map<Seq<char>, PromptRecord>,
    second: Map<Seq<char>, PromptRecord>,
    hash: Seq<char>,
)
    ensures
        first.dom().contains(hash) ==> second.union_prefer_right(first)[hash] == first[hash],
        second.union_prefer_right(first).dom().contains(hash) <==> first.dom().contains(hash)
            || second.dom().contains(hash),
{
}

/// A list to which new items were added holds those of both and, where it held
/// none twice, holds none twice.
pub proof fn law_united_lists<X>(s: Seq<X>, more: Seq<X>)
    ensures
        forall|x: X| #[trigger] with_new(s, more).contains(x) <==> (s.contains(x) || more.contains(x)),
        s.no_duplicates() ==> with_new(s, more).no_duplicates(),
    decreases more.len(),
{
    if more.len() > 0 {
        let front = more.drop_last();
        law_united_lists(s, front);
        let before = with_new(s, front);
        let after = with_new(s, more);
        assert forall|x: X| #[trigger] after.contains(x) <==> (s.contains(x) || more.contains(x)) by {
            assert(before.contains(x) <==> (s.contains(x) || front.contains(x)));
            if more.contains(x) {
                let k = more.index_of(x);
                if k < front.len() {
                    assert(front[k] == x);
                }
            }
            if front.contains(x) {
                assert(more[front.index_of(x)] == x);
            }
            if before.contains(x) {
                assert(after[before.index_of(x)] == x);
            }
            if x == more.last() && !before.contains(x) {
                assert(after[before.len() as int] == x);
            }
            if after.contains(x) {
                let k = after.index_of(x);
                if k < before.len() {
                    assert(before[k] == x);
                } else {
                    assert(more[more.len() - 1] == x);
                }
            }
        }
    }
}

// --------------------------------------------------------------- what was found

/// The lines that one prompt wrote in a file.
pub struct AttestationEntry {
    pub hash: String,
    pub line_ranges: Vec<LineRange>,
}

/// The lines that prompts wrote in a file.
pub struct FileAttestation {
    pub file_path: String,
    pub entries: Vec<AttestationEntry>,
}

/// What is recorded of a commit's authorship.
pub struct AuthorshipLog {
    pub prompts: TextMap<PromptRecord>,
    pub attestations: Vec<FileAttestation>,
}

/// A prompt of the database.
pub struct DbPrompt {
    pub id: String,
    pub commit_sha: Option<String>,
    pub prompt: PromptRecord,
}

/// What the database knows about a commit: the commit's prompts, and, by prompt, the
/// messages.
pub struct PromptDatabase {
    pub by_commit: Vec<DbPrompt>,
    pub messages: TextMap<Vec<Message>>,
}

/// A map of lists with an item added to the list of a key.
pub open spec fn item_added<X>(m: Map<Seq<char>, Seq<X>>, k: Seq<char>, x: X) -> Map<
    Seq<char>,
    Seq<X>,
> {
    m.insert(k, list_at(m, k).push(x))
}

/// Places with those of a file added.
pub open spec fn entries_added(
    m: Map<Seq<char>, Seq<(Seq<char>, Seq<LineRange>)>>,
    path: Seq<char>,
    entries: Seq<AttestationEntry>,
) -> Map<Seq<char>, Seq<(Seq<char>, Seq<LineRange>)>>
    decreases entries.len(),
{
    if entries.len() == 0 {
        m
    } else {
        item_added(
            entries_added(m, path, entries.drop_last()),
            entries.last().hash@,
            (path, entries.last().line_ranges@),
        )
    }
}

/// The places, by prompt, that are recorded of a commit.
pub open spec fn attested(files: Seq<FileAttestation>) -> Map<
    Seq<char>,
    Seq<(Seq<char>, Seq<LineRange>)>,
>
    decreases files.len(),
{
    if files.len() == 0 {
        Map::empty()
    } else {
        entries_added(
            attested(files.drop_last()),
            files.last().file_path@,
            files.last().entries@,
        )
    }
}

/// Prompts of the database by their ids.
pub open spec fn db_prompts(records: Seq<DbPrompt>) -> Map<Seq<char>, PromptRecord>
    decreases records.len(),
{
    if records.len() == 0 {
        Map::empty()
    } else {
        db_prompts(records.drop_last()).insert(records.last().id@, records.last().prompt)
    }
}

/// The commits of prompts of the database: for each record the given commit.
pub open spec fn db_commits(records: Seq<DbPrompt>, sha: Seq<char>) -> Map<
    Seq<char>,
    Seq<Seq<char>>,
>
    decreases records.len(),
{
    if records.len() == 0 {
        Map::empty()
    } else {
        item_added(db_commits(records.drop_last(), sha), records.last().id@, sha)
    }
}

/// Prompts with the messages that the database has of those that lack them.
pub open spec fn with_messages(
    prompts: Map<Seq<char>, PromptRecord>,
    known: Map<Seq<char>, Vec<Message>>,
) -> Map<Seq<char>, PromptRecord> {
    prompts.map_entries(
        |k: Seq<char>, p: PromptRecord|
            if p.messages@.len() == 0 && known.dom().contains(k) && known[k]@.len() > 0 {
                PromptRecord { messages: known[k], ..p }
            } else {
                p
            },
    )
}

/// What a commit's record and the database say about a commit. The prompts are those
/// of the record or, where it has none, those of the database.
pub open spec fn commit_found(
    sha: Seq<char>,
    log: Option<AuthorshipLog>,
    db: Option<PromptDatabase>,
) -> SearchView {
    let prompts = match log {
        Some(l) => l.prompts@,
        None => Map::empty(),
    };
    let locations = match log {
        Some(l) => attested(l.attestations@),
        None => Map::empty(),
    };
    match db {
        None => SearchView {
            prompts,
            locations,
            commits: prompts.map_values(|p: PromptRecord| seq![sha]),
        },
        Some(d) => if prompts == Map::<Seq<char>, PromptRecord>::empty() {
            SearchView {
                prompts: db_prompts(d.by_commit@),
                locations,
                commits: db_commits(d.by_commit@, sha),
            }
        } else {
            SearchView {
                prompts: with_messages(prompts, d.messages@),
                locations,
                commits: prompts.map_values(|p: PromptRecord| seq![sha]),
            }
        },
    }
}

fn copy_ranges(v: &Vec<LineRange>) -> (r: Vec<LineRange>)
    ensures
        r@ == v@,
{
    let mut r: Vec<LineRange> = Vec::new();
    let mut i: usize = 0;
    while i < v.len()
        invariant
            i <= v@.len(),
            r@ == v@.take(i as int),
        decreases v.len() - i,
    {
        r.push(v[i]);
        proof {
            assert(v@.take(i + 1) =~= v@.take(i as int).push(v@[i as int]));
        }
        i += 1;
    }
    proof {
        assert(v@.take(i as int) =~= v@);
    }
    r
}

fn add_place(
    map: &mut TextMap<Vec<(String, Vec<LineRange>)>>,
    hash: &String,
    path: &String,
    ranges: Vec<LineRange>,
)
    ensures
        place_lists(final(map)@) == item_added(
            place_lists(old(map)@),
            hash@,
            (path@, ranges@),
        ),
{
    let ghost before = map@;
    let mut list = match map.take(hash.as_str()) {
        Some(list) => list,
        None => Vec::new(),
    };
    let ghost had = list@;
    let ghost place = (path@, ranges@);
    list.push((path.clone(), ranges));
    proof {
        assert(places(list@) =~= places(had).push(place));
        assert(places(had) =~= list_at(place_lists(before), hash@));
    }
    map.insert(hash.clone(), list);
    proof {
        assert(place_lists(map@) =~= item_added(place_lists(before), hash@, place));
    }
}

fn add_text(map: &mut TextMap<Vec<String>>, key: &String, text: &str)
    ensures
        text_lists(final(map)@) == item_added(text_lists(old(map)@), key@, text@),
{
    let ghost before = map@;
    let mut list = match map.take(key.as_str()) {
        Some(list) => list,
        None => Vec::new(),
    };
    let item = text.to_owned();
    proof {
        assert(texts(list@) =~= list_at(text_lists(before), key@));
        lemma_texts_push(list@, item);
    }
    list.push(item);
    map.insert(key.clone(), list);
    proof {
        assert(text_lists(map@) =~= item_added(text_lists(before), key@, text@));
    }
}

fn attested_places(files: &Vec<FileAttestation>) -> (r: TextMap<Vec<(String, Vec<LineRange>)>>)
    ensures
        place_lists(r@) == attested(files@),
{
    let mut map: TextMap<Vec<(String, Vec<LineRange>)>> = TextMap::new();
    let mut i: usize = 0;
    proof {
        assert(files@.take(0) =~= seq![]);
        assert(place_lists(map@) =~= attested(seq![]));
    }
    while i < files.len()
        invariant
            i <= files@.len(),
            place_lists(map@) == attested(files@.take(i as int)),
        decreases files.len() - i,
    {
        let file = &files[i];
        let ghost m0 = place_lists(map@);
        let mut j: usize = 0;
        proof {
            assert(files@.take(i + 1).drop_last() =~= files@.take(i as int));
            assert(files@.take(i + 1).last() == *file);
            assert(file.entries@.take(0) =~= seq![]);
        }
        while j < file.entries.len()
            invariant
                j <= file.entries@.len(),
                place_lists(map@) == entries_added(m0, file.file_path@, file.entries@.take(j as int)),
            decreases file.entries.len() - j,
        {
            let entry = &file.entries[j];
            proof {
                assert(file.entries@.take(j + 1).drop_last() =~= file.entries@.take(j as int));
                assert(file.entries@.take(j + 1).last() == *entry);
            }
            let ranges = copy_ranges(&entry.line_ranges);
            add_place(&mut map, &entry.hash, &file.file_path, ranges);
            j += 1;
        }
        proof {
            assert(file.entries@.take(j as int) =~= file.entries@);
        }
        i += 1;
    }
    proof {
        assert(files@.take(i as int) =~= files@);
    }
    map
}

fn each_with_commit(prompts: &TextMap<PromptRecord>, sha: &str) -> (r: TextMap<Vec<String>>)
    ensures
        text_lists(r@) == prompts@.map_values(|p: PromptRecord| seq![sha@]),
{
    let mut map: TextMap<Vec<String>> = TextMap::new();
    let n: usize = prompts.len();
    let ghost order = prompts.key_order();
    let mut i: usize = 0;
    while i < n
        invariant
            i <= n,
            n == order.len(),
            order == prompts.key_order(),
            forall|k: Seq<char>| order.contains(k) <==> prompts@.dom().contains(k),
            forall|k: Seq<char>|
                map@.dom().contains(k) <==> exists|j: int| 0 <= j < i && #[trigger] order[j] == k,
            forall|k: Seq<char>| #[trigger]
                map@.dom().contains(k) ==> texts(map@[k]@) == seq![sha@],
        decreases n - i,
    {
        let key = prompts.key_at(i);
        let mut list: Vec<String> = Vec::new();
        list.push(sha.to_owned());
        proof {
            assert(texts(list@) =~= seq![sha@]);
        }
        let ghost before = map@;
        map.insert(key.clone(), list);
        proof {
            assert forall|k: Seq<char>| map@.dom().contains(k) <==> exists|j: int|
                0 <= j < i + 1 && #[trigger] order[j] == k by {
                if map@.dom().contains(k) && !before.dom().contains(k) {
                    assert(order[i as int] == k);
                }
            }
        }
        i += 1;
    }
    proof {
        assert forall|k: Seq<char>| map@.dom().contains(k) <==> prompts@.dom().contains(k) by {
            if prompts@.dom().contains(k) {
                assert(order.contains(k));
                assert(order[order.index_of(k)] == k);
            }
            if map@.dom().contains(k) {
                let j = choose|j: int| 0 <= j < i && #[trigger] order[j] == k;
                assert(order.contains(k));
            }
        }
        assert(text_lists(map@) =~= prompts@.map_values(|p: PromptRecord| seq![sha@]));
    }
    map
}

fn supplement_messages(prompts: TextMap<PromptRecord>, known: TextMap<Vec<Message>>) -> (r: TextMap<
    PromptRecord,
>)
    ensures
        r@ == with_messages(prompts@, known@),
{
    let mut left = prompts;
    let mut known = known;
    let ghost all = prompts@;
    let ghost known0 = known@;
    let mut out: TextMap<PromptRecord> = TextMap::new();
    let mut more = true;
    while more
        invariant
            !more ==> left@ == Map::<Seq<char>, PromptRecord>::empty(),
            forall|k: Seq<char>| #[trigger]
                all.dom().contains(k) <==> left@.dom().contains(k) || out@.dom().contains(k),
            forall|k: Seq<char>| #[trigger]
                left@.dom().contains(k) ==> left@[k] == all[k] && !out@.dom().contains(k),
            forall|k: Seq<char>| #[trigger]
                out@.dom().contains(k) ==> out@[k] == with_messages(all, known0)[k],
            forall|k: Seq<char>| #[trigger]
                left@.dom().contains(k) ==> (known@.dom().contains(k)
                    <==> known0.dom().contains(k)) && (known@.dom().contains(k) ==> known@[k]
                    == known0[k]),
        decreases left.key_order().len() + (if more {
            1int
        } else {
            0int
        }),
    {
        let ghost left0 = left@;
        let ghost out0 = out@;
        match left.pop() {
            Some((hash, record)) => {
                let ghost key = hash@;
                let ghost rec0 = record;
                let mut record = record;
                proof {
                    assert(left0.dom().contains(key));
                    assert(left0[key] == rec0);
                }
                if record.messages.len() == 0 {
                    if let Some(messages) = known.take(hash.as_str()) {
                        if messages.len() > 0 {
                            record.messages = messages;
                        }
                    }
                }
                proof {
                    assert(all.dom().contains(key));
                    assert(record == with_messages(all, known0)[key]);
                }
                out.insert(hash, record);
                proof {
                    assert forall|k: Seq<char>| #[trigger]
                        left@.dom().contains(k) implies left@[k] == all[k]
                        && !out@.dom().contains(k) by {
                        assert(left0.dom().contains(k));
                        assert(k != key);
                    }
                    assert forall|k: Seq<char>| #[trigger] all.dom().contains(k) <==> left@.dom().contains(
                        k,
                    ) || out@.dom().contains(k) by {
                        assert(left0.dom().contains(k) <==> left@.dom().contains(k) || k == key);
                    }
                    assert forall|k: Seq<char>| #[trigger]
                        left@.dom().contains(k) implies (known@.dom().contains(k)
                        <==> known0.dom().contains(k)) && (known@.dom().contains(k) ==> known@[k]
                        == known0[k]) by {
                        assert(left0.dom().contains(k));
                    }
                }
            },
            None => {
                more = false;
            },
        }
    }
    proof {
        assert forall|k: Seq<char>| out@.dom().contains(k) <==> all.dom().contains(k) by {}
        assert(out@ =~= with_messages(all, known0));
    }
    out
}

/// What a commit's record and the database say about a commit.
pub fn search_by_commit(
    commit_sha: &str,
    log: Option<AuthorshipLog>,
    db: Option<PromptDatabase>,
) -> (r: SearchResult)
    ensures
        r@ == commit_found(commit_sha@, log, db),
{
    let (prompts, locations) = match log {
        Some(l) => {
            let places = attested_places(&l.attestations);
            (l.prompts, places)
        },
        None => {
            let places: TextMap<Vec<(String, Vec<LineRange>)>> = TextMap::new();
            proof {
                assert(place_lists(places@) =~= Map::empty());
            }
            (TextMap::new(), places)
        },
    };
    let count: usize = prompts.len();
    proof {
        let order = prompts.key_order();
        if count == 0 {
            assert forall|k: Seq<char>| !prompts@.dom().contains(k) by {
                assert(!order.contains(k));
            }
            assert(prompts@ =~= Map::<Seq<char>, PromptRecord>::empty());
        } else {
            assert(order.contains(order[0]));
            assert(prompts@.dom().contains(order[0]));
        }
    }
    match db {
        Some(d) => {
            if count == 0 {
                let commits = db_commit_lists(&d.by_commit, commit_sha);
                let prompts = db_prompt_map(d.by_commit);
                return SearchResult {
                    prompts,
                    prompt_locations: locations,
                    prompt_commits: commits,
                };
            }
            let commits = each_with_commit(&prompts, commit_sha);
            let prompts = supplement_messages(prompts, d.messages);
            SearchResult { prompts, prompt_locations: locations, prompt_commits: commits }
        },
        None => {
            let commits = each_with_commit(&prompts, commit_sha);
            SearchResult { prompts, prompt_locations: locations, prompt_commits: commits }
        },
    }
}

fn db_commit_lists(records: &Vec<DbPrompt>, sha: &str) -> (r: TextMap<Vec<String>>)
    ensures
        text_lists(r@) == db_commits(records@, sha@),
{
    let mut commits: TextMap<Vec<String>> = TextMap::new();
    let mut i: usize = 0;
    proof {
        assert(records@.take(0) =~= seq![]);
        assert(text_lists(commits@) =~= db_commits(seq![], sha@));
    }
    while i < records.len()
        invariant
            i <= records@.len(),
            text_lists(commits@) == db_commits(records@.take(i as int), sha@),
        decreases records.len() - i,
    {
        proof {
            assert(records@.take(i + 1).drop_last() =~= records@.take(i as int));
            assert(records@.take(i + 1).last() == records@[i as int]);
        }
        add_text(&mut commits, &records[i].id, sha);
        i += 1;
    }
    proof {
        assert(records@.take(i as int) =~= records@);
    }
    commits
}

fn db_prompt_map(records: Vec<DbPrompt>) -> (r: TextMap<PromptRecord>)
    ensures
        r@ == db_prompts(records@),
{
    let ghost all = records@;
    let mut rest = records;
    let mut stack: Vec<DbPrompt> = Vec::new();
    // Records are taken from the end, so they are turned round first.
    while rest.len() > 0
        invariant
            rest@.len() + stack@.len() == all.len(),
            rest@ == all.take(rest@.len() as int),
            forall|k: int| 0 <= k < stack@.len() ==> stack@[k] == all[all.len() - 1 - k],
        decreases rest.len(),
    {
        let ghost n = rest@.len();
        match rest.pop() {
            Some(record) => {
                proof {
                    assert(rest@ =~= all.take(n - 1));
                    assert(record == all[n - 1]);
                }
                stack.push(record);
            },
            None => {},
        }
    }
    let mut prompts: TextMap<PromptRecord> = TextMap::new();
    proof {
        assert(all.take(0) =~= seq![]);
    }
    while stack.len() > 0
        invariant
            stack@.len() <= all.len(),
            forall|k: int| 0 <= k < stack@.len() ==> stack@[k] == all[all.len() - 1 - k],
            prompts@ == db_prompts(all.take(all.len() - stack@.len())),
        decreases stack.len(),
    {
        let ghost n = stack@.len();
        match stack.pop() {
            Some(record) => {
                proof {
                    let m = all.len() - n;
                    assert(record == all[m]);
                    assert(all.take(m + 1).drop_last() =~= all.take(m));
                    assert(all.take(m + 1).last() == record);
                }
                prompts.insert(record.id, record.prompt);
            },
            None => {},
        }
    }
    proof {
        assert(all.take(all.len() as int) =~= all);
    }
    prompts
}

/// The commits that a list of commits, one a line, names.
pub open spec fn listed_commits(rows: Seq<Seq<char>>) -> Seq<Seq<char>>
    decreases rows.len(),
{
    if rows.len() == 0 {
        seq![]
    } else {
        let before = listed_commits(rows.drop_last());
        let name = trimmed(rows.last());
        if name.len() > 0 {
            before.push(name)
        } else {
            before
        }
    }
}

/// The commits that the output of `git rev-list` names.
pub fn commits_in_range(stdout: &str) -> (r: Vec<String>)
    ensures
        texts(r@) == listed_commits(lines_of(stdout@)),
{
    let rows = lines(stdout);
    let ghost all = texts(rows@);
    let mut out: Vec<String> = Vec::new();
    let mut i: usize = 0;
    proof {
        assert(all.take(0) =~= seq![]);
        assert(texts(out@) =~= seq![]);
    }
    while i < rows.len()
        invariant
            i <= rows@.len(),
            all == texts(rows@),
            texts(out@) == listed_commits(all.take(i as int)),
        decreases rows.len() - i,
    {
        proof {
            assert(all.take(i + 1).drop_last() =~= all.take(i as int));
            assert(all.take(i + 1).last() == rows@[i as int]@);
        }
        let name = trim(rows[i].as_str());
        if !name.as_str().is_empty() {
            proof {
                lemma_texts_push(out@, name);
            }
            out.push(name);
        }
        i += 1;
    }
    proof {
        assert(all.take(i as int) =~= all);
    }
    out
}

/// What searches of several commits have found together; a commit whose search
/// failed adds nothing.
pub open spec fn range_found(found: Seq<Option<SearchResult>>) -> SearchView
    decreases found.len(),
{
    if found.len() == 0 {
        nothing_found()
    } else {
        match found.last() {
            Some(one) => merged(range_found(found.drop_last()), one@),
            None => range_found(found.drop_last()),
        }
    }
}

/// What searches of the commits of a range have found together, in the order of the
/// commits.
pub fn search_by_commit_range(found: Vec<Option<SearchResult>>) -> (r: SearchResult)
    ensures
        r@ == range_found(found@),
{
    let ghost all = found@;
    let mut rest = found;
    let mut stack: Vec<Option<SearchResult>> = Vec::new();
    while rest.len() > 0
        invariant
            rest@.len() + stack@.len() == all.len(),
            rest@ == all.take(rest@.len() as int),
            forall|k: int| 0 <= k < stack@.len() ==> stack@[k] == all[all.len() - 1 - k],
        decreases rest.len(),
    {
        let ghost n = rest@.len();
        match rest.pop() {
            Some(one) => {
                proof {
                    assert(rest@ =~= all.take(n - 1));
                    assert(one == all[n - 1]);
                }
                stack.push(one);
            },
            None => {},
        }
    }
    let mut result = SearchResult::new();
    proof {
        assert(all.take(0) =~= seq![]);
    }
    while stack.len() > 0
        invariant
            stack@.len() <= all.len(),
            forall|k: int| 0 <= k < stack@.len() ==> stack@[k] == all[all.len() - 1 - k],
            result@ == range_found(all.take(all.len() - stack@.len())),
        decreases stack.len(),
    {
        let ghost n = stack@.len();
        match stack.pop() {
            Some(one) => {
                proof {
                    let m = all.len() - n;
                    assert(one == all[m]);
                    assert(all.take(m + 1).drop_last() =~= all.take(m));
                    assert(all.take(m + 1).last() == one);
                }
                if let Some(commit_result) = one {
                    result.merge(commit_result);
                }
            },
            None => {},
        }
    }
    proof {
        assert(all.take(all.len() as int) =~= all);
    }
    result
}

/// Numbers in order with one put in its place, unless it is there.
pub open spec fn with_line(s: Seq<u32>, n: u32) -> Seq<u32>
    decreases s.len(),
{
    if s.len() == 0 {
        seq![n]
    } else if s.last() == n {
        s
    } else if s.last() < n {
        s.push(n)
    } else {
        with_line(s.drop_last(), n).push(s.last())
    }
}

/// The lines that one prompt wrote, in order, each once.
pub open spec fn lines_by(authors: Seq<(u32, String)>, hash: Seq<char>) -> Seq<u32>
    decreases authors.len(),
{
    if authors.len() == 0 {
        seq![]
    } else {
        let before = lines_by(authors.drop_last(), hash);
        if authors.last().1@ == hash {
            with_line(before, authors.last().0)
        } else {
            before
        }
    }
}

proof fn lemma_with_line(s: Seq<u32>, n: u32)
    requires
        increasing(s),
    ensures
        increasing(with_line(s, n)),
        forall|x: u32| #[trigger] with_line(s, n).contains(x) <==> (s.contains(x) || x == n),
    decreases s.len(),
{
    let t = with_line(s, n);
    if s.len() == 0 {
        assert(t[0] == n);
    } else if s.last() == n {
        assert(s[s.len() - 1] == n);
    } else if s.last() < n {
        assert forall|i: int, j: int| 0 <= i < j < t.len() implies t[i] < t[j] by {
            if j == s.len() && i < s.len() - 1 {
                assert(s[i] < s[s.len() - 1]);
            }
        }
        assert forall|x: u32| #[trigger] t.contains(x) <==> (s.contains(x) || x == n) by {
            if s.contains(x) {
                assert(t[s.index_of(x)] == x);
            }
            if x == n {
                assert(t[s.len() as int] == x);
            }
            if t.contains(x) {
                let k = t.index_of(x);
                if k < s.len() {
                    assert(s[k] == x);
                }
            }
        }
    } else {
        let front = s.drop_last();
        assert forall|i: int, j: int| 0 <= i < j < front.len() implies front[i] < front[j] by {
            assert(s[i] < s[j]);
        }
        lemma_with_line(front, n);
        let u = with_line(front, n);
        assert(u.contains(n));
        assert forall|i: int, j: int| 0 <= i < j < t.len() implies t[i] < t[j] by {
            if j == u.len() {
                assert(u.contains(u[i]));
                if u[i] != n {
                    let k = front.index_of(u[i]);
                    assert(s[k] < s[s.len() - 1]);
                }
            } else {
                assert(u[i] < u[j]);
            }
        }
        assert forall|x: u32| #[trigger] t.contains(x) <==> (s.contains(x) || x == n) by {
            if t.contains(x) {
                let k = t.index_of(x);
                if k < u.len() {
                    assert(u[k] == x);
                    assert(u.contains(x));
                    if front.contains(x) {
                        assert(s[front.index_of(x)] == x);
                    }
                } else {
                    assert(s[s.len() - 1] == x);
                }
            }
            if s.contains(x) {
                let k = s.index_of(x);
                if k < front.len() {
                    assert(front[k] == x);
                    assert(front.contains(x));
                    assert(u.contains(x));
                    assert(t[u.index_of(x)] == x);
                } else {
                    assert(t[u.len() as int] == x);
                }
            }
            if x == n {
                assert(t[u.index_of(n)] == x);
            }
        }
    }
}

/// The lines of a prompt come in order, each once, and are those attributed to it.
pub proof fn law_lines_by(authors: Seq<(u32, String)>, hash: Seq<char>)
    ensures
        increasing(lines_by(authors, hash)),
        forall|x: u32|
            #[trigger] lines_by(authors, hash).contains(x) <==> exists|i: int|
                0 <= i < authors.len() && (#[trigger] authors[i]).0 == x && authors[i].1@ == hash,
    decreases authors.len(),
{
    if authors.len() > 0 {
        let front = authors.drop_last();
        law_lines_by(front, hash);
        let before = lines_by(front, hash);
        let last = authors.last();
        if last.1@ == hash {
            lemma_with_line(before, last.0);
        }
        assert forall|x: u32| #[trigger] lines_by(authors, hash).contains(x) <==> exists|i: int|
            0 <= i < authors.len() && (#[trigger] authors[i]).0 == x && authors[i].1@ == hash by {
            assert(before.contains(x) <==> exists|i: int|
                0 <= i < front.len() && (#[trigger] front[i]).0 == x && front[i].1@ == hash);
            if before.contains(x) {
                let i = choose|i: int|
                    0 <= i < front.len() && (#[trigger] front[i]).0 == x && front[i].1@ == hash;
                assert(authors[i].0 == x);
            }
            if exists|i: int|
                0 <= i < authors.len() && (#[trigger] authors[i]).0 == x && authors[i].1@ == hash {
                let i = choose|i: int|
                    0 <= i < authors.len() && (#[trigger] authors[i]).0 == x && authors[i].1@
                        == hash;
                if i < front.len() {
                    assert(front[i].0 == x);
                } else {
                    assert(last.0 == x);
                }
            }
            if last.1@ == hash && last.0 == x {
                assert(authors[authors.len() - 1].0 == x);
            }
        }
    } else {
        assert(lines_by(authors, hash) =~= seq![]);
    }
}

fn insert_line(list: &mut Vec<u32>, n: u32)
    ensures
        final(list)@ == with_line(old(list)@, n),
{
    let ghost before = list@;
    let mut at: usize = list.len();
    proof {
        assert(before.take(at as int) =~= before);
        assert(with_line(before, n) + before.skip(at as int) =~= with_line(before, n));
    }
    while at > 0
        invariant
            at <= list@.len(),
            before == list@,
            before == old(list)@,
            with_line(before, n) == with_line(before.take(at as int), n) + before.skip(at as int),
        decreases at,
    {
        let ghost t = before.take(at as int);
        let item: u32 = list[at - 1];
        if item == n {
            proof {
                assert(t + before.skip(at as int) =~= before);
            }
            return;
        }
        if item < n {
            list.insert(at, n);
            proof {
                assert(list@ =~= t.push(n) + before.skip(at as int));
            }
            return;
        }
        proof {
            assert(t.drop_last() =~= before.take(at - 1));
            assert(with_line(before.take(at - 1), n).push(t.last()) + before.skip(at as int)
                =~= with_line(before.take(at - 1), n) + before.skip(at - 1));
        }
        at -= 1;
    }
    list.insert(0, n);
    proof {
        assert(list@ =~= seq![n] + before.skip(0));
    }
}

/// What blaming a file says: the prompts that wrote lines of it, with those lines.
pub open spec fn file_found(
    path: Seq<char>,
    authors: Seq<(u32, String)>,
    prompts: Map<Seq<char>, PromptRecord>,
) -> SearchView {
    SearchView {
        prompts,
        locations: Map::new(
            |h: Seq<char>| prompts.dom().contains(h) && lines_by(authors, h).len() > 0,
            |h: Seq<char>| seq![(path, ranges_of(lines_by(authors, h)))],
        ),
        commits: Map::empty(),
    }
}

/// What blaming a file says. Lines whose author is no known prompt are people's.
pub fn search_by_file(
    normalized_path: &str,
    line_authors: &Vec<(u32, String)>,
    prompts: TextMap<PromptRecord>,
) -> (r: SearchResult)
    ensures
        r@ == file_found(normalized_path@, line_authors@, prompts@),
{
    let mut locations: TextMap<Vec<(String, Vec<LineRange>)>> = TextMap::new();
    let n: usize = prompts.len();
    let ghost order = prompts.key_order();
    let mut i: usize = 0;
    proof {
        assert(place_lists(locations@) =~= Map::empty());
    }
    while i < n
        invariant
            i <= n,
            n == order.len(),
            order == prompts.key_order(),
            order.no_duplicates(),
            forall|k: Seq<char>| order.contains(k) <==> prompts@.dom().contains(k),
            forall|h: Seq<char>|
                place_lists(locations@).dom().contains(h) <==> (exists|j: int|
                    0 <= j < i && #[trigger] order[j] == h) && lines_by(line_authors@, h).len() > 0,
            forall|h: Seq<char>| #[trigger]
                place_lists(locations@).dom().contains(h) ==> place_lists(locations@)[h] == seq![
                    (normalized_path@, ranges_of(lines_by(line_authors@, h))),
                ],
        decreases n - i,
    {
        let hash = prompts.key_at(i);
        let mut found: Vec<u32> = Vec::new();
        let mut j: usize = 0;
        proof {
            assert(line_authors@.take(0) =~= seq![]);
        }
        while j < line_authors.len()
            invariant
                j <= line_authors@.len(),
                found@ == lines_by(line_authors@.take(j as int), hash@),
            decreases line_authors.len() - j,
        {
            proof {
                assert(line_authors@.take(j + 1).drop_last() =~= line_authors@.take(j as int));
                assert(line_authors@.take(j + 1).last() == line_authors@[j as int]);
            }
            if str_eq(line_authors[j].1.as_str(), hash.as_str()) {
                insert_line(&mut found, line_authors[j].0);
            }
            j += 1;
        }
        proof {
            assert(line_authors@.take(j as int) =~= line_authors@);
        }
        let ghost before = locations@;
        if found.len() > 0 {
            let ranges = LineRange::compress_lines(&found);
            let path = normalized_path.to_owned();
            add_place(&mut locations, hash, &path, ranges);
            proof {
                assert(!place_lists(before).dom().contains(hash@)) by {
                    if place_lists(before).dom().contains(hash@) {
                        let j2 = choose|j2: int| 0 <= j2 < i && #[trigger] order[j2] == hash@;
                        assert(order[i as int] == hash@);
                    }
                }
                assert(seq![].push((path@, ranges_of(found@))) =~= seq![
                    (normalized_path@, ranges_of(lines_by(line_authors@, hash@))),
                ]);
            }
        }
        proof {
            assert forall|h: Seq<char>| place_lists(locations@).dom().contains(h) <==> (exists|
                j: int,
            |
                0 <= j < i + 1 && #[trigger] order[j] == h) && lines_by(line_authors@, h).len()
                > 0 by {
                if h == hash@ {
                    assert(order[i as int] == h);
                }
                if exists|j: int| 0 <= j < i + 1 && #[trigger] order[j] == h {
                    let j3 = choose|j: int| 0 <= j < i + 1 && #[trigger] order[j] == h;
                    assert(j3 < i || h == hash@);
                }
            }
        }
        i += 1;
    }
    let r = SearchResult {
        prompts,
        prompt_locations: locations,
        prompt_commits: TextMap::new(),
    };
    proof {
        assert forall|h: Seq<char>| (exists|j: int| 0 <= j < i && #[trigger] order[j] == h)
            <==> r.prompts@.dom().contains(h) by {
            if r.prompts@.dom().contains(h) {
                assert(order.contains(h));
                assert(order[order.index_of(h)] == h);
            }
            if exists|j: int| 0 <= j < i && #[trigger] order[j] == h {
                assert(order.contains(h));
            }
        }
        assert(r@.locations =~= file_found(
            normalized_path@,
            line_authors@,
            r.prompts@,
        ).locations);
        assert(r@.commits =~= Map::empty());
    }
    r
}

/// The commits of prompts of the database, of those that have one.
pub open spec fn own_commits(records: Seq<DbPrompt>) -> Map<Seq<char>, Seq<Seq<char>>>
    decreases records.len(),
{
    if records.len() == 0 {
        Map::empty()
    } else {
        let before = own_commits(records.drop_last());
        match records.last().commit_sha {
            Some(sha) => item_added(before, records.last().id@, sha@),
            None => before,
        }
    }
}

/// What the prompts say that the database gave for a pattern.
pub open spec fn pattern_found(records: Seq<DbPrompt>) -> SearchView {
    SearchView {
        prompts: db_prompts(records),
        locations: Map::empty(),
        commits: own_commits(records),
    }
}

/// What the prompts say that the database gave for a pattern.
pub fn search_by_pattern(records: Vec<DbPrompt>) -> (r: SearchResult)
    ensures
        r@ == pattern_found(records@),
{
    let ghost all = records@;
    let mut commits: TextMap<Vec<String>> = TextMap::new();
    let mut i: usize = 0;
    proof {
        assert(all.take(0) =~= seq![]);
        assert(text_lists(commits@) =~= own_commits(seq![]));
    }
    while i < records.len()
        invariant
            i <= records@.len(),
            all == records@,
            text_lists(commits@) == own_commits(all.take(i as int)),
        decreases records.len() - i,
    {
        proof {
            assert(all.take(i + 1).drop_last() =~= all.take(i as int));
            assert(all.take(i + 1).last() == records@[i as int]);
        }
        if let Some(sha) = &records[i].commit_sha {
            add_text(&mut commits, &records[i].id, sha.as_str());
        }
        i += 1;
    }
    proof {
        assert(all.take(i as int) =~= all);
    }
    let prompts = db_prompt_map(records);
    let r = SearchResult {
        prompts,
        prompt_locations: TextMap::new(),
        prompt_commits: commits,
    };
    proof {
        assert(r@.locations =~= Map::empty());
    }
    r
}

/// What is known of one prompt.
pub open spec fn prompt_found(id: Seq<char>, commit: Option<Seq<char>>, prompt: PromptRecord)
    -> SearchView {
    SearchView {
        prompts: Map::empty().insert(id, prompt),
        locations: Map::empty(),
        commits: match commit {
            Some(sha) => Map::empty().insert(id, seq![sha]),
            None => Map::empty(),
        },
    }
}

/// What is known of one prompt.
pub fn search_by_prompt_id(prompt_id: &str, commit_sha: Option<String>, prompt: PromptRecord) -> (r:
    SearchResult)
    ensures
        r@ == prompt_found(prompt_id@, opt_view(commit_sha), prompt),
{
    let mut result = SearchResult::new();
    result.prompts.insert(prompt_id.to_owned(), prompt);
    if let Some(sha) = commit_sha {
        let mut list: Vec<String> = Vec::new();
        let ghost text = sha@;
        list.push(sha);
        proof {
            assert(texts(list@) =~= seq![text]);
        }
        result.prompt_commits.insert(prompt_id.to_owned(), list);
    }
    proof {
        assert(result@ =~= prompt_found(prompt_id@, opt_view(commit_sha), prompt));
    }
    result
}

// --------------------------------------------------------------------- file paths

/// A path without the separators and the `.` components at its start.
pub open spec fn head_trimmed(p: Seq<char>) -> Seq<char>
    decreases p.len(),
{
    if p.len() > 0 && p[0] == '/' {
        head_trimmed(p.drop_first())
    } else if p.len() > 0 && p[0] == '.' && (p.len() == 1 || p[1] == '/') {
        head_trimmed(p.drop_first())
    } else {
        p
    }
}

/// The length of the first component of a path.
pub open spec fn component_len(p: Seq<char>) -> int
    decreases p.len(),
{
    if p.len() == 0 || p[0] == '/' {
        0
    } else {
        1 + component_len(p.drop_first())
    }
}

/// The rest of an absolute path behind the components of another, without what stands
/// for no component at its end; both are given from the same place on.
pub open spec fn path_behind(p: Seq<char>, base: Seq<char>) -> Option<Seq<char>>
    decreases base.len(),
{
    let a = head_trimmed(p);
    let b = head_trimmed(base);
    let n = component_len(b);
    if b.len() == 0 {
        Some(tail_trimmed(a))
    } else if b.len() <= base.len() && 0 < n <= b.len() && n <= a.len() && component_len(a) == n
        && a.take(n) == b.take(n) {
        path_behind(a.skip(n), b.skip(n))
    } else {
        None
    }
}

proof fn lemma_head_trimmed(p: Seq<char>)
    ensures
        head_trimmed(p).len() <= p.len(),
        head_trimmed(p).len() > 0 ==> head_trimmed(p)[0] != '/',
    decreases p.len(),
{
    if p.len() > 0 && (p[0] == '/' || (p[0] == '.' && (p.len() == 1 || p[1] == '/'))) {
        lemma_head_trimmed(p.drop_first());
    }
}

proof fn lemma_component_len(p: Seq<char>)
    ensures
        0 <= component_len(p) <= p.len(),
        p.len() > 0 && p[0] != '/' ==> component_len(p) > 0,
    decreases p.len(),
{
    if p.len() > 0 && p[0] != '/' {
        lemma_component_len(p.drop_first());
    }
}

fn trimmed_head(v: &Vec<char>, from: usize) -> (n: usize)
    requires
        from <= v@.len(),
    ensures
        from <= n <= v@.len(),
        head_trimmed(v@.skip(from as int)) == v@.skip(n as int),
{
    let mut n: usize = from;
    while n < v.len() && (v[n] == '/' || (v[n] == '.' && (n + 1 == v.len() || v[n + 1] == '/')))
        invariant
            from <= n <= v@.len(),
            head_trimmed(v@.skip(from as int)) == head_trimmed(v@.skip(n as int)),
        decreases v.len() - n,
    {
        proof {
            assert(v@.skip(n as int).drop_first() =~= v@.skip(n + 1));
        }
        n += 1;
    }
    n
}

fn end_of_component(v: &Vec<char>, from: usize) -> (n: usize)
    requires
        from <= v@.len(),
    ensures
        from <= n <= v@.len(),
        component_len(v@.skip(from as int)) == n - from,
{
    let mut n: usize = from;
    while n < v.len() && v[n] != '/'
        invariant
            from <= n <= v@.len(),
            component_len(v@.skip(from as int)) == (n - from) + component_len(v@.skip(n as int)),
        decreases v.len() - n,
    {
        proof {
            assert(v@.skip(n as int).drop_first() =~= v@.skip(n + 1));
        }
        n += 1;
    }
    n
}

fn strip_base(path: &str, base: &str) -> (r: Option<String>)
    ensures
        opt_view(r) == path_behind(path@, base@),
{
    let p = chars_of(path);
    let b = chars_of(base);
    let mut i: usize = 0;
    let mut j: usize = 0;
    proof {
        assert(p@.skip(0) =~= p@);
        assert(b@.skip(0) =~= b@);
    }
    loop
        invariant
            i <= p@.len(),
            j <= b@.len(),
            p@ == path@,
            b@ == base@,
            path_behind(path@, base@) == path_behind(p@.skip(i as int), b@.skip(j as int)),
        decreases b.len() - j,
    {
        let i1: usize = trimmed_head(&p, i);
        let j1: usize = trimmed_head(&b, j);
        let ghost a = p@.skip(i1 as int);
        let ghost c = b@.skip(j1 as int);
        proof {
            lemma_head_trimmed(b@.skip(j as int));
            lemma_component_len(c);
        }
        if j1 == b.len() {
            let rest = string_of(&p, i1, p.len());
            proof {
                assert(rest@ =~= a);
            }
            return Some(trim_tail(rest.as_str()));
        }
        let i2: usize = end_of_component(&p, i1);
        let j2: usize = end_of_component(&b, j1);
        if i2 - i1 != j2 - j1 {
            return None;
        }
        let x = string_of(&p, i1, i2);
        let y = string_of(&b, j1, j2);
        proof {
            assert(x@ =~= a.take(i2 - i1));
            assert(y@ =~= c.take(j2 - j1));
        }
        if !str_eq(x.as_str(), y.as_str()) {
            return None;
        }
        proof {
            assert(a.skip(i2 - i1) =~= p@.skip(i2 as int));
            assert(c.skip(j2 - j1) =~= b@.skip(j2 as int));
        }
        i = i2;
        j = j2;
    }
}

/// A file's path as it is seen from the directory of the repository, with slashes.
pub open spec fn normalized_path_of(path: Seq<char>, workdir: Seq<char>) -> Seq<char> {
    if !is_absolute_path(path) {
        replaced(
            if has_prefix(path, "./"@) {
                path.skip(2)
            } else {
                path
            },
            '\\',
            '/',
        )
    } else {
        match path_behind(path, workdir) {
            Some(rest) => replaced(rest, '\\', '/'),
            None => replaced(path, '\\', '/'),
        }
    }
}

/// A file's path as it is seen from the directory of the repository. Only an
/// absolute path needs that directory.
pub fn normalize_file_path(workdir: Result<String, GitAiError>, file_path: &str) -> (r: Result<
    String,
    GitAiError,
>)
    ensures
        match (workdir, r) {
            (Ok(dir), Ok(p)) => p@ == normalized_path_of(file_path@, dir@),
            (Err(e), Ok(p)) => !is_absolute_path(file_path@) && p@ == normalized_path_of(
                file_path@,
                seq![],
            ),
            (Err(e), Err(said)) => is_absolute_path(file_path@) && said == e,
            (Ok(_), Err(_)) => false,
        },
{
    if !is_absolute(file_path) {
        proof {
            reveal_strlit("./");
        }
        return Ok(
            match strip_prefix(file_path, "./") {
                Some(rest) => replace_char(rest.as_str(), '\\', '/'),
                None => replace_char(file_path, '\\', '/'),
            },
        );
    }
    match workdir {
        Ok(dir) => Ok(
            match strip_base(file_path, dir.as_str()) {
                Some(rest) => replace_char(rest.as_str(), '\\', '/'),
                None => replace_char(file_path, '\\', '/'),
            },
        ),
        Err(e) => Err(e),
    }
}

// ------------------------------------------------------------------------ filters

/// Whether an author's name, in lower case, passes a filter, in lower case.
pub open spec fn author_ok(lower_author: Option<Seq<char>>, lower_wanted: Seq<char>) -> bool {
    lower_author matches Some(name) && find_of(name, lower_wanted) is Some
}

/// Whether an author's name, in lower case, passes a filter, in lower case. No name
/// passes none.
pub fn author_passes(lower_author: Option<&str>, lower_wanted: &str) -> (r: bool)
    ensures
        r == author_ok(crate::git::repo_state::opt_str(lower_author), lower_wanted@),
{
    match lower_author {
        Some(name) => contains(name, lower_wanted),
        None => false,
    }
}

/// Whether a prompt passes filters: the tool's name in any case, and the author's
/// name holding the filter's in any case.
pub open spec fn prompt_passes(p: PromptRecord, f: FiltersView) -> bool {
    &&& f.tool matches Some(tool) ==> ascii_lower_of(p.agent_id.tool@) == ascii_lower_of(tool)
    &&& f.author matches Some(author) ==> author_ok(
        match p.human_author {
            Some(name) => Some(lowercase_of(name@)),
            None => None,
        },
        lowercase_of(author),
    )
}

/// Results without the prompts that do not pass.
pub open spec fn filtered(v: SearchView, f: FiltersView) -> SearchView {
    let dropped = |k: Seq<char>| v.prompts.dom().contains(k) && !prompt_passes(v.prompts[k], f);
    SearchView {
        prompts: Map::new(
            |k: Seq<char>| v.prompts.dom().contains(k) && !dropped(k),
            |k: Seq<char>| v.prompts[k],
        ),
        locations: Map::new(
            |k: Seq<char>| v.locations.dom().contains(k) && !dropped(k),
            |k: Seq<char>| v.locations[k],
        ),
        commits: Map::new(
            |k: Seq<char>| v.commits.dom().contains(k) && !dropped(k),
            |k: Seq<char>| v.commits[k],
        ),
    }
}

fn passes(prompt: &PromptRecord, filters: &SearchFilters) -> (r: bool)
    ensures
        r == prompt_passes(*prompt, filters@),
{
    if let Some(tool) = &filters.tool {
        if !eq_ignore_ascii_case(prompt.agent_id.tool.as_str(), tool.as_str()) {
            return false;
        }
    }
    if let Some(author) = &filters.author {
        let wanted = to_lowercase(author.as_str());
        return match &prompt.human_author {
            Some(name) => {
                let lower = to_lowercase(name.as_str());
                author_passes(Some(lower.as_str()), wanted.as_str())
            },
            None => author_passes(None, wanted.as_str()),
        };
    }
    true
}

/// A map without some keys.
spec fn map_without<X>(m: Map<Seq<char>, X>, gone: Seq<Seq<char>>) -> Map<Seq<char>, X> {
    Map::new(|k: Seq<char>| m.dom().contains(k) && !gone.contains(k), |k: Seq<char>| m[k])
}

/// Results without some prompts.
spec fn without(v: SearchView, gone: Seq<Seq<char>>) -> SearchView {
    SearchView {
        prompts: map_without(v.prompts, gone),
        locations: map_without(v.locations, gone),
        commits: map_without(v.commits, gone),
    }
}

proof fn lemma_map_without_push<X>(m: Map<Seq<char>, X>, gone: Seq<Seq<char>>, k: Seq<char>)
    ensures
        map_without(m, gone.push(k)) == map_without(m, gone).remove(k),
{
    let now = gone.push(k);
    assert forall|h: Seq<char>| now.contains(h) <==> gone.contains(h) || h == k by {
        if gone.contains(h) {
            assert(now[gone.index_of(h)] == h);
        }
        if h == k {
            assert(now[gone.len() as int] == h);
        }
        if now.contains(h) {
            let q = now.index_of(h);
            if q < gone.len() {
                assert(gone[q] == h);
            }
        }
    }
    assert(map_without(m, now) =~= map_without(m, gone).remove(k));
}

/// Takes the prompts out of results that do not pass the filters. Without filters
/// all pass.
pub fn apply_filters(result: SearchResult, filters: &SearchFilters) -> (r: SearchResult)
    ensures
        r@ == filtered(result@, filters@),
{
    let ghost v = result@;
    let ghost f = filters@;
    let mut result = result;
    let n: usize = result.prompts.len();
    let ghost order = result.prompts.key_order();
    let mut failing: Vec<String> = Vec::new();
    let mut i: usize = 0;
    while i < n
        invariant
            i <= n,
            n == order.len(),
            order == result.prompts.key_order(),
            result@ == v,
            f == filters@,
            forall|k: Seq<char>|
                texts(failing@).contains(k) <==> (exists|j: int|
                    0 <= j < i && #[trigger] order[j] == k) && !prompt_passes(v.prompts[k], f),
            forall|k: Seq<char>| order.contains(k) <==> v.prompts.dom().contains(k),
        decreases n - i,
    {
        let hash = result.prompts.key_at(i);
        let ghost before = texts(failing@);
        if !passes(result.prompts.value_at(i), filters) {
            let name = hash.clone();
            proof {
                lemma_texts_push(failing@, name);
            }
            failing.push(name);
            proof {
                assert(texts(failing@)[before.len() as int] == hash@);
            }
        }
        proof {
            assert forall|k: Seq<char>| texts(failing@).contains(k) <==> (exists|j: int|
                0 <= j < i + 1 && #[trigger] order[j] == k) && !prompt_passes(v.prompts[k], f) by {
                if texts(failing@).contains(k) {
                    let q = texts(failing@).index_of(k);
                    if q < before.len() {
                        assert(before[q] == k);
                        assert(before.contains(k));
                    } else {
                        assert(order[i as int] == k);
                    }
                }
                if (exists|j: int| 0 <= j < i + 1 && #[trigger] order[j] == k) && !prompt_passes(
                    v.prompts[k],
                    f,
                ) {
                    let j = choose|j: int| 0 <= j < i + 1 && #[trigger] order[j] == k;
                    if j < i {
                        assert(before.contains(k));
                        assert(texts(failing@)[before.index_of(k)] == k);
                    }
                }
            }
        }
        i += 1;
    }
    let ghost gone = texts(failing@);
    proof {
        assert forall|k: Seq<char>| gone.contains(k) <==> v.prompts.dom().contains(k)
            && !prompt_passes(v.prompts[k], f) by {
            if v.prompts.dom().contains(k) {
                assert(order.contains(k));
                assert(order[order.index_of(k)] == k);
            }
            if exists|j: int| 0 <= j < i && #[trigger] order[j] == k {
                assert(order.contains(k));
            }
        }
    }
    let mut m: usize = 0;
    proof {
        assert(result@ =~= without(v, gone.take(0)));
    }
    while m < failing.len()
        invariant
            m <= failing@.len(),
            gone == texts(failing@),
            result@ == without(v, gone.take(m as int)),
        decreases failing.len() - m,
    {
        let hash = &failing[m];
        let ghost r0 = result@;
        result.prompts.remove(hash.as_str());
        result.prompt_locations.remove(hash.as_str());
        result.prompt_commits.remove(hash.as_str());
        proof {
            let was = gone.take(m as int);
            assert(gone.take(m + 1) =~= was.push(hash@));
            assert(result@.prompts =~= r0.prompts.remove(hash@));
            assert(result@.locations =~= r0.locations.remove(hash@));
            assert(result@.commits =~= r0.commits.remove(hash@));
            lemma_map_without_push(v.prompts, was, hash@);
            lemma_map_without_push(v.locations, was, hash@);
            lemma_map_without_push(v.commits, was, hash@);
        }
        m += 1;
    }
    proof {
        assert(gone.take(m as int) =~= gone);
        let kept = filtered(v, f);
        assert(result@.prompts =~= kept.prompts);
        assert(result@.locations =~= kept.locations);
        assert(result@.commits =~= kept.commits);
    }
    result
}

/// Without filters every prompt passes.
pub proof fn law_no_filters_keep_all(v: SearchView)
    ensures
        filtered(v, no_filters()) == v,
{
    assert(filtered(v, no_filters()) =~= v);
}

/// Filters together keep what passes each of them: filtering by the one and the other,
/// in any order, is filtering by both.
pub proof fn law_filters_intersect(v: SearchView, tool: Seq<char>, author: Seq<char>)
    ensures
        ({
            let by_tool = FiltersView { tool: Some(tool), ..no_filters() };
            let by_author = FiltersView { author: Some(author), ..no_filters() };
            let by_both = FiltersView { tool: Some(tool), author: Some(author), ..no_filters() };
            &&& filtered(filtered(v, by_tool), by_author) == filtered(v, by_both)
            &&& filtered(filtered(v, by_author), by_tool) == filtered(v, by_both)
        }),
{
    let by_tool = FiltersView { tool: Some(tool), ..no_filters() };
    let by_author = FiltersView { author: Some(author), ..no_filters() };
    let by_both = FiltersView { tool: Some(tool), author: Some(author), ..no_filters() };
    assert(filtered(filtered(v, by_tool), by_author) =~= filtered(v, by_both));
    assert(filtered(filtered(v, by_author), by_tool) =~= filtered(v, by_both));
}

/// Filtering twice is filtering once.
pub proof fn law_filtering_is_idempotent(v: SearchView, f: FiltersView)
    ensures
        filtered(filtered(v, f), f) == filtered(v, f),
{
    assert(filtered(filtered(v, f), f) =~= filtered(v, f));
}

// ------------------------------------------------------------------------ writing

/// What a search was for, in words.
pub open spec fn mode_text(m: ModeView) -> Seq<char> {
    match m {
        ModeView::Commit(rev) => "commit "@ + rev,
        ModeView::CommitRange(start, end) => "commit range "@ + start + ".."@ + end,
        ModeView::File(path, _) => "file "@ + path,
        ModeView::Pattern(query) => "pattern \""@ + query + "\""@,
        ModeView::PromptId(id) => "prompt ID "@ + id,
    }
}

fn describe_mode(mode: &SearchMode) -> (r: String)
    ensures
        r@ == mode_text(mode@),
{
    match mode {
        SearchMode::Commit { commit_rev } => concat("commit ", commit_rev.as_str()),
        SearchMode::CommitRange { start, end } => {
            let mut s = concat("commit range ", start.as_str());
            s.append("..");
            s.append(end.as_str());
            s
        },
        SearchMode::File { file_path, .. } => concat("file ", file_path.as_str()),
        SearchMode::Pattern { query } => {
            let mut s = concat("pattern \"", query.as_str());
            s.append("\"");
            s
        },
        SearchMode::PromptId { prompt_id } => concat("prompt ID ", prompt_id.as_str()),
    }
}

/// What a search without results was for, in words, with the name in quotes.
pub open spec fn quoted_mode_text(m: ModeView) -> Seq<char> {
    match m {
        ModeView::Commit(rev) => "commit '"@ + rev + "'"@,
        ModeView::CommitRange(start, end) => "commit range '"@ + start + ".."@ + end + "'"@,
        ModeView::File(path, _) => "file '"@ + path + "'"@,
        ModeView::Pattern(query) => "pattern \""@ + query + "\""@,
        ModeView::PromptId(id) => "prompt ID '"@ + id + "'"@,
    }
}

/// What is said of a search without results.
pub fn nothing_found_message(mode: &SearchMode) -> (r: String)
    ensures
        r@ == "No AI prompt history found for "@ + quoted_mode_text(mode@),
{
    let q = match mode {
        SearchMode::Commit { commit_rev } => {
            let mut s = concat("commit '", commit_rev.as_str());
            s.append("'");
            s
        },
        SearchMode::CommitRange { start, end } => {
            let mut s = concat("commit range '", start.as_str());
            s.append("..");
            s.append(end.as_str());
            s.append("'");
            s
        },
        SearchMode::File { file_path, .. } => {
            let mut s = concat("file '", file_path.as_str());
            s.append("'");
            s
        },
        SearchMode::Pattern { query } => {
            let mut s = concat("pattern \"", query.as_str());
            s.append("\"");
            s
        },
        SearchMode::PromptId { prompt_id } => {
            let mut s = concat("prompt ID '", prompt_id.as_str());
            s.append("'");
            s
        },
    };
    concat("No AI prompt history found for ", q.as_str())
}

/// Line ranges as they are written.
pub open spec fn range_texts(ranges: Seq<LineRange>) -> Seq<Seq<char>> {
    Seq::new(ranges.len(), |i: int| line_range_text(ranges[i]))
}

/// A place as it is written: the path and, behind a colon, the ranges.
pub open spec fn place_text(place: (Seq<char>, Seq<LineRange>), always_colon: bool) -> Seq<char> {
    if place.1.len() == 0 && !always_colon {
        place.0
    } else {
        place.0 + ":"@ + join_of(range_texts(place.1), ","@)
    }
}

/// Places as they are written, in a row.
pub open spec fn places_text(v: Seq<(Seq<char>, Seq<LineRange>)>, always_colon: bool) -> Seq<char> {
    join_of(Seq::new(v.len(), |i: int| place_text(v[i], always_colon)), ", "@)
}

fn write_place(path: &str, ranges: &Vec<LineRange>, always_colon: bool) -> (r: String)
    ensures
        r@ == place_text((path@, ranges@), always_colon),
{
    if ranges.len() == 0 && !always_colon {
        return path.to_owned();
    }
    let mut out: Vec<String> = Vec::new();
    let mut i: usize = 0;
    while i < ranges.len()
        invariant
            i <= ranges@.len(),
            out@.len() == i,
            forall|k: int| 0 <= k < i ==> (#[trigger] out@[k])@ == line_range_text(ranges@[k]),
        decreases ranges.len() - i,
    {
        out.push(ranges[i].to_text());
        i += 1;
    }
    proof {
        assert(texts(out@) =~= range_texts(ranges@));
    }
    let mut s = concat(path, ":");
    s.append(join(out.as_slice(), ",").as_str());
    s
}

fn write_places(v: &Vec<(String, Vec<LineRange>)>, always_colon: bool) -> (r: String)
    ensures
        r@ == places_text(places(v@), always_colon),
{
    let mut out: Vec<String> = Vec::new();
    let mut i: usize = 0;
    while i < v.len()
        invariant
            i <= v@.len(),
            out@.len() == i,
            forall|k: int|
                0 <= k < i ==> (#[trigger] out@[k])@ == place_text(places(v@)[k], always_colon),
        decreases v.len() - i,
    {
        out.push(write_place(v[i].0.as_str(), &v[i].1, always_colon));
        i += 1;
    }
    proof {
        assert(texts(out@) =~= Seq::new(
            places(v@).len(),
            |i: int| place_text(places(v@)[i], always_colon),
        ));
    }
    join(out.as_slice(), ", ")
}

/// The first characters of a text.
pub open spec fn first_chars(s: Seq<char>, n: int) -> Seq<char> {
    if s.len() <= n {
        s
    } else {
        s.take(n)
    }
}

fn take_chars(s: &str, n: usize) -> (r: (String, bool))
    ensures
        r.0@ == first_chars(s@, n as int),
        r.1 == (s@.len() > n),
{
    let v = chars_of(s);
    if v.len() <= n {
        return (s.to_owned(), false);
    }
    let t = string_of(&v, 0, n);
    proof {
        assert(t@ =~= s@.take(n as int));
    }
    (t, true)
}

/// The text of a prompt's first message.
pub open spec fn first_text(p: PromptRecord) -> Option<Seq<char>> {
    if p.messages@.len() > 0 {
        opt_view(p.messages@[0].text)
    } else {
        None
    }
}

/// How results begin.
pub open spec fn results_header(count: nat, m: ModeView) -> Seq<char> {
    "Found "@ + decimal_of(count) + " AI prompt session(s) for "@ + mode_text(m) + "\n\n"@
}

fn write_header(count: usize, mode: &SearchMode) -> (r: String)
    ensures
        r@ == results_header(count as nat, mode@),
{
    let mut s = concat("Found ", decimal(count as u64).as_str());
    s.append(" AI prompt session(s) for ");
    s.append(describe_mode(mode).as_str());
    s.append("\n\n");
    s
}

/// The line of a prompt's author.
pub open spec fn author_line(p: PromptRecord, label: Seq<char>) -> Seq<char> {
    match p.human_author {
        Some(name) => label + name@ + "\n"@,
        None => seq![],
    }
}

/// The line of a prompt's places.
pub open spec fn files_line(
    v: SearchView,
    hash: Seq<char>,
    label: Seq<char>,
    always_colon: bool,
) -> Seq<char> {
    if v.locations.dom().contains(hash) {
        label + places_text(v.locations[hash], always_colon) + "\n"@
    } else {
        seq![]
    }
}

/// The line of a prompt's first message.
pub open spec fn snippet_line(p: PromptRecord) -> Seq<char> {
    match first_text(p) {
        Some(text) => "    First message: "@ + first_chars(text, 80) + (if text.len() > 80 {
            "..."@
        } else {
            ""@
        }) + "\n"@,
        None => seq![],
    }
}

/// The part of the results that is about one prompt.
pub open spec fn default_entry(v: SearchView, hash: Seq<char>, number: nat) -> Seq<char> {
    let p = v.prompts[hash];
    "["@ + decimal_of(number) + "] Prompt "@ + hash + " ("@ + p.agent_id.tool@ + " / "@
        + p.agent_id.model@ + ")\n"@ + author_line(p, "    Author: "@) + files_line(
        v,
        hash,
        "    Files:  "@,
        false,
    ) + snippet_line(p) + "\n"@
}

/// The parts about prompts, in order, each with its number.
pub open spec fn default_entries(v: SearchView, order: Seq<Seq<char>>) -> Seq<char>
    decreases order.len(),
{
    if order.len() == 0 {
        seq![]
    } else {
        default_entries(v, order.drop_last()) + default_entry(v, order.last(), order.len())
    }
}

fn write_author_line(p: &PromptRecord, label: &str) -> (r: String)
    ensures
        r@ == author_line(*p, label@),
{
    match &p.human_author {
        Some(name) => {
            let mut s = concat(label, name.as_str());
            s.append("\n");
            s
        },
        None => String::new(),
    }
}

fn write_files_line(result: &SearchResult, hash: &str, label: &str, always_colon: bool) -> (r:
    String)
    ensures
        r@ == files_line(result@, hash@, label@, always_colon),
{
    match result.prompt_locations.get(hash) {
        Some(list) => {
            let mut s = concat(label, write_places(list, always_colon).as_str());
            s.append("\n");
            s
        },
        None => String::new(),
    }
}

fn write_snippet_line(p: &PromptRecord) -> (r: String)
    ensures
        r@ == snippet_line(*p),
{
    if p.messages.len() > 0 {
        if let Some(text) = &p.messages[0].text {
            let (snippet, longer) = take_chars(text.as_str(), 80);
            let mut s = concat("    First message: ", snippet.as_str());
            s.append(
                if longer {
                    "..."
                } else {
                    ""
                },
            );
            s.append("\n");
            return s;
        }
    }
    String::new()
}

/// Results as a summary for people to read.
pub fn format_default(result: &SearchResult, mode: &SearchMode) -> (r: String)
    ensures
        r@ == trim_end_of(
            results_header(result.prompts.key_order().len(), mode@) + default_entries(
                result@,
                result.prompts.key_order(),
            ),
        ),
{
    let n: usize = result.prompts.len();
    let ghost order = result.prompts.key_order();
    let mut out = write_header(n, mode);
    let ghost header = out@;
    let mut i: usize = 0;
    proof {
        assert(order.take(0) =~= seq![]);
        assert(header + Seq::<char>::empty() =~= header);
    }
    while i < n
        invariant
            i <= n,
            n == order.len(),
            order == result.prompts.key_order(),
            out@ == header + default_entries(result@, order.take(i as int)),
        decreases n - i,
    {
        let hash = result.prompts.key_at(i);
        let p = result.prompts.value_at(i);
        let mut e = concat("[", decimal(i as u64 + 1).as_str());
        e.append("] Prompt ");
        e.append(hash.as_str());
        e.append(" (");
        e.append(p.agent_id.tool.as_str());
        e.append(" / ");
        e.append(p.agent_id.model.as_str());
        e.append(")\n");
        e.append(write_author_line(p, "    Author: ").as_str());
        e.append(write_files_line(result, hash.as_str(), "    Files:  ", false).as_str());
        e.append(write_snippet_line(p).as_str());
        e.append("\n");
        proof {
            assert(order.take(i + 1).drop_last() =~= order.take(i as int));
            assert(order.take(i + 1).last() == hash@);
            assert(e@ == default_entry(result@, hash@, (i + 1) as nat));
            let before = default_entries(result@, order.take(i as int));
            assert((header + before) + e@ =~= header + (before + e@));
        }
        out.append(e.as_str());
        i += 1;
    }
    proof {
        assert(order.take(i as int) =~= order);
    }
    trim_end(out.as_str())
}

/// The text of a prompt's transcript, where it is known.
pub open spec fn transcript_of(transcripts: Map<Seq<char>, String>, hash: Seq<char>) -> Seq<char> {
    if transcripts.dom().contains(hash) {
        transcripts[hash]@
    } else {
        seq![]
    }
}

/// The part of the results that is about one prompt, with its transcript.
pub open spec fn verbose_entry(v: SearchView, hash: Seq<char>, transcript: Seq<char>) -> Seq<char> {
    let p = v.prompts[hash];
    "=== Prompt "@ + hash + " ("@ + p.agent_id.tool@ + " / "@ + p.agent_id.model@ + ") ===\n"@
        + author_line(p, "Author: "@) + files_line(v, hash, "Files: "@, true) + "\n"@ + transcript
        + "\n"@
}

/// The parts about prompts, in order, with their transcripts.
pub open spec fn verbose_entries(
    v: SearchView,
    order: Seq<Seq<char>>,
    transcripts: Map<Seq<char>, String>,
) -> Seq<char>
    decreases order.len(),
{
    if order.len() == 0 {
        seq![]
    } else {
        verbose_entries(v, order.drop_last(), transcripts) + verbose_entry(
            v,
            order.last(),
            transcript_of(transcripts, order.last()),
        )
    }
}

/// Results with full transcripts, which are given by prompt.
pub fn format_verbose(result: &SearchResult, mode: &SearchMode, transcripts: &TextMap<String>) -> (r:
    String)
    ensures
        r@ == trim_end_of(
            results_header(result.prompts.key_order().len(), mode@) + verbose_entries(
                result@,
                result.prompts.key_order(),
                transcripts@,
            ),
        ),
{
    let n: usize = result.prompts.len();
    let ghost order = result.prompts.key_order();
    let mut out = write_header(n, mode);
    let ghost header = out@;
    let mut i: usize = 0;
    proof {
        assert(order.take(0) =~= seq![]);
        assert(header + Seq::<char>::empty() =~= header);
    }
    while i < n
        invariant
            i <= n,
            n == order.len(),
            order == result.prompts.key_order(),
            out@ == header + verbose_entries(result@, order.take(i as int), transcripts@),
        decreases n - i,
    {
        let hash = result.prompts.key_at(i);
        let p = result.prompts.value_at(i);
        let mut e = concat("=== Prompt ", hash.as_str());
        e.append(" (");
        e.append(p.agent_id.tool.as_str());
        e.append(" / ");
        e.append(p.agent_id.model.as_str());
        e.append(") ===\n");
        e.append(write_author_line(p, "Author: ").as_str());
        e.append(write_files_line(result, hash.as_str(), "Files: ", true).as_str());
        e.append("\n");
        match transcripts.get(hash.as_str()) {
            Some(t) => {
                e.append(t.as_str());
            },
            None => {
                proof {
                    assert(e@ + Seq::<char>::empty() =~= e@);
                }
            },
        }
        e.append("\n");
        proof {
            assert(order.take(i + 1).drop_last() =~= order.take(i as int));
            assert(order.take(i + 1).last() == hash@);
            let t = transcript_of(transcripts@, hash@);
            assert(e@ == verbose_entry(result@, hash@, t));
            let before = verbose_entries(result@, order.take(i as int), transcripts@);
            assert((header + before) + e@ =~= header + (before + e@));
        }
        out.append(e.as_str());
        i += 1;
    }
    proof {
        assert(order.take(i as int) =~= order);
    }
    trim_end(out.as_str())
}

/// The line of a prompt for programs to read: its fields with tabs between. The
/// date is not known and written as zero.
pub open spec fn porcelain_line(v: SearchView, hash: Seq<char>) -> Seq<char> {
    let p = v.prompts[hash];
    let author = match p.human_author {
        Some(name) => name@,
        None => ""@,
    };
    let count = if v.locations.dom().contains(hash) {
        v.locations[hash].len()
    } else {
        0
    };
    let first = match first_text(p) {
        Some(text) => replaced(replaced(first_chars(text, 60), '\t', ' '), '\n', ' '),
        None => ""@,
    };
    hash + "\t"@ + p.agent_id.tool@ + "\t"@ + p.agent_id.model@ + "\t"@ + author + "\t"@ + "0"@
        + "\t"@ + decimal_of(count) + "\t"@ + first
}

/// Results for programs to read, one prompt a line.
pub fn format_porcelain(result: &SearchResult) -> (r: String)
    ensures
        r@ == join_of(
            Seq::new(
                result.prompts.key_order().len(),
                |i: int| porcelain_line(result@, result.prompts.key_order()[i]),
            ),
            "\n"@,
        ),
{
    let n: usize = result.prompts.len();
    let ghost order = result.prompts.key_order();
    let mut out: Vec<String> = Vec::new();
    let mut i: usize = 0;
    while i < n
        invariant
            i <= n,
            n == order.len(),
            order == result.prompts.key_order(),
            out@.len() == i,
            forall|k: int|
                0 <= k < i ==> (#[trigger] out@[k])@ == porcelain_line(result@, order[k]),
        decreases n - i,
    {
        let hash = result.prompts.key_at(i);
        let p = result.prompts.value_at(i);
        let author: &str = match &p.human_author {
            Some(name) => name.as_str(),
            None => "",
        };
        let count: usize = match result.prompt_locations.get(hash.as_str()) {
            Some(list) => list.len(),
            None => 0,
        };
        let mut first = "".to_owned();
        if p.messages.len() > 0 {
            if let Some(text) = &p.messages[0].text {
                let (snippet, _longer) = take_chars(text.as_str(), 60);
                first =
                replace_char(replace_char(snippet.as_str(), '\t', ' ').as_str(), '\n', ' ');
            }
        }
        let mut s = concat(hash.as_str(), "\t");
        s.append(p.agent_id.tool.as_str());
        s.append("\t");
        s.append(p.agent_id.model.as_str());
        s.append("\t");
        s.append(author);
        s.append("\t");
        s.append("0");
        s.append("\t");
        s.append(decimal(count as u64).as_str());
        s.append("\t");
        s.append(first.as_str());
        out.push(s);
        i += 1;
    }
    proof {
        assert(texts(out@) =~= Seq::new(
            order.len(),
            |i: int| porcelain_line(result@, order[i]),
        ));
    }
    join(out.as_slice(), "\n")
}

/// The number of prompts found.
pub fn format_count(result: &SearchResult) -> (r: String)
    ensures
        r@ == decimal_of(result.prompts.key_order().len()),
{
    decimal(result.prompts.len() as u64)
}

// ------------------------------------------------------------------- the command

/// What `git-ai search` is to do.
pub enum SearchPlan {
    /// Show the help and end well.
    Help,
    /// Say what is wrong, show the help and end with status 1.
    Refuse(String),
    /// Search, filter and write.
    Run(SearchMode, SearchFilters, OutputFormat),
}

/// What is said where nothing names what is searched.
pub open spec fn no_mode_message() -> Seq<char> {
    "Error: No search mode specified. Use --commit, --file, --pattern, or --prompt-id."@
}

/// What `git-ai search` with the given arguments is to do, at the time `now`.
pub fn plan_search(now: i64, args: &[String]) -> (r: SearchPlan)
    ensures
        match search_args_of(now, texts(args@)) {
            Err(e) => r matches SearchPlan::Refuse(said) && said@ == "Error: "@ + e,
            Ok(asked) => if asked.help {
                r is Help
            } else {
                match asked.mode {
                    None => r matches SearchPlan::Refuse(said) && said@ == no_mode_message(),
                    Some(mode) => r matches SearchPlan::Run(m, f, o) && m@ == mode && f@
                        == asked.filters && o == asked.format,
                }
            },
        },
{
    match parse_search_args(now, args) {
        Err(e) => SearchPlan::Refuse(concat("Error: ", e.as_str())),
        Ok(parsed) => {
            if parsed.help {
                return SearchPlan::Help;
            }
            match parsed.mode {
                Some(mode) => SearchPlan::Run(mode, parsed.filters, parsed.output_format),
                None => SearchPlan::Refuse(
                    "Error: No search mode specified. Use --commit, --file, --pattern, or --prompt-id.".to_owned(),
                ),
            }
        },
    }
}

} // verus!
