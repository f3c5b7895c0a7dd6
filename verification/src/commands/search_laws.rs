//! What holds of the results of `git-ai search`.

use crate::authorship::{LineRange, PromptRecord, ranges_of};
use crate::commands::search::{
    AttestationEntry, AuthorshipLog, DbPrompt, FileAttestation, PromptDatabase, SearchResult,
    SearchView, attested, commit_found, db_commits, db_prompts, entries_added, file_found, filtered,
    law_lines_by, law_united_lists, lines_by, list_at, listed_commits, merged, nothing_found,
    own_commits, pattern_found, prompt_found, prompt_passes, range_found, with_new,
};
use crate::commands::search_args::FiltersView;
use crate::text::trimmed;
use vstd::prelude::*;

verus! {

// ----------------------------------------------------------------- what is recorded

/// The entries of a file, each with its prompt and its place.
pub open spec fn file_entries(f: FileAttestation) -> Seq<
    (Seq<char>, (Seq<char>, Seq<LineRange>)),
> {
    f.entries@.map_values(
        |e: AttestationEntry| (e.hash@, (f.file_path@, e.line_ranges@)),
    )
}

/// All entries of a commit's files, file by file, each with its prompt and its place.
pub open spec fn all_entries(files: Seq<FileAttestation>) -> Seq<
    (Seq<char>, (Seq<char>, Seq<LineRange>)),
> {
    files.map_values(|f: FileAttestation| file_entries(f)).flatten()
}

/// The places of those entries that are of one prompt, in their order.
pub open spec fn places_of(
    entries: Seq<(Seq<char>, (Seq<char>, Seq<LineRange>))>,
    hash: Seq<char>,
) -> Seq<(Seq<char>, Seq<LineRange>)> {
    entries.filter(|e: (Seq<char>, (Seq<char>, Seq<LineRange>))| e.0 == hash).map_values(
        |e: (Seq<char>, (Seq<char>, Seq<LineRange>))| e.1,
    )
}

proof fn lemma_places_of_push(
    entries: Seq<(Seq<char>, (Seq<char>, Seq<LineRange>))>,
    e: (Seq<char>, (Seq<char>, Seq<LineRange>)),
    hash: Seq<char>,
)
    ensures
        places_of(entries.push(e), hash) == (if e.0 == hash {
            places_of(entries, hash).push(e.1)
        } else {
            places_of(entries, hash)
        }),
{
    reveal(Seq::filter);
    let pred = |e: (Seq<char>, (Seq<char>, Seq<LineRange>))| e.0 == hash;
    assert(entries.push(e).drop_last() =~= entries);
    assert(entries.push(e).filter(pred) == (if pred(e) {
        entries.filter(pred).push(e)
    } else {
        entries.filter(pred)
    }));
    assert(places_of(entries.push(e), hash) =~= (if e.0 == hash {
        places_of(entries, hash).push(e.1)
    } else {
        places_of(entries, hash)
    }));
}

proof fn lemma_places_of_add(
    a: Seq<(Seq<char>, (Seq<char>, Seq<LineRange>))>,
    b: Seq<(Seq<char>, (Seq<char>, Seq<LineRange>))>,
    hash: Seq<char>,
)
    ensures
        places_of(a + b, hash) == places_of(a, hash) + places_of(b, hash),
    decreases b.len(),
{
    reveal(Seq::filter);
    if b.len() == 0 {
        assert(a + b =~= a);
        assert(places_of(b, hash) =~= seq![]);
        assert(places_of(a, hash) + places_of(b, hash) =~= places_of(a, hash));
    } else {
        let front = b.drop_last();
        lemma_places_of_add(a, front, hash);
        assert(a + b =~= (a + front).push(b.last()));
        assert(b =~= front.push(b.last()));
        lemma_places_of_push(a + front, b.last(), hash);
        lemma_places_of_push(front, b.last(), hash);
        assert(places_of(a + b, hash) =~= places_of(a, hash) + places_of(b, hash));
    }
}

proof fn lemma_entries_added(
    m: Map<Seq<char>, Seq<(Seq<char>, Seq<LineRange>)>>,
    f: FileAttestation,
    n: int,
    hash: Seq<char>,
)
    requires
        0 <= n <= f.entries@.len(),
    ensures
        list_at(entries_added(m, f.file_path@, f.entries@.take(n)), hash) == list_at(m, hash)
            + places_of(file_entries(f).take(n), hash),
        entries_added(m, f.file_path@, f.entries@.take(n)).dom().contains(hash) <==> (
        m.dom().contains(hash) || places_of(file_entries(f).take(n), hash).len() > 0),
    decreases n,
{
    reveal(Seq::filter);
    let all = file_entries(f);
    if n == 0 {
        assert(f.entries@.take(0) =~= seq![]);
        assert(all.take(0) =~= seq![]);
        assert(places_of(all.take(0), hash) =~= seq![]);
        assert(list_at(m, hash) + places_of(all.take(0), hash) =~= list_at(m, hash));
    } else {
        lemma_entries_added(m, f, n - 1, hash);
        assert(f.entries@.take(n).drop_last() =~= f.entries@.take(n - 1));
        assert(f.entries@.take(n).last() == f.entries@[n - 1]);
        assert(all.take(n) =~= all.take(n - 1).push(all[n - 1]));
        lemma_places_of_push(all.take(n - 1), all[n - 1], hash);
        assert(list_at(entries_added(m, f.file_path@, f.entries@.take(n)), hash) =~= list_at(m, hash)
            + places_of(all.take(n), hash));
    }
}

/// The places found for a prompt are those of all its entries in all files of the
/// commit, in order and each as often as it is recorded, and no others.
pub proof fn law_places_are_those_recorded(files: Seq<FileAttestation>, hash: Seq<char>)
    ensures
        list_at(attested(files), hash) == places_of(all_entries(files), hash),
        attested(files).dom().contains(hash) <==> places_of(all_entries(files), hash).len() > 0,
    decreases files.len(),
{
    reveal(Seq::filter);
    let each = |f: FileAttestation| file_entries(f);
    if files.len() == 0 {
        assert(files.map_values(each) =~= seq![]);
        assert(all_entries(files) =~= seq![]);
        assert(places_of(all_entries(files), hash) =~= seq![]);
    } else {
        let front = files.drop_last();
        let f = files.last();
        law_places_are_those_recorded(front, hash);
        assert(files.map_values(each) =~= front.map_values(each).push(file_entries(f)));
        front.map_values(each).lemma_flatten_push(file_entries(f));
        lemma_places_of_add(all_entries(front), file_entries(f), hash);
        lemma_entries_added(attested(front), f, f.entries@.len() as int, hash);
        assert(f.entries@.take(f.entries@.len() as int) =~= f.entries@);
        assert(file_entries(f).take(f.entries@.len() as int) =~= file_entries(f));
    }
}

proof fn lemma_place_in_order(
    entries: Seq<(Seq<char>, (Seq<char>, Seq<LineRange>))>,
    hash: Seq<char>,
    place: (Seq<char>, Seq<LineRange>),
)
    ensures
        places_of(entries, hash).contains(place) <==> entries.contains((hash, place)),
    decreases entries.len(),
{
    reveal(Seq::filter);
    if entries.len() == 0 {
        assert(places_of(entries, hash) =~= seq![]);
    } else {
        let front = entries.drop_last();
        let e = entries.last();
        lemma_place_in_order(front, hash, place);
        assert(entries =~= front.push(e));
        lemma_places_of_push(front, e, hash);
        let before = places_of(front, hash);
        let after = places_of(entries, hash);
        if before.contains(place) {
            assert(after[before.index_of(place)] == place);
        }
        if front.contains((hash, place)) {
            assert(entries[front.index_of((hash, place))] == (hash, place));
        }
        if e == (hash, place) {
            assert(after[before.len() as int] == place);
            assert(entries[front.len() as int] == e);
        }
        if after.contains(place) {
            let k = after.index_of(place);
            if k < before.len() {
                assert(before[k] == place);
            } else {
                assert(e == (hash, place));
            }
        }
        if entries.contains((hash, place)) {
            let k = entries.index_of((hash, place));
            if k < front.len() {
                assert(front[k] == (hash, place));
            }
        }
    }
}

proof fn lemma_all_entries(
    files: Seq<FileAttestation>,
    e: (Seq<char>, (Seq<char>, Seq<LineRange>)),
)
    ensures
        all_entries(files).contains(e) <==> exists|i: int|
            0 <= i < files.len() && file_entries(#[trigger] files[i]).contains(e),
    decreases files.len(),
{
    let each = |f: FileAttestation| file_entries(f);
    if files.len() == 0 {
        assert(files.map_values(each) =~= seq![]);
        assert(all_entries(files) =~= seq![]);
    } else {
        let front = files.drop_last();
        let f = files.last();
        lemma_all_entries(front, e);
        assert(files.map_values(each) =~= front.map_values(each).push(file_entries(f)));
        front.map_values(each).lemma_flatten_push(file_entries(f));
        let a = all_entries(front);
        let b = file_entries(f);
        assert(all_entries(files) == a + b);
        if a.contains(e) {
            assert((a + b)[a.index_of(e)] == e);
            let i = choose|i: int|
                0 <= i < front.len() && file_entries(#[trigger] front[i]).contains(e);
            assert(files[i] == front[i]);
        }
        if b.contains(e) {
            assert((a + b)[a.len() + b.index_of(e)] == e);
            assert(files[files.len() - 1] == f);
        }
        if (a + b).contains(e) {
            let k = (a + b).index_of(e);
            if k < a.len() {
                assert(a[k] == e);
            } else {
                assert(b[k - a.len()] == e);
            }
        }
        if exists|i: int| 0 <= i < files.len() && file_entries(#[trigger] files[i]).contains(e) {
            let i = choose|i: int|
                0 <= i < files.len() && file_entries(#[trigger] files[i]).contains(e);
            if i < front.len() {
                assert(front[i] == files[i]);
            }
        }
    }
}

/// Every entry of every file is found under its prompt, with the file's path and the
/// entry's ranges.
pub proof fn law_every_entry_is_found(files: Seq<FileAttestation>, i: int, j: int)
    requires
        0 <= i < files.len(),
        0 <= j < files[i].entries@.len(),
    ensures
        list_at(attested(files), files[i].entries@[j].hash@).contains(
            (files[i].file_path@, files[i].entries@[j].line_ranges@),
        ),
{
    let hash = files[i].entries@[j].hash@;
    let place = (files[i].file_path@, files[i].entries@[j].line_ranges@);
    law_places_are_those_recorded(files, hash);
    lemma_place_in_order(all_entries(files), hash, place);
    lemma_all_entries(files, (hash, place));
    assert(file_entries(files[i])[j] == (hash, place));
}

/// Every place that is found for a prompt is that of an entry of the prompt in a file.
pub proof fn law_every_place_has_its_entry(
    files: Seq<FileAttestation>,
    hash: Seq<char>,
    place: (Seq<char>, Seq<LineRange>),
)
    requires
        list_at(attested(files), hash).contains(place),
    ensures
        exists|i: int, j: int|
            0 <= i < files.len() && 0 <= j < files[i].entries@.len() && (
            #[trigger] files[i].entries@[j]).hash@ == hash && files[i].file_path@ == place.0
                && files[i].entries@[j].line_ranges@ == place.1,
{
    law_places_are_those_recorded(files, hash);
    lemma_place_in_order(all_entries(files), hash, place);
    lemma_all_entries(files, (hash, place));
    let i = choose|i: int|
        0 <= i < files.len() && file_entries(#[trigger] files[i]).contains((hash, place));
    let j = file_entries(files[i]).index_of((hash, place));
    assert(files[i].entries@[j].hash@ == hash);
}

/// What a file adds to the places of a prompt stands behind the places in the files
/// before it.
pub proof fn law_files_add_up(files: Seq<FileAttestation>, f: FileAttestation, hash: Seq<char>)
    ensures
        list_at(attested(files.push(f)), hash) == list_at(attested(files), hash) + list_at(
            attested(seq![f]),
            hash,
        ),
{
    law_places_are_those_recorded(files.push(f), hash);
    law_places_are_those_recorded(files, hash);
    law_places_are_those_recorded(seq![f], hash);
    let each = |f: FileAttestation| file_entries(f);
    assert(files.push(f).map_values(each) =~= files.map_values(each).push(file_entries(f)));
    files.map_values(each).lemma_flatten_push(file_entries(f));
    let none = Seq::<FileAttestation>::empty();
    assert(seq![f] =~= none.push(f));
    assert(none.map_values(each) =~= Seq::empty());
    assert(none.push(f).map_values(each) =~= none.map_values(each).push(file_entries(f)));
    none.map_values(each).lemma_flatten_push(file_entries(f));
    assert(all_entries(none) =~= Seq::empty());
    assert(all_entries(seq![f]) =~= file_entries(f));
    lemma_places_of_add(all_entries(files), file_entries(f), hash);
}

// ---------------------------------------------------------------- prompts of a commit

/// A prompt that the commit's record holds is found, in this commit alone, and its places
/// are those that the record attests. It is as the record has it, but for the messages:
/// where the record has none, they are those that the database knows.
pub proof fn law_recorded_prompts_are_found(
    sha: Seq<char>,
    log: AuthorshipLog,
    db: Option<PromptDatabase>,
    hash: Seq<char>,
)
    requires
        log.prompts@.dom().contains(hash),
    ensures
        commit_found(sha, Some(log), db).prompts.dom().contains(hash),
        commit_found(sha, Some(log), db).commits.dom().contains(hash),
        commit_found(sha, Some(log), db).commits[hash] == seq![sha],
        list_at(commit_found(sha, Some(log), db).locations, hash) == list_at(
            attested(log.attestations@),
            hash,
        ),
        log.prompts@[hash].messages@.len() > 0 ==> commit_found(sha, Some(log), db).prompts[hash]
            == log.prompts@[hash],
        db is None ==> commit_found(sha, Some(log), db).prompts[hash] == log.prompts@[hash],
        db is Some && !db->0.messages@.dom().contains(hash) ==> commit_found(
            sha,
            Some(log),
            db,
        ).prompts[hash] == log.prompts@[hash],
        db is Some && log.prompts@[hash].messages@.len() == 0 && db->0.messages@.dom().contains(hash)
            && db->0.messages@[hash]@.len() > 0 ==> commit_found(sha, Some(log), db).prompts[hash]
            == (PromptRecord { messages: db->0.messages@[hash], ..log.prompts@[hash] }),
{
    assert(log.prompts@ != Map::<Seq<char>, PromptRecord>::empty());
}

/// Where the commit's record holds a prompt, no other prompt is found than those of the
/// record.
pub proof fn law_record_comes_first(
    sha: Seq<char>,
    log: AuthorshipLog,
    db: Option<PromptDatabase>,
    held: Seq<char>,
    hash: Seq<char>,
)
    requires
        log.prompts@.dom().contains(held),
    ensures
        commit_found(sha, Some(log), db).prompts.dom().contains(hash)
            <==> log.prompts@.dom().contains(hash),
        commit_found(sha, Some(log), db).commits.dom().contains(hash)
            <==> log.prompts@.dom().contains(hash),
{
    assert(log.prompts@ != Map::<Seq<char>, PromptRecord>::empty());
}

/// Without prompts in the record, those of the database are found, each in this commit.
pub proof fn law_database_stands_in(
    sha: Seq<char>,
    log: Option<AuthorshipLog>,
    db: PromptDatabase,
    i: int,
)
    requires
        log is None || log->0.prompts@ == Map::<Seq<char>, PromptRecord>::empty(),
        0 <= i < db.by_commit@.len(),
    ensures
        commit_found(sha, log, Some(db)).prompts.dom().contains(db.by_commit@[i].id@),
        list_at(commit_found(sha, log, Some(db)).commits, db.by_commit@[i].id@).contains(sha),
        (forall|j: int|
            i < j < db.by_commit@.len() ==> (#[trigger] db.by_commit@[j]).id@
                != db.by_commit@[i].id@) ==> commit_found(sha, log, Some(db)).prompts[db.by_commit@[i].id@]
            == db.by_commit@[i].prompt,
{
    law_database_prompts(db.by_commit@, i);
    lemma_db_commits(db.by_commit@, sha, i);
}

/// Nothing is found of a commit without a record and a database.
pub proof fn law_unknown_commit(sha: Seq<char>)
    ensures
        commit_found(sha, None, None) == nothing_found(),
{
    assert(commit_found(sha, None, None) =~= nothing_found());
}

/// Every prompt of the database is found under its id; the last one of an id stands.
pub proof fn law_database_prompts(records: Seq<DbPrompt>, i: int)
    requires
        0 <= i < records.len(),
    ensures
        db_prompts(records).dom().contains(records[i].id@),
        (forall|j: int| i < j < records.len() ==> (#[trigger] records[j]).id@ != records[i].id@)
            ==> db_prompts(records)[records[i].id@] == records[i].prompt,
    decreases records.len(),
{
    let front = records.drop_last();
    if i < front.len() {
        law_database_prompts(front, i);
        assert(front[i] == records[i]);
        if forall|j: int| i < j < records.len() ==> (#[trigger] records[j]).id@ != records[i].id@ {
            assert forall|j: int| i < j < front.len() implies (#[trigger] front[j]).id@
                != front[i].id@ by {
                assert(records[j].id@ != records[i].id@);
            }
            assert(records[records.len() - 1].id@ != records[i].id@);
        }
    }
}

/// No prompt is found in the database but by the id of a record.
pub proof fn law_database_prompts_have_records(records: Seq<DbPrompt>, id: Seq<char>)
    requires
        db_prompts(records).dom().contains(id),
    ensures
        exists|i: int|
            0 <= i < records.len() && (#[trigger] records[i]).id@ == id && records[i].prompt
                == db_prompts(records)[id],
    decreases records.len(),
{
    if records.len() > 0 {
        let front = records.drop_last();
        if records.last().id@ == id {
            assert(records[records.len() - 1].id@ == id);
        } else {
            law_database_prompts_have_records(front, id);
            let i = choose|i: int|
                0 <= i < front.len() && (#[trigger] front[i]).id@ == id && front[i].prompt
                    == db_prompts(front)[id];
            assert(records[i] == front[i]);
        }
    }
}

proof fn lemma_db_commits(records: Seq<DbPrompt>, sha: Seq<char>, i: int)
    requires
        0 <= i < records.len(),
    ensures
        list_at(db_commits(records, sha), records[i].id@).contains(sha),
    decreases records.len(),
{
    let front = records.drop_last();
    let before = db_commits(front, sha);
    let id = records[i].id@;
    if records.last().id@ == id {
        let list = list_at(before, id);
        assert(list.push(sha)[list.len() as int] == sha);
    } else {
        assert(front[i] == records[i]);
        lemma_db_commits(front, sha, i);
    }
}

/// The commits of a prompt that a pattern found are those of its records that have one,
/// in their order.
pub proof fn law_pattern_commits(records: Seq<DbPrompt>, id: Seq<char>)
    ensures
        pattern_found(records).prompts == db_prompts(records),
        pattern_found(records).locations == Map::<
            Seq<char>,
            Seq<(Seq<char>, Seq<LineRange>)>,
        >::empty(),
        list_at(pattern_found(records).commits, id) == records.filter(
            |r: DbPrompt| r.id@ == id && r.commit_sha is Some,
        ).map_values(|r: DbPrompt| r.commit_sha->0@),
    decreases records.len(),
{
    reveal(Seq::filter);
    let pred = |r: DbPrompt| r.id@ == id && r.commit_sha is Some;
    let of = |r: DbPrompt| r.commit_sha->0@;
    if records.len() == 0 {
        assert(records.filter(pred).map_values(of) =~= seq![]);
        assert(list_at(own_commits(records), id) =~= seq![]);
    } else {
        let front = records.drop_last();
        law_pattern_commits(front, id);
        let before = front.filter(pred);
        if pred(records.last()) {
            assert(records.filter(pred) == before.push(records.last()));
            assert(records.filter(pred).map_values(of) =~= before.map_values(of).push(
                of(records.last()),
            ));
        } else {
            assert(records.filter(pred) == before);
        }
    }
}

/// One prompt that is known is found alone, in its commit where it has one.
pub proof fn law_one_prompt(
    id: Seq<char>,
    commit: Option<Seq<char>>,
    prompt: PromptRecord,
    other: Seq<char>,
)
    ensures
        prompt_found(id, commit, prompt).prompts[id] == prompt,
        prompt_found(id, commit, prompt).prompts.dom().contains(other) <==> other == id,
        list_at(prompt_found(id, commit, prompt).commits, other) == (if other == id && commit
            is Some {
            seq![commit->0]
        } else {
            seq![]
        }),
        list_at(prompt_found(id, commit, prompt).locations, other).len() == 0,
{
}

// -------------------------------------------------------------------- several commits

/// What two searches found together: each prompt as the first search that found it has
/// it, its places one after the other, and its commits, each once.
pub proof fn law_merged(a: SearchView, b: SearchView, hash: Seq<char>, commit: Seq<char>)
    ensures
        merged(a, b).prompts.dom().contains(hash) <==> a.prompts.dom().contains(hash)
            || b.prompts.dom().contains(hash),
        a.prompts.dom().contains(hash) ==> merged(a, b).prompts[hash] == a.prompts[hash],
        !a.prompts.dom().contains(hash) && b.prompts.dom().contains(hash) ==> merged(
            a,
            b,
        ).prompts[hash] == b.prompts[hash],
        list_at(merged(a, b).locations, hash) == list_at(a.locations, hash) + list_at(
            b.locations,
            hash,
        ),
        list_at(merged(a, b).commits, hash).contains(commit) <==> list_at(a.commits, hash).contains(
            commit,
        ) || list_at(b.commits, hash).contains(commit),
        list_at(a.commits, hash).no_duplicates() ==> list_at(
            merged(a, b).commits,
            hash,
        ).no_duplicates(),
        list_at(a.commits, hash).is_prefix_of(list_at(merged(a, b).commits, hash)),
{
    law_united_lists(list_at(a.commits, hash), list_at(b.commits, hash));
    lemma_with_new_prefix(list_at(a.commits, hash), list_at(b.commits, hash));
    assert(list_at(merged(a, b).locations, hash) =~= list_at(a.locations, hash) + list_at(
        b.locations,
        hash,
    ));
    if !a.commits.dom().contains(hash) && !b.commits.dom().contains(hash) {
        assert(with_new(list_at(a.commits, hash), list_at(b.commits, hash)) =~= seq![]);
    }
}

proof fn lemma_with_new_prefix<X>(s: Seq<X>, more: Seq<X>)
    ensures
        s.is_prefix_of(with_new(s, more)),
    decreases more.len(),
{
    if more.len() > 0 {
        lemma_with_new_prefix(s, more.drop_last());
    }
}

/// A commit of a range adds what its search found to what was found before it, and one
/// whose search failed adds nothing.
pub proof fn law_range_adds_up(found: Seq<Option<SearchResult>>, one: SearchResult)
    ensures
        range_found(Seq::empty()) == nothing_found(),
        range_found(found.push(None)) == range_found(found),
        range_found(found.push(Some(one))) == merged(range_found(found), one@),
{
    assert(found.push(None).drop_last() =~= found);
    assert(found.push(Some(one)).drop_last() =~= found);
}

/// A prompt is found in a range just where it is found in one of the commits, and it is
/// as the first of them has it.
pub proof fn law_range_finds_what_its_commits_find(
    found: Seq<Option<SearchResult>>,
    hash: Seq<char>,
    i: int,
)
    ensures
        range_found(found).prompts.dom().contains(hash) <==> exists|k: int|
            0 <= k < found.len() && #[trigger] found[k] is Some
                && found[k]->0@.prompts.dom().contains(hash),
        0 <= i < found.len() && found[i] is Some && found[i]->0@.prompts.dom().contains(hash) && (
        forall|k: int|
            0 <= k < i && #[trigger] found[k] is Some ==> !found[k]->0@.prompts.dom().contains(hash))
            ==> range_found(found).prompts[hash] == found[i]->0@.prompts[hash],
    decreases found.len(),
{
    if found.len() > 0 {
        let front = found.drop_last();
        law_range_finds_what_its_commits_find(front, hash, i);
        assert forall|k: int| 0 <= k < front.len() implies #[trigger] front[k] == found[k] by {}
        let here = exists|k: int|
            0 <= k < found.len() && #[trigger] found[k] is Some
                && found[k]->0@.prompts.dom().contains(hash);
        if here {
            let k = choose|k: int|
                0 <= k < found.len() && #[trigger] found[k] is Some
                    && found[k]->0@.prompts.dom().contains(hash);
            if k < front.len() {
                assert(front[k] == found[k]);
            }
        }
        if range_found(front).prompts.dom().contains(hash) {
            let k = choose|k: int|
                0 <= k < front.len() && #[trigger] front[k] is Some
                    && front[k]->0@.prompts.dom().contains(hash);
            assert(found[k] == front[k]);
        }
        if found.last() is Some && found.last()->0@.prompts.dom().contains(hash) {
            assert(found[found.len() - 1] == found.last());
        }
        if 0 <= i < front.len() {
            assert(front[i] == found[i]);
        }
    }
}

/// The commits of a range are the lines of the list without the blanks round them, in
/// their order, without those that are blank.
pub proof fn law_listed_commits(rows: Seq<Seq<char>>)
    ensures
        listed_commits(rows) == rows.map_values(|s: Seq<char>| trimmed(s)).filter(
            |s: Seq<char>| s.len() > 0,
        ),
    decreases rows.len(),
{
    reveal(Seq::filter);
    let trim = |s: Seq<char>| trimmed(s);
    if rows.len() == 0 {
        assert(rows.map_values(trim) =~= seq![]);
    } else {
        law_listed_commits(rows.drop_last());
        assert(rows.map_values(trim).drop_last() =~= rows.drop_last().map_values(trim));
        assert(rows.map_values(trim).last() == trimmed(rows.last()));
    }
}

// --------------------------------------------------------------------------- a file

/// Blaming a file finds all its prompts, and the lines of those that wrote some: their
/// lines and no others, in the one file.
pub proof fn law_blamed_lines(
    path: Seq<char>,
    authors: Seq<(u32, String)>,
    prompts: Map<Seq<char>, PromptRecord>,
    i: int,
)
    requires
        0 <= i < authors.len(),
    ensures
        file_found(path, authors, prompts).prompts == prompts,
        prompts.dom().contains(authors[i].1@) ==> file_found(
            path,
            authors,
            prompts,
        ).locations.dom().contains(authors[i].1@) && file_found(
            path,
            authors,
            prompts,
        ).locations[authors[i].1@] == seq![(path, ranges_of(lines_by(authors, authors[i].1@)))]
            && lines_by(authors, authors[i].1@).contains(authors[i].0),
        !prompts.dom().contains(authors[i].1@) ==> !file_found(
            path,
            authors,
            prompts,
        ).locations.dom().contains(authors[i].1@),
{
    law_lines_by(authors, authors[i].1@);
    assert(authors[i].0 == authors[i].0);
    assert(lines_by(authors, authors[i].1@).contains(authors[i].0));
}

// -------------------------------------------------------------------------- filters

/// Filtering keeps a prompt, with its places and its commits, just where it passes the
/// filters.
pub proof fn law_filters_keep_what_passes(v: SearchView, f: FiltersView, hash: Seq<char>)
    requires
        v.prompts.dom().contains(hash),
    ensures
        filtered(v, f).prompts.dom().contains(hash) <==> prompt_passes(v.prompts[hash], f),
        prompt_passes(v.prompts[hash], f) ==> filtered(v, f).prompts[hash] == v.prompts[hash]
            && list_at(filtered(v, f).locations, hash) == list_at(v.locations, hash) && list_at(
            filtered(v, f).commits,
            hash,
        ) == list_at(v.commits, hash),
        !prompt_passes(v.prompts[hash], f) ==> list_at(filtered(v, f).locations, hash).len() == 0
            && list_at(filtered(v, f).commits, hash).len() == 0,
{
}

} // verus!
