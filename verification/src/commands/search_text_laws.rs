//! What the written forms of a search promise, stated over what was found.
use vstd::prelude::*;

use crate::authorship::{
    LineRange, Message, PromptRecord, increasing, law_ranges_cover, line_range_text, range_first,
    range_last, ranges_of,
};
use crate::commands::search::{
    SearchView, author_line, component_len, default_entries, default_entry, files_line, first_chars,
    first_text, head_trimmed, list_at, mode_text, normalized_path_of, path_behind, place_text,
    places_text, porcelain_line, quoted_mode_text, results_header, snippet_line, verbose_entries,
    verbose_entry, with_messages,
};
use crate::commands::search_args::ModeView;
use crate::commands::search_json::{
    array_of, locations_json, prompt_json, prompts_json, query_json, quoted_all, ranges_json,
    results_json,
};
use crate::json::json_quoted_of;
use crate::model::opt_view;
use crate::paths::tail_trimmed;
use crate::text::{decimal_of, has_prefix, join_of, replaced};
use crate::text_laws::law_replacing;

verus! {

// --------------------------------------------------------------------------- ranges of lines

/// A line is written as its number, a range with a dash between its first and last line.
pub proof fn law_written_ranges(a: u32, b: u32)
    ensures
        line_range_text(LineRange::Single(a)) == decimal_of(a as nat),
        line_range_text(LineRange::Range(a, b)) == decimal_of(a as nat) + "-"@ + decimal_of(b as nat),
{
}

/// Lines that follow each other make one range: between two ranges a line is missing, and
/// a range of one line is written as that line.
pub proof fn law_ranges_are_as_long_as_can_be(lines: Seq<u32>, i: int)
    requires
        increasing(lines),
        0 <= i < ranges_of(lines).len(),
    ensures
        range_first(ranges_of(lines)[i]) <= range_last(ranges_of(lines)[i]),
        ranges_of(lines)[i] is Single <==> range_first(ranges_of(lines)[i]) == range_last(ranges_of(lines)[i]),
        i + 1 < ranges_of(lines).len() ==> range_last(ranges_of(lines)[i]) + 1 < range_first(ranges_of(lines)[i + 1]),
        i == 0 ==> range_first(ranges_of(lines)[0]) == lines[0],
        i == ranges_of(lines).len() - 1 ==> range_last(ranges_of(lines)[i]) == lines.last(),
    decreases lines.len(),
{
    if lines.len() > 0 {
        let front = lines.drop_last();
        let before = ranges_of(front);
        let all = ranges_of(lines);
        law_ranges_cover(front);
        if front.len() > 0 {
            assert(front.last() == lines[lines.len() - 2]);
            assert(front[0] == lines[0]);
            law_ranges_are_as_long_as_can_be(front, before.len() - 1);
            if before.len() > 1 {
                law_ranges_are_as_long_as_can_be(front, before.len() - 2);
            }
            law_ranges_are_as_long_as_can_be(front, 0);
            if i < before.len() {
                law_ranges_are_as_long_as_can_be(front, i);
                if i + 1 < before.len() {
                    law_ranges_are_as_long_as_can_be(front, i + 1);
                }
            }
        } else {
            assert(before =~= seq![]);
        }
    }
}

// --------------------------------------------------------------------------- words

/// What a search was for, in words.
pub proof fn law_words_for_a_search(a: Seq<char>, b: Seq<char>, ranges: Seq<(u32, u32)>)
    ensures
        mode_text(ModeView::Commit(a)) == "commit "@ + a,
        mode_text(ModeView::CommitRange(a, b)) == "commit range "@ + a + ".."@ + b,
        mode_text(ModeView::File(a, ranges)) == "file "@ + a,
        mode_text(ModeView::Pattern(a)) == "pattern \""@ + a + "\""@,
        mode_text(ModeView::PromptId(a)) == "prompt ID "@ + a,
        quoted_mode_text(ModeView::Commit(a)) == "commit '"@ + a + "'"@,
        quoted_mode_text(ModeView::CommitRange(a, b)) == "commit range '"@ + a + ".."@ + b + "'"@,
        quoted_mode_text(ModeView::File(a, ranges)) == "file '"@ + a + "'"@,
        quoted_mode_text(ModeView::Pattern(a)) == "pattern \""@ + a + "\""@,
        quoted_mode_text(ModeView::PromptId(a)) == "prompt ID '"@ + a + "'"@,
        results_header(1, ModeView::Commit(a)) == "Found "@ + decimal_of(1) + " AI prompt session(s) for "@ + ("commit "@ + a) + "\n\n"@,
{
}

/// The head of the results says how many there are and what was searched for.
pub proof fn law_head_of_results(count: nat, m: ModeView)
    ensures
        results_header(count, m) == "Found "@ + decimal_of(count) + " AI prompt session(s) for "@ + mode_text(m) + "\n\n"@,
{
}

/// A place is written with its lines behind a colon; without lines the colon is left out
/// where that is asked for.
pub proof fn law_written_places(path: Seq<char>, r: LineRange, places: Seq<(Seq<char>, Seq<LineRange>)>, place: (Seq<char>, Seq<LineRange>), colon: bool)
    ensures
        place_text((path, Seq::empty()), false) == path,
        place_text((path, Seq::empty()), true) == path + ":"@,
        place_text((path, seq![r]), colon) == path + ":"@ + line_range_text(r),
        places_text(Seq::empty(), colon) == Seq::<char>::empty(),
        places_text(seq![place], colon) == place_text(place, colon),
        places.len() > 0 ==> places_text(places.push(place), colon) == places_text(places, colon) + ", "@ + place_text(place, colon),
{
    let one = crate::commands::search::range_texts(seq![r]);
    assert(one =~= seq![line_range_text(r)]);
    assert(crate::commands::search::range_texts(Seq::empty()) =~= Seq::<Seq<char>>::empty());
    assert(path + ":"@ + Seq::<char>::empty() =~= path + ":"@);
    let a = Seq::new(places.len(), |i: int| place_text(places[i], colon));
    let b = Seq::new(places.push(place).len(), |i: int| place_text(places.push(place)[i], colon));
    assert(b.drop_last() =~= a);
    assert(b.last() == place_text(place, colon));
}

/// The first characters of a text; a text that is short enough stays whole.
pub proof fn law_first_characters(s: Seq<char>, n: int)
    requires
        0 <= n,
    ensures
        s.len() <= n ==> first_chars(s, n) == s,
        s.len() > n ==> first_chars(s, n).len() == n && has_prefix(s, first_chars(s, n)),
{
}

/// The first message of a prompt, where it has text.
pub proof fn law_first_message(p: PromptRecord)
    ensures
        p.messages@.len() == 0 ==> first_text(p) is None,
        p.messages@.len() > 0 ==> first_text(p) == opt_view(p.messages@[0].text),
{
}

/// The beginning of the first message, cut behind eighty characters.
pub proof fn law_snippet(p: PromptRecord)
    ensures
        first_text(p) is None ==> snippet_line(p).len() == 0,
        first_text(p) matches Some(t) ==> t.len() <= 80 ==> snippet_line(p) == "    First message: "@ + t + "\n"@,
        first_text(p) matches Some(t) ==> t.len() > 80 ==> snippet_line(p) == "    First message: "@ + t.take(80) + "..."@ + "\n"@,
{
    reveal_strlit("");
    if let Some(t) = first_text(p) {
        assert("    First message: "@ + t + ""@ =~= "    First message: "@ + t);
    }
}

/// The lines on the author and on the files are there where these are known.
pub proof fn law_author_and_files(v: SearchView, p: PromptRecord, hash: Seq<char>, label: Seq<char>, colon: bool)
    ensures
        p.human_author is None ==> author_line(p, label).len() == 0,
        p.human_author matches Some(name) ==> author_line(p, label) == label + name@ + "\n"@,
        !v.locations.dom().contains(hash) ==> files_line(v, hash, label, colon).len() == 0,
        v.locations.dom().contains(hash) ==> files_line(v, hash, label, colon) == label + places_text(v.locations[hash], colon) + "\n"@,
{
}

/// The prompts are numbered from one, in their order; each entry says which prompt it is,
/// by what it was answered, by whom it was asked, where it left lines and how it begins.
pub proof fn law_numbered_entries(v: SearchView, order: Seq<Seq<char>>, hash: Seq<char>)
    ensures
        default_entries(v, Seq::empty()).len() == 0,
        default_entries(v, order.push(hash)) == default_entries(v, order) + default_entry(v, hash, order.len() + 1),
        ({
            let p = v.prompts[hash];
            default_entry(v, hash, order.len() + 1) == "["@ + decimal_of(order.len() + 1) + "] Prompt "@ + hash + " ("@ + p.agent_id.tool@ + " / "@ + p.agent_id.model@ + ")\n"@
                + author_line(p, "    Author: "@) + files_line(v, hash, "    Files:  "@, false) + snippet_line(p) + "\n"@
        }),
{
    assert(order.push(hash).drop_last() =~= order);
}

/// The long form gives each prompt with its whole transcript.
pub proof fn law_long_entries(v: SearchView, order: Seq<Seq<char>>, hash: Seq<char>, transcripts: Map<Seq<char>, String>)
    ensures
        verbose_entries(v, Seq::empty(), transcripts).len() == 0,
        transcripts.dom().contains(hash) ==> verbose_entries(v, order.push(hash), transcripts) == verbose_entries(v, order, transcripts) + verbose_entry(v, hash, transcripts[hash]@),
        !transcripts.dom().contains(hash) ==> verbose_entries(v, order.push(hash), transcripts) == verbose_entries(v, order, transcripts) + verbose_entry(v, hash, Seq::empty()),
        ({
            let p = v.prompts[hash];
            let t = transcripts[hash]@;
            verbose_entry(v, hash, t) == "=== Prompt "@ + hash + " ("@ + p.agent_id.tool@ + " / "@ + p.agent_id.model@ + ") ===\n"@
                + author_line(p, "Author: "@) + files_line(v, hash, "Files: "@, true) + "\n"@ + t + "\n"@
        }),
{
    assert(order.push(hash).drop_last() =~= order);
}

/// The form for programs: seven fields between tabs. The last is the beginning of the first
/// message, of sixty characters at most, with a space for each tab and line break.
pub proof fn law_fields_for_programs(v: SearchView, hash: Seq<char>, author: Seq<char>, count: nat, first: Seq<char>)
    requires
        ({
            let p = v.prompts[hash];
            &&& p.human_author matches Some(name) ==> author == name@
            &&& p.human_author is None ==> author.len() == 0
            &&& v.locations.dom().contains(hash) ==> count == v.locations[hash].len()
            &&& !v.locations.dom().contains(hash) ==> count == 0
            &&& first_text(p) is None ==> first.len() == 0
            &&& first_text(p) matches Some(t) ==> {
                &&& first.len() == (if t.len() <= 60 { t.len() } else { 60 })
                &&& forall|i: int| 0 <= i < first.len() ==> #[trigger] first[i] == (if t[i] == '\t' || t[i] == '\n' { ' ' } else { t[i] })
            }
        }),
    ensures
        porcelain_line(v, hash) == hash + "\t"@ + v.prompts[hash].agent_id.tool@ + "\t"@ + v.prompts[hash].agent_id.model@ + "\t"@ + author + "\t"@ + "0"@ + "\t"@ + decimal_of(count) + "\t"@ + first,
{
    reveal_strlit("");
    let p = v.prompts[hash];
    assert(""@ =~= Seq::<char>::empty());
    if p.human_author is None {
        assert(author =~= ""@);
    }
    match first_text(p) {
        Some(t) => {
            let a = first_chars(t, 60);
            let b = replaced(a, '\t', ' ');
            let c = replaced(b, '\n', ' ');
            assert(c.len() == a.len());
            assert forall|i: int| 0 <= i < first.len() implies c[i] == first[i] by {
                law_replacing(a, '\t', ' ', i);
                law_replacing(b, '\n', ' ', i);
                assert(a[i] == t[i]);
                assert(first[i] == (if t[i] == '\t' || t[i] == '\n' { ' ' } else { t[i] }));
            }
            assert(c =~= first);
        },
        None => {
            assert(first =~= ""@);
        },
    }
}

// --------------------------------------------------------------------------- JSON

/// What was searched for, as JSON.
pub proof fn law_query_as_json(a: Seq<char>, b: Seq<char>, ranges: Seq<(u32, u32)>)
    ensures
        query_json(ModeView::Commit(a)) == "{\"mode\":\"commit\",\"commit\":"@ + json_quoted_of(a) + "}"@,
        query_json(ModeView::CommitRange(a, b)) == "{\"mode\":\"commit_range\",\"start\":"@ + json_quoted_of(a) + ",\"end\":"@ + json_quoted_of(b) + "}"@,
        query_json(ModeView::File(a, ranges)) == "{\"mode\":\"file\",\"file\":"@ + json_quoted_of(a) + ",\"line_ranges\":"@ + array_of(ranges_json(ranges)) + "}"@,
        query_json(ModeView::Pattern(a)) == "{\"mode\":\"pattern\",\"query\":"@ + json_quoted_of(a) + "}"@,
        query_json(ModeView::PromptId(a)) == "{\"mode\":\"prompt_id\",\"prompt_id\":"@ + json_quoted_of(a) + "}"@,
{
}

/// Lists as JSON: their items in their order.
pub proof fn law_lists_as_json(items: Seq<Seq<char>>, ranges: Seq<(u32, u32)>, places: Seq<(Seq<char>, Seq<LineRange>)>, i: int)
    ensures
        array_of(items) == "["@ + join_of(items, ","@) + "]"@,
        quoted_all(items).len() == items.len(),
        0 <= i < items.len() ==> quoted_all(items)[i] == json_quoted_of(items[i]),
        ranges_json(ranges).len() == ranges.len(),
        0 <= i < ranges.len() ==> ranges_json(ranges)[i] == "["@ + decimal_of(ranges[i].0 as nat) + ","@ + decimal_of(ranges[i].1 as nat) + "]"@,
        locations_json(places).len() == places.len(),
        0 <= i < places.len() ==> locations_json(places)[i] == "{\"file\":"@ + json_quoted_of(places[i].0) + ",\"lines\":["@ + join_of(places[i].1.map_values(|r: LineRange| json_quoted_of(line_range_text(r))), ","@) + "]}"@,
{
    if 0 <= i < places.len() {
        let lines = quoted_all(crate::commands::search_json::range_texts(places[i].1));
        assert(lines =~= places[i].1.map_values(|r: LineRange| json_quoted_of(line_range_text(r))));
        reveal_strlit(",\"lines\":");
        reveal_strlit(",\"lines\":[");
        reveal_strlit("[");
        reveal_strlit("]");
        reveal_strlit("}");
        reveal_strlit("]}");
        assert(",\"lines\":"@ + "["@ =~= ",\"lines\":["@);
        assert("]"@ + "}"@ =~= "]}"@);
        let head = "{\"file\":"@ + json_quoted_of(places[i].0);
        let mid = join_of(lines, ","@);
        assert(head + ",\"lines\":"@ + ("["@ + mid + "]"@) + "}"@ =~= head + (",\"lines\":"@ + "["@) + mid + ("]"@ + "}"@));
    }
}

/// A prompt as JSON: its members in this order, with what was found of it.
pub proof fn law_prompt_as_json(v: SearchView, hash: Seq<char>, messages: Seq<char>)
    ensures
        ({
            let p = v.prompts[hash];
            prompt_json(v, hash, messages) == json_quoted_of(hash) + ":{\"agent_id\":{\"tool\":"@ + json_quoted_of(p.agent_id.tool@) + ",\"id\":"@ + json_quoted_of(p.agent_id.id@)
                + ",\"model\":"@ + json_quoted_of(p.agent_id.model@) + "},\"human_author\":"@ + (if p.human_author is Some { json_quoted_of(p.human_author->0@) } else { "null"@ })
                + ",\"messages\":"@ + messages + ",\"total_additions\":"@ + decimal_of(p.total_additions as nat) + ",\"total_deletions\":"@ + decimal_of(p.total_deletions as nat)
                + ",\"locations\":"@ + array_of(locations_json(list_at(v.locations, hash))) + ",\"commits\":"@ + array_of(quoted_all(list_at(v.commits, hash))) + "}"@
        }),
{
}

/// The results as JSON: what was searched for, how many there are, and each prompt in its
/// order with its messages, or an empty list of them.
pub proof fn law_results_as_json(v: SearchView, order: Seq<Seq<char>>, mode: ModeView, messages: Map<Seq<char>, String>, i: int)
    ensures
        results_json(v, order, mode, messages) == "{\"query\":"@ + query_json(mode) + ",\"result_count\":"@ + decimal_of(order.len()) + ",\"prompts\":{"@ + join_of(prompts_json(v, order, messages), ","@) + "}}"@,
        prompts_json(v, order, messages).len() == order.len(),
        0 <= i < order.len() && messages.dom().contains(order[i]) ==> prompts_json(v, order, messages)[i] == prompt_json(v, order[i], messages[order[i]]@),
        0 <= i < order.len() && !messages.dom().contains(order[i]) ==> prompts_json(v, order, messages)[i] == prompt_json(v, order[i], "[]"@),
{
}

/// A prompt without messages gets those that are known of it; all else stays.
pub proof fn law_known_messages(prompts: Map<Seq<char>, PromptRecord>, known: Map<Seq<char>, Vec<Message>>, hash: Seq<char>)
    ensures
        with_messages(prompts, known).dom() == prompts.dom(),
        prompts.dom().contains(hash) && prompts[hash].messages@.len() > 0 ==> with_messages(prompts, known)[hash] == prompts[hash],
        prompts.dom().contains(hash) && !known.dom().contains(hash) ==> with_messages(prompts, known)[hash] == prompts[hash],
        prompts.dom().contains(hash) && prompts[hash].messages@.len() == 0 && known.dom().contains(hash) && known[hash]@.len() > 0 ==> with_messages(prompts, known)[hash] == (PromptRecord { messages: known[hash], ..prompts[hash] }),
{
    assert(with_messages(prompts, known).dom() =~= prompts.dom());
}

// --------------------------------------------------------------------------- paths

proof fn lemma_head_trimmed(base: Seq<char>, rest: Seq<char>)
    requires
        rest.len() > 0,
        rest[0] != '/',
        rest[0] != '.',
    ensures
        head_trimmed(base + seq!['/'] + rest) == (if head_trimmed(base).len() > 0 { head_trimmed(base) + seq!['/'] + rest } else { rest }),
        head_trimmed(base).len() <= base.len(),
        head_trimmed(base).len() > 0 ==> head_trimmed(base)[0] != '/',
        base.len() > 0 && base.last() != '/' && head_trimmed(base).len() > 0 ==> head_trimmed(base).last() == base.last(),
    decreases base.len(),
{
    let p = base + seq!['/'] + rest;
    if base.len() == 0 {
        assert(p.drop_first() =~= rest);
        assert(head_trimmed(p) == head_trimmed(p.drop_first()));
        assert(head_trimmed(rest) == rest);
    } else {
        assert(p[0] == base[0]);
        let skips = base[0] == '/' || (base[0] == '.' && (base.len() == 1 || base[1] == '/'));
        assert(base[0] == '.' && base.len() == 1 ==> p[1] == '/');
        assert(base.len() > 1 ==> p[1] == base[1]);
        if skips {
            assert(p.drop_first() =~= base.drop_first() + seq!['/'] + rest);
            lemma_head_trimmed(base.drop_first(), rest);
        }
    }
}

proof fn lemma_component(b: Seq<char>, rest: Seq<char>)
    ensures
        component_len(b + seq!['/'] + rest) == component_len(b),
        0 <= component_len(b) <= b.len(),
        b.len() > 0 && b[0] != '/' ==> component_len(b) > 0,
        component_len(b) < b.len() ==> b[component_len(b)] == '/',
    decreases b.len(),
{
    let p = b + seq!['/'] + rest;
    if b.len() > 0 {
        assert(p[0] == b[0]);
        if b[0] != '/' {
            assert(p.drop_first() =~= b.drop_first() + seq!['/'] + rest);
            lemma_component(b.drop_first(), rest);
        }
    } else {
        assert(p[0] == '/');
    }
}

/// What stands below a directory is what is left of its path behind the directory's.
pub proof fn law_path_below_a_directory(base: Seq<char>, rest: Seq<char>)
    requires
        rest.len() > 0,
        rest[0] != '/',
        rest[0] != '.',
    ensures
        path_behind(base + seq!['/'] + rest, base) == Some(tail_trimmed(rest)),
    decreases base.len(),
{
    let p = base + seq!['/'] + rest;
    lemma_head_trimmed(base, rest);
    let a = head_trimmed(p);
    let b = head_trimmed(base);
    assert(head_trimmed(rest) == rest);
    if b.len() > 0 {
        let n = component_len(b);
        lemma_component(b, rest);
        assert(a.take(n) =~= b.take(n));
        assert(a.skip(n) =~= b.skip(n) + seq!['/'] + rest);
        law_path_below_a_directory(b.skip(n), rest);
    }
}

/// A path in the work directory is written as seen from there; a relative one stays, without
/// a dot in front. Backslashes are written as slashes.
pub proof fn law_normalized_paths(base: Seq<char>, rest: Seq<char>)
    requires
        rest.len() > 0,
        rest[0] != '/',
        rest[0] != '.',
    ensures
        base.len() > 0 && base[0] == '/' ==> normalized_path_of(base + seq!['/'] + rest, base) == replaced(tail_trimmed(rest), '\\', '/'),
        normalized_path_of(rest, base) == replaced(rest, '\\', '/'),
        normalized_path_of("./"@ + rest, base) == replaced(rest, '\\', '/'),
{
    reveal_strlit("./");
    law_path_below_a_directory(base, rest);
    assert(("./"@ + rest)[0] == '.');
    assert(("./"@ + rest).take(2) =~= "./"@);
    assert(("./"@ + rest).skip(2) =~= rest);
    if has_prefix(rest, "./"@) {
        assert(rest.take(2)[0] == rest[0]);
    }
}

} // verus!
