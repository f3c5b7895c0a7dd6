//! The results of a search as JSON.

use crate::authorship::{LineRange, PromptRecord, line_range_text};
use crate::commands::search::{SearchResult, SearchView, list_at, places};
use crate::commands::search_args::{ModeView, SearchMode};
use crate::json::{json_pretty, json_pretty_of, json_quoted, json_quoted_of};
use crate::text::{concat, decimal, decimal_of, join, join_of, texts};
use crate::text_map::TextMap;
use vstd::prelude::*;
use vstd::string::*;

verus! {

// -------------------------------------------------------------------------------- lists

/// Values as a JSON array.
pub open spec fn array_of(items: Seq<Seq<char>>) -> Seq<char> {
    "["@ + join_of(items, ","@) + "]"@
}

fn write_array(items: &Vec<String>) -> (r: String)
    ensures
        r@ == array_of(texts(items@)),
{
    let mut s = concat("[", join(items.as_slice(), ",").as_str());
    s.append("]");
    s
}

/// Texts as JSON strings.
pub open spec fn quoted_all(list: Seq<Seq<char>>) -> Seq<Seq<char>> {
    Seq::new(list.len(), |i: int| json_quoted_of(list[i]))
}

fn quote_all(list: &Vec<String>) -> (r: Vec<String>)
    ensures
        texts(r@) == quoted_all(texts(list@)),
{
    let mut out: Vec<String> = Vec::new();
    let mut i: usize = 0;
    while i < list.len()
        invariant
            i <= list@.len(),
            out@.len() == i,
            forall|k: int| 0 <= k < i ==> (#[trigger] out@[k])@ == json_quoted_of(list@[k]@),
        decreases list.len() - i,
    {
        out.push(json_quoted(list[i].as_str()));
        i += 1;
    }
    proof {
        assert(texts(out@) =~= quoted_all(texts(list@)));
    }
    out
}

// -------------------------------------------------------------------------------- query

/// Ranges of lines, each as an array of its first and its last line.
pub open spec fn ranges_json(ranges: Seq<(u32, u32)>) -> Seq<Seq<char>> {
    Seq::new(
        ranges.len(),
        |i: int|
            "["@ + decimal_of(ranges[i].0 as nat) + ","@ + decimal_of(ranges[i].1 as nat) + "]"@,
    )
}

fn write_ranges(ranges: &Vec<(u32, u32)>) -> (r: Vec<String>)
    ensures
        texts(r@) == ranges_json(ranges@),
{
    let mut out: Vec<String> = Vec::new();
    let mut i: usize = 0;
    while i < ranges.len()
        invariant
            i <= ranges@.len(),
            out@.len() == i,
            forall|k: int| 0 <= k < i ==> (#[trigger] out@[k])@ == ranges_json(ranges@)[k],
        decreases ranges.len() - i,
    {
        let mut s = concat("[", decimal(ranges[i].0 as u64).as_str());
        s.append(",");
        s.append(decimal(ranges[i].1 as u64).as_str());
        s.append("]");
        out.push(s);
        i += 1;
    }
    proof {
        assert(texts(out@) =~= ranges_json(ranges@));
    }
    out
}

/// What was searched, as a JSON object.
pub open spec fn query_json(mode: ModeView) -> Seq<char> {
    match mode {
        ModeView::Commit(rev) => "{\"mode\":\"commit\",\"commit\":"@ + json_quoted_of(rev) + "}"@,
        ModeView::CommitRange(start, end) => "{\"mode\":\"commit_range\",\"start\":"@
            + json_quoted_of(start) + ",\"end\":"@ + json_quoted_of(end) + "}"@,
        ModeView::File(path, ranges) => "{\"mode\":\"file\",\"file\":"@ + json_quoted_of(path)
            + ",\"line_ranges\":"@ + array_of(ranges_json(ranges)) + "}"@,
        ModeView::Pattern(query) => "{\"mode\":\"pattern\",\"query\":"@ + json_quoted_of(query)
            + "}"@,
        ModeView::PromptId(id) => "{\"mode\":\"prompt_id\",\"prompt_id\":"@ + json_quoted_of(id)
            + "}"@,
    }
}

fn write_query(mode: &SearchMode) -> (r: String)
    ensures
        r@ == query_json(mode@),
{
    let mut s = match mode {
        SearchMode::Commit { commit_rev } => concat(
            "{\"mode\":\"commit\",\"commit\":",
            json_quoted(commit_rev.as_str()).as_str(),
        ),
        SearchMode::CommitRange { start, end } => {
            let mut s = concat(
                "{\"mode\":\"commit_range\",\"start\":",
                json_quoted(start.as_str()).as_str(),
            );
            s.append(",\"end\":");
            s.append(json_quoted(end.as_str()).as_str());
            s
        },
        SearchMode::File { file_path, line_ranges } => {
            let mut s = concat(
                "{\"mode\":\"file\",\"file\":",
                json_quoted(file_path.as_str()).as_str(),
            );
            s.append(",\"line_ranges\":");
            s.append(write_array(&write_ranges(line_ranges)).as_str());
            s
        },
        SearchMode::Pattern { query } => concat(
            "{\"mode\":\"pattern\",\"query\":",
            json_quoted(query.as_str()).as_str(),
        ),
        SearchMode::PromptId { prompt_id } => concat(
            "{\"mode\":\"prompt_id\",\"prompt_id\":",
            json_quoted(prompt_id.as_str()).as_str(),
        ),
    };
    s.append("}");
    s
}

// ------------------------------------------------------------------------------ prompts

/// Line ranges, as they are written.
pub open spec fn range_texts(ranges: Seq<LineRange>) -> Seq<Seq<char>> {
    Seq::new(ranges.len(), |i: int| line_range_text(ranges[i]))
}

/// The places of a prompt, each as a JSON object.
pub open spec fn locations_json(list: Seq<(Seq<char>, Seq<LineRange>)>) -> Seq<Seq<char>> {
    Seq::new(
        list.len(),
        |i: int|
            "{\"file\":"@ + json_quoted_of(list[i].0) + ",\"lines\":"@ + array_of(
                quoted_all(range_texts(list[i].1)),
            ) + "}"@,
    )
}

fn write_range_texts(ranges: &Vec<LineRange>) -> (r: Vec<String>)
    ensures
        texts(r@) == range_texts(ranges@),
{
    let mut out: Vec<String> = Vec::new();
    let mut i: usize = 0;
    while i < ranges.len()
        invariant
            i <= ranges@.len(),
            out@.len() == i,
            forall|k: int| 0 <= k < i ==> (#[trigger] out@[k])@ == line_range_text(ranges@[k]),
        decreases ranges.len() - i,
    {
        out.push(ranges[i].to_text());
        i += 1;
    }
    proof {
        assert(texts(out@) =~= range_texts(ranges@));
    }
    out
}

fn write_locations(list: &Vec<(String, Vec<LineRange>)>) -> (r: Vec<String>)
    ensures
        texts(r@) == locations_json(places(list@)),
{
    let mut out: Vec<String> = Vec::new();
    let mut i: usize = 0;
    while i < list.len()
        invariant
            i <= list@.len(),
            out@.len() == i,
            forall|k: int| 0 <= k < i ==> (#[trigger] out@[k])@ == locations_json(places(list@))[k],
        decreases list.len() - i,
    {
        let mut s = concat("{\"file\":", json_quoted(list[i].0.as_str()).as_str());
        s.append(",\"lines\":");
        s.append(write_array(&quote_all(&write_range_texts(&list[i].1))).as_str());
        s.append("}");
        out.push(s);
        i += 1;
    }
    proof {
        assert(texts(out@) =~= locations_json(places(list@)));
    }
    out
}

/// The name of a prompt's author, or null.
pub open spec fn author_json(record: PromptRecord) -> Seq<char> {
    match record.human_author {
        Some(name) => json_quoted_of(name@),
        None => "null"@,
    }
}

/// The messages of a prompt, as JSON; without them, the empty list.
pub open spec fn messages_json(messages: Map<Seq<char>, String>, hash: Seq<char>) -> Seq<char> {
    if messages.dom().contains(hash) {
        messages[hash]@
    } else {
        "[]"@
    }
}

/// A prompt and what was found of it, as a member of a JSON object.
pub open spec fn prompt_json(v: SearchView, hash: Seq<char>, messages: Seq<char>) -> Seq<char> {
    let p = v.prompts[hash];
    json_quoted_of(hash) + ":{\"agent_id\":{\"tool\":"@ + json_quoted_of(p.agent_id.tool@)
        + ",\"id\":"@ + json_quoted_of(p.agent_id.id@) + ",\"model\":"@ + json_quoted_of(
        p.agent_id.model@,
    ) + "},\"human_author\":"@ + author_json(p) + ",\"messages\":"@ + messages
        + ",\"total_additions\":"@ + decimal_of(p.total_additions as nat)
        + ",\"total_deletions\":"@ + decimal_of(p.total_deletions as nat) + ",\"locations\":"@
        + array_of(locations_json(list_at(v.locations, hash))) + ",\"commits\":"@ + array_of(
        quoted_all(list_at(v.commits, hash)),
    ) + "}"@
}

/// The prompts that were found, as members of a JSON object.
pub open spec fn prompts_json(
    v: SearchView,
    order: Seq<Seq<char>>,
    messages: Map<Seq<char>, String>,
) -> Seq<Seq<char>> {
    Seq::new(order.len(), |i: int| prompt_json(v, order[i], messages_json(messages, order[i])))
}

fn write_prompt(result: &SearchResult, hash: &String, p: &PromptRecord, messages: &str) -> (r: String)
    requires
        result@.prompts.dom().contains(hash@),
        result@.prompts[hash@] == *p,
    ensures
        r@ == prompt_json(result@, hash@, messages@),
{
    let mut s = concat(json_quoted(hash.as_str()).as_str(), ":{\"agent_id\":{\"tool\":");
    s.append(json_quoted(p.agent_id.tool.as_str()).as_str());
    s.append(",\"id\":");
    s.append(json_quoted(p.agent_id.id.as_str()).as_str());
    s.append(",\"model\":");
    s.append(json_quoted(p.agent_id.model.as_str()).as_str());
    s.append("},\"human_author\":");
    match &p.human_author {
        Some(name) => s.append(json_quoted(name.as_str()).as_str()),
        None => s.append("null"),
    }
    s.append(",\"messages\":");
    s.append(messages);
    s.append(",\"total_additions\":");
    s.append(decimal(p.total_additions as u64).as_str());
    s.append(",\"total_deletions\":");
    s.append(decimal(p.total_deletions as u64).as_str());
    s.append(",\"locations\":");
    let none: Vec<String> = Vec::new();
    proof {
        assert(texts(none@) =~= locations_json(Seq::empty()));
        assert(texts(none@) =~= quoted_all(Seq::empty()));
    }
    match result.prompt_locations.get(hash.as_str()) {
        Some(list) => s.append(write_array(&write_locations(list)).as_str()),
        None => s.append(write_array(&none).as_str()),
    }
    s.append(",\"commits\":");
    match result.prompt_commits.get(hash.as_str()) {
        Some(list) => s.append(write_array(&quote_all(list)).as_str()),
        None => s.append(write_array(&none).as_str()),
    }
    s.append("}");
    s
}

// ------------------------------------------------------------------------------- output

/// The results of a search as a JSON object, on one line. The messages of the prompts are
/// given as JSON.
pub open spec fn results_json(
    v: SearchView,
    order: Seq<Seq<char>>,
    mode: ModeView,
    messages: Map<Seq<char>, String>,
) -> Seq<char> {
    "{\"query\":"@ + query_json(mode) + ",\"result_count\":"@ + decimal_of(order.len())
        + ",\"prompts\":{"@ + join_of(prompts_json(v, order, messages), ","@) + "}}"@
}

/// The results of a search as a JSON object, on one line.
pub fn write_results(result: &SearchResult, mode: &SearchMode, messages: &TextMap<String>) -> (r:
    String)
    ensures
        r@ == results_json(result@, result.prompts.key_order(), mode@, messages@),
{
    let n: usize = result.prompts.len();
    let ghost order = result.prompts.key_order();
    let ghost want = prompts_json(result@, order, messages@);
    let mut prompts: Vec<String> = Vec::new();
    let mut i: usize = 0;
    while i < n
        invariant
            i <= n,
            n == order.len(),
            order == result.prompts.key_order(),
            want == prompts_json(result@, order, messages@),
            prompts@.len() == i,
            forall|k: int| 0 <= k < i ==> (#[trigger] prompts@[k])@ == want[k],
        decreases n - i,
    {
        let hash = result.prompts.key_at(i);
        let p = result.prompts.value_at(i);
        let said: &str = match messages.get(hash.as_str()) {
            Some(text) => text.as_str(),
            None => "[]",
        };
        prompts.push(write_prompt(result, hash, p, said));
        i += 1;
    }
    proof {
        assert(texts(prompts@) =~= want);
    }
    let mut s = concat("{\"query\":", write_query(mode).as_str());
    s.append(",\"result_count\":");
    s.append(decimal(n as u64).as_str());
    s.append(",\"prompts\":{");
    s.append(join(prompts.as_slice(), ",").as_str());
    s.append("}}");
    s
}

/// The results of a search as JSON, for a reader. The messages of the prompts are given as
/// JSON; where those of one prompt are none, nothing is shown.
pub fn format_json(result: &SearchResult, mode: &SearchMode, messages: &TextMap<String>) -> (r:
    String)
    ensures
        r@ == match json_pretty_of(
            results_json(result@, result.prompts.key_order(), mode@, messages@),
        ) {
            Some(text) => text,
            None => "{}"@,
        },
{
    match json_pretty(write_results(result, mode, messages).as_str()) {
        Some(text) => text,
        None => "{}".to_owned(),
    }
}

} // verus!
