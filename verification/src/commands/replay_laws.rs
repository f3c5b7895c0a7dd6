//! What holds of the replay of prompts.

use crate::commands::prompt_replay::{
    PromptSectionsView, ReplayArgsView, ToolCallView, arguments_of, arguments_text, cells_of,
    in_block, is_fence, longest, pointer_key_of, replay_args_of, replay_options, row_inner,
    sections_of, sections_text, tool_call_of, tool_call_text, tool_calls_of, tool_calls_text,
    tool_calls_upto,
};
use crate::json::{json_compact_of, json_items_of, json_text_of};
use crate::json_members::{field_in, fields_of};
use crate::text::{find_of, has_prefix, split_of, split_once_of, trimmed, unsigned_of};
use crate::text_laws::law_splitting;
use vstd::prelude::*;
use vstd::string::*;

verus! {

/// The options of a replay: each sets its own field and no other, and needs its value.
pub proof fn law_replay_options(keyword: Seq<char>, value: Seq<char>, other: Seq<char>)
    ensures
        replay_args_of(seq!["replay"@, keyword]) == Ok::<ReplayArgsView, Seq<char>>(ReplayArgsView { keyword, top_k: 3, sort_by: "score"@, json: false, markdown: true }),
        unsigned_of(value, usize::MAX as nat) matches Some(n) ==> n > 0 ==> replay_args_of(seq!["replay"@, keyword, "--top-k"@, value]) == Ok::<ReplayArgsView, Seq<char>>(ReplayArgsView { keyword, top_k: n, sort_by: "score"@, json: false, markdown: true }),
        unsigned_of(value, usize::MAX as nat) == Some(0nat) ==> replay_args_of(seq!["replay"@, keyword, "--top-k"@, value]) == Err::<ReplayArgsView, Seq<char>>("--top-k must be greater than 0"@),
        unsigned_of(value, usize::MAX as nat) is None ==> replay_args_of(seq!["replay"@, keyword, "--top-k"@, value]) == Err::<ReplayArgsView, Seq<char>>("--top-k must be a positive integer"@),
        replay_args_of(seq!["replay"@, keyword, "--sort-by"@, "time"@]) == Ok::<ReplayArgsView, Seq<char>>(ReplayArgsView { keyword, top_k: 3, sort_by: "time"@, json: false, markdown: true }),
        replay_args_of(seq!["replay"@, keyword, "--sort-by"@, "score"@]) == replay_args_of(seq!["replay"@, keyword]),
        value != "score"@ && value != "time"@ ==> replay_args_of(seq!["replay"@, keyword, "--sort-by"@, value]) == Err::<ReplayArgsView, Seq<char>>("--sort-by must be 'score' or 'time', got: "@ + value),
        replay_args_of(seq!["replay"@, keyword, "--json"@]) == Ok::<ReplayArgsView, Seq<char>>(ReplayArgsView { keyword, top_k: 3, sort_by: "score"@, json: true, markdown: true }),
        replay_args_of(seq!["replay"@, keyword, "--plain"@]) == Ok::<ReplayArgsView, Seq<char>>(ReplayArgsView { keyword, top_k: 3, sort_by: "score"@, json: false, markdown: false }),
        replay_args_of(seq!["replay"@, keyword, "--plain"@, "--markdown"@]) == replay_args_of(seq!["replay"@, keyword]),
        replay_args_of(seq!["replay"@, keyword, "--top-k"@]) == Err::<ReplayArgsView, Seq<char>>("--top-k requires a value"@),
        replay_args_of(seq!["replay"@, keyword, "--sort-by"@]) == Err::<ReplayArgsView, Seq<char>>("--sort-by requires a value (score or time)"@),
        has_prefix(other, "-"@) && other != "--top-k"@ && other != "--sort-by"@ && other != "--json"@ && other != "--markdown"@ && other != "--plain"@ ==> replay_args_of(seq!["replay"@, keyword, other]) == Err::<ReplayArgsView, Seq<char>>("Unknown option: "@ + other),
        !has_prefix(other, "-"@) ==> replay_args_of(seq!["replay"@, keyword, other]) == replay_args_of(seq!["replay"@, keyword]),
        replay_args_of(Seq::empty()) == Err::<ReplayArgsView, Seq<char>>("Missing subcommand. Usage: prompt replay <keyword> [options]"@),
        other != "replay"@ ==> replay_args_of(seq![other, keyword]) == Err::<ReplayArgsView, Seq<char>>("Unknown subcommand: "@ + other + ". Expected: replay"@),
        replay_args_of(seq!["replay"@]) == Err::<ReplayArgsView, Seq<char>>("Missing keyword argument. Usage: prompt replay <keyword> [options]"@),
{
    reveal_with_fuel(replay_options, 4);
    reveal_strlit("--top-k");
    reveal_strlit("--sort-by");
    reveal_strlit("--json");
    reveal_strlit("--markdown");
    reveal_strlit("--plain");
    reveal_strlit("-");
    reveal_strlit("score");
    reveal_strlit("time");
    reveal_strlit("replay");
    assert("--top-k"@.len() == 7);
    assert("--sort-by"@.len() == 9);
    assert("--json"@.len() == 6);
    assert("--markdown"@.len() == 10);
    assert("--plain"@.len() == 7);
    assert("-"@.len() == 1);
    assert("score"@.len() == 5);
    assert("time"@.len() == 4);
    assert("replay"@.len() == 6);
    assert("--top-k"@[2] == 't');
    assert("--json"@[0] == '-');
    assert("--plain"@[2] == 'p');
    assert("replay"@[0] == 'r');
    assert("--top-k"@.take(1) =~= "-"@);
    assert("--sort-by"@.take(1) =~= "-"@);
    assert("--json"@.take(1) =~= "-"@);
    assert("--markdown"@.take(1) =~= "-"@);
    assert("--plain"@.take(1) =~= "-"@);
    assert("-"@.take(1) =~= "-"@);
    assert(seq!["replay"@, keyword][0] == "replay"@ && seq!["replay"@, keyword][1] == keyword);
    assert(seq!["replay"@][0] == "replay"@);
    assert(seq![other, keyword][0] == other);
    let a = seq!["replay"@, keyword, "--top-k"@, value];
    assert(a[0] == "replay"@ && a[1] == keyword && a[2] == "--top-k"@ && a[3] == value);
    let b = seq!["replay"@, keyword, "--sort-by"@, "time"@];
    assert(b[0] == "replay"@ && b[1] == keyword && b[2] == "--sort-by"@ && b[3] == "time"@);
    let c = seq!["replay"@, keyword, "--sort-by"@, "score"@];
    assert(c[0] == "replay"@ && c[1] == keyword && c[2] == "--sort-by"@ && c[3] == "score"@);
    let d = seq!["replay"@, keyword, "--sort-by"@, value];
    assert(d[0] == "replay"@ && d[1] == keyword && d[2] == "--sort-by"@ && d[3] == value);
    let e = seq!["replay"@, keyword, "--json"@];
    assert(e[0] == "replay"@ && e[1] == keyword && e[2] == "--json"@);
    let f = seq!["replay"@, keyword, "--plain"@];
    assert(f[0] == "replay"@ && f[1] == keyword && f[2] == "--plain"@);
    let g = seq!["replay"@, keyword, "--plain"@, "--markdown"@];
    assert(g[0] == "replay"@ && g[1] == keyword && g[2] == "--plain"@ && g[3] == "--markdown"@);
    let h = seq!["replay"@, keyword, "--top-k"@];
    assert(h[0] == "replay"@ && h[1] == keyword && h[2] == "--top-k"@);
    let k = seq!["replay"@, keyword, "--sort-by"@];
    assert(k[0] == "replay"@ && k[1] == keyword && k[2] == "--sort-by"@);
    let l = seq!["replay"@, keyword, other];
    assert(l[0] == "replay"@ && l[1] == keyword && l[2] == other);
}

/// A prompt's text is its query, without the blanks round it, where no tools follow; else
/// the query ends before the tools, and they end before the answers.
pub proof fn law_prompt_sections(query: Seq<char>, tools: Seq<char>, answers: Seq<char>, text: Seq<char>)
    ensures
        find_of(text, "\n\ntool_use: "@) is None ==> sections_of(text) == (PromptSectionsView {
            user_query: trimmed(text),
            tool_calls: Seq::empty(),
            assistant_responses: Seq::empty(),
        }),
        split_once_of(text, "\n\ntool_use: "@) == Some((query, tools)) && find_of(tools, "\n\nassistant_responses: "@) is None ==> sections_of(text) == (PromptSectionsView {
            user_query: trimmed(query),
            tool_calls: tool_calls_of(tools),
            assistant_responses: Seq::empty(),
        }),
        split_once_of(text, "\n\ntool_use: "@) == Some((query, tools + "\n\nassistant_responses: "@ + answers)) && split_once_of(tools + "\n\nassistant_responses: "@ + answers, "\n\nassistant_responses: "@) == Some((tools, answers)) ==> sections_of(text) == (PromptSectionsView {
            user_query: trimmed(query),
            tool_calls: tool_calls_of(tools),
            assistant_responses: trimmed(answers),
        }),
{
}

/// The tool calls of a list are its items in their order, each as it reads; where one does
/// not read, there are none.
pub proof fn law_tool_calls(json: Seq<char>, n: nat, i: int)
    requires
        json_items_of(json) == Some(n),
    ensures
        (forall|k: int| 0 <= k < n ==> (#[trigger] field_in(fields_of(json), ""@, k as nat)) is Some && tool_call_of(field_in(fields_of(json), ""@, k as nat)->0) is Some) ==> tool_calls_of(json).len() == n && (0 <= i < n ==> Some(tool_calls_of(json)[i]) == tool_call_of(field_in(fields_of(json), ""@, i as nat)->0)),
        0 <= i < n && (field_in(fields_of(json), ""@, i as nat) matches Some(item) ==> tool_call_of(item) is None) ==> tool_calls_of(json).len() == 0,
{
    lemma_tool_calls(json, n, i);
}

proof fn lemma_tool_calls(json: Seq<char>, n: nat, i: int)
    ensures
        (forall|k: int| 0 <= k < n ==> (#[trigger] field_in(fields_of(json), ""@, k as nat)) is Some && tool_call_of(field_in(fields_of(json), ""@, k as nat)->0) is Some) ==> (tool_calls_upto(fields_of(json), n) matches Some(calls) && calls.len() == n && (0 <= i < n ==> Some(calls[i]) == tool_call_of(field_in(fields_of(json), ""@, i as nat)->0))),
        0 <= i < n && (field_in(fields_of(json), ""@, i as nat) matches Some(item) ==> tool_call_of(item) is None) ==> tool_calls_upto(fields_of(json), n) is None,
    decreases n,
{
    if n > 0 {
        lemma_tool_calls(json, (n - 1) as nat, i);
        if forall|k: int| 0 <= k < n ==> (#[trigger] field_in(fields_of(json), ""@, k as nat)) is Some && tool_call_of(field_in(fields_of(json), ""@, k as nat)->0) is Some {
            assert(field_in(fields_of(json), ""@, (n - 1) as nat) is Some);
        }
    }
}

/// The key of a pointer is written character by character: a tilde and a slash as two
/// characters each, any other as it is.
pub proof fn law_pointer_keys(key: Seq<char>, c: char)
    ensures
        pointer_key_of(Seq::empty()) == Seq::<char>::empty(),
        pointer_key_of(key.push('~')) == pointer_key_of(key) + seq!['~', '0'],
        pointer_key_of(key.push('/')) == pointer_key_of(key) + seq!['~', '1'],
        c != '~' && c != '/' ==> pointer_key_of(key.push(c)) == pointer_key_of(key).push(c),
{
    reveal_strlit("~0");
    reveal_strlit("~1");
    assert("~0"@ =~= seq!['~', '0']);
    assert("~1"@ =~= seq!['~', '1']);
    assert(key.push('~').drop_last() =~= key);
    assert(key.push('/').drop_last() =~= key);
    assert(key.push(c).drop_last() =~= key);
}

/// The arguments of a call are all its keys in order, each with its text, or with its value
/// as JSON where it is no text.
pub proof fn law_call_arguments(json: Seq<char>, pointer: Seq<char>, keys: Seq<Seq<char>>, i: int)
    requires
        0 <= i < keys.len(),
    ensures
        arguments_of(json, pointer, keys).len() == keys.len(),
        arguments_of(json, pointer, keys)[i].0 == keys[i],
        json_text_of(json, pointer + "/"@ + pointer_key_of(keys[i])) matches Some(text) ==> arguments_of(json, pointer, keys)[i].1 == text,
        json_text_of(json, pointer + "/"@ + pointer_key_of(keys[i])) is None ==> (json_compact_of(json, pointer + "/"@ + pointer_key_of(keys[i])) matches Some(text) ==> arguments_of(json, pointer, keys)[i].1 == text),
{
}

/// What is shown of a prompt: the query first; the tools and the answers only where there
/// are some, in this order, each under its own heading.
pub proof fn law_shown_sections(query: Seq<char>, calls: Seq<ToolCallView>, answers: Seq<char>)
    ensures
        sections_text(PromptSectionsView { user_query: query, tool_calls: Seq::empty(), assistant_responses: Seq::empty() }) == "## 用户输入\n\n"@ + query,
        calls.len() > 0 ==> sections_text(PromptSectionsView { user_query: query, tool_calls: calls, assistant_responses: Seq::empty() }) == "## 用户输入\n\n"@ + query + "\n\n## 相关工具使用\n"@ + tool_calls_text(calls),
        answers.len() > 0 ==> sections_text(PromptSectionsView { user_query: query, tool_calls: Seq::empty(), assistant_responses: answers }) == "## 用户输入\n\n"@ + query + "\n\n## 最终回复\n\n"@ + answers,
        calls.len() > 0 && answers.len() > 0 ==> sections_text(PromptSectionsView { user_query: query, tool_calls: calls, assistant_responses: answers }) == "## 用户输入\n\n"@ + query + "\n\n## 相关工具使用\n"@ + tool_calls_text(calls) + "\n\n## 最终回复\n\n"@ + answers,
{
}

/// The calls are shown one behind the other, and so are the arguments of each.
pub proof fn law_shown_calls(calls: Seq<ToolCallView>, arguments: Seq<(Seq<char>, Seq<char>)>)
    ensures
        tool_calls_text(calls) == calls.map_values(|c: ToolCallView| tool_call_text(c)).flatten(),
        arguments_text(arguments) == arguments.map_values(|a: (Seq<char>, Seq<char>)| "\n"@ + a.0 + ":\n"@ + "````\n"@ + a.1 + "\n````"@).flatten(),
    decreases calls.len() + arguments.len(),
{
    let one = |c: ToolCallView| tool_call_text(c);
    let arg = |a: (Seq<char>, Seq<char>)| "\n"@ + a.0 + ":\n"@ + "````\n"@ + a.1 + "\n````"@;
    if calls.len() > 0 {
        law_shown_calls(calls.drop_last(), arguments);
        let front = calls.drop_last().map_values(one);
        assert(calls.map_values(one) =~= front.push(one(calls.last())));
        front.lemma_flatten_push(one(calls.last()));
    } else {
        assert(calls.map_values(one) =~= seq![]);
        assert(calls.map_values(one).flatten() =~= Seq::empty());
    }
    if arguments.len() > 0 {
        law_shown_calls(calls, arguments.drop_last());
        let front = arguments.drop_last().map_values(arg);
        assert(arguments.map_values(arg) =~= front.push(arg(arguments.last())));
        front.lemma_flatten_push(arg(arguments.last()));
        let (key, value) = arguments.last();
        assert(arguments_text(arguments) =~= arguments_text(arguments.drop_last()) + arg(arguments.last()));
    } else {
        assert(arguments.map_values(arg) =~= seq![]);
        assert(arguments.map_values(arg).flatten() =~= Seq::empty());
    }
}

/// Lines stand in a block of code just where an odd number of fences stands before them.
pub proof fn law_blocks_of_code(lines: Seq<Seq<char>>)
    ensures
        in_block(lines) <==> lines.filter(|l: Seq<char>| is_fence(l)).len() % 2 == 1,
    decreases lines.len(),
{
    reveal(Seq::filter);
    if lines.len() > 0 {
        law_blocks_of_code(lines.drop_last());
    }
}

/// The widest cell is as wide as one of the cells, and none is wider.
pub proof fn law_widest_cell(cells: Seq<Seq<char>>)
    ensures
        forall|i: int| 0 <= i < cells.len() ==> (#[trigger] cells[i]).len() <= longest(cells),
        cells.len() > 0 ==> exists|i: int| 0 <= i < cells.len() && (#[trigger] cells[i]).len() == longest(cells),
    decreases cells.len(),
{
    if cells.len() > 0 {
        let front = cells.drop_last();
        law_widest_cell(front);
        assert forall|i: int| 0 <= i < cells.len() implies (#[trigger] cells[i]).len() <= longest(cells) by {
            if i < front.len() {
                assert(front[i].len() <= longest(front));
            }
        }
        if cells.last().len() > longest(front) || front.len() == 0 {
            assert(cells[cells.len() - 1].len() == longest(cells));
        } else {
            let i = choose|i: int| 0 <= i < front.len() && (#[trigger] front[i]).len() == longest(front);
            assert(cells[i].len() == longest(cells));
        }
    }
}

/// The cells of a row are what stands between its bars, without the blanks round them.
pub proof fn law_cells_of_a_row(first: Seq<char>, second: Seq<char>)
    requires
        !first.contains('|'),
        !second.contains('|'),
    ensures
        cells_of(seq!['|'] + first + seq!['|']) == seq![trimmed(first)],
        cells_of(seq!['|'] + first + seq!['|'] + second + seq!['|']) == seq![trimmed(first), trimmed(second)],
{
    let a = seq!['|'] + first + seq!['|'];
    assert(row_inner(a) =~= first);
    law_splitting(first, '|', second);
    assert(cells_of(a) =~= seq![trimmed(first)]);
    let b = seq!['|'] + first + seq!['|'] + second + seq!['|'];
    assert(row_inner(b) =~= first + seq!['|'] + second);
    law_splitting(second, '|', Seq::empty());
    assert(split_of(row_inner(b), '|') =~= seq![first, second]);
    assert(cells_of(b) =~= seq![trimmed(first), trimmed(second)]);
}

} // verus!
