//! What holds of the sessions of agents that are read for what they used.

use crate::commands::report_token_usage::{
    MAX_TOOL_RESULT_LEN, ToolUseView, plus, session_arg_of, tool_items_text, tool_use_text,
    tool_uses_json_of, total_of, truncated,
};
use crate::commands::report_token_usage::claude::{
    AssistantView, BlockView, ClaudeEventView, ClaudeLineView, SessionView, TurnView, Usage,
    answered, block_of, block_texts, blocks_of, claude_event_of, claude_line_of, claude_lines_of,
    component_at, cut_results, dirs_in, latest_of, project_dirs_of, project_named, project_of,
    result_content_of, result_for, session_id_of, session_with, tool_results_of, turn_built,
    turn_total, turns_closed, with_blocks, with_usage,
};
use crate::commands::report_token_usage::codex::{
    CodexEventView, CodexTokens, CodexView, bytes_lt, call_arguments_of, calls_in, codex_event_of,
    codex_events_of, codex_session_of, codex_turn_of, codex_with, counted, latest_session_of, said,
    sort_key_of,
};
use crate::commands::report_token_usage::opencode::{
    AccView, EntryView, PartView, acc_with, asked, call_of, calls_of, entries_of, is_message,
    is_part, message_of, model_column_of, names_of, part_of, part_texts, parts_for, text_of_parts,
    tokens_of, turns_asked, usage_of_accs,
};
use crate::json::{
    item_pointer_of, json_compact_of, json_i64_or_zero, json_kind_of, json_len_of, json_quoted_of,
    json_text_of, json_text_or_empty,
};
use crate::json_members::{alone, field_count, field_in, field_text, fields_of, null_or_missing};
use crate::paths::{components_of, file_name_of, joined, stem_of};
use crate::text::{decimal_of, find_of, has_prefix, join_of, prefix_within, split_of, trimmed};
use crate::text_laws::law_split_undoes_join;
use vstd::prelude::*;
use vstd::string::*;
use vstd::utf8::encode_utf8;

verus! {

// ------------------------------------------------------------------- lines of a session

/// A text of the user is a line of the user's whose content is a text; with it come the
/// time and where it came from.
pub proof fn law_user_lines(text: Seq<char>, s: Seq<char>)
    requires
        json_text_or_empty(text, "/type"@) == "user"@,
        json_text_or_empty(text, "/message/role"@) == "user"@,
    ensures
        json_text_of(text, "/message/content"@) == Some(s) ==> claude_event_of(text) == ClaudeEventView::UserText(json_text_or_empty(text, "/timestamp"@), s, json_text_or_empty(text, "/promptSource"@)),
        json_text_of(text, "/message/content"@) is None ==> (json_len_of(text, "/message/content"@) matches Some(n) ==> claude_event_of(text) == ClaudeEventView::Results(tool_results_of(text, "/message/content"@, n))),
        json_text_of(text, "/message/content"@) is None && json_len_of(text, "/message/content"@) is None ==> claude_event_of(text) is Nothing,
{
}

/// A message of the model is a line of the model's; what it used, its name, its model and
/// its blocks stand at their own places, and it ends the turn just where it says so.
pub proof fn law_model_lines(text: Seq<char>)
    requires
        json_text_or_empty(text, "/type"@) == "assistant"@,
        json_text_or_empty(text, "/message/role"@) == "assistant"@,
    ensures
        claude_event_of(text) matches ClaudeEventView::Assistant(m) && m.ts == json_text_or_empty(text, "/timestamp"@) && m.id == json_text_or_empty(text, "/message/id"@) && m.model == json_text_of(text, "/message/model"@) && m.end_turn == (json_text_or_empty(text, "/message/stop_reason"@) == "end_turn"@) && (json_len_of(text, "/message/content"@) matches Some(n) ==> m.blocks == blocks_of(text, "/message/content"@, n)) && (json_len_of(text, "/message/content"@) is None ==> m.blocks.len() == 0) && (json_kind_of(text, "/message/usage"@) is None ==> m.usage is None) && (json_kind_of(text, "/message/usage"@) is Some ==> m.usage == Some(Usage {
            input: json_i64_or_zero(text, "/message/usage/input_tokens"@),
            output: json_i64_or_zero(text, "/message/usage/output_tokens"@),
            cache_read: json_i64_or_zero(text, "/message/usage/cache_read_input_tokens"@),
            cache_creation: json_i64_or_zero(text, "/message/usage/cache_creation_input_tokens"@),
        })),
{
    reveal_strlit("user");
    reveal_strlit("assistant");
    assert("user"@.len() == 4);
    assert("assistant"@.len() == 9);
}

/// Any other line says nothing that counts.
pub proof fn law_other_lines(text: Seq<char>)
    requires
        !(json_text_or_empty(text, "/type"@) == "user"@ && json_text_or_empty(text, "/message/role"@) == "user"@),
        !(json_text_or_empty(text, "/type"@) == "assistant"@ && json_text_or_empty(text, "/message/role"@) == "assistant"@),
    ensures
        claude_event_of(text) is Nothing,
{
}

/// The results of tools are the items of their kind, in their order, each with the call
/// that it answers.
pub proof fn law_results_of_tools(text: Seq<char>, pointer: Seq<char>, n: nat)
    ensures
        tool_results_of(text, pointer, n) == Seq::new(n, |i: int| item_pointer_of(pointer, i as nat)).filter(|item: Seq<char>| json_text_or_empty(text, item + "/type"@) == "tool_result"@).map_values(|item: Seq<char>| (json_text_or_empty(text, item + "/tool_use_id"@), result_content_of(text, item))),
    decreases n,
{
    reveal(Seq::filter);
    let at = |i: int| item_pointer_of(pointer, i as nat);
    let pred = |item: Seq<char>| json_text_or_empty(text, item + "/type"@) == "tool_result"@;
    let of = |item: Seq<char>| (json_text_or_empty(text, item + "/tool_use_id"@), result_content_of(text, item));
    let all = Seq::new(n, at);
    if n == 0 {
        assert(all.filter(pred).map_values(of) =~= Seq::empty());
    } else {
        law_results_of_tools(text, pointer, (n - 1) as nat);
        let front = Seq::new((n - 1) as nat, at);
        assert(all.drop_last() =~= front);
        if pred(all.last()) {
            assert(all.filter(pred) == front.filter(pred).push(all.last()));
            assert(all.filter(pred).map_values(of) =~= front.filter(pred).map_values(of).push(of(all.last())));
        }
    }
}

/// The content of a result is its text, or the texts of its blocks, one a line.
pub proof fn law_content_of_results(text: Seq<char>, pointer: Seq<char>, n: nat)
    ensures
        json_text_of(text, pointer + "/content"@) matches Some(s) ==> result_content_of(text, pointer) == s,
        json_text_of(text, pointer + "/content"@) is None && json_len_of(text, pointer + "/content"@) == Some(n) ==> result_content_of(text, pointer) == join_of(Seq::new(n, |i: int| json_text_of(text, item_pointer_of(pointer + "/content"@, i as nat) + "/text"@)).filter(|s: Option<Seq<char>>| s is Some).map_values(|s: Option<Seq<char>>| s->0), "\n"@),
        json_text_of(text, pointer + "/content"@) is None && json_len_of(text, pointer + "/content"@) is None ==> result_content_of(text, pointer).len() == 0,
{
    reveal_strlit("");
    lemma_block_texts(text, pointer + "/content"@, n);
}

proof fn lemma_block_texts(text: Seq<char>, pointer: Seq<char>, n: nat)
    ensures
        block_texts(text, pointer, n) == Seq::new(n, |i: int| json_text_of(text, item_pointer_of(pointer, i as nat) + "/text"@)).filter(|s: Option<Seq<char>>| s is Some).map_values(|s: Option<Seq<char>>| s->0),
    decreases n,
{
    reveal(Seq::filter);
    let at = |i: int| json_text_of(text, item_pointer_of(pointer, i as nat) + "/text"@);
    let pred = |s: Option<Seq<char>>| s is Some;
    let of = |s: Option<Seq<char>>| s->0;
    let all = Seq::new(n, at);
    if n == 0 {
        assert(all.filter(pred).map_values(of) =~= Seq::empty());
    } else {
        lemma_block_texts(text, pointer, (n - 1) as nat);
        let front = Seq::new((n - 1) as nat, at);
        assert(all.drop_last() =~= front);
        if pred(all.last()) {
            assert(all.filter(pred) == front.filter(pred).push(all.last()));
            assert(all.filter(pred).map_values(of) =~= front.filter(pred).map_values(of).push(of(all.last())));
        }
    }
}

/// The blocks of a message are those of its items that are texts or calls, in their order.
pub proof fn law_blocks_of_a_message(text: Seq<char>, pointer: Seq<char>, n: nat)
    ensures
        blocks_of(text, pointer, n) == Seq::new(n, |i: int| block_of(text, item_pointer_of(pointer, i as nat))).filter(|b: Option<BlockView>| b is Some).map_values(|b: Option<BlockView>| b->0),
    decreases n,
{
    reveal(Seq::filter);
    let at = |i: int| block_of(text, item_pointer_of(pointer, i as nat));
    let pred = |b: Option<BlockView>| b is Some;
    let of = |b: Option<BlockView>| b->0;
    let all = Seq::new(n, at);
    if n == 0 {
        assert(all.filter(pred).map_values(of) =~= Seq::empty());
    } else {
        law_blocks_of_a_message(text, pointer, (n - 1) as nat);
        let front = Seq::new((n - 1) as nat, at);
        assert(all.drop_last() =~= front);
        if pred(all.last()) {
            assert(all.filter(pred) == front.filter(pred).push(all.last()));
            assert(all.filter(pred).map_values(of) =~= front.filter(pred).map_values(of).push(of(all.last())));
        }
    }
}

/// A block is a text, or a call with its name, its id and its input.
pub proof fn law_kinds_of_blocks(text: Seq<char>, item: Seq<char>)
    ensures
        json_text_or_empty(text, item + "/type"@) == "text"@ ==> (json_text_of(text, item + "/text"@) matches Some(s) ==> block_of(text, item) == Some(BlockView::Text(s))),
        json_text_or_empty(text, item + "/type"@) == "tool_use"@ ==> (json_compact_of(text, item + "/input"@) matches Some(input) ==> block_of(text, item) == Some(BlockView::Call(json_text_or_empty(text, item + "/name"@), json_text_or_empty(text, item + "/id"@), input))),
        json_text_or_empty(text, item + "/type"@) != "text"@ && json_text_or_empty(text, item + "/type"@) != "tool_use"@ ==> block_of(text, item) is None,
{
    reveal_strlit("text");
    reveal_strlit("tool_use");
    assert("text"@.len() == 4);
    assert("tool_use"@.len() == 8);
}

/// The lines of a session are those that read, in their order; blank lines do not count.
pub proof fn law_session_lines(lines: Seq<Seq<char>>)
    ensures
        claude_lines_of(lines) == lines.filter(|l: Seq<char>| trimmed(l).len() > 0 && claude_line_of(l) is Some).map_values(|l: Seq<char>| claude_line_of(l)->0),
    decreases lines.len(),
{
    reveal(Seq::filter);
    let pred = |l: Seq<char>| trimmed(l).len() > 0 && claude_line_of(l) is Some;
    let of = |l: Seq<char>| claude_line_of(l)->0;
    if lines.len() == 0 {
        assert(lines.filter(pred).map_values(of) =~= Seq::empty());
    } else {
        let front = lines.drop_last();
        law_session_lines(front);
        if pred(lines.last()) {
            assert(lines.filter(pred) == front.filter(pred).push(lines.last()));
            assert(lines.filter(pred).map_values(of) =~= front.filter(pred).map_values(of).push(of(lines.last())));
        }
    }
}

// ------------------------------------------------------------------------------ turns

/// What the user types starts a turn of its own; the one before it is closed. What goes on
/// from an earlier session, or was not typed, does not.
pub proof fn law_typing_starts_a_turn(s: SessionView, id: Option<Seq<char>>, ts: Seq<char>, text: Seq<char>, source: Seq<char>)
    ensures
        ({
            let line = ClaudeLineView { session_id: id, event: ClaudeEventView::UserText(ts, text, source) };
            let next = session_with(s, line);
            let named = SessionView { session_id: if s.session_id is Some { s.session_id } else { id }, ..s };
            &&& source == "typed"@ && !has_prefix(text, "This session is being continued"@) ==> next.turn.open && next.turn.user_ts == ts && next.turn.user_content == text && next.turn.assistant_texts.len() == 0 && next.turn.tool_uses.len() == 0 && next.turn.tool_results.len() == 0 && next.turn.usage == (Usage { input: 0, output: 0, cache_read: 0, cache_creation: 0 }) && next.turn.model is None && next.done == turns_closed(named)
            &&& source != "typed"@ || has_prefix(text, "This session is being continued"@) ==> next.turn == s.turn && next.done == s.done
            &&& next.session_id == named.session_id
        }),
{
}

/// A turn that was opened counts where it used something or was answered; no other does.
pub proof fn law_turns_that_count(s: SessionView)
    ensures
        s.turn.open && turn_total(s.turn) > 0 ==> turns_closed(s) == s.done.push(turn_built(s.turn, s.session_id, s.project)),
        s.turn.open && s.turn.assistant_texts.len() > 0 ==> turns_closed(s) == s.done.push(turn_built(s.turn, s.session_id, s.project)),
        !s.turn.open ==> turns_closed(s) == s.done,
        turn_total(s.turn) <= 0 && s.turn.assistant_texts.len() == 0 ==> turns_closed(s) == s.done,
{
}

/// What is told of a turn: each field is that of the turn, the answers stand under one
/// another, and what is not known is said to be so.
pub proof fn law_built_turns(t: TurnView, id: Seq<char>, project: Option<Seq<char>>)
    ensures
        turn_built(t, Some(id), project).session_id == id,
        turn_built(t, None, project).session_id == "unknown"@,
        t.model matches Some(m) ==> turn_built(t, Some(id), project).model == m,
        t.model is None ==> turn_built(t, Some(id), project).model == "unknown"@,
        turn_built(t, Some(id), project).user_content == t.user_content,
        turn_built(t, Some(id), project).user_timestamp == t.user_ts,
        turn_built(t, Some(id), project).assistant_timestamp == t.assistant_ts,
        turn_built(t, Some(id), project).assistant_text == join_of(t.assistant_texts, "\n\n"@),
        turn_built(t, Some(id), project).input == t.usage.input,
        turn_built(t, Some(id), project).output == t.usage.output,
        turn_built(t, Some(id), project).cache_read == t.usage.cache_read,
        turn_built(t, Some(id), project).cache_creation == t.usage.cache_creation,
        turn_built(t, Some(id), project).total == total_of(t.usage.input, t.usage.output, t.usage.cache_read, t.usage.cache_creation),
        turn_built(t, Some(id), project).project_name == project,
{
}

/// A message's calls and, where it ends the turn, its texts stand behind those before
/// them, in their order; nothing else of the turn changes.
pub proof fn law_blocks_are_added(t: TurnView, blocks: Seq<BlockView>, end_turn: bool, ts: Seq<char>, name: Seq<char>, id: Seq<char>, arguments: Seq<char>, s: Seq<char>)
    ensures
        with_blocks(t, Seq::empty(), end_turn, ts) == t,
        with_blocks(t, blocks.push(BlockView::Call(name, id, arguments)), end_turn, ts).tool_uses == with_blocks(t, blocks, end_turn, ts).tool_uses.push(ToolUseView { name, id, arguments, result: None }),
        with_blocks(t, blocks.push(BlockView::Call(name, id, arguments)), end_turn, ts).assistant_texts == with_blocks(t, blocks, end_turn, ts).assistant_texts,
        with_blocks(t, blocks.push(BlockView::Text(s)), true, ts).assistant_texts == with_blocks(t, blocks, true, ts).assistant_texts.push(s),
        with_blocks(t, blocks.push(BlockView::Text(s)), true, ts).assistant_ts == ts,
        with_blocks(t, blocks.push(BlockView::Text(s)), false, ts) == with_blocks(t, blocks, false, ts),
        with_blocks(t, blocks.push(BlockView::Text(s)), end_turn, ts).tool_uses == with_blocks(t, blocks, end_turn, ts).tool_uses,
{
    assert(blocks.push(BlockView::Call(name, id, arguments)).drop_last() =~= blocks);
    assert(blocks.push(BlockView::Text(s)).drop_last() =~= blocks);
}

/// A new message adds its output to the turn's and replaces the rest of the use; the model
/// is that of the first message that names one.
pub proof fn law_messages_add_up(t: TurnView, m: AssistantView, u: Usage)
    requires
        m.id.len() > 0,
        !t.seen.contains(m.id),
        m.usage == Some(u),
    ensures
        with_usage(t, m).usage.output == plus(t.usage.output, u.output),
        with_usage(t, m).usage.input == u.input,
        with_usage(t, m).usage.cache_read == u.cache_read,
        with_usage(t, m).usage.cache_creation == u.cache_creation,
        t.model is Some ==> with_usage(t, m).model == t.model,
        t.model is None ==> with_usage(t, m).model == m.model,
        with_usage(t, m).seen.contains(m.id),
{
    let seen = with_usage(t, m).seen;
    assert(seen[seen.len() - 1] == m.id);
}

/// A call's result is the first one that names it.
pub proof fn law_result_of_a_call(results: Seq<(Seq<char>, Seq<char>)>, id: Seq<char>, i: int)
    ensures
        0 <= i < results.len() && results[i].0 == id && (forall|j: int| 0 <= j < i ==> (#[trigger] results[j]).0 != id) ==> result_for(results, id) == Some(results[i].1),
        (forall|j: int| 0 <= j < results.len() ==> (#[trigger] results[j]).0 != id) ==> result_for(results, id) is None,
    decreases results.len(),
{
    if results.len() > 0 {
        let rest = results.drop_first();
        law_result_of_a_call(rest, id, i - 1);
        assert(forall|j: int| 0 <= j < rest.len() ==> #[trigger] rest[j] == results[j + 1]);
        assert(forall|j: int| 1 <= j < results.len() ==> #[trigger] results[j] == rest[j - 1]);
    }
}

/// Each call keeps its name and its arguments and gets its own result; the results that
/// are kept are cut to what is shown of them.
pub proof fn law_answered_calls(uses: Seq<ToolUseView>, results: Seq<(Seq<char>, Seq<char>)>, i: int)
    ensures
        answered(uses, results).len() == uses.len(),
        0 <= i < uses.len() ==> answered(uses, results)[i].name == uses[i].name && answered(uses, results)[i].id == uses[i].id && answered(uses, results)[i].arguments == uses[i].arguments && answered(uses, results)[i].result == result_for(results, uses[i].id),
        cut_results(results).len() == results.len(),
        0 <= i < results.len() ==> cut_results(results)[i].0 == results[i].0,
{
}

// -------------------------------------------------------------------- what is reported

/// A text that is too long is cut, and marked as cut; any other stays as it is.
pub proof fn law_truncated_texts(s: Seq<char>, max: nat)
    ensures
        s.len() <= max ==> truncated(s, max) == s,
        s.len() > max ==> truncated(s, max) == s.take(max as int) + "...(truncated)"@,
{
}

/// The calls of tools are written as a list, each with its number from 1 on and, where
/// that is asked for, with its result; without calls nothing is written.
pub proof fn law_written_calls(uses: Seq<ToolUseView>, u: ToolUseView, with_result: bool)
    ensures
        tool_uses_json_of(Seq::empty(), with_result) is None,
        tool_uses_json_of(seq![u], with_result) == Some("["@ + tool_use_text(u, 1, with_result) + "]"@),
        uses.len() > 0 ==> tool_items_text(uses.push(u), with_result) == tool_items_text(uses, with_result) + ","@ + tool_use_text(u, uses.len() + 1, with_result),
        tool_use_text(u, 1, false) == "{\"arguments\":"@ + u.arguments + ",\"id\":"@ + json_quoted_of(u.id) + ",\"name\":"@ + json_quoted_of(u.name) + ",\"order\":"@ + decimal_of(1) + "}"@,
        tool_use_text(u, 1, true) == "{\"arguments\":"@ + u.arguments + ",\"id\":"@ + json_quoted_of(u.id) + ",\"name\":"@ + json_quoted_of(u.name) + ",\"order\":"@ + decimal_of(1) + ",\"result\":"@ + (match u.result {
            Some(t) => json_quoted_of(t),
            None => "null"@,
        }) + "}"@,
{
    assert(uses.push(u).drop_last() =~= uses);
    assert(seq![u].last() == u);
}

/// The session that is asked for stands behind its option, in either form; a blank value is
/// passed over.
pub proof fn law_session_option(id: Seq<char>, rest: Seq<Seq<char>>, other: Seq<char>)
    ensures
        session_arg_of(Seq::empty(), 0) is None,
        trimmed(id).len() > 0 ==> session_arg_of(seq!["--session-id"@, id] + rest, 0) == Some(id),
        trimmed(id).len() > 0 ==> session_arg_of(seq!["--session-id="@ + id] + rest, 0) == Some(id),
        other != "--session-id"@ && !has_prefix(other, "--session-id="@) ==> session_arg_of(seq![other], 0) is None,
        trimmed(id).len() == 0 ==> session_arg_of(seq!["--session-id"@, id], 0) is None,
{
    reveal_with_fuel(session_arg_of, 3);
    reveal_strlit("--session-id");
    reveal_strlit("--session-id=");
    assert("--session-id"@.len() == 12 && "--session-id="@.len() == 13);
    let a = seq!["--session-id"@, id] + rest;
    assert(a[0] == "--session-id"@ && a[1] == id);
    let b = seq!["--session-id="@ + id] + rest;
    assert(b[0] == "--session-id="@ + id);
    assert(("--session-id="@ + id).take(13) =~= "--session-id="@);
    assert(("--session-id="@ + id).skip(13) =~= id);
    let c = seq![other];
    assert(c[0] == other);
    let d = seq!["--session-id"@, id];
    assert(d[0] == "--session-id"@ && d[1] == id);
}

// ------------------------------------------------------------------------------ paths

/// The place of a name among components is its first one.
pub proof fn law_component_at(parts: Seq<Seq<char>>, name: Seq<char>, from: int, i: int)
    requires
        0 <= from,
    ensures
        from <= i < parts.len() && parts[i] == name && (forall|j: int| from <= j < i ==> #[trigger] parts[j] != name) ==> component_at(parts, name, from) == i,
        (forall|j: int| from <= j < parts.len() ==> #[trigger] parts[j] != name) ==> component_at(parts, name, from) == parts.len(),
    decreases parts.len() - from,
{
    if from < parts.len() && parts[from] != name {
        law_component_at(parts, name, from + 1, i);
    }
}

/// The project of a session is named by the directory behind the first one for projects.
pub proof fn law_project_of_a_path(path: Seq<char>, i: int)
    ensures
        0 <= i < components_of(path).len() - 1 && components_of(path)[i] == "projects"@ && (forall|j: int| 0 <= j < i ==> #[trigger] components_of(path)[j] != "projects"@) ==> project_of(path) == Some(project_named(components_of(path)[i + 1])),
        (forall|j: int| 0 <= j < components_of(path).len() ==> #[trigger] components_of(path)[j] != "projects"@) ==> project_of(path) is None,
{
    law_component_at(components_of(path), "projects"@, 0, i);
}

/// A project's directory is named by its path with dashes for slashes; of one in a home
/// directory, what stands behind the person's name is its name, with slashes.
pub proof fn law_project_names(person: Seq<char>, parts: Seq<Seq<char>>, raw: Seq<char>)
    requires
        !person.contains('-'),
        parts.len() > 0,
        forall|i: int| 0 <= i < parts.len() ==> !(#[trigger] parts[i]).contains('-'),
    ensures
        project_named("-Users-"@ + join_of(seq![person] + parts, seq!['-'])) == join_of(parts, "/"@),
        !has_prefix(raw, "-Users-"@) ==> project_named(raw) == raw,
{
    let all = seq![person] + parts;
    let rest = join_of(all, seq!['-']);
    let home = "-Users-"@;
    assert((home + rest).take(home.len() as int) =~= home);
    assert((home + rest).skip(home.len() as int) =~= rest);
    assert forall|i: int| 0 <= i < all.len() implies !(#[trigger] all[i]).contains('-') by {
        if i > 0 {
            assert(all[i] == parts[i - 1]);
        }
    }
    law_split_undoes_join(all, '-');
    assert(all.drop_first() =~= parts);
}

/// The session of a file is named by the file, or, for an agent that another one runs, by
/// the directory before its own.
pub proof fn law_session_of_a_path(path: Seq<char>, i: int)
    ensures
        1 <= i < components_of(path).len() && components_of(path)[i] == "subagents"@ && (forall|j: int| 1 <= j < i ==> #[trigger] components_of(path)[j] != "subagents"@) ==> session_id_of(path) == Some(components_of(path)[i - 1]),
        (forall|j: int| 1 <= j < components_of(path).len() ==> #[trigger] components_of(path)[j] != "subagents"@) ==> (file_name_of(path) matches Some(name) ==> session_id_of(path) == Some(stem_of(name))),
        (forall|j: int| 1 <= j < components_of(path).len() ==> #[trigger] components_of(path)[j] != "subagents"@) && file_name_of(path) is None && components_of(path).len() > 0 ==> session_id_of(path) is None,
{
    law_component_at(components_of(path), "subagents"@, 1, i);
}

/// Sessions are looked for in the agent's two directories of the home directory, then in
/// those that are configured, in their order; names that are blank do not count.
pub proof fn law_project_directories(home: Seq<char>, agent: Seq<char>, list: Seq<char>)
    ensures
        project_dirs_of(home, agent, None) == seq![joined(joined(home, "."@ + agent), "projects"@), joined(joined(joined(home, ".config"@), agent), "projects"@)],
        project_dirs_of(home, agent, Some(list)) == project_dirs_of(home, agent, None) + split_of(list, ',').map_values(|n: Seq<char>| trimmed(n)).filter(|n: Seq<char>| n.len() > 0).map_values(|n: Seq<char>| joined(n, "projects"@)),
{
    lemma_dirs_in(split_of(list, ','));
}

proof fn lemma_dirs_in(names: Seq<Seq<char>>)
    ensures
        dirs_in(names) == names.map_values(|n: Seq<char>| trimmed(n)).filter(|n: Seq<char>| n.len() > 0).map_values(|n: Seq<char>| joined(n, "projects"@)),
    decreases names.len(),
{
    reveal(Seq::filter);
    let cut = |n: Seq<char>| trimmed(n);
    let pred = |n: Seq<char>| n.len() > 0;
    let of = |n: Seq<char>| joined(n, "projects"@);
    let all = names.map_values(cut);
    if names.len() == 0 {
        assert(all =~= Seq::empty());
        assert(all.filter(pred).map_values(of) =~= Seq::empty());
    } else {
        let front = names.drop_last();
        lemma_dirs_in(front);
        assert(all.drop_last() =~= front.map_values(cut));
        if pred(all.last()) {
            assert(all.filter(pred) == front.map_values(cut).filter(pred).push(all.last()));
            assert(all.filter(pred).map_values(of) =~= front.map_values(cut).filter(pred).map_values(of).push(of(all.last())));
        }
    }
}

/// Of files that were changed at the same time the last one is taken.
pub proof fn law_last_of_the_latest(times: Seq<i64>, i: int)
    requires
        times.len() > 0,
        latest_of(times)->0 < i < times.len(),
    ensures
        times[i] < times[latest_of(times)->0],
    decreases times.len(),
{
    let front = times.drop_last();
    lemma_latest_within(times);
    if front.len() > 0 {
        lemma_latest_within(front);
        let k = latest_of(front)->0;
        if latest_of(times) == latest_of(front) {
            if i < front.len() {
                law_last_of_the_latest(front, i);
                assert(front[i] == times[i]);
            }
            assert(front[k] == times[k]);
        }
    }
}

proof fn lemma_latest_within(times: Seq<i64>)
    requires
        times.len() > 0,
    ensures
        latest_of(times) is Some,
        0 <= latest_of(times)->0 < times.len(),
    decreases times.len(),
{
    if times.len() > 1 {
        lemma_latest_within(times.drop_last());
    } else {
        assert(latest_of(times.drop_last()) is None);
    }
}

// ----------------------------------------------------------------------------- events

/// Each message of an event stands for its own event, with its fields.
pub proof fn law_event_messages(text: Seq<char>)
    requires
        json_text_or_empty(text, "/type"@) == "event_msg"@,
    ensures
        json_text_or_empty(text, "/payload/type"@) == "task_started"@ ==> (json_text_of(text, "/payload/turn_id"@) matches Some(id) ==> codex_event_of(text) == CodexEventView::Started(id)),
        json_text_or_empty(text, "/payload/type"@) == "task_started"@ && json_text_of(text, "/payload/turn_id"@) is None ==> codex_event_of(text) is Nothing,
        json_text_or_empty(text, "/payload/type"@) == "user_message"@ ==> codex_event_of(text) == CodexEventView::User(json_text_or_empty(text, "/payload/turn_id"@), json_text_or_empty(text, "/payload/message"@)),
        json_text_or_empty(text, "/payload/type"@) == "agent_message"@ ==> codex_event_of(text) == CodexEventView::Agent(json_text_or_empty(text, "/payload/turn_id"@), json_text_or_empty(text, "/payload/phase"@), json_text_or_empty(text, "/payload/message"@)),
        json_text_or_empty(text, "/payload/type"@) == "token_count"@ && json_kind_of(text, "/payload/info/last_token_usage"@) is Some ==> codex_event_of(text) == CodexEventView::Tokens(CodexTokens {
            input: json_i64_or_zero(text, "/payload/info/last_token_usage/input_tokens"@),
            output: json_i64_or_zero(text, "/payload/info/last_token_usage/output_tokens"@),
            cached: json_i64_or_zero(text, "/payload/info/last_token_usage/cached_input_tokens"@),
            total: json_i64_or_zero(text, "/payload/info/last_token_usage/total_tokens"@),
        }),
        json_text_or_empty(text, "/payload/type"@) == "turn_aborted"@ ==> codex_event_of(text) == CodexEventView::Aborted(json_text_or_empty(text, "/payload/turn_id"@)),
        json_text_or_empty(text, "/payload/type"@) != "task_started"@ && json_text_or_empty(text, "/payload/type"@) != "user_message"@ && json_text_or_empty(text, "/payload/type"@) != "agent_message"@ && json_text_or_empty(text, "/payload/type"@) != "token_count"@ && json_text_or_empty(text, "/payload/type"@) != "turn_aborted"@ ==> codex_event_of(text) is Nothing,
{
    reveal_strlit("task_started");
    reveal_strlit("user_message");
    reveal_strlit("agent_message");
    reveal_strlit("token_count");
    reveal_strlit("turn_aborted");
    assert("task_started"@.len() == 12);
    assert("user_message"@.len() == 12);
    assert("agent_message"@.len() == 13);
    assert("token_count"@.len() == 11);
    assert("turn_aborted"@.len() == 12);
    assert("task_started"@[0] == 't');
    assert("task_started"@[1] == 'a');
    assert("user_message"@[0] == 'u');
    assert("turn_aborted"@[0] == 't');
    assert("turn_aborted"@[1] == 'u');
}

/// The context of a turn names its model, and the call of a tool is an item of that kind;
/// nothing else but messages counts.
pub proof fn law_other_events(text: Seq<char>)
    ensures
        json_text_or_empty(text, "/type"@) == "turn_context"@ ==> codex_event_of(text) == CodexEventView::Context(json_text_or_empty(text, "/payload/turn_id"@), json_text_or_empty(text, "/payload/model"@)),
        json_text_or_empty(text, "/type"@) == "response_item"@ && json_text_or_empty(text, "/payload/type"@) == "function_call"@ ==> codex_event_of(text) == CodexEventView::Call(json_text_or_empty(text, "/payload/name"@), json_text_or_empty(text, "/payload/call_id"@), call_arguments_of(text)),
        json_text_or_empty(text, "/type"@) == "response_item"@ && json_text_or_empty(text, "/payload/type"@) != "function_call"@ ==> codex_event_of(text) is Nothing,
        json_text_or_empty(text, "/type"@) != "event_msg"@ && json_text_or_empty(text, "/type"@) != "turn_context"@ && json_text_or_empty(text, "/type"@) != "response_item"@ ==> codex_event_of(text) is Nothing,
{
    reveal_strlit("event_msg");
    reveal_strlit("turn_context");
    reveal_strlit("response_item");
    assert("event_msg"@.len() == 9);
    assert("turn_context"@.len() == 12);
    assert("response_item"@.len() == 13);
}

/// The arguments of a call are its JSON brought into the short form; what does not read is
/// taken for an empty object.
pub proof fn law_arguments_of_a_call(text: Seq<char>)
    ensures
        json_text_of(text, "/payload/arguments"@) matches Some(raw) ==> (json_compact_of(raw, ""@) matches Some(s) ==> call_arguments_of(text) == s),
        json_text_of(text, "/payload/arguments"@) matches Some(raw) ==> (json_compact_of(raw, ""@) is None ==> call_arguments_of(text) == "{}"@),
{
}

/// All lines that are not blank are events, in their order.
pub proof fn law_event_lines(lines: Seq<Seq<char>>)
    ensures
        codex_events_of(lines) == lines.filter(|l: Seq<char>| trimmed(l).len() > 0).map_values(|l: Seq<char>| codex_event_of(l)),
    decreases lines.len(),
{
    reveal(Seq::filter);
    let pred = |l: Seq<char>| trimmed(l).len() > 0;
    let of = |l: Seq<char>| codex_event_of(l);
    if lines.len() == 0 {
        assert(lines.filter(pred).map_values(of) =~= Seq::empty());
    } else {
        let front = lines.drop_last();
        law_event_lines(front);
        if pred(lines.last()) {
            assert(lines.filter(pred) == front.filter(pred).push(lines.last()));
            assert(lines.filter(pred).map_values(of) =~= front.filter(pred).map_values(of).push(of(lines.last())));
        }
    }
}

/// What is said in a turn is kept under its name: the user's message unless it comes from
/// the editor, and the agent's where it is the final answer.
pub proof fn law_said_in_a_turn(s: CodexView, id: Seq<char>, phase: Seq<char>, message: Seq<char>)
    ensures
        id.len() > 0 && message.len() > 0 && !has_prefix(message, "# Context from my IDE setup"@) ==> codex_with(s, CodexEventView::User(id, message)) == (CodexView { user: s.user.insert(id, message), ..s }),
        id.len() == 0 || message.len() == 0 || has_prefix(message, "# Context from my IDE setup"@) ==> codex_with(s, CodexEventView::User(id, message)) == s,
        id.len() > 0 && message.len() > 0 && phase == "final_answer"@ ==> codex_with(s, CodexEventView::Agent(id, phase, message)) == (CodexView { assistant: s.assistant.insert(id, message), ..s }),
        id.len() == 0 || message.len() == 0 || phase != "final_answer"@ ==> codex_with(s, CodexEventView::Agent(id, phase, message)) == s,
{
}

/// Counts and calls belong to the latest turn; without one they are lost. A later count
/// replaces an earlier one, and a later call stands behind it.
pub proof fn law_counts_belong_to_the_latest_turn(s: CodexView, t: CodexTokens, turn: Seq<char>, name: Seq<char>, id: Seq<char>, arguments: Seq<char>)
    ensures
        s.latest == Some(turn) ==> counted(codex_with(s, CodexEventView::Tokens(t)), turn) == t,
        s.latest == Some(turn) ==> calls_in(codex_with(s, CodexEventView::Call(name, id, arguments)), turn) == calls_in(s, turn).push(ToolUseView { name, id, arguments, result: None }),
        s.latest is None ==> codex_with(s, CodexEventView::Tokens(t)) == s && codex_with(s, CodexEventView::Call(name, id, arguments)) == s,
        s.latest != Some(turn) ==> counted(codex_with(s, CodexEventView::Tokens(t)), turn) == counted(s, turn),
        s.latest != Some(turn) ==> calls_in(codex_with(s, CodexEventView::Call(name, id, arguments)), turn) == calls_in(s, turn),
{
}

/// A turn that is named for the first time, or in which the user has said nothing yet,
/// becomes the latest; the model that is named for it is kept under its name.
pub proof fn law_named_turns(s: CodexView, id: Seq<char>, model: Seq<char>)
    ensures
        codex_with(s, CodexEventView::Started(id)).order.contains(id),
        !s.order.contains(id) ==> codex_with(s, CodexEventView::Started(id)).order == s.order.push(id),
        s.order.contains(id) ==> codex_with(s, CodexEventView::Started(id)).order == s.order,
        !s.order.contains(id) || !s.user.dom().contains(id) ==> codex_with(s, CodexEventView::Started(id)).latest == Some(id),
        s.order.contains(id) && s.user.dom().contains(id) ==> codex_with(s, CodexEventView::Started(id)).latest == s.latest,
        id.len() > 0 && model.len() > 0 ==> codex_with(s, CodexEventView::Context(id, model)).models == s.models.insert(id, model) && codex_with(s, CodexEventView::Context(id, model)).order.contains(id),
        id.len() == 0 ==> codex_with(s, CodexEventView::Context(id, model)) == s,
{
    let order = codex_with(s, CodexEventView::Started(id)).order;
    if !s.order.contains(id) {
        assert(order[order.len() - 1] == id);
    }
    let named = codex_with(s, CodexEventView::Context(id, model)).order;
    if id.len() > 0 && !s.order.contains(id) {
        assert(named[named.len() - 1] == id);
    }
}

/// What is told of a turn: what was said in it, its model or that it is not known, and its
/// counts, with the cache taken off the input.
pub proof fn law_told_turns(s: CodexView, id: Seq<char>)
    ensures
        s.aborted.contains(id) ==> codex_turn_of(s, id) is None,
        !s.aborted.contains(id) && (said(s.user, id).len() > 0 || counted(s, id).total != 0) ==> codex_turn_of(s, id) is Some,
        said(s.user, id).len() == 0 && counted(s, id).total == 0 ==> codex_turn_of(s, id) is None,
        codex_turn_of(s, id) matches Some(t) ==> t.user_content == said(s.user, id) && t.assistant_text == said(s.assistant, id) && t.output == counted(s, id).output && t.cache_read == counted(s, id).cached && t.cache_creation == 0 && t.total == counted(s, id).total && t.tool_uses_json == tool_uses_json_of(calls_in(s, id), false),
        codex_turn_of(s, id) matches Some(t) ==> (s.models.dom().contains(id) ==> t.model == s.models[id]) && (!s.models.dom().contains(id) ==> t.model == "unknown"@),
        codex_turn_of(s, id) matches Some(t) ==> (i64::MIN <= counted(s, id).input - counted(s, id).cached <= i64::MAX ==> t.input == counted(s, id).input - counted(s, id).cached),
        s.user.dom().contains(id) ==> said(s.user, id) == s.user[id],
        !s.user.dom().contains(id) ==> said(s.user, id).len() == 0,
{
    reveal_strlit("");
}

/// Bytes are ordered as words in a dictionary: by the first place at which they differ,
/// and the shorter before the longer.
pub proof fn law_order_of_bytes(a: Seq<u8>, b: Seq<u8>, i: int)
    ensures
        0 <= i < a.len() && i < b.len() && a[i] < b[i] && (forall|j: int| 0 <= j < i ==> #[trigger] a[j] == b[j]) ==> bytes_lt(a, b) && !bytes_lt(b, a),
        a.len() < b.len() && a == b.take(a.len() as int) ==> bytes_lt(a, b),
        !bytes_lt(a, a),
    decreases a.len(),
{
    if a.len() > 0 {
        let ra = a.drop_first();
        law_order_of_bytes(ra, ra, 0);
        if b.len() > 0 {
            let rb = b.drop_first();
            law_order_of_bytes(ra, rb, i - 1);
            if 0 < i < a.len() && i < b.len() && a[i] < b[i] && (forall|j: int| 0 <= j < i ==> #[trigger] a[j] == b[j]) {
                assert(a[0] == b[0]);
                assert forall|j: int| 0 <= j < i - 1 implies #[trigger] ra[j] == rb[j] by {
                    assert(a[j + 1] == b[j + 1]);
                }
            }
            if a.len() < b.len() && a == b.take(a.len() as int) {
                assert(b.take(a.len() as int)[0] == b[0]);
                assert(ra =~= rb.take(ra.len() as int)) by {
                    assert forall|j: int| 0 <= j < ra.len() implies ra[j] == rb[j] by {
                        assert(b.take(a.len() as int)[j + 1] == b[j + 1]);
                    }
                }
            }
        }
    }
}

/// The latest session is one with a time in its name, and none has a later time; of two of
/// the same time the first is taken.
pub proof fn law_latest_session(stems: Seq<Seq<char>>, i: int)
    ensures
        latest_session_of(stems) matches Some(k) ==> 0 <= k < stems.len() && sort_key_of(stems[k]) is Some,
        0 <= i < stems.len() && sort_key_of(stems[i]) is Some ==> latest_session_of(stems) is Some && !bytes_lt(sort_key_of(stems[latest_session_of(stems)->0])->0, sort_key_of(stems[i])->0),
    decreases stems.len(),
{
    if stems.len() > 0 {
        let front = stems.drop_last();
        law_latest_session(front, i);
        if let Some(k) = latest_session_of(front) {
            assert(front[k] == stems[k]);
            if let Some(key) = sort_key_of(stems.last()) {
                law_order_of_bytes(key, key, 0);
                if 0 <= i < front.len() && sort_key_of(stems[i]) is Some && bytes_lt(sort_key_of(stems[k])->0, key) {
                    assert(front[i] == stems[i]);
                    if bytes_lt(key, sort_key_of(stems[i])->0) {
                        lemma_bytes_lt_transitive(sort_key_of(stems[k])->0, key, sort_key_of(stems[i])->0);
                    }
                }
            }
        } else if let Some(key) = sort_key_of(stems.last()) {
            law_order_of_bytes(key, key, 0);
        }
        if 0 <= i < front.len() {
            assert(front[i] == stems[i]);
        }
    }
}

proof fn lemma_bytes_lt_transitive(a: Seq<u8>, b: Seq<u8>, c: Seq<u8>)
    requires
        bytes_lt(a, b),
        bytes_lt(b, c),
    ensures
        bytes_lt(a, c),
    decreases a.len(),
{
    if a.len() > 0 && b.len() > 0 && c.len() > 0 && a[0] == b[0] && b[0] == c[0] {
        lemma_bytes_lt_transitive(a.drop_first(), b.drop_first(), c.drop_first());
    }
}

/// The name of a session is what stands from the first mark of its kind on, as far as a
/// name reaches; a name without one stays as it is.
pub proof fn law_session_names(stem: Seq<char>)
    ensures
        find_of(stem, "-019"@) is None ==> codex_session_of(stem) == stem,
        find_of(stem, "-019"@) matches Some(i) ==> codex_session_of(stem) == (if encode_utf8(stem.skip(i + 1)).len() >= 36 {
            prefix_within(stem.skip(i + 1), 36)
        } else {
            stem
        }),
{
}

// --------------------------------------------------------------- messages and parts

/// What a message says: its role, the message that it answers, its model and what it used,
/// each from the field of its own name.
pub proof fn law_message_fields(text: Seq<char>)
    requires
        is_message(text),
    ensures
        message_of(text) matches Some(m) && m.role == field_text(field_in(fields_of(text), "role"@, 0)) && m.parent_id == field_text(field_in(fields_of(text), "parentID"@, 1)) && m.model_id == field_text(field_in(fields_of(text), "modelID"@, 2)) && (null_or_missing(field_in(fields_of(text), "tokens"@, 3)) ==> m.tokens is None) && (!null_or_missing(field_in(fields_of(text), "tokens"@, 3)) ==> m.tokens is Some),
{
}

/// What a message used: the input, the output and the reasoning, and of the cache what was
/// read and written, each from the field of its own name.
pub proof fn law_token_fields(text: Seq<char>)
    ensures
        tokens_of(text).input == field_count(field_in(fields_of(text), "input"@, 0)),
        tokens_of(text).output == field_count(field_in(fields_of(text), "output"@, 1)),
        tokens_of(text).reasoning == field_count(field_in(fields_of(text), "reasoning"@, 2)),
        null_or_missing(field_in(fields_of(text), "cache"@, 3)) ==> tokens_of(text).cache_read == 0 && tokens_of(text).cache_write == 0,
        !null_or_missing(field_in(fields_of(text), "cache"@, 3)) ==> tokens_of(text).cache_read == field_count(field_in(fields_of(field_in(fields_of(text), "cache"@, 3)->0), "read"@, 0)) && tokens_of(text).cache_write == field_count(field_in(fields_of(field_in(fields_of(text), "cache"@, 3)->0), "write"@, 1)),
{
}

/// What a part says: its type, its text, and of a call its id, its tool and, from its
/// state, its input and output.
pub proof fn law_part_fields(text: Seq<char>)
    requires
        is_part(text),
    ensures
        part_of(text) matches Some(p) && p.part_type == field_text(field_in(fields_of(text), "type"@, 0)) && p.text == field_text(field_in(fields_of(text), "text"@, 1)) && p.call_id == field_text(field_in(fields_of(text), "callID"@, 2)) && p.tool == field_text(field_in(fields_of(text), "tool"@, 3)) && (field_in(fields_of(text), "state"@, 4) is None ==> p.output is None && p.arguments == "null"@) && (field_in(fields_of(text), "state"@, 4) matches Some(state) ==> p.output == json_text_of(alone(state), "/0/output"@) && (json_compact_of(alone(state), "/0/input"@) matches Some(input) ==> p.arguments == input)),
{
}

/// What does not read as a message or a part is left out.
pub proof fn law_unreadable_messages(text: Seq<char>)
    ensures
        !is_message(text) ==> message_of(text) is None,
        !is_part(text) ==> part_of(text) is None,
{
}

/// The text of a message is that of its text parts, one a line, without the empty ones.
pub proof fn law_text_of_a_message(parts: Seq<PartView>)
    ensures
        text_of_parts(parts) == join_of(parts.filter(|p: PartView| p.part_type == Some("text"@) && p.text is Some && p.text->0.len() > 0).map_values(|p: PartView| p.text->0), "\n"@),
{
    lemma_part_texts(parts);
}

proof fn lemma_part_texts(parts: Seq<PartView>)
    ensures
        part_texts(parts) == parts.filter(|p: PartView| p.part_type == Some("text"@) && p.text is Some && p.text->0.len() > 0).map_values(|p: PartView| p.text->0),
    decreases parts.len(),
{
    reveal(Seq::filter);
    let pred = |p: PartView| p.part_type == Some("text"@) && p.text is Some && p.text->0.len() > 0;
    let of = |p: PartView| p.text->0;
    if parts.len() == 0 {
        assert(parts.filter(pred).map_values(of) =~= Seq::empty());
    } else {
        let front = parts.drop_last();
        lemma_part_texts(front);
        if pred(parts.last()) {
            assert(parts.filter(pred) == front.filter(pred).push(parts.last()));
            assert(parts.filter(pred).map_values(of) =~= front.filter(pred).map_values(of).push(of(parts.last())));
        }
    }
}

/// The calls of a message are its tool parts, in their order, each with its tool, its id,
/// its arguments and, where there is one, its result.
pub proof fn law_calls_of_a_message(parts: Seq<PartView>, p: PartView)
    ensures
        calls_of(parts) == parts.filter(|p: PartView| p.part_type == Some("tool"@)).map_values(|p: PartView| call_of(p)),
        p.tool matches Some(tool) ==> call_of(p).name == tool,
        p.call_id matches Some(id) ==> call_of(p).id == id,
        call_of(p).arguments == p.arguments,
        p.output is None ==> call_of(p).result is None,
        p.output matches Some(s) ==> (s.len() <= MAX_TOOL_RESULT_LEN ==> call_of(p).result == Some(s)),
{
    lemma_calls_of(parts);
}

proof fn lemma_calls_of(parts: Seq<PartView>)
    ensures
        calls_of(parts) == parts.filter(|p: PartView| p.part_type == Some("tool"@)).map_values(|p: PartView| call_of(p)),
    decreases parts.len(),
{
    reveal(Seq::filter);
    let pred = |p: PartView| p.part_type == Some("tool"@);
    let of = |p: PartView| call_of(p);
    if parts.len() == 0 {
        assert(parts.filter(pred).map_values(of) =~= Seq::empty());
    } else {
        let front = parts.drop_last();
        lemma_calls_of(front);
        if pred(parts.last()) {
            assert(parts.filter(pred) == front.filter(pred).push(parts.last()));
            assert(parts.filter(pred).map_values(of) =~= front.filter(pred).map_values(of).push(of(parts.last())));
        }
    }
}

/// Each message of the user asks one turn, in their order, with the message's text.
pub proof fn law_turns_are_asked(messages: Seq<EntryView>)
    ensures
        turns_asked(messages) == messages.filter(|m: EntryView| m.data.role == Some("user"@)).map_values(|m: EntryView| asked(text_of_parts(m.parts), m.data.model_id)),
    decreases messages.len(),
{
    reveal(Seq::filter);
    let pred = |m: EntryView| m.data.role == Some("user"@);
    let of = |m: EntryView| asked(text_of_parts(m.parts), m.data.model_id);
    if messages.len() == 0 {
        assert(messages.filter(pred).map_values(of) =~= Seq::empty());
    } else {
        let front = messages.drop_last();
        law_turns_are_asked(front);
        if pred(messages.last()) {
            assert(messages.filter(pred) == front.filter(pred).push(messages.last()));
            assert(messages.filter(pred).map_values(of) =~= front.filter(pred).map_values(of).push(of(messages.last())));
        }
    }
}

/// An answer's text replaces that before it unless it is empty, its calls stand behind
/// those before them, and its model counts where it names one.
pub proof fn law_answers_are_added(acc: AccView, m: EntryView)
    ensures
        acc_with(acc, m).answered,
        acc_with(acc, m).user_content == acc.user_content,
        text_of_parts(m.parts).len() > 0 ==> acc_with(acc, m).reply == text_of_parts(m.parts),
        text_of_parts(m.parts).len() == 0 ==> acc_with(acc, m).reply == acc.reply,
        acc_with(acc, m).calls == acc.calls + calls_of(m.parts),
        m.data.model_id matches Some(model) ==> (model.len() > 0 ==> acc_with(acc, m).model == Some(model)),
        m.data.model_id is None || m.data.model_id->0.len() == 0 ==> acc_with(acc, m).model == acc.model,
        m.data.tokens is None ==> acc_with(acc, m).input == acc.input && acc_with(acc, m).output == acc.output && acc_with(acc, m).cache_read == acc.cache_read && acc_with(acc, m).cache_creation == acc.cache_creation,
{
}

/// What is reported of a turn that was answered: what was asked and said, its model, that
/// of the session, or that it is not known, and its counts with their total.
pub proof fn law_reported_fields(accs: Seq<AccView>, acc: AccView, session: Seq<char>, model: Option<Seq<char>>, repo: Option<Seq<char>>)
    requires
        acc.answered,
        accs.len() < i64::MAX,
    ensures
        usage_of_accs(accs.push(acc), session, model, repo).len() == usage_of_accs(accs, session, model, repo).len() + 1,
        usage_of_accs(accs.push(acc), session, model, repo).drop_last() == usage_of_accs(accs, session, model, repo),
        ({
            let u = usage_of_accs(accs.push(acc), session, model, repo).last();
            &&& u.session_id == session
            &&& u.turn_index == accs.len() + 1
            &&& u.input == acc.input && u.output == acc.output && u.cache_read == acc.cache_read && u.cache_creation == acc.cache_creation
            &&& u.total == total_of(acc.input, acc.output, acc.cache_read, acc.cache_creation)
            &&& u.repo_url == repo
            &&& acc.model matches Some(m) ==> u.model == m
            &&& acc.model is None ==> (model matches Some(m) ==> u.model == m)
            &&& acc.model is None && model is None ==> u.model == "unknown"@
            &&& acc.user_content.len() > 0 ==> u.user_prompts == Some(acc.user_content)
            &&& acc.user_content.len() == 0 ==> u.user_prompts is None
            &&& acc.reply.len() > 0 ==> u.assistant_responses == Some(acc.reply)
            &&& acc.reply.len() == 0 ==> u.assistant_responses is None
            &&& u.tool_uses == tool_uses_json_of(acc.calls, true)
        }),
{
    assert(accs.push(acc).drop_last() =~= accs);
    let before = usage_of_accs(accs, session, model, repo);
    let after = usage_of_accs(accs.push(acc), session, model, repo);
    assert(after.drop_last() =~= before);
}

/// The parts of a message are those rows of its id that read, in their order.
pub proof fn law_parts_of_a_message(rows: Seq<(Seq<char>, Seq<char>)>, id: Seq<char>)
    ensures
        parts_for(rows, id) == rows.filter(|r: (Seq<char>, Seq<char>)| r.0 == id && part_of(r.1) is Some).map_values(|r: (Seq<char>, Seq<char>)| part_of(r.1)->0),
    decreases rows.len(),
{
    reveal(Seq::filter);
    let pred = |r: (Seq<char>, Seq<char>)| r.0 == id && part_of(r.1) is Some;
    let of = |r: (Seq<char>, Seq<char>)| part_of(r.1)->0;
    if rows.len() == 0 {
        assert(rows.filter(pred).map_values(of) =~= Seq::empty());
    } else {
        let front = rows.drop_last();
        law_parts_of_a_message(front, id);
        if pred(rows.last()) {
            assert(rows.filter(pred) == front.filter(pred).push(rows.last()));
            assert(rows.filter(pred).map_values(of) =~= front.filter(pred).map_values(of).push(of(rows.last())));
        }
    }
}

/// The messages are the rows that read, in their order, each under its id; the parts go to
/// the first message of an id.
pub proof fn law_entries(messages: Seq<(Seq<char>, Seq<char>)>, parts: Seq<(Seq<char>, Seq<char>)>, id: Seq<char>, text: Seq<char>)
    ensures
        message_of(text) is None ==> entries_of(messages.push((id, text)), parts) == entries_of(messages, parts),
        message_of(text) matches Some(data) ==> (!names_of(entries_of(messages, parts)).contains(id) ==> entries_of(messages.push((id, text)), parts) == entries_of(messages, parts).push(EntryView { id, data, parts: parts_for(parts, id) })),
        message_of(text) matches Some(data) ==> (names_of(entries_of(messages, parts)).contains(id) ==> entries_of(messages.push((id, text)), parts) == entries_of(messages, parts).push(EntryView { id, data, parts: Seq::empty() })),
{
    assert(messages.push((id, text)).drop_last() =~= messages);
}

/// The model of a session is the id that its column holds as JSON, or the column's text;
/// a blank column names none.
pub proof fn law_model_column(raw: Seq<char>)
    ensures
        trimmed(raw).len() == 0 ==> model_column_of(raw) is None,
        trimmed(raw).len() > 0 ==> (json_text_of(trimmed(raw), "/id"@) matches Some(id) ==> (id.len() > 0 ==> model_column_of(raw) == Some(id))),
        trimmed(raw).len() > 0 && json_text_of(trimmed(raw), "/id"@) is None ==> model_column_of(raw) == Some(trimmed(raw)),
{
}

} // verus!
