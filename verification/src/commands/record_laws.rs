//! What holds of the records that are kept and reported: prompts, turns, commits and the
//! steps that are taken with them.
use vstd::prelude::*;

use crate::agents::AgentNamesView;
use crate::authorship::PromptRecord;
use crate::commands::checkpoint_args::{
    Stdin, dirty_of_json, edited_of_json, human_run, mock_ai_run, mock_known_human_run, stdin_text,
    string_members, strings_among,
};
use crate::commands::git_ai_handlers::{
    TranscriptAgent, transcript_agent_of, transcript_agents_listed, transcript_request_of,
};
use crate::commands::git_handlers::{AliasScan, alias_end, alias_start, alias_step};
use crate::commands::hooks::push_hooks::{first_in, named_remote, push_remote_of};
use crate::commands::prompts_db::{
    ChosenPrompt, MessageTally, NotePrompt, Pick, PromptOutcome, PromptRow, RouteView, are_chosen,
    count_where, last_segment, pick_is_kept, read_notes, record_at, route_of, row_holds, source_of,
    tallies, with_entries, with_pick,
};
use crate::commands::report_token_usage::{
    last_count, last_reported_of, next_upload, quoted_or_null, stored_counts, text_unless_empty,
    tool_uses_json_of,
};
use crate::commands::report_token_usage::claude::{
    ClaudeEventView, ClaudeLineView, Usage, claude_event_of, claude_line_of, dirs_in, fresh_turn,
    is_claude_line, or_unknown, session_after, session_start, session_with, usage_of,
};
use crate::commands::report_token_usage::codex::{
    CodexTokens, CodexView, calls_in, codex_start, codex_turn_of, codex_turns_of, counted,
    difference, said, sort_key_of, with_turn,
};
use crate::commands::report_token_usage::opencode::{
    AccView, EntryView, PartView, answered_turn, asked, cache_of, is_cache, is_message, is_part,
    is_tokens, part_texts, state_input, state_output, turn_under_way,
};
use crate::commands::tracker::{CommitAction, CommitEvent, is_next_action, work_tree_of};
use crate::commands::tracker::config::{TrackerConfig, same_but_blacklist};
use crate::commands::tracker::upload::{
    IdentityView, answer_of, identity_of, line_or_empty, timestamp_of,
};
use crate::commands::uninstall::{
    StepView, UninstallOptions, cleaning, first_steps_of, removal, runs_managed_program,
};
use crate::file_tree::utf8_lossy;
use crate::json::{
    JsonKind, json_compact_of, json_counts_of, json_i64_or_zero, json_keys_of, json_kind_of,
    json_len_of, json_quoted_of, json_text_of,
};
use crate::json_members::{
    count_or_missing, field_count, field_in, field_text, fields_of, is_record, null_or_missing,
    once_in, optional, value_or_missing,
};
use crate::model::opt_view;
use crate::paths::{components_of, joined, parts_that_count};
use crate::text::{has_prefix, has_suffix, is_space, split_of, trim_end_text_of, trimmed};

use vstd::utf8::encode_utf8;

verus! {

// --------------------------------------------------------------------------- prompts

/// A note is read where its log is there too.
pub proof fn law_notes_that_are_read(notes: nat, logs: nat)
    ensures
        read_notes(notes, logs) <= notes,
        read_notes(notes, logs) <= logs,
        read_notes(notes, logs) == notes || read_notes(notes, logs) == logs,
{
}

/// A row holds what the record of its prompt holds, each in its own column.
pub proof fn law_columns_of_a_row(row: PromptRow, record: PromptRecord)
    requires
        row_holds(row, record),
    ensures
        row.tool@ == record.agent_id.tool@,
        row.model@ == record.agent_id.model@,
        row.external_thread_id@ == record.agent_id.id@,
        opt_view(row.human_author) == opt_view(record.human_author),
        row.total_additions == record.total_additions,
        row.total_deletions == record.total_deletions,
        row.accepted_lines == record.accepted_lines,
        row.overridden_lines == record.overriden_lines,
{
}

/// The tally counts each outcome under its own name; what was skipped and what was left
/// count together.
pub proof fn law_tally(t: MessageTally, outcomes: Seq<PromptOutcome>)
    requires
        tallies(t, outcomes),
    ensures
        outcomes.len() == 0 ==> t.cached == 0 && t.fetched == 0 && t.local == 0 && t.skipped == 0,
        (forall|i: int| 0 <= i < outcomes.len() ==> (#[trigger] outcomes[i]) is FromCache) ==> t.cached == outcomes.len() && t.fetched == 0 && t.local == 0 && t.skipped == 0,
        (forall|i: int| 0 <= i < outcomes.len() ==> (#[trigger] outcomes[i]) is FromService) ==> t.fetched == outcomes.len() && t.cached == 0 && t.local == 0 && t.skipped == 0,
        (forall|i: int| 0 <= i < outcomes.len() ==> (#[trigger] outcomes[i]) is FromLocalDatabase) ==> t.local == outcomes.len() && t.cached == 0 && t.fetched == 0 && t.skipped == 0,
        (forall|i: int| 0 <= i < outcomes.len() ==> (#[trigger] outcomes[i]) is Skipped || outcomes[i] is Left) ==> t.skipped == outcomes.len() && t.cached == 0 && t.fetched == 0 && t.local == 0,
        t.cached + t.fetched + t.local + t.skipped == outcomes.len(),
{
    lemma_tally(outcomes);
}

proof fn lemma_tally(outcomes: Seq<PromptOutcome>)
    ensures
        ({
            let c = count_where(outcomes, |o: PromptOutcome| o is FromCache);
            let f = count_where(outcomes, |o: PromptOutcome| o is FromService);
            let l = count_where(outcomes, |o: PromptOutcome| o is FromLocalDatabase);
            let s = count_where(outcomes, |o: PromptOutcome| o is Skipped || o is Left);
            &&& c + f + l + s == outcomes.len()
            &&& (forall|i: int| 0 <= i < outcomes.len() ==> (#[trigger] outcomes[i]) is FromCache) ==> c == outcomes.len()
            &&& (forall|i: int| 0 <= i < outcomes.len() ==> (#[trigger] outcomes[i]) is FromService) ==> f == outcomes.len()
            &&& (forall|i: int| 0 <= i < outcomes.len() ==> (#[trigger] outcomes[i]) is FromLocalDatabase) ==> l == outcomes.len()
            &&& (forall|i: int| 0 <= i < outcomes.len() ==> (#[trigger] outcomes[i]) is Skipped || outcomes[i] is Left) ==> s == outcomes.len()
        }),
    decreases outcomes.len(),
{
    if outcomes.len() > 0 {
        let front = outcomes.drop_last();
        lemma_tally(front);
        assert(outcomes[outcomes.len() - 1] == outcomes.last());
        assert forall|i: int| 0 <= i < front.len() implies #[trigger] front[i] == outcomes[i] by {}
    }
}

/// Each entry of a note is a pick of its prompt, with its place and its date.
pub proof fn law_entries_of_a_note(picks: Map<Seq<char>, Pick>, hashes: Seq<Seq<char>>, note: nat, date: i64, n: nat)
    requires
        n < hashes.len(),
    ensures
        with_entries(picks, hashes, note, date, 0) == picks,
        with_entries(picks, hashes, note, date, n + 1) == with_pick(with_entries(picks, hashes, note, date, n), hashes[n as int], Pick { note: note as usize, entry: n as usize, date }),
{
}

// --------------------------------------------------------------------------- counts that were reported

/// The counts that are stored, or none where they cannot be read; the last of a key counts.
pub proof fn law_stored_counts(text: Seq<char>, key: Seq<char>)
    ensures
        json_counts_of(text) matches Some(counts) ==> stored_counts(text) == counts && last_reported_of(text, key) == last_count(counts, key),
        json_counts_of(text) is None ==> stored_counts(text).len() == 0 && last_reported_of(text, key) == 0,
{
}

/// Uploads go on one by one as long as they go well.
pub proof fn law_next_upload(total: nat, done: nat)
    ensures
        done + 1 < total ==> next_upload(total, done, true) == Some(done + 1),
        done + 1 >= total ==> next_upload(total, done, true) is None,
        next_upload(total, done, false) is None,
{
}

/// An empty text counts as none; none is written as null.
pub proof fn law_empty_texts(s: Seq<char>)
    ensures
        text_unless_empty(Seq::empty()) is None,
        s.len() > 0 ==> text_unless_empty(s) == Some(s),
        quoted_or_null(None) == "null"@,
        quoted_or_null(Some(s)) == json_quoted_of(s),
        or_unknown(None) == "unknown"@,
        or_unknown(Some(s)) == s,
{
}

/// A session starts with no turn done; its lines are taken in one by one.
pub proof fn law_lines_of_a_session(lines: Seq<ClaudeLineView>, line: ClaudeLineView, project: Option<Seq<char>>)
    ensures
        session_start(project).session_id is None,
        session_start(project).done.len() == 0,
        session_start(project).project == project,
        session_after(Seq::empty(), project) == session_start(project),
        session_after(lines.push(line), project) == session_with(session_after(lines, project), line),
{
    assert(lines.push(line).drop_last() =~= lines);
}

/// The tokens of a message, each count under its own name; what is missing counts as
/// nothing.
pub proof fn law_tokens_of_a_message(text: Seq<char>)
    ensures
        json_kind_of(text, "/message/usage"@) is None ==> usage_of(text) is None,
        json_kind_of(text, "/message/usage"@) is Some ==> usage_of(text) == Some(Usage {
            input: json_i64_or_zero(text, "/message/usage/input_tokens"@),
            output: json_i64_or_zero(text, "/message/usage/output_tokens"@),
            cache_read: json_i64_or_zero(text, "/message/usage/cache_read_input_tokens"@),
            cache_creation: json_i64_or_zero(text, "/message/usage/cache_creation_input_tokens"@),
        }),
{
}

/// The directories of projects stand in the directories that are named; blanks are left
/// out.
pub proof fn law_directories_of_projects(names: Seq<Seq<char>>, name: Seq<char>)
    ensures
        dirs_in(Seq::empty()).len() == 0,
        trimmed(name).len() == 0 ==> dirs_in(names.push(name)) == dirs_in(names),
        trimmed(name).len() > 0 ==> dirs_in(names.push(name)) == dirs_in(names).push(joined(trimmed(name), "projects"@)),
{
    assert(names.push(name).drop_last() =~= names);
}

/// A session starts without turns; a turn is put behind the others once, and is the latest
/// unless it was asked before.
pub proof fn law_turns_of_a_session(s: CodexView, id: Seq<char>)
    ensures
        codex_start().order.len() == 0 && codex_start().latest is None && codex_start().aborted.len() == 0,
        codex_start().user == Map::<Seq<char>, Seq<char>>::empty(),
        !s.order.contains(id) ==> with_turn(s, id).order == s.order.push(id) && with_turn(s, id).latest == Some(id),
        s.order.contains(id) && s.user.dom().contains(id) ==> with_turn(s, id) == s,
        s.order.contains(id) && !s.user.dom().contains(id) ==> with_turn(s, id).order == s.order && with_turn(s, id).latest == Some(id),
        with_turn(s, id).user == s.user && with_turn(s, id).assistant == s.assistant && with_turn(s, id).tokens == s.tokens && with_turn(s, id).aborted == s.aborted,
{
}

/// The turns that count, in their order.
pub proof fn law_turns_in_their_order(s: CodexView, order: Seq<Seq<char>>, id: Seq<char>)
    ensures
        codex_turns_of(s, Seq::empty()).len() == 0,
        codex_turn_of(s, id) is None ==> codex_turns_of(s, order.push(id)) == codex_turns_of(s, order),
        codex_turn_of(s, id) matches Some(t) ==> codex_turns_of(s, order.push(id)) == codex_turns_of(s, order).push(t),
{
    assert(order.push(id).drop_last() =~= order);
}

/// A difference that does not fit stays at the bound.
pub proof fn law_differences(a: i64, b: i64)
    ensures
        i64::MIN <= a - b <= i64::MAX ==> difference(a, b) == a - b,
        a - b > i64::MAX ==> difference(a, b) == 9223372036854775807,
        a - b < i64::MIN ==> difference(a, b) == -9223372036854775808,
{
}

/// The texts of a message are those of its parts of that kind that are not empty.
pub proof fn law_texts_of_parts(parts: Seq<PartView>, p: PartView)
    ensures
        part_texts(Seq::empty()).len() == 0,
        p.part_type == Some("text"@) && p.text is Some && p.text->0.len() > 0 ==> part_texts(parts.push(p)) == part_texts(parts).push(p.text->0),
        p.part_type != Some("text"@) || p.text is None || p.text->0.len() == 0 ==> part_texts(parts.push(p)) == part_texts(parts),
{
    assert(parts.push(p).drop_last() =~= parts);
}

/// An answer belongs to the turn of the message that it names; else to the turn that is
/// under way, which is that of the last message of the user.
pub proof fn law_turn_of_an_answer(messages: Seq<EntryView>, m: EntryView, users: Map<Seq<char>, nat>, current: Option<nat>)
    ensures
        turn_under_way(Seq::empty(), users) is None,
        m.data.role == Some("user"@) && users.dom().contains(m.id) ==> turn_under_way(messages.push(m), users) == Some(users[m.id]),
        m.data.role == Some("user"@) && !users.dom().contains(m.id) ==> turn_under_way(messages.push(m), users) is None,
        m.data.role != Some("user"@) ==> turn_under_way(messages.push(m), users) == turn_under_way(messages, users),
        m.data.parent_id matches Some(p) ==> users.dom().contains(p) ==> answered_turn(m, users, current) == Some(users[p]),
        m.data.parent_id is None ==> answered_turn(m, users, current) == current,
{
    assert(messages.push(m).drop_last() =~= messages);
}

/// What a call was given and what came back, as its state says.
pub proof fn law_state_of_a_call(text: Seq<char>)
    ensures
        state_input(None) == "null"@,
        state_output(None) is None,
        state_output(Some(text)) == json_text_of("["@ + text + "]"@, "/0/output"@),
        json_compact_of("["@ + text + "]"@, "/0/input"@) matches Some(s) ==> state_input(Some(text)) == s,
        json_compact_of("["@ + text + "]"@, "/0/input"@) is None ==> state_input(Some(text)) == "null"@,
{
}

/// What was read from a cache and what was written to it, each under its own name.
pub proof fn law_cache(field: Option<Seq<char>>)
    ensures
        null_or_missing(field) ==> cache_of(field) == (0i64, 0i64),
        !null_or_missing(field) ==> cache_of(field) == (field_count(field_in(fields_of(field->0), "read"@, 0)), field_count(field_in(fields_of(field->0), "write"@, 1))),
{
}

// --------------------------------------------------------------------------- commits

/// What is done with a commit, step by step: one that is refused is logged, one that is
/// accepted gets its changes taken; these are uploaded, and the commit is marked; where the
/// upload fails, it is logged and queued.
pub proof fn law_steps_of_a_commit(event: CommitEvent, action: CommitAction)
    requires
        is_next_action(event, action),
    ensures
        event matches CommitEvent::Refused(reason) ==> (action matches CommitAction::LogSkipped(text) && text@ == reason@),
        event is Accepted ==> action is TakeDiff,
        event is DiffFailed ==> action is Leave,
        event is DiffTaken ==> action is Upload,
        event is Uploaded ==> action is MarkReported,
        event matches CommitEvent::UploadFailed(e) ==> (action matches CommitAction::LogFailedAndQueue(text) && text@ == e@),
{
}

/// The work tree of a repository: where its git directory stands; else what git says, or
/// the path itself.
pub proof fn law_work_tree(path: Seq<char>, stdout: Seq<u8>)
    ensures
        has_suffix(trim_end_text_of(path, "/"@), ".git"@) ==> work_tree_of(path, None) == trim_end_text_of(trim_end_text_of(trim_end_text_of(path, "/"@), ".git"@), "/"@) && work_tree_of(path, Some(stdout)) == work_tree_of(path, None),
        !has_suffix(trim_end_text_of(path, "/"@), ".git"@) ==> work_tree_of(path, None) == trim_end_text_of(path, "/"@) && work_tree_of(path, Some(stdout)) == trimmed(utf8_lossy(stdout)),
{
}

/// What git answers, without the blanks around it; a failure and an empty answer are none.
pub proof fn law_answers_of_git(stdout: Seq<u8>, lines: Seq<Seq<char>>, i: int)
    ensures
        answer_of(false, stdout) is None,
        trimmed(utf8_lossy(stdout)).len() == 0 ==> answer_of(true, stdout) is None,
        trimmed(utf8_lossy(stdout)).len() > 0 ==> answer_of(true, stdout) == Some(trimmed(utf8_lossy(stdout))),
        0 <= i < lines.len() ==> line_or_empty(lines, i) == lines[i],
        i < 0 || i >= lines.len() ==> line_or_empty(lines, i).len() == 0,
{
}

/// Who someone is: an address, with a name or without; without an address nobody.
pub proof fn law_identities(email: Seq<char>, name: Seq<char>)
    ensures
        identity_of(None, Some(name)) is None,
        identity_of(None, None) is None,
        identity_of(Some(email), Some(name)) == Some(IdentityView { email, name }),
        identity_of(Some(email), None) == Some(IdentityView { email, name: Seq::empty() }),
{
}

/// The time of a commit is the one that could be worked out, else the one that is written.
pub proof fn law_time_of_a_commit(raw: Seq<char>, utc: Seq<char>)
    ensures
        timestamp_of(raw, Some(utc)) == utc,
        timestamp_of(raw, None) == raw,
{
}

/// What changes of the settings with the blacklist: nothing else.
pub proof fn law_other_settings_stay(a: TrackerConfig, b: TrackerConfig)
    requires
        same_but_blacklist(a, b),
    ensures
        a.tracker_url == b.tracker_url,
        a.team_id == b.team_id,
        a.team_key == b.team_key,
        a.username == b.username,
{
}

// --------------------------------------------------------------------------- the end of the application

/// A trial says what would be done and stops nothing; in earnest the service is stopped
/// first. Hooks are removed in either way, with the word for it.
pub proof fn law_first_steps(o: UninstallOptions, program: Option<Seq<char>>)
    ensures
        ({
            let steps = first_steps_of(o, program);
            let own = runs_managed_program(o, program);
            &&& o.dry_run && !own ==> steps == seq![StepView::Say("Dry-run: no changes will be made."@), StepView::RemoveHooks("--dry-run"@)]
            &&& o.dry_run && own ==> steps == seq![StepView::Say("Dry-run: no changes will be made."@), StepView::Say("The currently running executable will be removed after this process exits."@), StepView::RemoveHooks("--dry-run"@)]
            &&& !o.dry_run && !own ==> steps == seq![StepView::StopService, StepView::RemoveHooks("--dry-run=false"@)]
            &&& !o.dry_run && own ==> steps == seq![StepView::StopService, StepView::Say("The currently running executable will be removed after this process exits."@), StepView::RemoveHooks("--dry-run=false"@)]
        }),
{
    let steps = first_steps_of(o, program);
    let own = runs_managed_program(o, program);
    if o.dry_run && !own {
        assert(steps =~= seq![StepView::Say("Dry-run: no changes will be made."@), StepView::RemoveHooks("--dry-run"@)]);
    } else if o.dry_run && own {
        assert(steps =~= seq![StepView::Say("Dry-run: no changes will be made."@), StepView::Say("The currently running executable will be removed after this process exits."@), StepView::RemoveHooks("--dry-run"@)]);
    } else if !own {
        assert(steps =~= seq![StepView::StopService, StepView::RemoveHooks("--dry-run=false"@)]);
    } else {
        assert(steps =~= seq![StepView::StopService, StepView::Say("The currently running executable will be removed after this process exits."@), StepView::RemoveHooks("--dry-run=false"@)]);
    }
}

/// A trial only says of a path what would be done with it.
pub proof fn law_trial_steps(path: Seq<char>)
    ensures
        removal(path, true) == StepView::WouldRemove(path),
        removal(path, false) == StepView::Remove(path),
        cleaning(path, true) == StepView::WouldCleanProfile(path),
        cleaning(path, false) == StepView::CleanProfile(path),
{
}

// --------------------------------------------------------------------------- what a checkpoint is given

/// The input is read once.
pub proof fn law_input_is_read_once(s: String, read: bool)
    ensures
        stdin_text(Stdin::Content(s), false) == s@,
        stdin_text(Stdin::Content(s), true) == ""@,
{
}

/// The files that were edited, and those with changes that are not saved, each from its own
/// member; without one there are none.
pub proof fn law_files_of_a_checkpoint(text: Seq<char>)
    ensures
        json_len_of(text, "/edited_filepaths"@) is None ==> edited_of_json(text) is None,
        json_len_of(text, "/edited_filepaths"@) matches Some(n) ==> strings_among(text, "/edited_filepaths"@, n).len() == 0 ==> edited_of_json(text) is None,
        json_len_of(text, "/edited_filepaths"@) matches Some(n) ==> strings_among(text, "/edited_filepaths"@, n).len() > 0 ==> edited_of_json(text) == Some(strings_among(text, "/edited_filepaths"@, n)),
        json_keys_of(text, "/dirty_files"@) is None ==> dirty_of_json(text) is None,
        json_keys_of(text, "/dirty_files"@) matches Some(keys) ==> (dirty_of_json(text) matches Some(m) ==> m == string_members(text, "/dirty_files"@, keys) && m != Map::<Seq<char>, Seq<char>>::empty()),
        json_keys_of(text, "/dirty_files"@) matches Some(keys) ==> (dirty_of_json(text) is None ==> string_members(text, "/dirty_files"@, keys) == Map::<Seq<char>, Seq<char>>::empty()),
{
}

/// Under which names runs without an agent are kept.
pub proof fn law_names_of_runs(args: Seq<Seq<char>>, stamp: Seq<char>, workdir: Seq<char>, changed: Seq<Seq<char>>)
    ensures
        ({
            let r = human_run(args, stamp, workdir, changed);
            r.tool == "mock_ai"@ && r.id == "ai-thread-"@ + stamp && r.model == "unknown"@ && r.metadata is None && r.dirty is None && r.capture is None
        }),
        ({
            let r = mock_ai_run(args, stamp, changed);
            r.tool == "mock_ai"@ && r.id == "ai-thread-"@ + stamp && r.model == "unknown"@ && r.metadata is None && r.dirty is None && r.capture is None && r.kind is AiAgent && r.dir is None && r.will_edit is None
        }),
        ({
            let r = mock_known_human_run(args);
            r.tool == "mock_known_human"@ && r.id == "mock_known_human_session"@ && r.model == "unknown"@ && r.metadata is None && r.dirty is None && r.capture is None && r.kind is KnownHuman && r.dir is None && r.will_edit is None
        }),
{
}

// --------------------------------------------------------------------------- what is asked for

/// What is said where a transcript cannot be shown: that something is missing, or that the
/// agent is not known.
pub proof fn law_refused_transcripts(args: Seq<Seq<char>>, names: AgentNamesView)
    ensures
        args.len() < 2 ==> transcript_request_of(args, names) == Err::<(TranscriptAgent, Seq<char>), Seq<Seq<char>>>(seq![
            "Error: show-transcript requires agent name and path/id"@,
            "Usage: git-ai show-transcript <agent> <path|id>"@,
            "  Agents: "@ + transcript_agents_listed(names),
            "  For amp, provide conversation/thread id instead of path"@,
        ]),
        args.len() >= 2 && transcript_agent_of(args[0], names) is None ==> transcript_request_of(args, names) == Err::<(TranscriptAgent, Seq<char>), Seq<Seq<char>>>(seq![
            "Error: Unknown agent '"@ + args[0] + "'"@,
            "Supported agents: "@ + transcript_agents_listed(names),
        ]),
{
}

/// How an alias is read: within single quotes all is text up to the next one; within double
/// quotes a backslash takes the next character along; outside, blanks part the words.
pub proof fn law_characters_of_an_alias(st: AliasScan, c: char)
    ensures
        alias_start() == (AliasScan { tokens: Seq::empty(), current: Seq::empty(), in_single: false, in_double: false, escaped: false }),
        st.escaped ==> alias_step(st, c) == (AliasScan { current: st.current.push(c), escaped: false, ..st }),
        !st.escaped && st.in_single && c == '\'' ==> alias_step(st, c) == (AliasScan { in_single: false, ..st }),
        !st.escaped && st.in_single && c != '\'' ==> alias_step(st, c) == (AliasScan { current: st.current.push(c), ..st }),
        !st.escaped && !st.in_single && c == '\\' ==> alias_step(st, c) == (AliasScan { escaped: true, ..st }),
        !st.escaped && !st.in_single && st.in_double && c == '"' ==> alias_step(st, c) == (AliasScan { in_double: false, ..st }),
        !st.escaped && !st.in_single && st.in_double && c != '"' && c != '\\' ==> alias_step(st, c) == (AliasScan { current: st.current.push(c), ..st }),
        !st.escaped && !st.in_single && !st.in_double && c == '\'' ==> alias_step(st, c) == (AliasScan { in_single: true, ..st }),
        !st.escaped && !st.in_single && !st.in_double && c == '"' ==> alias_step(st, c) == (AliasScan { in_double: true, ..st }),
        !st.escaped && !st.in_single && !st.in_double && is_space(c) && st.current.len() > 0 ==> alias_step(st, c) == (AliasScan { tokens: st.tokens.push(st.current), current: Seq::empty(), ..st }),
        !st.escaped && !st.in_single && !st.in_double && is_space(c) && st.current.len() == 0 ==> alias_step(st, c) == st,
        !st.escaped && !st.in_single && !st.in_double && !is_space(c) && c != '\'' && c != '"' && c != '\\' ==> alias_step(st, c) == (AliasScan { current: st.current.push(c), ..st }),
{
}

/// How an alias ends: an open quote makes it unreadable, a last backslash stands for itself,
/// and the word that was begun is the last.
pub proof fn law_end_of_an_alias(st: AliasScan)
    ensures
        st.in_single || st.in_double ==> alias_end(st) is None,
        !st.in_single && !st.in_double && st.escaped ==> alias_end(st) == Some(st.tokens.push(st.current.push('\\'))),
        !st.in_single && !st.in_double && !st.escaped && st.current.len() > 0 ==> alias_end(st) == Some(st.tokens.push(st.current)),
        !st.in_single && !st.in_double && !st.escaped && st.current.len() == 0 ==> alias_end(st) == Some(st.tokens),
{
}

/// Where a push goes: to the remote that is named, else to one that is known among the
/// arguments, else to that of the branch, else to the usual one.
pub proof fn law_remote_of_a_push(args: Seq<Seq<char>>, known: Seq<Seq<char>>, upstream: Seq<char>, default: Option<Seq<char>>)
    ensures
        named_remote(args, known, 0) matches Some(r) ==> push_remote_of(args, known, Some(upstream), default) == Some(r),
        named_remote(args, known, 0) is None ==> (first_in(args, known, 0) matches Some(r) ==> push_remote_of(args, known, Some(upstream), default) == Some(r)),
        named_remote(args, known, 0) is None && first_in(args, known, 0) is None ==> push_remote_of(args, known, Some(upstream), default) == Some(upstream) && push_remote_of(args, known, None, default) == default,
{
}

/// A prompt whose address is another service's is foreign; one of this service is stored
/// under the last part of its address.
pub proof fn law_route_of_a_prompt(url: Seq<char>, prefix: Seq<char>)
    ensures
        !has_prefix(url, prefix) ==> route_of(url, prefix) is Foreign,
        has_prefix(url, prefix) && split_of(url, '/').last().len() > 0 ==> route_of(url, prefix) == RouteView::Stored(split_of(url, '/').last()),
        has_prefix(url, prefix) && split_of(url, '/').last().len() == 0 ==> route_of(url, prefix) is Nowhere,
        last_segment(url) is Some <==> split_of(url, '/').last().len() > 0,
{
}

/// The prompts that are chosen: those whose pick is kept, each once, with its pick and where
/// its messages come from.
pub proof fn law_chosen_prompts(chosen: Seq<ChosenPrompt>, best: Map<Seq<char>, Pick>, logs: Seq<Option<Vec<NotePrompt>>>, since: i64, author: Option<Seq<char>>, i: int, j: int, h: Seq<char>)
    requires
        are_chosen(chosen, best, logs, since, author),
    ensures
        0 <= i < chosen.len() ==> best.dom().contains(chosen[i].id@) && chosen[i].pick == best[chosen[i].id@] && pick_is_kept(logs, chosen[i].pick, since, author) && chosen[i].source == source_of(record_at(logs, chosen[i].pick)),
        0 <= i < j < chosen.len() ==> chosen[i].id@ != chosen[j].id@,
        best.dom().contains(h) && pick_is_kept(logs, best[h], since, author) ==> exists|k: int| 0 <= k < chosen.len() && (#[trigger] chosen[k]).id@ == h,
{
}

// --------------------------------------------------------------------------- fields

/// What a line of a transcript must be: a record of these fields, each at most once and of
/// its kind.
pub proof fn law_fields_of_a_line(text: Seq<char>)
    ensures
        is_claude_line(text) <==> {
            let f = fields_of(text);
            &&& is_record(text, 5, 5)
            &&& once_in(f, "sessionId"@) && once_in(f, "timestamp"@) && once_in(f, "message"@) && once_in(f, "cost_usd"@) && once_in(f, "costUSD"@)
            &&& optional(field_in(f, "sessionId"@, 0), JsonKind::Text) && optional(field_in(f, "timestamp"@, 1), JsonKind::Text)
            &&& value_or_missing(field_in(f, "message"@, 2))
            &&& optional(field_in(f, "cost_usd"@, 3), JsonKind::Number) && optional(field_in(f, "costUSD"@, 4), JsonKind::Number)
        },
        !is_claude_line(text) ==> claude_line_of(text) is None,
        is_claude_line(text) ==> (claude_line_of(text) matches Some(line) && line.session_id == field_text(field_in(fields_of(text), "sessionId"@, 0)) && line.event == (if fields_of(text).items is Some { ClaudeEventView::Nothing } else { claude_event_of(text) })),
{
}

/// A new turn holds what was typed and nothing else.
pub proof fn law_new_turn(open: bool, ts: Seq<char>, content: Seq<char>, project: Option<Seq<char>>)
    ensures
        ({
            let t = fresh_turn(open, ts, content);
            &&& t.open == open && t.user_ts == ts && t.user_content == content
            &&& t.assistant_texts.len() == 0 && t.tool_uses.len() == 0 && t.tool_results.len() == 0 && t.seen.len() == 0
            &&& t.model is None && t.assistant_ts == ""@
            &&& t.usage == (Usage { input: 0, output: 0, cache_read: 0, cache_creation: 0 })
        }),
        session_start(project).turn == fresh_turn(false, ""@, ""@),
{
}

/// What a message must be: a record of these fields, each at most once and of its kind.
pub proof fn law_fields_of_messages(text: Seq<char>)
    ensures
        is_message(text) <==> {
            let f = fields_of(text);
            &&& is_record(text, 4, 4)
            &&& once_in(f, "role"@) && once_in(f, "parentID"@) && once_in(f, "modelID"@) && once_in(f, "tokens"@)
            &&& optional(field_in(f, "role"@, 0), JsonKind::Text) && optional(field_in(f, "parentID"@, 1), JsonKind::Text) && optional(field_in(f, "modelID"@, 2), JsonKind::Text)
            &&& (null_or_missing(field_in(f, "tokens"@, 3)) || is_tokens(field_in(f, "tokens"@, 3)->0))
        },
        is_tokens(text) <==> {
            let f = fields_of(text);
            &&& is_record(text, 4, 4)
            &&& once_in(f, "input"@) && once_in(f, "output"@) && once_in(f, "reasoning"@) && once_in(f, "cache"@)
            &&& count_or_missing(field_in(f, "input"@, 0)) && count_or_missing(field_in(f, "output"@, 1)) && count_or_missing(field_in(f, "reasoning"@, 2))
            &&& (null_or_missing(field_in(f, "cache"@, 3)) || is_cache(field_in(f, "cache"@, 3)->0))
        },
        is_cache(text) <==> {
            let f = fields_of(text);
            is_record(text, 0, 2) && once_in(f, "read"@) && once_in(f, "write"@) && count_or_missing(field_in(f, "read"@, 0)) && count_or_missing(field_in(f, "write"@, 1))
        },
        is_part(text) <==> {
            let f = fields_of(text);
            &&& is_record(text, 5, 5)
            &&& once_in(f, "type"@) && once_in(f, "text"@) && once_in(f, "callID"@) && once_in(f, "tool"@) && once_in(f, "state"@)
            &&& optional(field_in(f, "type"@, 0), JsonKind::Text) && optional(field_in(f, "text"@, 1), JsonKind::Text) && optional(field_in(f, "callID"@, 2), JsonKind::Text) && optional(field_in(f, "tool"@, 3), JsonKind::Text)
            &&& value_or_missing(field_in(f, "state"@, 4))
        },
{
}

/// The key by which sessions are sorted: the time in their names, with colons in it.
pub proof fn law_time_in_a_name(rest: Seq<char>, stem: Seq<char>, i: int)
    ensures
        !has_prefix(stem, "rollout-"@) ==> sort_key_of(stem) is None,
        encode_utf8(rest).len() < 19 ==> sort_key_of("rollout-"@ + rest) is None,
        encode_utf8(rest).len() >= 19 ==> (sort_key_of("rollout-"@ + rest) matches Some(k) && k.len() == 19 && k[10] == 58 && k[13] == 58 && k[16] == 58
            && (0 <= i < 19 && i != 10 && i != 13 && i != 16 ==> k[i] == encode_utf8(rest)[i])),
{
    let p = "rollout-"@;
    assert((p + rest).take(p.len() as int) =~= p);
    assert((p + rest).skip(p.len() as int) =~= rest);
}

/// A turn is told with its own model, words, calls and counts, without what came from a
/// cache among its input; one that was broken off, or has neither words nor counts, is not.
pub proof fn law_turn_of_a_session(s: CodexView, id: Seq<char>)
    ensures
        s.tokens.dom().contains(id) ==> counted(s, id) == s.tokens[id],
        !s.tokens.dom().contains(id) ==> counted(s, id) == (CodexTokens { input: 0, output: 0, cached: 0, total: 0 }),
        s.aborted.contains(id) ==> codex_turn_of(s, id) is None,
        said(s.user, id).len() == 0 && counted(s, id).total == 0 ==> codex_turn_of(s, id) is None,
        !s.aborted.contains(id) && (said(s.user, id).len() > 0 || counted(s, id).total != 0) ==> (codex_turn_of(s, id) matches Some(t) && ({
            let n = counted(s, id);
            &&& t.model == (if s.models.dom().contains(id) { s.models[id] } else { "unknown"@ })
            &&& t.user_content == said(s.user, id)
            &&& t.assistant_text == said(s.assistant, id)
            &&& t.tool_uses_json == tool_uses_json_of(calls_in(s, id), false)
            &&& t.input == difference(n.input, n.cached) as i64
            &&& t.output == n.output && t.cache_read == n.cached && t.cache_creation == 0 && t.total == n.total
        })),
{
}

/// The parts of a path that count: neither empty ones nor, behind the first, a single dot.
/// A path from the root starts with it.
pub proof fn law_components_of_a_path(parts: Seq<Seq<char>>, part: Seq<char>, p: Seq<char>)
    ensures
        parts_that_count(Seq::empty()).len() == 0,
        part.len() == 0 ==> parts_that_count(parts.push(part)) == parts_that_count(parts),
        part == "."@ && parts.len() > 0 ==> parts_that_count(parts.push(part)) == parts_that_count(parts),
        part.len() > 0 && (part != "."@ || parts.len() == 0) ==> parts_that_count(parts.push(part)) == parts_that_count(parts).push(part),
        p.len() > 0 && p[0] == '/' ==> components_of(p) == seq!["/"@] + parts_that_count(split_of(p, '/')),
        p.len() == 0 || p[0] != '/' ==> components_of(p) == parts_that_count(split_of(p, '/')),
{
    assert(parts.push(part).drop_last() =~= parts);
}

/// A turn starts with what was asked, without an answer and without counts.
pub proof fn law_turn_that_was_asked(content: Seq<char>, model: Option<Seq<char>>)
    ensures
        asked(content, model) == (AccView {
            user_content: content,
            answered: false,
            reply: ""@,
            calls: Seq::empty(),
            input: 0,
            output: 0,
            cache_read: 0,
            cache_creation: 0,
            model,
        }),
{
}

} // verus!
