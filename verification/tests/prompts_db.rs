//! The database of prompts.

use git_ai::authorship::{AgentId, Message, PromptRecord};
use git_ai::commands::prompts_db::{
    FetchReply, HashStatus, MessageSource, MessageTally, NotePrompt, Pair, PopulateArgs,
    PromptOutcome, PromptsCommand, Route, SkipReason, SqlValue, asks_local_database, author_filter,
    best_prompts, chosen_prompts, chunk_end, commit_dates, deferred_row, format_value, hash_status,
    instance_prefix, is_select, keeps_prompt, list_query, live_notes, message_route,
    message_source, notes_list, parse_cat_file_batch_output, parse_populate_args, parse_since_arg,
    prompt_outcome, prompt_row, prompts_command, reachable_commits, skip_reason, tally_lines,
    tally_outcomes, unique_commits, wanted_hashes,
};

fn strings(args: &[&str]) -> Vec<String> {
    args.iter().map(|arg| (*arg).to_string()).collect()
}

fn record() -> PromptRecord {
    PromptRecord {
        agent_id: AgentId {
            tool: "codex".to_string(),
            id: "thread".to_string(),
            model: "gpt".to_string(),
        },
        human_author: Some("Ann <a@x>".to_string()),
        messages: vec![],
        total_additions: 1,
        total_deletions: 2,
        accepted_lines: 3,
        overriden_lines: 4,
        messages_url: None,
        custom_attributes: None,
    }
}

#[test]
fn prompts_commands_are_read() {
    assert_eq!(prompts_command(&[]), PromptsCommand::Populate);
    assert_eq!(prompts_command(&strings(&["--since", "3"])), PromptsCommand::Populate);
    assert_eq!(prompts_command(&strings(&["exec"])), PromptsCommand::Exec);
    assert_eq!(prompts_command(&strings(&["odd"])), PromptsCommand::Unknown);
    let p = parse_populate_args(&strings(&["--since", "3", "--author", "Ann"])).ok().unwrap();
    assert_eq!(p.since.as_deref(), Some("3"));
    assert_eq!(author_filter(&p, Some("me".to_string())).as_deref(), Some("Ann"));
    let all = PopulateArgs {
        since: None,
        author: Some("Ann".to_string()),
        all_authors: true,
    };
    assert_eq!(author_filter(&all, Some("me".to_string())), None);
    let none = parse_populate_args(&[]).ok().unwrap();
    assert_eq!(author_filter(&none, Some("me".to_string())).as_deref(), Some("me"));
    assert_eq!(
        parse_populate_args(&strings(&["--since"])).err().as_deref(),
        Some("Error: --since requires a value")
    );
    assert_eq!(
        parse_populate_args(&strings(&["--author"])).err().as_deref(),
        Some("Error: --author requires a value")
    );
    assert_eq!(
        parse_populate_args(&strings(&["--odd"])).err().as_deref(),
        Some("Unknown option: --odd")
    );
}

#[test]
fn days_are_counted_back() {
    assert_eq!(parse_since_arg(1_000_000, "2").ok(), Some(1_000_000 - 2 * 86_400));
    assert_eq!(
        parse_since_arg(0, "x").err().unwrap().message(),
        "Invalid --since value: 'x'. Expected number of days (e.g., 30)"
    );
}

#[test]
fn queries_are_built() {
    assert_eq!(
        list_query(&strings(&["--columns", "id , tool"])),
        Ok("SELECT id, tool FROM prompts ORDER BY seq_id ASC".to_string())
    );
    assert!(list_query(&[]).unwrap().contains("(last_time - start_time) AS duration"));
    assert_eq!(
        list_query(&strings(&["--columns"])),
        Err("Error: --columns requires a value".to_string())
    );
    assert_eq!(
        list_query(&strings(&["x"])),
        Err("Unknown option: x".to_string())
    );
    assert!(is_select("  select 1"));
    assert!(!is_select("update x"));
}

#[test]
fn values_fit_in_a_cell() {
    assert_eq!(format_value(&SqlValue::Null), "NULL");
    assert_eq!(format_value(&SqlValue::Integer(-7)), "-7");
    assert_eq!(format_value(&SqlValue::Real("0.5".to_string())), "0.5");
    assert_eq!(format_value(&SqlValue::Text("a\tb\nc".to_string())), "a\\tb\\nc");
    assert_eq!(format_value(&SqlValue::Blob(3)), "<blob 3 bytes>");
}

fn pair(first: &str, second: &str) -> Pair {
    Pair {
        first: first.to_string(),
        second: second.to_string(),
    }
}

#[test]
fn notes_are_read_from_git() {
    assert_eq!(reachable_commits("a\n\nb\n"), strings(&["a", "b"]));
    let dates = commit_dates("a 5\nb x\nc 7\n");
    assert_eq!(dates.len(), 2);
    assert_eq!(dates.get("c"), Some(&7));
    let notes = notes_list("n1 c1\nodd\nn2 c2 rest\nn3 c1\n");
    assert_eq!(notes.len(), 3);
    assert_eq!((notes[1].first.as_str(), notes[1].second.as_str()), ("n2", "c2"));
    let live = live_notes(&notes, &strings(&["c1"]));
    assert_eq!(live.len(), 2);
    assert_eq!(unique_commits(&notes), strings(&["c1", "c2"]));
}

#[test]
fn objects_are_read_from_a_batch() {
    let data = b"aaa blob 3\nabc\nbbb missing\nccc blob 2\nx\n\nddd blob 9\nshort";
    assert_eq!(parse_cat_file_batch_output(data), strings(&["abc", "x\n"]));
    assert!(parse_cat_file_batch_output(b"").is_empty());
}

fn note(hash: &str) -> NotePrompt {
    NotePrompt {
        hash: hash.to_string(),
        record: record(),
    }
}

#[test]
fn the_latest_note_of_a_prompt_counts() {
    let notes = vec![pair("n1", "c1"), pair("n2", "c2"), pair("n3", "c3")];
    let dates = commit_dates("c1 5\nc2 9\n");
    let logs = vec![
        Some(vec![note("p"), note("q")]),
        Some(vec![note("p")]),
        Some(vec![note("r")]),
    ];
    let best = best_prompts(&notes, &dates, &logs);
    assert_eq!(best.len(), 2);
    let p = best.get("p").unwrap();
    assert_eq!((p.note, p.entry, p.date), (1, 0, 9));
    let q = best.get("q").unwrap();
    assert_eq!((q.note, q.entry, q.date), (0, 1, 5));
    assert!(!best.contains_key("r"));
    let author = Some("Ann".to_string());
    assert!(keeps_prompt(5, 5, &author, &Some("Ann <a@x>".to_string())));
    assert!(!keeps_prompt(4, 5, &author, &Some("Ann <a@x>".to_string())));
    assert!(!keeps_prompt(5, 5, &author, &None));
    assert!(keeps_prompt(5, 5, &None, &None));
}

#[test]
fn prompts_are_chosen_once() {
    let notes = vec![pair("n1", "c1"), pair("n2", "c2")];
    let dates = commit_dates("c1 5\nc2 9\n");
    let mut foreign = note("q");
    foreign.record.human_author = Some("Bob".to_string());
    let logs = vec![Some(vec![note("p"), foreign, note("old")]), Some(vec![note("p")])];
    let author = Some("Ann".to_string());
    let mut ids: Vec<(String, usize)> = chosen_prompts(&notes, &dates, &logs, 0, &author)
        .into_iter()
        .map(|c| (c.id, c.pick.note))
        .collect();
    ids.sort();
    assert_eq!(ids, vec![("old".to_string(), 0), ("p".to_string(), 1)]);
    let recent = chosen_prompts(&notes, &dates, &logs, 6, &None);
    assert_eq!(recent.len(), 1);
    assert_eq!(recent[0].source, MessageSource::LocalDatabase);
}

#[test]
fn hashes_are_asked_for_once() {
    let routes = vec![
        Route::Stored("a".to_string()),
        Route::Foreign,
        Route::Stored("b".to_string()),
        Route::Stored("a".to_string()),
        Route::Nowhere,
    ];
    let cached = [false, false, true, false, false];
    assert_eq!(wanted_hashes(&routes, &cached), strings(&["a"]));
}

#[test]
fn rows_hold_the_record() {
    let row = prompt_row("p", &record(), "c", "/w", Some("[]".to_string()), Some(1), Some(2), 9);
    assert_eq!((row.tool.as_str(), row.external_thread_id.as_str()), ("codex", "thread"));
    assert_eq!((row.accepted_lines, row.overridden_lines), (3, 4));
    assert_eq!((row.start_time, row.last_time), (Some(1), Some(2)));
    assert_eq!((row.created_at, row.updated_at), (1, 2));
    let row = deferred_row("p", &record(), "c", "/w", 9);
    assert_eq!(row.messages, None);
    assert_eq!((row.created_at, row.updated_at), (9, 9));
    let mut r = record();
    assert_eq!(message_source(&r), MessageSource::LocalDatabase);
    r.messages_url = Some("u".to_string());
    assert_eq!(message_source(&r), MessageSource::Address);
    r.messages = vec![Message { text: None }];
    assert_eq!(message_source(&r), MessageSource::Note);
}

#[test]
fn messages_are_looked_for_where_they_are() {
    let prefix = instance_prefix("https://api.example//");
    assert!(prefix.starts_with("https://api.example"));
    let url = format!("{}abc", prefix);
    let stored = message_route(&url, &prefix);
    assert!(matches!(&stored, Route::Stored(h) if h == "abc"));
    let foreign = message_route("https://other/abc", &prefix);
    assert!(matches!(foreign, Route::Foreign));
    assert_eq!(hash_status(true, false, FetchReply::NotAsked), HashStatus::Cached);
    assert_eq!(hash_status(false, false, FetchReply::NotAsked), HashStatus::NotLoggedIn);
    assert_eq!(hash_status(false, true, FetchReply::Messages), HashStatus::Fetched);
    assert_eq!(hash_status(false, true, FetchReply::Failed), HashStatus::NetworkError);
    assert_eq!(hash_status(false, true, FetchReply::Nothing), HashStatus::NotFound);
    assert!(asks_local_database(&foreign, HashStatus::Cached));
    assert!(!asks_local_database(&stored, HashStatus::Fetched));
    assert_eq!(
        prompt_outcome(&foreign, HashStatus::NotFound, false, false),
        PromptOutcome::Skipped(SkipReason::WrongHost)
    );
    assert_eq!(
        prompt_outcome(&stored, HashStatus::Cached, true, false),
        PromptOutcome::FromCache
    );
    assert_eq!(
        prompt_outcome(&stored, HashStatus::Fetched, false, false),
        PromptOutcome::Left
    );
    assert_eq!(
        prompt_outcome(&Route::Nowhere, HashStatus::NotFound, false, false),
        PromptOutcome::Left
    );
    assert_eq!(
        prompt_outcome(&stored, HashStatus::NotLoggedIn, false, false),
        PromptOutcome::Skipped(SkipReason::NotLoggedIn)
    );
    assert_eq!(
        prompt_outcome(&stored, HashStatus::NetworkError, false, true),
        PromptOutcome::FromLocalDatabase
    );
    assert_eq!(skip_reason(SkipReason::NetworkError), "CAS network error");
}

#[test]
fn outcomes_are_counted() {
    let t = tally_outcomes(&[
        PromptOutcome::FromCache,
        PromptOutcome::FromService,
        PromptOutcome::Left,
        PromptOutcome::FromService,
    ]);
    assert_eq!((t.cached, t.fetched, t.local, t.skipped), (1, 2, 0, 1));
    assert_eq!(
        tally_lines(&t),
        strings(&["    1 cached", "    + 2 fetched from prompt store", "    1 skipped"])
    );
    let none = MessageTally {
        cached: 0,
        fetched: 0,
        local: 0,
        skipped: 0,
    };
    assert!(tally_lines(&none).is_empty());
    assert_eq!(chunk_end(0, 250), 100);
    assert_eq!(chunk_end(200, 250), 250);
}
