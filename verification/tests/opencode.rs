//! What the sessions of OpenCode used, from the rows of its database.

use git_ai::commands::report_token_usage::opencode::{
    Row, SessionRow, parse_model_column, turns_from_rows,
};
use git_ai::commands::report_token_usage::{TokenUsageData, truncate_str};
use serde_json::Value;

/// The rows of a database, with the session and the time of each.
struct Database {
    sessions: Vec<(String, SessionRow)>,
    messages: Vec<(String, i64, String, String)>,
    parts: Vec<(String, i64, String, String)>,
}

impl Database {
    fn new() -> Self {
        Database {
            sessions: vec![],
            messages: vec![],
            parts: vec![],
        }
    }

    /// The rows of a session in the order of their times, as a query gives them.
    fn rows(all: &[(String, i64, String, String)], session_id: &str) -> Vec<Row> {
        let mut found: Vec<_> = all.iter().filter(|r| r.0 == session_id).collect();
        found.sort_by_key(|r| r.1);
        found
            .iter()
            .map(|r| Row {
                id: r.2.clone(),
                data: r.3.clone(),
            })
            .collect()
    }

    fn turns(self, session_id: &str) -> Vec<TokenUsageData> {
        let messages = Self::rows(&self.messages, session_id);
        let parts = Self::rows(&self.parts, session_id);
        let session = self
            .sessions
            .into_iter()
            .find(|s| s.0 == session_id)
            .map(|s| s.1);
        turns_from_rows(&session, session_id, &messages, &parts, &None)
    }
}

fn insert_session(
    db: &mut Database,
    id: &str,
    directory: Option<&str>,
    model: Option<&str>,
    _updated: i64,
) {
    db.sessions.push((
        id.to_string(),
        SessionRow {
            directory: directory.map(|d| d.to_string()),
            model: model.map(|m| m.to_string()),
        },
    ));
}

fn insert_message(db: &mut Database, id: &str, session_id: &str, created: i64, data: &str) {
    db.messages.push((
        session_id.to_string(),
        created,
        id.to_string(),
        data.to_string(),
    ));
}

fn insert_part(
    db: &mut Database,
    _id: &str,
    message_id: &str,
    session_id: &str,
    created: i64,
    data: &str,
) {
    db.parts.push((
        session_id.to_string(),
        created,
        message_id.to_string(),
        data.to_string(),
    ));
}

/// One user prompt answered by two assistant messages (a tool step, then the
/// final answer). Usage must be summed across both; only the last message's
/// text becomes the assistant response.
#[test]
fn test_multi_assistant_message_turn_is_summed() {
    let mut db = Database::new();

    insert_session(&mut db, "ses_test", Some("/tmp/does-not-exist"), None, 1000);

    insert_message(
        &mut db,
        "msg_u1",
        "ses_test",
        10,
        r#"{"role":"user","time":{"created":10}}"#,
    );
    insert_part(
        &mut db,
        "p_u1",
        "msg_u1",
        "ses_test",
        11,
        r#"{"type":"text","text":"hello world"}"#,
    );

    // First assistant step: tool call, with usage.
    insert_message(
        &mut db,
        "msg_a1",
        "ses_test",
        20,
        r#"{"role":"assistant","parentID":"msg_u1","modelID":"gpt-5.4","tokens":{"total":300,"input":100,"output":50,"reasoning":0,"cache":{"write":10,"read":140}}}"#,
    );
    insert_part(
        &mut db,
        "p_a1",
        "msg_a1",
        "ses_test",
        21,
        r#"{"type":"tool","callID":"call_1","tool":"bash","state":{"status":"completed","input":{"command":"ls"},"output":"file.txt"}}"#,
    );

    // Second assistant step: the user-visible answer.
    insert_message(
        &mut db,
        "msg_a2",
        "ses_test",
        30,
        r#"{"role":"assistant","parentID":"msg_u1","modelID":"gpt-5.4","tokens":{"total":200,"input":60,"output":90,"reasoning":50,"cache":{"write":0,"read":0}}}"#,
    );
    insert_part(
        &mut db,
        "p_a2s",
        "msg_a2",
        "ses_test",
        31,
        r#"{"type":"step-start"}"#,
    );
    insert_part(
        &mut db,
        "p_a2t",
        "msg_a2",
        "ses_test",
        32,
        r#"{"type":"text","text":"done!"}"#,
    );

    let turns = db.turns("ses_test");

    assert_eq!(turns.len(), 1, "expected exactly one turn");
    let t = &turns[0];

    assert_eq!(t.turn_index, 1);
    assert_eq!(t.session_id, "ses_test");
    assert_eq!(t.model, "gpt-5.4");

    // input 100+60, output (50+0)+(90+50 reasoning folded in)
    assert_eq!(t.input_tokens, 160);
    assert_eq!(t.output_tokens, 190);
    assert_eq!(t.cache_read_tokens, 140);
    assert_eq!(t.cache_creation_tokens, 10);
    assert_eq!(t.total_tokens, 500);

    assert_eq!(t.user_prompts.as_deref(), Some("hello world"));
    assert_eq!(t.assistant_responses.as_deref(), Some("done!"));

    // Tool usage captured with name / id / arguments / result.
    let tools: Value = serde_json::from_str(t.tool_uses.as_deref().unwrap()).unwrap();
    let arr = tools.as_array().unwrap();
    assert_eq!(arr.len(), 1);
    assert_eq!(arr[0]["name"], "bash");
    assert_eq!(arr[0]["id"], "call_1");
    assert_eq!(arr[0]["order"], 1);
    assert_eq!(arr[0]["arguments"]["command"], "ls");
    assert_eq!(arr[0]["result"], "file.txt");
}

/// Reasoning parts must never leak into the assistant response.
#[test]
fn test_reasoning_parts_are_excluded_from_response() {
    let mut db = Database::new();

    insert_session(&mut db, "ses_r", None, None, 1000);
    insert_message(&mut db, "u", "ses_r", 10, r#"{"role":"user"}"#);
    insert_part(
        &mut db,
        "pu",
        "u",
        "ses_r",
        11,
        r#"{"type":"text","text":"q"}"#,
    );
    insert_message(
        &mut db,
        "a",
        "ses_r",
        20,
        r#"{"role":"assistant","parentID":"u","modelID":"m","tokens":{"input":1,"output":2,"reasoning":3,"cache":{"write":0,"read":0}}}"#,
    );
    insert_part(
        &mut db,
        "pa1",
        "a",
        "ses_r",
        21,
        r#"{"type":"reasoning","text":"SECRET CHAIN OF THOUGHT"}"#,
    );
    insert_part(
        &mut db,
        "pa2",
        "a",
        "ses_r",
        22,
        r#"{"type":"text","text":"the answer"}"#,
    );

    let turns = db.turns("ses_r");
    assert_eq!(turns.len(), 1);
    let resp = turns[0].assistant_responses.as_deref().unwrap();
    assert_eq!(resp, "the answer");
    assert!(!resp.contains("SECRET"));
}

/// Multiple turns are indexed from 1 and kept separate.
#[test]
fn test_multiple_turns_are_indexed_from_one() {
    let mut db = Database::new();

    insert_session(&mut db, "ses_m", None, None, 1000);
    for (i, (uid, aid, text, inp)) in [("u1", "a1", "first", 10), ("u2", "a2", "second", 20)]
        .iter()
        .enumerate()
    {
        let base = (i as i64 + 1) * 100;
        insert_message(&mut db, uid, "ses_m", base, r#"{"role":"user"}"#);
        insert_part(
            &mut db,
            &format!("p{}", uid),
            uid,
            "ses_m",
            base + 1,
            &format!(r#"{{"type":"text","text":"{}"}}"#, text),
        );
        insert_message(
            &mut db,
            aid,
            "ses_m",
            base + 2,
            &format!(
                r#"{{"role":"assistant","parentID":"{}","modelID":"m","tokens":{{"input":{},"output":1,"reasoning":0,"cache":{{"write":0,"read":0}}}}}}"#,
                uid, inp
            ),
        );
        insert_part(
            &mut db,
            &format!("p{}", aid),
            aid,
            "ses_m",
            base + 3,
            &format!(r#"{{"type":"text","text":"reply-{}"}}"#, text),
        );
    }

    let turns = db.turns("ses_m");
    assert_eq!(turns.len(), 2);
    assert_eq!(turns[0].turn_index, 1);
    assert_eq!(turns[0].user_prompts.as_deref(), Some("first"));
    assert_eq!(turns[0].assistant_responses.as_deref(), Some("reply-first"));
    assert_eq!(turns[0].input_tokens, 10);
    assert_eq!(turns[1].turn_index, 2);
    assert_eq!(turns[1].user_prompts.as_deref(), Some("second"));
    assert_eq!(turns[1].input_tokens, 20);
}

/// An assistant message with no `parentID` (older OpenCode) falls back to
/// the most recent preceding user message.
#[test]
fn test_missing_parent_id_falls_back_to_latest_user_message() {
    let mut db = Database::new();

    insert_session(&mut db, "ses_np", None, None, 1000);
    insert_message(&mut db, "u1", "ses_np", 10, r#"{"role":"user"}"#);
    insert_part(
        &mut db,
        "pu1",
        "u1",
        "ses_np",
        11,
        r#"{"type":"text","text":"prompt"}"#,
    );
    insert_message(
        &mut db,
        "a1",
        "ses_np",
        20,
        r#"{"role":"assistant","modelID":"m","tokens":{"input":7,"output":3,"reasoning":0,"cache":{"write":0,"read":0}}}"#,
    );
    insert_part(
        &mut db,
        "pa1",
        "a1",
        "ses_np",
        21,
        r#"{"type":"text","text":"ok"}"#,
    );

    let turns = db.turns("ses_np");
    assert_eq!(turns.len(), 1);
    assert_eq!(turns[0].input_tokens, 7);
    assert_eq!(turns[0].assistant_responses.as_deref(), Some("ok"));
}

/// A prompt with no assistant response yet is skipped, not reported empty.
#[test]
fn test_in_flight_turn_with_no_usage_is_skipped() {
    let mut db = Database::new();

    insert_session(&mut db, "ses_empty", None, None, 1000);
    insert_message(&mut db, "u1", "ses_empty", 10, r#"{"role":"user"}"#);
    insert_part(
        &mut db,
        "pu1",
        "u1",
        "ses_empty",
        11,
        r#"{"type":"text","text":"pending"}"#,
    );

    let turns = db.turns("ses_empty");
    assert!(
        turns.is_empty(),
        "expected no turns for an unanswered prompt"
    );
}

/// Session-level model is used when no assistant message carries one.
#[test]
fn test_session_model_is_used_as_fallback() {
    let mut db = Database::new();

    insert_session(
        &mut db,
        "ses_sm",
        None,
        Some(r#"{"id":"gpt-5.4-mini","providerID":"openai"}"#),
        1000,
    );
    insert_message(&mut db, "u1", "ses_sm", 10, r#"{"role":"user"}"#);
    insert_part(
        &mut db,
        "pu1",
        "u1",
        "ses_sm",
        11,
        r#"{"type":"text","text":"hi"}"#,
    );
    insert_message(
        &mut db,
        "a1",
        "ses_sm",
        20,
        r#"{"role":"assistant","parentID":"u1","tokens":{"input":5,"output":5,"reasoning":0,"cache":{"write":0,"read":0}}}"#,
    );

    let turns = db.turns("ses_sm");
    assert_eq!(turns.len(), 1);
    assert_eq!(turns[0].model, "gpt-5.4-mini");
}

/// Unknown session ids yield no turns rather than an error.
#[test]
fn test_unknown_session_returns_no_turns() {
    let mut db = Database::new();
    insert_session(&mut db, "ses_present", None, None, 1000);

    let turns = db.turns("ses_absent");
    assert!(turns.is_empty());
}

#[test]
fn test_parse_model_column_handles_json_and_plain() {
    assert_eq!(
        parse_model_column(r#"{"id":"gpt-5.4","providerID":"openai"}"#).as_deref(),
        Some("gpt-5.4")
    );
    assert_eq!(
        parse_model_column("plain-model").as_deref(),
        Some("plain-model")
    );
    assert_eq!(parse_model_column("   ").as_deref(), None);
}

#[test]
fn test_truncate_str_appends_marker() {
    assert_eq!(truncate_str("short", 10), "short");
    let long = "x".repeat(20);
    let cut = truncate_str(&long, 5);
    assert!(cut.starts_with("xxxxx"));
    assert!(cut.ends_with("...(truncated)"));
}
