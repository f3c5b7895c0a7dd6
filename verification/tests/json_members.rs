//! The members of JSON texts as they are written, and records with a field twice.

use git_ai::commands::prompt_replay::read_tool_calls;
use git_ai::commands::report_token_usage::claude::{claude_line, usage_from_content};
use git_ai::commands::report_token_usage::opencode::{message_from_json, part_from_json};
use git_ai::commands::report_token_usage::stop_hook_transcript;
use git_ai::feature_flags::DeserializableFeatureFlags;
use git_ai::json_members::{Fields, members};

fn pairs(list: &[(&str, &str)]) -> Vec<(String, String)> {
    list.iter()
        .map(|(key, value)| (key.to_string(), value.to_string()))
        .collect()
}

#[test]
fn members_are_found_as_they_are_written() {
    assert_eq!(
        members("{ \"a\" : {\"b\":[1,2]}, \"c\":\"x,}:\\\"{\" }"),
        pairs(&[
            (" \"a\" ", " {\"b\":[1,2]}"),
            (" \"c\"", "\"x,}:\\\"{\" "),
        ])
    );
    assert_eq!(members("[1,[2,3],{\"a\":4}]"), pairs(&[("", "1"), ("", "[2,3]"), ("", "{\"a\":4}")]));
    assert_eq!(members("\"\\\\\""), pairs(&[]));
}

#[test]
fn a_key_that_is_written_in_two_ways_is_named_twice() {
    let object = Fields::new("{\"a\":1,\"\\u0061\":2,\"b\":{\"a\":3}}");
    assert!(!object.once("a"));
    assert!(object.once("b"));
    assert!(object.once("c"));
    assert_eq!(object.items(), None);
    assert_eq!(object.get("a", 0).as_deref(), Some("2"));
    assert_eq!(object.get("c", 0), None);
    let array = Fields::new("[1,[2],3]");
    assert_eq!(array.items(), Some(3));
    assert!(array.once("a"));
    assert_eq!(array.get("a", 1).as_deref(), Some("[2]"));
    assert_eq!(array.get("a", 3), None);
    assert_eq!(Fields::new("[]").get("a", 0), None);
}

#[test]
fn what_is_not_read_may_hold_anything() {
    let deep = "[".repeat(200) + &"]".repeat(200);
    for odd in ["\"\\ud800\"", "1e999", deep.as_str()] {
        let message = format!("{{\"x\":{},\"role\":\"user\",\"tokens\":{{\"y\":{},\"input\":2}}}}", odd, odd);
        let read = message_from_json(&message).unwrap();
        assert_eq!(read.role.as_deref(), Some("user"));
        assert_eq!(read.tokens.unwrap().input, 2);
        let by_place = format!("[\"user\",null,null,{{\"y\":{}}}]", odd);
        assert!(message_from_json(&by_place).is_some());
        assert!(message_from_json(&format!("{{\"role\":{}}}", odd)).is_none());
        let line = claude_line(&format!("{{\"sessionId\":\"s\",\"x\":{}}}", odd)).unwrap();
        assert_eq!(line.session_id.as_deref(), Some("s"));
        assert!(claude_line(&format!("{{\"sessionId\":\"s\",\"message\":{}}}", odd)).is_none());
        assert!(part_from_json(&format!("{{\"x\":{}}}", odd)).is_some());
        assert!(part_from_json(&format!("{{\"state\":{}}}", odd)).is_none());
        let payload = format!(
            "{{\"session_id\":\"s\",\"transcript_path\":\"/t\",\"cwd\":\"/c\",\"x\":{}}}",
            odd
        );
        assert_eq!(stop_hook_transcript(&payload).as_deref(), Some("/t"));
        let call = format!("[{{\"order\":1,\"name\":\"n\",\"arguments\":1,\"x\":{}}}]", odd);
        assert_eq!(read_tool_calls(&call).len(), 1);
    }
    assert!(message_from_json("{\"\\ud800\":1}").is_none());
    assert!(message_from_json("{\"x\":\"\\q\"}").is_none());
    assert!(message_from_json("{\"x\":01}").is_none());
}

#[test]
fn values_are_read_to_the_depth_that_they_have_in_the_text() {
    let state = |n: usize| format!("{{\"state\":{}{}}}", "[".repeat(n), "]".repeat(n));
    assert!(part_from_json(&state(126)).is_some());
    assert!(part_from_json(&state(127)).is_none());
    let call = |n: usize| {
        format!(
            "[{{\"order\":1,\"name\":\"n\",\"arguments\":{}{}}}]",
            "[".repeat(n),
            "]".repeat(n)
        )
    };
    assert_eq!(read_tool_calls(&call(125)).len(), 1);
    assert!(read_tool_calls(&call(126)).is_empty());
}

#[test]
fn messages_with_a_field_twice_are_refused() {
    let read = |text: &str| message_from_json(text).map(|m| (m.role, m.tokens));
    let (role, tokens) = read("{\"role\":\"user\",\"x\":1,\"x\":2}").unwrap();
    assert_eq!(role.as_deref(), Some("user"));
    assert!(tokens.is_none());
    assert!(read("{\"role\":\"user\",\"role\":\"user\"}").is_none());
    assert!(read("{\"tokens\":{\"input\":1,\"input\":1}}").is_none());
    assert!(read("{\"tokens\":{\"cache\":{\"read\":1,\"read\":1}}}").is_none());
    assert!(read("{\"tokens\":{\"cache\":{\"x\":1,\"x\":1}}}").is_some());
}

#[test]
fn messages_may_be_written_by_position() {
    let message = message_from_json("[\"user\",null,\"m\",[1,2,3,[4]]]").unwrap();
    assert_eq!(message.role.as_deref(), Some("user"));
    assert_eq!(message.parent_id, None);
    assert_eq!(message.model_id.as_deref(), Some("m"));
    let tokens = message.tokens.unwrap();
    assert_eq!((tokens.input, tokens.output, tokens.reasoning), (1, 2, 3));
    assert_eq!((tokens.cache_read, tokens.cache_write), (4, 0));
    let mixed = message_from_json("[null,null,null,{\"output\":5}]").unwrap();
    assert_eq!(mixed.tokens.unwrap().output, 5);
    assert!(message_from_json("[\"user\",null,\"m\"]").is_none());
    assert!(message_from_json("[\"user\",null,\"m\",null,1]").is_none());
    assert!(message_from_json("[null,null,null,[1,2,3]]").is_none());
    assert!(message_from_json("[null,null,null,[1,2,3,[4,5,6]]]").is_none());
    assert!(
        message_from_json("[null,null,null,{\"cache\":{\"read\":1,\"read\":2}}]").is_none()
    );
}

#[test]
fn parts_are_records() {
    let part = part_from_json("[\"tool\",null,\"c\",\"bash\",{\"input\":{\"a\":1},\"output\":\"o\"}]").unwrap();
    assert_eq!(part.part_type.as_deref(), Some("tool"));
    assert_eq!(part.call_id.as_deref(), Some("c"));
    assert_eq!(part.arguments, "{\"a\":1}");
    assert_eq!(part.output.as_deref(), Some("o"));
    assert!(part_from_json("{\"state\":1,\"state\":2}").is_none());
    assert!(part_from_json("{\"state\":{\"input\":1,\"input\":2}}").is_some());
    assert!(part_from_json("[\"tool\"]").is_none());
}

#[test]
fn lines_with_a_field_twice_are_left_out() {
    assert!(claude_line("{\"sessionId\":\"s\",\"type\":\"a\",\"type\":\"b\"}").is_some());
    assert!(claude_line("{\"sessionId\":\"s\",\"sessionId\":\"s\"}").is_none());
    assert!(claude_line("{\"message\":1,\"message\":1}").is_none());
    assert!(claude_line("{\"cost_usd\":1,\"costUSD\":1}").is_some());
    let line = claude_line("[\"s\",null,{\"role\":\"user\"},1.5,null]").unwrap();
    assert_eq!(line.session_id.as_deref(), Some("s"));
    assert!(claude_line("[\"s\",null,null,\"x\",null]").is_none());
    assert!(claude_line("[\"s\"]").is_none());

    let typed = "{\"type\":\"user\",\"promptSource\":\"typed\",\"message\":{\"role\":\"user\",\"content\":\"hi\"}}";
    let turns = usage_from_content(&format!("[\"s1\",null,null,null,null]\n{}", typed), "/p/abc.jsonl");
    assert!(turns.iter().all(|turn| turn.session_id == "s1"));
}

#[test]
fn payloads_and_calls_are_records() {
    let payload = "{\"session_id\":\"s\",\"transcript_path\":\"/t\",\"cwd\":\"/c\"}";
    assert_eq!(stop_hook_transcript(payload).as_deref(), Some("/t"));
    assert_eq!(
        stop_hook_transcript("[\"s\",\"/t\",\"/c\"]").as_deref(),
        Some("/t")
    );
    assert_eq!(
        stop_hook_transcript("[\"s\",\"/t\",\"/c\",\"Stop\"]").as_deref(),
        Some("/t")
    );
    assert_eq!(stop_hook_transcript("[\"s\",\"/t\"]"), None);
    assert_eq!(
        stop_hook_transcript(
            "{\"session_id\":\"s\",\"transcript_path\":\"/t\",\"cwd\":\"/c\",\"cwd\":\"/c\"}"
        ),
        None
    );

    let calls = read_tool_calls("[[1,\"bash\",{\"a\":\"b\"},null,null]]");
    assert_eq!((calls[0].order, calls[0].name.as_str()), (1, "bash"));
    assert_eq!(calls[0].arguments, pairs(&[("a", "b")]));
    let twice = "[{\"order\":1,\"order\":1,\"name\":\"n\",\"arguments\":1}]";
    assert!(read_tool_calls(twice).is_empty());
    assert_eq!(read_tool_calls(&twice.replace("\"order\":1,\"order\"", "\"order\"")).len(), 1);
}

#[test]
fn switches_may_be_written_by_position() {
    let set = DeserializableFeatureFlags::from_json("[false,null,true]").unwrap();
    assert_eq!(set.rewrite_stash, Some(false));
    assert_eq!(set.auth_keyring, None);
    assert_eq!(set.git_hooks_enabled, Some(true));
    assert_eq!(set.transcript_streaming, None);
    assert!(DeserializableFeatureFlags::from_json("[]").is_some());
    assert!(DeserializableFeatureFlags::from_json("[1]").is_none());
    assert!(DeserializableFeatureFlags::from_json("[null,null,null,null,null,null]").is_none());
}
