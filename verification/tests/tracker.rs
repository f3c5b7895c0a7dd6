//! The report of pushed commits.

use git_ai::commands::tracker::config::{
    TrackerConfig, add_to_blacklist, config_path, list_blacklist, remove_from_blacklist,
};
use git_ai::commands::tracker::diff::{
    collect_code_diff, filter_code_only, is_code_line, truncate_to_100kb,
};
use git_ai::commands::tracker::log::{
    LogStatus, first_shown, formatted_line, line_timestamp, log_line, log_path, reason_display,
};
use git_ai::commands::tracker::retry::{
    RetryEntry, is_tried, process_retries, queue_path, save_to_queue,
};
use git_ai::commands::tracker::upload::{
    CommitMeta, Identity, IdentitySources, chosen_timestamp, command_answer, encode_base64,
    gather_commit_info, get_pusher_identity, upload_outcome, upload_payload, upload_url,
    uploaded_message,
};
use git_ai::commands::tracker::{
    CommitAction, CommitEvent, asks_for_toplevel, commit_range, commits_in_range,
    next_commit_action, remote_refs, report_pushed_commits, resolve_work_tree,
};
use git_ai::text_map::TextMap;
use std::io::Read;

fn config(blacklist: &[&str]) -> TrackerConfig {
    TrackerConfig {
        tracker_url: "https://tracker".to_string(),
        team_id: "42".to_string(),
        team_key: "key".to_string(),
        username: None,
        blacklist: blacklist.iter().map(|p| p.to_string()).collect(),
    }
}

fn refs(pairs: &[(&str, &str)]) -> TextMap<String> {
    let mut map = TextMap::new();
    for (branch, sha) in pairs {
        map.insert(branch.to_string(), sha.to_string());
    }
    map
}

#[test]
fn blacklist_grows_and_shrinks() {
    let c = add_to_blacklist(Some(config(&["a"])), "b").ok().unwrap();
    assert_eq!(c.blacklist, vec!["a".to_string(), "b".to_string()]);
    assert_eq!(c.tracker_url, "https://tracker");
    assert_eq!(
        add_to_blacklist(Some(config(&["a"])), "a").err().as_deref(),
        Some("Pattern 'a' already in blacklist")
    );
    let c = remove_from_blacklist(Some(c), "a").ok().unwrap();
    assert_eq!(c.blacklist, vec!["b".to_string()]);
    assert_eq!(list_blacklist(&Some(config(&["x"]))), Ok(vec!["x".to_string()]));
    assert_eq!(
        remove_from_blacklist(Some(config(&["a"])), "z").err().as_deref(),
        Some("Pattern 'z' not found in blacklist")
    );
    assert_eq!(
        remove_from_blacklist(None, "z").err().as_deref(),
        Some("Config file not found")
    );
    assert_eq!(
        add_to_blacklist(None, "z").err().as_deref(),
        Some("Config file not found")
    );
    assert_eq!(
        list_blacklist(&None),
        Err("Config file not found".to_string())
    );
}

#[test]
fn blacklist_forgets_what_was_added() {
    let c = add_to_blacklist(Some(config(&["a"])), "b").ok();
    let c = remove_from_blacklist(c, "b").ok().unwrap();
    assert_eq!(c.blacklist, vec!["a".to_string()]);
}

#[test]
fn tracker_files_stand_in_the_home_directory() {
    assert_eq!(config_path("/home/me"), "/home/me/.git-ai/tracker-config.json");
    assert_eq!(log_path("/home/me"), "/home/me/.git-ai/tracker-upload.log");
    assert_eq!(
        queue_path("/home/me"),
        "/home/me/.easylife-ai/tracker-retry-queue.json"
    );
}

#[test]
fn only_moved_branches_are_reported() {
    let pre = refs(&[("main", "a"), ("same", "b"), ("gone", "c")]);
    let post = refs(&[("main", "d"), ("same", "b"), ("fresh", "e")]);
    let moved = report_pushed_commits(&Some(config(&[])), &pre, &post);
    assert_eq!(moved.len(), 1);
    assert_eq!(moved[0].branch, "main");
    assert_eq!(moved[0].old_sha, "a");
    assert_eq!(moved[0].new_sha, "d");
    assert!(report_pushed_commits(&None, &pre, &post).is_empty());
}

#[test]
fn remote_answers_are_read() {
    let r = remote_refs(true, b"a\trefs/heads/refs/heads/x\nb\trefs/heads/main\nnoise\n");
    assert_eq!(r.len(), 2);
    assert_eq!(r.get("x").map(String::as_str), Some("a"));
    assert_eq!(r.get("main").map(String::as_str), Some("b"));
    assert_eq!(remote_refs(false, b"a\tb\n").len(), 0);
    assert_eq!(commit_range("a", "b"), "a..b");
    assert_eq!(
        commits_in_range(true, b"x\ny\n"),
        vec!["x".to_string(), "y".to_string()]
    );
    assert!(commits_in_range(false, b"x\n").is_empty());
}

#[test]
fn commits_go_their_way() {
    assert!(matches!(
        next_commit_action(CommitEvent::Refused("merge_commit".to_string())),
        CommitAction::LogSkipped(r) if r == "merge_commit"
    ));
    assert!(matches!(next_commit_action(CommitEvent::Accepted), CommitAction::TakeDiff));
    assert!(matches!(next_commit_action(CommitEvent::DiffFailed), CommitAction::Leave));
    assert!(matches!(next_commit_action(CommitEvent::DiffTaken), CommitAction::Upload));
    assert!(matches!(next_commit_action(CommitEvent::Uploaded), CommitAction::MarkReported));
    assert!(matches!(
        next_commit_action(CommitEvent::UploadFailed("x".to_string())),
        CommitAction::LogFailedAndQueue(e) if e == "x"
    ));
}

#[test]
fn work_trees_are_found() {
    assert_eq!(resolve_work_tree("/r/.git/", &None), "/r");
    assert_eq!(resolve_work_tree("/r/x.git.git", &None), "/r/x");
    assert_eq!(resolve_work_tree("/r/", &Some(b"/top\n".to_vec())), "/top");
    assert_eq!(resolve_work_tree("/r//", &None), "/r");
    assert!(asks_for_toplevel("/r"));
    assert!(!asks_for_toplevel("/r/.git/"));
}

const DIFF: &str = "intro\ndiff --git a/x.rs b/x.rs\n+let a;\ndiff --git a/x.png b/x.png\n+bin\ndiff --git a/y.py b/y.py\n+y\n";

#[test]
fn only_code_is_kept() {
    assert_eq!(
        filter_code_only(DIFF),
        "diff --git a/x.rs b/x.rs\n+let a;\ndiff --git a/y.py b/y.py\n+y\n"
    );
    assert_eq!(filter_code_only("diff --git a/x.png b/x.png\n+bin\n"), "");
    assert!(is_code_line("a.svelte"));
    assert!(!is_code_line("a.txt"));
}

#[test]
fn long_changes_are_cut() {
    let short = "x".repeat(102_400);
    assert_eq!(truncate_to_100kb(&short), short);
    assert_eq!(truncate_to_100kb(&"x".repeat(102_401)), short);
    let wide = "é".repeat(102_000);
    assert_eq!(truncate_to_100kb(&wide), wide);
}

#[test]
fn changes_are_compressed() {
    let data = collect_code_diff(true, DIFF.as_bytes(), b"").unwrap();
    assert_eq!(&data[..2], &[0x1f, 0x8b]);
    let mut text = String::new();
    flate2::read::GzDecoder::new(data.as_slice())
        .read_to_string(&mut text)
        .unwrap();
    assert_eq!(text, filter_code_only(DIFF));
    assert_eq!(
        collect_code_diff(false, b"", b"bad object"),
        Err("bad object".to_string())
    );
}

#[test]
fn log_lines_read_back() {
    let line = log_line(
        "2024-01-01T00:00:00+00:00",
        LogStatus::Skipped,
        "0123456789",
        "origin",
        "main",
        "/home/me/repo/.git",
        &Some("merge_commit".to_string()),
    );
    assert_eq!(
        line,
        "2024-01-01T00:00:00+00:00\tskipped\t0123456\torigin/main\t/home/me/repo/.git\tmerge_commit\n"
    );
    let line = line.trim_end();
    assert_eq!(line_timestamp(line).as_deref(), Some("2024-01-01T00:00:00+00:00"));
    assert_eq!(
        formatted_line(line, &Some("2024-01-01 01:00:00".to_string())),
        "2024-01-01 01:00:00 ⊘ 已跳过 0123456 repo/origin/main - 合并提交"
    );
    assert_eq!(formatted_line("a\tb", &None), "a\tb");
    assert_eq!(line_timestamp("a\tb"), None);
    assert_eq!(
        formatted_line("t\todd\ts\tr/b\t/x/y", &None),
        "t odd s y/r/b"
    );
}

#[test]
fn statuses_and_reasons_are_shown() {
    assert_eq!(LogStatus::Uploaded.as_str(), "uploaded");
    assert_eq!(LogStatus::Failed.as_str(), "failed");
    assert_eq!(LogStatus::RetryOk.as_str(), "retry_ok");
    assert_eq!(LogStatus::Uploaded.display_name(), "✓ 上报成功");
    assert_eq!(LogStatus::Failed.display_name(), "✗ 上报失败");
    assert_eq!(LogStatus::RetryOk.display_name(), "↻ 重试成功");
    assert_eq!(reason_display("blacklisted"), "黑名单过滤");
    assert_eq!(reason_display("already_reported"), "已上报过");
    assert_eq!(reason_display("synthetic_message"), "自动生成的提交信息");
    assert_eq!(
        reason_display("copy_paste_threshold"),
        "手动添加代码超过阈值（>1500行）"
    );
    assert_eq!(reason_display("other"), "other");
    assert_eq!(first_shown(10, 3), 7);
    assert_eq!(first_shown(2, 3), 0);
}

fn queued(retry_count: u32) -> RetryEntry {
    let mut entries = vec![];
    save_to_queue(&mut entries, "/r", "sha", vec![1, 2], "origin", "main");
    let mut entry = entries.pop().unwrap();
    assert_eq!(entry.retry_count, 0);
    assert_eq!(entry.diff_gz, vec![1, 2]);
    entry.retry_count = retry_count;
    entry
}

#[test]
fn failed_commits_are_tried_three_times() {
    let entries = vec![queued(0), queued(1), queued(2), queued(3)];
    assert!(is_tried(&entries[2]));
    assert!(!is_tried(&entries[3]));
    let left = process_retries(entries, &vec![false, false, false, false]);
    let counts: Vec<u32> = left.iter().map(|e| e.retry_count).collect();
    assert_eq!(counts, vec![1, 2]);
    let left = process_retries(left, &vec![true, false]);
    assert!(left.is_empty());
}

#[test]
fn base64_has_the_standard_form() {
    assert_eq!(encode_base64(b""), "");
    assert_eq!(encode_base64(b"f"), "Zg==");
    assert_eq!(encode_base64(b"fo"), "Zm8=");
    assert_eq!(encode_base64(b"foo"), "Zm9v");
    assert_eq!(encode_base64(b"foobar"), "Zm9vYmFy");
    assert_eq!(encode_base64(&[0xfb, 0xff, 0xbf]), "+/+/");
}

#[test]
fn commits_are_described() {
    let meta = gather_commit_info(true, b"Fix it\n2024-05-01T10:00:00+08:00\n", b"")
        .ok()
        .unwrap();
    assert_eq!(meta.message, "Fix it");
    assert_eq!(meta.committer_timestamp, "2024-05-01T02:00:00+00:00");
    let meta = gather_commit_info(true, b"Fix it\nyesterday\n", b"").ok().unwrap();
    assert_eq!(meta.committer_timestamp, "yesterday");
    let meta = gather_commit_info(true, b"", b"").ok().unwrap();
    assert_eq!(meta.message, "");
    assert_eq!(meta.committer_timestamp, "");
    assert_eq!(
        gather_commit_info(false, b"", b"no such commit").err().as_deref(),
        Some("no such commit")
    );
    assert_eq!(chosen_timestamp("raw".to_string(), None), "raw");
    assert_eq!(chosen_timestamp("raw".to_string(), Some("utc".to_string())), "utc");
}

fn nobody() -> IdentitySources {
    IdentitySources {
        local_email: None,
        local_name: None,
        global_email: None,
        global_name: None,
        author_email: None,
        author_name: None,
        hostname: None,
    }
}

#[test]
fn the_nearest_identity_decides() {
    let mut s = nobody();
    s.local_email = Some("l@x".to_string());
    s.global_email = Some("g@x".to_string());
    s.global_name = Some("G".to_string());
    let id = get_pusher_identity(s);
    assert_eq!((id.email.as_str(), id.name.as_str()), ("l@x", ""));
    let mut s = nobody();
    s.global_email = Some("g@x".to_string());
    s.global_name = Some("G".to_string());
    let id = get_pusher_identity(s);
    assert_eq!((id.email.as_str(), id.name.as_str()), ("g@x", "G"));
    let mut s = nobody();
    s.author_email = Some("a@x".to_string());
    s.hostname = Some("host".to_string());
    assert_eq!(get_pusher_identity(s).email, "a@x");
    let mut s = nobody();
    s.hostname = Some("host".to_string());
    let id = get_pusher_identity(s);
    assert_eq!((id.email.as_str(), id.name.as_str()), ("host@localhost", "host"));
    assert_eq!(get_pusher_identity(nobody()).email, "");
    assert_eq!(command_answer(true, b" x \n").as_deref(), Some("x"));
    assert_eq!(command_answer(true, b" \n"), None);
    assert_eq!(command_answer(false, b"x"), None);
}

#[test]
fn reports_are_put_together() {
    let meta = || CommitMeta {
        message: "Fix".to_string(),
        committer_timestamp: "t".to_string(),
    };
    let who = || Identity {
        email: "e".to_string(),
        name: "n".to_string(),
    };
    let p = upload_payload(&config(&[]), "/r", &None, "sha", meta(), who(), b"foo", "main")
        .ok()
        .unwrap();
    assert_eq!(p.team_id, 42);
    assert_eq!(p.repo_url, "/r");
    assert_eq!(p.diff_gz.as_deref(), Some("Zm9v"));
    assert_eq!(p.local_ref, "main");
    let mut bad = config(&[]);
    bad.team_id = "team".to_string();
    assert_eq!(
        upload_payload(&bad, "/r", &None, "sha", meta(), who(), b"", "main")
            .err()
            .as_deref(),
        Some("invalid team_id")
    );
    assert_eq!(
        upload_url(&config(&[])),
        "https://tracker/ai-code-boost/open/report/stats"
    );
    assert_eq!(upload_outcome(299), Ok(()));
    assert_eq!(
        upload_outcome(404),
        Err("tracker upload failed: HTTP 404".to_string())
    );
    assert_eq!(
        uploaded_message("0123456789"),
        "[git-ai tracker] uploaded 01234567"
    );
}
