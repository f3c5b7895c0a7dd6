//! Sweeps for transcripts, and the queue of those that wait to be read.

use git_ai::daemon::sweep_coordinator::{
    AgentSweep, DiscoveredSession, FileFacts, SessionRecord, SessionToProcess, SweepCoordinator,
    TranscriptError,
};
use git_ai::daemon::transcript_worker::{
    CheckpointNotification, Priority, ProcessingTask, TranscriptWorker, must_wait,
    session_not_found, task_panicked, unknown_agent,
};

fn found(id: &str, file: Result<FileFacts, String>) -> DiscoveredSession {
    DiscoveredSession {
        session_id: id.to_string(),
        tool: "codex".to_string(),
        canonical_path: format!("/t/{}.jsonl", id),
        external_session_id: format!("ext-{}", id),
        external_parent_session_id: Some("parent".to_string()),
        file,
    }
}

fn facts(size: u64, modified: Option<i64>) -> Result<FileFacts, String> {
    Ok(FileFacts { size, modified })
}

fn agent(periodic: bool, sessions: Option<Vec<DiscoveredSession>>) -> AgentSweep {
    AgentSweep {
        agent_type: "codex".to_string(),
        periodic,
        sessions,
    }
}

fn record(id: &str, size: i64, modified: Option<i64>) -> SessionRecord {
    SessionRecord {
        session_id: id.to_string(),
        transcript_path: format!("/t/{}.jsonl", id),
        last_known_size: size,
        last_modified: modified,
    }
}

fn ids(sessions: &[SessionToProcess]) -> Vec<&str> {
    sessions.iter().map(|s| s.session_id.as_str()).collect()
}

#[test]
fn sweep_finds_new_and_changed_sessions() {
    let coordinator = SweepCoordinator::new(vec![
        record("same", 10, Some(5)),
        record("grown", 10, Some(5)),
        record("touched", 10, Some(5)),
        record("untimed", 10, Some(5)),
    ]);
    let agents = vec![
        agent(
            true,
            Some(vec![
                found("new", Err("gone".to_string())),
                found("same", facts(10, Some(5))),
                found("grown", facts(11, Some(5))),
                found("touched", facts(10, Some(6))),
                found("untimed", facts(10, None)),
            ]),
        ),
        agent(false, Some(vec![found("other", facts(1, None))])),
        agent(true, None),
    ];
    let work = coordinator.run_sweep(&agents).ok().unwrap();
    assert_eq!(ids(&work), vec!["new", "grown", "touched"]);
    assert_eq!(work[0].canonical_path, "/t/new.jsonl");
    assert_eq!(work[0].external_session_id, "ext-new");
    assert_eq!(work[0].external_parent_session_id.as_deref(), Some("parent"));
}

#[test]
fn sweep_fails_on_a_known_file_that_cannot_be_looked_at() {
    let coordinator = SweepCoordinator::new(vec![record("a", 1, None)]);
    let agents = vec![agent(true, Some(vec![found("a", Err("denied".to_string()))]))];
    match coordinator.run_sweep(&agents) {
        Err(TranscriptError::Transient {
            message,
            retry_after_secs,
        }) => {
            assert_eq!(message, "failed to stat file: denied");
            assert_eq!(retry_after_secs, 5);
        }
        _ => panic!("expected a transient error"),
    }
}

fn notify(worker: &mut TranscriptWorker, id: &str) {
    worker.handle_checkpoint_notification(CheckpointNotification {
        session_id: id.to_string(),
        tool: "codex".to_string(),
        trace_id: "t".to_string(),
        canonical_path: format!("/t/{}", id),
    });
}

fn swept(id: &str) -> SessionToProcess {
    SessionToProcess {
        session_id: id.to_string(),
        tool: "codex".to_string(),
        canonical_path: format!("/t/{}", id),
        external_session_id: "e".to_string(),
        external_parent_session_id: None,
    }
}

fn transient(message: &str) -> Option<TranscriptError> {
    Some(TranscriptError::Transient {
        message: message.to_string(),
        retry_after_secs: 5,
    })
}

#[test]
fn checkpoints_are_read_before_sweeps() {
    let mut worker = TranscriptWorker::new();
    worker.queue_swept(&vec![swept("s1"), swept("s2")]);
    notify(&mut worker, "c1");
    notify(&mut worker, "c2");
    let mut order = vec![];
    while let Some(task) = worker.process_next_task(0) {
        order.push(task.session_id.clone());
        assert_eq!(worker.finish_task(task, None, 0), None);
    }
    assert_eq!(order, vec!["c2", "c1", "s2", "s1"]);
    assert!(worker.in_flight.is_empty());
}

#[test]
fn sessions_being_read_are_not_queued_again() {
    let mut worker = TranscriptWorker::new();
    notify(&mut worker, "a");
    let task = worker.process_next_task(0).unwrap();
    notify(&mut worker, "a");
    worker.queue_swept(&vec![swept("a"), swept("b")]);
    assert_eq!(worker.queue.len(), 1);
    assert_eq!(worker.queue[0].session_id, "b");
    worker.finish_task(task, None, 0);
    notify(&mut worker, "a");
    assert_eq!(worker.queue.len(), 2);
}

#[test]
fn failed_tasks_wait_longer_each_time_and_are_dropped() {
    let mut worker = TranscriptWorker::new();
    notify(&mut worker, "a");
    let mut now = 1_000;
    for delay in [5_000, 30_000, 300_000] {
        let task = worker.process_next_task(now).unwrap();
        assert_eq!(worker.finish_task(task, transient("busy"), now), None);
        assert!(worker.process_next_task(now + delay - 1).is_none());
        assert_eq!(worker.delayed.len(), 1);
        now += delay;
    }
    let task = worker.process_next_task(now).unwrap();
    assert_eq!(task.retry_count, 3);
    assert_eq!(
        worker.finish_task(task, transient("busy"), now).as_deref(),
        Some("max retries: busy")
    );
    assert!(worker.queue.is_empty() && worker.delayed.is_empty());
}

#[test]
fn hopeless_tasks_are_recorded_and_dropped() {
    let mut worker = TranscriptWorker::new();
    notify(&mut worker, "a");
    let task = worker.process_next_task(0).unwrap();
    let error = TranscriptError::Parse {
        line: 7,
        message: "odd".to_string(),
    };
    assert_eq!(
        worker.finish_task(task, Some(error), 0).as_deref(),
        Some("parse line 7: odd")
    );
    notify(&mut worker, "a");
    let task = worker.process_next_task(0).unwrap();
    assert_eq!(
        worker
            .finish_task(task, Some(session_not_found("a")), 0)
            .as_deref(),
        Some("fatal: session not found: a")
    );
    assert!(worker.queue.is_empty());
    assert!(matches!(unknown_agent("x"), TranscriptError::Fatal { message } if message == "unknown agent type: x"));
    assert!(matches!(task_panicked("x"), TranscriptError::Fatal { message } if message == "task panicked: x"));
}

#[test]
fn drain_takes_all_urgent_tasks() {
    let mut worker = TranscriptWorker::new();
    notify(&mut worker, "late");
    let task = worker.process_next_task(0).unwrap();
    worker.finish_task(task, transient("busy"), 0);
    assert!(worker.process_next_task(1).is_none());
    worker.queue_swept(&vec![swept("s")]);
    notify(&mut worker, "c");
    let drained = worker.drain_immediate_tasks();
    let names: Vec<&str> = drained.iter().map(|t| t.session_id.as_str()).collect();
    assert_eq!(names, vec!["c", "late"]);
    assert!(drained.iter().all(|t| t.priority == Priority::Immediate));
    assert!(worker.queue.is_empty() && worker.delayed.is_empty());
}

#[test]
fn a_task_that_is_not_ready_goes_back() {
    let mut worker = TranscriptWorker::new();
    worker.queue.push(ProcessingTask {
        priority: Priority::Low,
        session_id: "a".to_string(),
        tool: "codex".to_string(),
        canonical_path: "/t/a".to_string(),
        retry_count: 1,
        next_retry_at: Some(50),
    });
    assert!(worker.process_next_task(49).is_none());
    assert_eq!(worker.delayed.len(), 1);
    assert_eq!(worker.process_next_task(50).unwrap().session_id, "a");
    assert_eq!(worker.in_flight, vec!["/t/a".to_string()]);
}

#[test]
fn readers_wait_while_the_buffer_is_full() {
    assert!(must_wait(5_000, 0));
    assert!(must_wait(9_000, 39));
    assert!(!must_wait(9_000, 40));
    assert!(!must_wait(4_999, 0));
}
