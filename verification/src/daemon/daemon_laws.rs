//! What the daemon's bookkeeping promises: what is read next, what is tried again, and what
//! a family of worktrees looks like after a command.
use vstd::prelude::*;

use crate::daemon::domain::{RefChangeView, WorktreeState};
use crate::daemon::reducer::{head_after, next_seq, refs_after, worktree_path, worktree_state_after};
use crate::daemon::ref_args_laws::law_id_of_nothing;
use crate::daemon::sweep_coordinator::{
    AgentSweepView, DiscoveredSessionView, FileFacts, SessionRecordView, SessionToProcessView,
    TranscriptErrorView, needs_work, record_from, swept_agents, swept_sessions, work_of,
};
use crate::daemon::transcript_worker::{
    BACKPRESSURE_MAX_WAITS, BACKPRESSURE_THRESHOLD, LONGEST_DELAY_MS, MAX_TRIES, Priority, TaskView,
    WorkerView, delay_of, finished, fresh, goes_before, is_ready, next_of, released, swapped_out,
    with_path, with_swept, without_path,
};
use crate::model::opt_view;
use crate::text::{decimal_of, trimmed};
use crate::text_laws::law_trimmed_ends;
use crate::text_order::text_lt;

verus! {

// --------------------------------------------------------------------------- the order of work

/// What a checkpoint asks for goes before what a sweep found; of two of the same kind the
/// one whose session comes later in the alphabet goes first.
pub proof fn law_order_of_tasks(a: TaskView, b: TaskView)
    ensures
        a.priority == Priority::Immediate && b.priority == Priority::Low ==> goes_before(a, b) && !goes_before(b, a),
        a.priority == b.priority ==> (goes_before(a, b) <==> text_lt(b.session_id, a.session_id)),
{
}

/// The next task is one that none of the others goes before, and the earliest such.
pub proof fn law_next_task(queue: Seq<TaskView>, task: TaskView)
    ensures
        next_of(seq![task]) == 0,
        queue.len() > 0 && goes_before(task, queue[next_of(queue)]) ==> next_of(queue.push(task)) == queue.len(),
        queue.len() > 0 && !goes_before(task, queue[next_of(queue)]) ==> next_of(queue.push(task)) == next_of(queue),
        queue.len() > 0 ==> 0 <= next_of(queue) < queue.len(),
    decreases queue.len(),
{
    assert(queue.push(task).drop_last() =~= queue);
    if queue.len() > 1 {
        law_next_task(queue.drop_last(), task);
    }
    if queue.len() > 0 {
        let k = next_of(queue);
        if 0 <= k < queue.len() {
            assert(queue.push(task)[k] == queue[k]);
        }
    }
}

/// A task may be tried from its time on; one without a time at once.
pub proof fn law_time_of_a_task(task: TaskView, now: u64, at: u64)
    ensures
        task.next_retry_at is None ==> is_ready(task, now),
        task.next_retry_at == Some(at) && now >= at ==> is_ready(task, now),
        task.next_retry_at == Some(at) && now < at ==> !is_ready(task, now),
{
}

/// All tasks whose time has come are released, and no others.
pub proof fn law_tasks_are_released_in_time(delayed: Seq<TaskView>, queue: Seq<TaskView>, i: int, now: u64)
    requires
        0 <= i <= delayed.len(),
        forall|j: int| 0 <= j < i ==> !is_ready(#[trigger] delayed[j], now),
    ensures
        ({
            let (left, out) = released(delayed, queue, i, now);
            &&& forall|j: int| 0 <= j < left.len() ==> !is_ready(#[trigger] left[j], now)
            &&& out.len() >= queue.len()
            &&& out.take(queue.len() as int) == queue
            &&& forall|j: int| queue.len() <= j < out.len() ==> is_ready(#[trigger] out[j], now)
            &&& left.len() + out.len() == delayed.len() + queue.len()
        }),
    decreases delayed.len() - i,
{
    if i < delayed.len() {
        if is_ready(delayed[i], now) {
            let less = swapped_out(delayed, i);
            let more = queue.push(delayed[i]);
            assert forall|j: int| 0 <= j < i implies !is_ready(#[trigger] less[j], now) by {
                assert(less[j] == delayed[j]);
            }
            law_tasks_are_released_in_time(less, more, i, now);
            let (left, out) = released(less, more, i, now);
            assert(out.take(queue.len() as int) =~= out.take(more.len() as int).take(queue.len() as int));
            assert(more.take(queue.len() as int) =~= queue);
            assert forall|j: int| queue.len() <= j < out.len() implies is_ready(#[trigger] out[j], now) by {
                if j == queue.len() {
                    assert(out.take(more.len() as int)[j] == more[j]);
                }
            }
        } else {
            law_tasks_are_released_in_time(delayed, queue, i + 1, now);
        }
    } else {
        assert(queue.take(queue.len() as int) =~= queue);
    }
}

/// A new task was never tried and may be tried at once.
pub proof fn law_new_task(priority: Priority, session: Seq<char>, tool: Seq<char>, path: Seq<char>)
    ensures
        fresh(priority, session, tool, path) == (TaskView { priority, session_id: session, tool, canonical_path: path, retry_count: 0, next_retry_at: None }),
{
}

/// What a sweep found is queued in its order, with the sweep's priority, unless it is being
/// read.
pub proof fn law_swept_sessions_are_queued(queue: Seq<TaskView>, in_flight: Seq<Seq<char>>, found: Seq<SessionToProcessView>, s: SessionToProcessView)
    ensures
        with_swept(queue, in_flight, Seq::empty()) == queue,
        in_flight.contains(s.canonical_path) ==> with_swept(queue, in_flight, found.push(s)) == with_swept(queue, in_flight, found),
        !in_flight.contains(s.canonical_path) ==> with_swept(queue, in_flight, found.push(s)) == with_swept(queue, in_flight, found).push(
            TaskView { priority: Priority::Low, session_id: s.session_id, tool: s.tool, canonical_path: s.canonical_path, retry_count: 0, next_retry_at: None },
        ),
{
    assert(found.push(s).drop_last() =~= found);
}

/// The sessions that are being read: each is there once, and gone when it was read.
pub proof fn law_sessions_being_read(paths: Seq<Seq<char>>, path: Seq<char>)
    ensures
        with_path(paths, path).contains(path),
        paths.contains(path) ==> with_path(paths, path) == paths,
        !paths.contains(path) ==> with_path(paths, path) == paths.push(path),
        without_path(paths, path) == paths.filter(|p: Seq<char>| p != path),
    decreases paths.len(),
{
    reveal(Seq::filter);
    if paths.len() > 0 {
        law_sessions_being_read(paths.drop_last(), path);
    }
    assert(paths.push(path).last() == path);
    assert(paths.push(path)[paths.len() as int] == path);
}

// --------------------------------------------------------------------------- trying again

/// A task that went wrong for a while is tried again: after five seconds, then after half a
/// minute, then after five minutes; after that it is given up.
pub proof fn law_when_a_task_is_tried_again(w: WorkerView, task: TaskView, message: Seq<char>, retry_after_secs: u64, now: u64)
    requires
        now <= u64::MAX - 300_000,
    ensures
        ({
            let e = Some(TranscriptErrorView::Transient { message, retry_after_secs });
            let r = finished(w, task, e, now);
            let left = w.in_flight.filter(|p: Seq<char>| p != task.canonical_path);
            &&& r.0.in_flight == left && r.0.delayed == w.delayed
            &&& task.retry_count == 0 ==> r.0.queue == w.queue.push(TaskView { retry_count: 1, next_retry_at: Some((now + 5_000) as u64), ..task }) && r.1 is None
            &&& task.retry_count == 1 ==> r.0.queue == w.queue.push(TaskView { retry_count: 2, next_retry_at: Some((now + 30_000) as u64), ..task }) && r.1 is None
            &&& task.retry_count == 2 ==> r.0.queue == w.queue.push(TaskView { retry_count: 3, next_retry_at: Some((now + 300_000) as u64), ..task }) && r.1 is None
            &&& 3 <= task.retry_count < u32::MAX ==> r.0.queue == w.queue && r.1 == Some("max retries: "@ + message)
        }),
{
    law_sessions_being_read(w.in_flight, task.canonical_path);
}

/// A task that makes no sense, or never will work, is given up at once, with its cause; one
/// that went well just ends.
pub proof fn law_tasks_that_end(w: WorkerView, task: TaskView, message: Seq<char>, line: usize, now: u64)
    ensures
        ({
            let left = w.in_flight.filter(|p: Seq<char>| p != task.canonical_path);
            let idle = WorkerView { in_flight: left, ..w };
            &&& finished(w, task, None, now) == (idle, None::<Seq<char>>)
            &&& finished(w, task, Some(TranscriptErrorView::Fatal { message }), now) == (idle, Some("fatal: "@ + message))
            &&& finished(w, task, Some(TranscriptErrorView::Parse { line, message }), now) == (idle, Some("parse line "@ + decimal_of(line as nat) + ": "@ + message))
        }),
{
    law_sessions_being_read(w.in_flight, task.canonical_path);
}

/// The bounds of the worker.
pub proof fn law_bounds_of_the_worker(n: u32)
    ensures
        MAX_TRIES == 4,
        LONGEST_DELAY_MS == 300_000,
        BACKPRESSURE_THRESHOLD == 5_000,
        BACKPRESSURE_MAX_WAITS == 40,
        delay_of(n) <= LONGEST_DELAY_MS,
        delay_of(1) == 5_000,
        delay_of(2) == 30_000,
        n > 2 ==> delay_of(n) == 300_000,
{
}

// --------------------------------------------------------------------------- sweeps

/// A session is looked up by its id and its transcript; the first record counts.
pub proof fn law_record_of_a_session(known: Seq<SessionRecordView>, session: Seq<char>, path: Seq<char>, i: int)
    requires
        0 <= i <= known.len(),
    ensures
        match record_from(known, session, path, i) {
            Some(r) => exists|k: int| i <= k < known.len() && r == #[trigger] known[k] && r.session_id == session && r.transcript_path == path && (forall|j: int| i <= j < k ==> (#[trigger] known[j]).session_id != session || known[j].transcript_path != path),
            None => forall|j: int| i <= j < known.len() ==> (#[trigger] known[j]).session_id != session || known[j].transcript_path != path,
        },
    decreases known.len() - i,
{
    if i < known.len() {
        if known[i].session_id == session && known[i].transcript_path == path {
            assert(record_from(known, session, path, i) == Some(known[i]));
        } else {
            law_record_of_a_session(known, session, path, i + 1);
        }
    }
}

/// A session has to be read where it is new, or where its file has another size or, where
/// the file says when it was changed, was changed at another time. One whose file cannot be
/// looked at breaks the sweep off; it may work five seconds later.
pub proof fn law_sessions_to_read(known: Seq<SessionRecordView>, found: DiscoveredSessionView, cause: Seq<char>)
    ensures
        record_from(known, found.session_id, found.canonical_path, 0) is None ==> needs_work(known, found) == Ok::<bool, TranscriptErrorView>(true),
        record_from(known, found.session_id, found.canonical_path, 0) matches Some(r) ==> ({
            &&& found.file == Err::<FileFacts, Seq<char>>(cause) ==> needs_work(known, found) == Err::<bool, TranscriptErrorView>(TranscriptErrorView::Transient { message: "failed to stat file: "@ + cause, retry_after_secs: 5 })
            &&& found.file matches Ok(f) ==> ({
                &&& f.size as i64 != r.last_known_size ==> needs_work(known, found) == Ok::<bool, TranscriptErrorView>(true)
                &&& f.modified is Some && f.modified != r.last_modified ==> needs_work(known, found) == Ok::<bool, TranscriptErrorView>(true)
                &&& f.size as i64 == r.last_known_size && (f.modified is None || f.modified == r.last_modified) ==> needs_work(known, found) == Ok::<bool, TranscriptErrorView>(false)
            })
        }),
{
}

/// What is handed on of a session is what was found of it.
pub proof fn law_found_session_is_handed_on(found: DiscoveredSessionView)
    ensures
        work_of(found).session_id == found.session_id,
        work_of(found).tool == found.tool,
        work_of(found).canonical_path == found.canonical_path,
        work_of(found).external_session_id == found.external_session_id,
        work_of(found).external_parent_session_id == found.external_parent_session_id,
{
}

/// The sessions of an agent are gone through in their order; the first failure ends it.
pub proof fn law_sessions_in_their_order(known: Seq<SessionRecordView>, found: Seq<DiscoveredSessionView>, i: int, out: Seq<SessionToProcessView>)
    requires
        0 <= i < found.len(),
    ensures
        swept_sessions(known, found, found.len() as int, out) == Ok::<Seq<SessionToProcessView>, TranscriptErrorView>(out),
        needs_work(known, found[i]) matches Err(e) ==> swept_sessions(known, found, i, out) == Err::<Seq<SessionToProcessView>, TranscriptErrorView>(e),
        needs_work(known, found[i]) == Ok::<bool, TranscriptErrorView>(true) ==> swept_sessions(known, found, i, out) == swept_sessions(known, found, i + 1, out.push(work_of(found[i]))),
        needs_work(known, found[i]) == Ok::<bool, TranscriptErrorView>(false) ==> swept_sessions(known, found, i, out) == swept_sessions(known, found, i + 1, out),
{
}

/// The agents are gone through in their order; one that is not swept, or whose sessions
/// could not be listed, is passed over.
pub proof fn law_agents_in_their_order(known: Seq<SessionRecordView>, agents: Seq<AgentSweepView>, i: int, out: Seq<SessionToProcessView>)
    requires
        0 <= i < agents.len(),
    ensures
        swept_agents(known, agents, agents.len() as int, out) == Ok::<Seq<SessionToProcessView>, TranscriptErrorView>(out),
        !agents[i].periodic ==> swept_agents(known, agents, i, out) == swept_agents(known, agents, i + 1, out),
        agents[i].sessions is None ==> swept_agents(known, agents, i, out) == swept_agents(known, agents, i + 1, out),
        agents[i].periodic ==> (agents[i].sessions matches Some(found) ==> (match swept_sessions(known, found, 0, out) {
            Err(e) => swept_agents(known, agents, i, out) == Err::<Seq<SessionToProcessView>, TranscriptErrorView>(e),
            Ok(more) => swept_agents(known, agents, i, out) == swept_agents(known, agents, i + 1, more),
        })),
{
}

// --------------------------------------------------------------------------- families

/// The commands of a family are numbered one by one.
pub proof fn law_commands_are_numbered(n: u64)
    ensures
        n < u64::MAX ==> next_seq(n) == n + 1,
        next_seq(u64::MAX) == u64::MAX,
{
}

/// `HEAD` of a worktree stands where its last move went; without a move it is not known.
pub proof fn law_head_after_a_command(changes: Seq<RefChangeView>, change: RefChangeView)
    ensures
        head_after(Seq::empty()) is None,
        change.reference == "HEAD"@ ==> head_after(changes.push(change)) == Some(change.new),
        change.reference != "HEAD"@ ==> head_after(changes.push(change)) == head_after(changes),
{
    assert(changes.push(change).drop_last() =~= changes);
}

/// What is known of a worktree after a command: where `HEAD` went and when.
pub proof fn law_worktree_after_a_command(w: WorktreeState, changes: Seq<RefChangeView>, at: u128)
    ensures
        worktree_state_after(w, changes, at) <==> opt_view(w.head) == head_after(changes) && w.branch is None && !w.detached && w.last_updated_ns == at,
{
}

/// A worktree is known by its path with links resolved, where that can be had; without a
/// worktree there is no path.
pub proof fn law_path_of_a_worktree(path: Seq<char>, canonical: Seq<char>)
    ensures
        worktree_path(Some(path), Some(canonical)) == Some(canonical),
        worktree_path(Some(path), None) == Some(path),
        worktree_path(None, Some(canonical)) is None,
        worktree_path(None, None) is None,
{
}

/// A ref that moves to nothing is gone; one that moves to an object stands there.
pub proof fn law_moves_of_refs(refs: Map<Seq<char>, Seq<char>>, changes: Seq<RefChangeView>, reference: Seq<char>, old: Seq<char>, new: Seq<char>, i: int)
    requires
        0 <= i < new.len(),
        new[i] != '0',
        trimmed(new).len() > 0,
    ensures
        refs_after(refs, changes.push(RefChangeView { reference, old, new })) == refs_after(refs, changes).insert(reference, new),
        refs_after(refs, changes.push(RefChangeView { reference, old, new: "0000000000000000000000000000000000000000"@ })) == refs_after(refs, changes).remove(reference),
        refs_after(refs, changes.push(RefChangeView { reference, old, new: Seq::empty() })) == refs_after(refs, changes).remove(reference),
        refs_after(refs, Seq::empty()) == refs,
{
    let a = RefChangeView { reference, old, new };
    let b = RefChangeView { reference, old, new: "0000000000000000000000000000000000000000"@ };
    let c = RefChangeView { reference, old, new: Seq::empty() };
    assert(changes.push(a).drop_last() =~= changes);
    assert(changes.push(b).drop_last() =~= changes);
    assert(changes.push(c).drop_last() =~= changes);
    reveal_strlit("0000000000000000000000000000000000000000");
    assert forall|k: int| 0 <= k < 40 implies #[trigger] b.new[k] == '0' by {
        law_id_of_nothing(k);
    }
    law_trimmed_ends(Seq::empty());
}

} // verus!
