//! The queue of transcripts that are waiting to be read.
//!
//! Tasks come from checkpoints, which are read first, and from sweeps. A task
//! that fails and may work later waits for a while and is tried again. Times
//! are milliseconds since the worker's start.

use crate::daemon::sweep_coordinator::{
    SessionToProcess, SessionToProcessView, TranscriptError, TranscriptErrorView,
};
use crate::model::{lemma_views_push, views};
use crate::text::{concat, decimal, decimal_of, lemma_texts_push, list_contains, str_eq, texts};
use crate::text_order::{lemma_text_lt_irreflexive, lemma_text_lt_transitive, str_lt, text_lt};
use vstd::prelude::*;

verus! {

/// The number of tries after which a task is dropped.
pub const MAX_TRIES: u32 = 4;

/// The longest that a task waits for its next try.
pub const LONGEST_DELAY_MS: u64 = 300_000;

/// The number of buffered events from which on a reader waits.
pub const BACKPRESSURE_THRESHOLD: usize = 5_000;

/// How often a reader waits at most between two batches.
pub const BACKPRESSURE_MAX_WAITS: usize = 40;

/// How urgent a task is.
#[derive(Clone, Copy, PartialEq, Eq, Structural, Debug)]
pub enum Priority {
    /// A checkpoint asked for it.
    Immediate,
    /// A sweep found it.
    Low,
}

/// A transcript to be read.
pub struct ProcessingTask {
    pub priority: Priority,
    pub session_id: String,
    pub tool: String,
    pub canonical_path: String,
    pub retry_count: u32,
    pub next_retry_at: Option<u64>,
}

/// The model of a task.
pub struct TaskView {
    pub priority: Priority,
    pub session_id: Seq<char>,
    pub tool: Seq<char>,
    pub canonical_path: Seq<char>,
    pub retry_count: u32,
    pub next_retry_at: Option<u64>,
}

impl View for ProcessingTask {
    type V = TaskView;

    open spec fn view(&self) -> TaskView {
        TaskView {
            priority: self.priority,
            session_id: self.session_id@,
            tool: self.tool@,
            canonical_path: self.canonical_path@,
            retry_count: self.retry_count,
            next_retry_at: self.next_retry_at,
        }
    }
}

/// A message that a checkpoint was recorded.
pub struct CheckpointNotification {
    pub session_id: String,
    pub tool: String,
    pub trace_id: String,
    /// The transcript's path, with links resolved.
    pub canonical_path: String,
}

/// The tasks of a worker: those that wait for their turn, those that wait for
/// their time, and the paths that are being read.
pub struct TranscriptWorker {
    pub queue: Vec<ProcessingTask>,
    pub delayed: Vec<ProcessingTask>,
    pub in_flight: Vec<String>,
}

/// The model of a worker's tasks.
#[verifier::ext_equal]
pub struct WorkerView {
    pub queue: Seq<TaskView>,
    pub delayed: Seq<TaskView>,
    pub in_flight: Seq<Seq<char>>,
}

impl View for TranscriptWorker {
    type V = WorkerView;

    open spec fn view(&self) -> WorkerView {
        WorkerView {
            queue: views(self.queue@),
            delayed: views(self.delayed@),
            in_flight: texts(self.in_flight@),
        }
    }
}

/// Whether a task leaves the queue before another: the urgent one, and among
/// equally urgent ones that of the greater session.
pub open spec fn goes_before(a: TaskView, b: TaskView) -> bool {
    if a.priority != b.priority {
        a.priority == Priority::Immediate
    } else {
        text_lt(b.session_id, a.session_id)
    }
}

/// The place of the task that leaves the queue next, among equals the first.
pub open spec fn next_of(queue: Seq<TaskView>) -> int
    decreases queue.len(),
{
    if queue.len() <= 1 {
        0
    } else {
        let k = next_of(queue.drop_last());
        if goes_before(queue.last(), queue[k]) {
            queue.len() - 1
        } else {
            k
        }
    }
}

/// Whether a task may be tried.
pub open spec fn is_ready(task: TaskView, now: u64) -> bool {
    match task.next_retry_at {
        None => true,
        Some(at) => now >= at,
    }
}

/// A list without one entry, whose place the last one takes.
pub open spec fn swapped_out<T>(s: Seq<T>, i: int) -> Seq<T> {
    s.update(i, s.last()).drop_last()
}

/// The tasks that still wait, and the queue with those whose time has come.
pub open spec fn released(
    delayed: Seq<TaskView>,
    queue: Seq<TaskView>,
    i: int,
    now: u64,
) -> (Seq<TaskView>, Seq<TaskView>)
    decreases delayed.len() - i,
{
    if i < 0 || i >= delayed.len() {
        (delayed, queue)
    } else if is_ready(delayed[i], now) {
        released(swapped_out(delayed, i), queue.push(delayed[i]), i, now)
    } else {
        released(delayed, queue, i + 1, now)
    }
}

/// A list of paths with one more, if it is not there.
pub open spec fn with_path(paths: Seq<Seq<char>>, path: Seq<char>) -> Seq<Seq<char>> {
    if paths.contains(path) {
        paths
    } else {
        paths.push(path)
    }
}

/// A list of paths without one of them.
pub open spec fn without_path(paths: Seq<Seq<char>>, path: Seq<char>) -> Seq<Seq<char>>
    decreases paths.len(),
{
    if paths.len() == 0 {
        paths
    } else if paths.last() == path {
        without_path(paths.drop_last(), path)
    } else {
        without_path(paths.drop_last(), path).push(paths.last())
    }
}

/// A worker after it has taken its next task, and that task.
pub open spec fn taken(w: WorkerView, now: u64) -> (WorkerView, Option<TaskView>) {
    let (delayed, queue) = released(w.delayed, w.queue, 0, now);
    if queue.len() == 0 {
        (WorkerView { delayed, queue, ..w }, None)
    } else {
        let k = next_of(queue);
        let task = queue[k];
        let rest = queue.remove(k);
        if is_ready(task, now) {
            (
                WorkerView {
                    delayed,
                    queue: rest,
                    in_flight: with_path(w.in_flight, task.canonical_path),
                },
                Some(task),
            )
        } else {
            (WorkerView { delayed: delayed.push(task), queue: rest, ..w }, None)
        }
    }
}

/// A fresh task.
pub open spec fn fresh(
    priority: Priority,
    session_id: Seq<char>,
    tool: Seq<char>,
    canonical_path: Seq<char>,
) -> TaskView {
    TaskView {
        priority,
        session_id,
        tool,
        canonical_path,
        retry_count: 0,
        next_retry_at: None,
    }
}

/// A queue with the sessions that a sweep has found, but for those that are
/// being read.
pub open spec fn with_swept(
    queue: Seq<TaskView>,
    in_flight: Seq<Seq<char>>,
    found: Seq<SessionToProcessView>,
) -> Seq<TaskView>
    decreases found.len(),
{
    if found.len() == 0 {
        queue
    } else {
        let before = with_swept(queue, in_flight, found.drop_last());
        let s = found.last();
        if in_flight.contains(s.canonical_path) {
            before
        } else {
            before.push(fresh(Priority::Low, s.session_id, s.tool, s.canonical_path))
        }
    }
}

/// How long a task waits before it is tried again.
pub open spec fn delay_of(retry_count: u32) -> u64 {
    if retry_count == 1 {
        5_000
    } else if retry_count == 2 {
        30_000
    } else {
        300_000
    }
}

/// A worker after a task has failed, and what is recorded of the session.
pub open spec fn failed(
    w: WorkerView,
    task: TaskView,
    error: TranscriptErrorView,
    now: u64,
) -> (WorkerView, Option<Seq<char>>) {
    match error {
        TranscriptErrorView::Transient { message, .. } => {
            let retry_count = (task.retry_count + 1) as u32;
            if retry_count >= MAX_TRIES {
                (w, Some("max retries: "@ + message))
            } else {
                let again = TaskView {
                    retry_count,
                    next_retry_at: Some((now + delay_of(retry_count)) as u64),
                    ..task
                };
                (WorkerView { queue: w.queue.push(again), ..w }, None)
            }
        },
        TranscriptErrorView::Parse { line, message } => (
            w,
            Some("parse line "@ + decimal_of(line as nat) + ": "@ + message),
        ),
        TranscriptErrorView::Fatal { message } => (w, Some("fatal: "@ + message)),
    }
}

/// A worker after a task has been tried, and what is recorded of the session.
pub open spec fn finished(
    w: WorkerView,
    task: TaskView,
    error: Option<TranscriptErrorView>,
    now: u64,
) -> (WorkerView, Option<Seq<char>>) {
    let idle = WorkerView { in_flight: without_path(w.in_flight, task.canonical_path), ..w };
    match error {
        None => (idle, None),
        Some(e) => failed(idle, task, e, now),
    }
}

/// The urgent tasks of a queue, in the order in which they leave it.
pub open spec fn drained_queue(queue: Seq<TaskView>, out: Seq<TaskView>) -> Seq<TaskView>
    decreases queue.len(),
{
    if queue.len() == 0 {
        out
    } else {
        let k = next_of(queue);
        if 0 <= k < queue.len() {
            drained_queue(
                queue.remove(k),
                if queue[k].priority == Priority::Immediate {
                    out.push(queue[k])
                } else {
                    out
                },
            )
        } else {
            out
        }
    }
}

/// The tasks that still wait without the urgent ones, and those.
pub open spec fn drained_delayed(
    delayed: Seq<TaskView>,
    out: Seq<TaskView>,
    i: int,
) -> (Seq<TaskView>, Seq<TaskView>)
    decreases delayed.len() - i,
{
    if i < 0 || i >= delayed.len() {
        (delayed, out)
    } else if delayed[i].priority == Priority::Immediate {
        drained_delayed(swapped_out(delayed, i), out.push(delayed[i]), i)
    } else {
        drained_delayed(delayed, out, i + 1)
    }
}

/// Whether no task has been tried too often.
pub open spec fn tries_bounded(tasks: Seq<TaskView>) -> bool {
    forall|i: int| 0 <= i < tasks.len() ==> (#[trigger] tasks[i]).retry_count < MAX_TRIES
}

proof fn lemma_goes_before_transitive(a: TaskView, b: TaskView, c: TaskView)
    requires
        goes_before(a, b),
        goes_before(b, c),
    ensures
        goes_before(a, c),
{
    if a.priority == b.priority && b.priority == c.priority {
        lemma_text_lt_transitive(c.session_id, b.session_id, a.session_id);
    }
}

/// The task that leaves next is there, and none goes before it.
pub proof fn lemma_next(queue: Seq<TaskView>)
    requires
        queue.len() > 0,
    ensures
        0 <= next_of(queue) < queue.len(),
        forall|i: int|
            0 <= i < queue.len() ==> !goes_before(#[trigger] queue[i], queue[next_of(queue)]),
    decreases queue.len(),
{
    let n = next_of(queue);
    if queue.len() == 1 {
        lemma_text_lt_irreflexive(queue[0].session_id);
    } else {
        let front = queue.drop_last();
        lemma_next(front);
        let k = next_of(front);
        lemma_text_lt_irreflexive(queue.last().session_id);
        assert forall|i: int| 0 <= i < queue.len() implies !goes_before(
            #[trigger] queue[i],
            queue[n],
        ) by {
            if i < front.len() {
                assert(front[i] == queue[i]);
                assert(front[k] == queue[k]);
                if goes_before(queue.last(), queue[k]) && goes_before(queue[i], queue.last()) {
                    lemma_goes_before_transitive(queue[i], queue.last(), queue[k]);
                }
            }
        }
    }
}

/// Whether a task may be tried.
fn task_is_ready(task: &ProcessingTask, now: u64) -> (r: bool)
    ensures
        r == is_ready(task@, now),
{
    match task.next_retry_at {
        None => true,
        Some(at) => now >= at,
    }
}

/// Whether a task leaves the queue before another.
fn task_goes_before(a: &ProcessingTask, b: &ProcessingTask) -> (r: bool)
    ensures
        r == goes_before(a@, b@),
{
    if a.priority != b.priority {
        a.priority == Priority::Immediate
    } else {
        str_lt(b.session_id.as_str(), a.session_id.as_str())
    }
}

/// Takes the next task out of a queue.
fn pop_next(queue: &mut Vec<ProcessingTask>) -> (r: ProcessingTask)
    requires
        old(queue)@.len() > 0,
    ensures
        r@ == views(old(queue)@)[next_of(views(old(queue)@))],
        views(final(queue)@) == views(old(queue)@).remove(next_of(views(old(queue)@))),
        final(queue)@.len() == old(queue)@.len() - 1,
{
    let ghost all = views(queue@);
    let mut k: usize = 0;
    let mut i: usize = 1;
    assert(all.take(1).len() == 1);
    while i < queue.len()
        invariant
            1 <= i <= queue@.len(),
            k < i,
            all == views(queue@),
            k == next_of(all.take(i as int)),
        decreases queue.len() - i,
    {
        proof {
            assert(all.take(i + 1).drop_last() =~= all.take(i as int));
            assert(all.take(i + 1).last() == queue@[i as int]@);
            assert(all.take(i + 1)[k as int] == queue@[k as int]@);
        }
        if task_goes_before(&queue[i], &queue[k]) {
            k = i;
        }
        i += 1;
    }
    proof {
        assert(all.take(all.len() as int) =~= all);
    }
    let task = queue.remove(k);
    proof {
        assert(views(queue@) =~= all.remove(k as int));
    }
    task
}

impl TranscriptWorker {
    /// A worker without tasks.
    pub fn new() -> (r: Self)
        ensures
            r@ == (WorkerView {
                queue: Seq::empty(),
                delayed: Seq::empty(),
                in_flight: Seq::empty(),
            }),
    {
        let r = TranscriptWorker { queue: Vec::new(), delayed: Vec::new(), in_flight: Vec::new() };
        assert(r@ =~= (WorkerView {
            queue: Seq::empty(),
            delayed: Seq::empty(),
            in_flight: Seq::empty(),
        }));
        r
    }

    /// Queues the sessions that a sweep has found.
    pub fn queue_swept(&mut self, found: &Vec<SessionToProcess>)
        ensures
            final(self)@ == (WorkerView {
                queue: with_swept(old(self)@.queue, old(self)@.in_flight, views(found@)),
                ..old(self)@
            }),
    {
        let ghost all = views(found@);
        let ghost start = self@;
        let mut i: usize = 0;
        assert(all.take(0) =~= Seq::empty());
        while i < found.len()
            invariant
                i <= found@.len(),
                all == views(found@),
                self@ == (WorkerView {
                    queue: with_swept(start.queue, start.in_flight, all.take(i as int)),
                    ..start
                }),
            decreases found.len() - i,
        {
            let session = &found[i];
            proof {
                assert(all.take(i + 1).drop_last() =~= all.take(i as int));
                assert(all.take(i + 1).last() == session@);
            }
            if !list_contains(self.in_flight.as_slice(), session.canonical_path.as_str()) {
                let task = ProcessingTask {
                    priority: Priority::Low,
                    session_id: session.session_id.clone(),
                    tool: session.tool.clone(),
                    canonical_path: session.canonical_path.clone(),
                    retry_count: 0,
                    next_retry_at: None,
                };
                let ghost before = self.queue@;
                let ghost added = task;
                self.queue.push(task);
                proof {
                    lemma_views_push(before, added);
                }
            }
            i += 1;
        }
        assert(all.take(all.len() as int) =~= all);
    }

    /// Queues the session of a checkpoint, unless its transcript is being
    /// read.
    pub fn handle_checkpoint_notification(&mut self, notification: CheckpointNotification)
        ensures
            final(self)@ == (if old(self)@.in_flight.contains(notification.canonical_path@) {
                old(self)@
            } else {
                WorkerView {
                    queue: old(self)@.queue.push(
                        fresh(
                            Priority::Immediate,
                            notification.session_id@,
                            notification.tool@,
                            notification.canonical_path@,
                        ),
                    ),
                    ..old(self)@
                }
            }),
    {
        if !list_contains(self.in_flight.as_slice(), notification.canonical_path.as_str()) {
            let task = ProcessingTask {
                priority: Priority::Immediate,
                session_id: notification.session_id,
                tool: notification.tool,
                canonical_path: notification.canonical_path,
                retry_count: 0,
                next_retry_at: None,
            };
            let ghost before = self.queue@;
            let ghost added = task;
            self.queue.push(task);
            proof {
                lemma_views_push(before, added);
            }
        }
    }

    /// Brings the tasks whose time has come back into the queue.
    fn release(&mut self, now: u64)
        ensures
            final(self)@ == (WorkerView {
                delayed: released(old(self)@.delayed, old(self)@.queue, 0, now).0,
                queue: released(old(self)@.delayed, old(self)@.queue, 0, now).1,
                ..old(self)@
            }),
    {
        let ghost start = self@;
        let mut i: usize = 0;
        while i < self.delayed.len()
            invariant
                i <= self.delayed@.len(),
                self@.in_flight == start.in_flight,
                released(start.delayed, start.queue, 0, now) == released(
                    self@.delayed,
                    self@.queue,
                    i as int,
                    now,
                ),
            decreases self.delayed.len() - i,
        {
            let ghost before = self.delayed@;
            if task_is_ready(&self.delayed[i], now) {
                let task = self.delayed.swap_remove(i);
                let ghost queue = self.queue@;
                let ghost added = task;
                self.queue.push(task);
                proof {
                    lemma_views_push(queue, added);
                    assert(views(self.delayed@) =~= swapped_out(views(before), i as int));
                }
            } else {
                i += 1;
            }
        }
    }

    /// Takes the task that is to be tried now, if there is one, and marks its
    /// transcript as being read.
    pub fn process_next_task(&mut self, now: u64) -> (r: Option<ProcessingTask>)
        ensures
            final(self)@ == taken(old(self)@, now).0,
            match r {
                Some(task) => taken(old(self)@, now).1 == Some(task@),
                None => taken(old(self)@, now).1 is None,
            },
    {
        let ghost start = self@;
        self.release(now);
        if self.queue.len() == 0 {
            return None;
        }
        let ghost queue = self@.queue;
        let task = pop_next(&mut self.queue);
        if !task_is_ready(&task, now) {
            let ghost before = self.delayed@;
            let ghost added = task;
            self.delayed.push(task);
            proof {
                lemma_views_push(before, added);
            }
            return None;
        }
        if !list_contains(self.in_flight.as_slice(), task.canonical_path.as_str()) {
            let path = task.canonical_path.clone();
            let ghost before = self.in_flight@;
            let ghost added = path;
            self.in_flight.push(path);
            proof {
                lemma_texts_push(before, added);
            }
        }
        Some(task)
    }

    /// Takes note of how a task went: with an error that may pass it is queued
    /// again, later each time, up to a limit. What has to be recorded of the
    /// session comes back.
    pub fn finish_task(
        &mut self,
        task: ProcessingTask,
        error: Option<TranscriptError>,
        now: u64,
    ) -> (r: Option<String>)
        requires
            task.retry_count < u32::MAX,
            now <= u64::MAX - LONGEST_DELAY_MS,
        ensures
            final(self)@ == finished(
                old(self)@,
                task@,
                match error {
                    Some(e) => Some(e@),
                    None => None,
                },
                now,
            ).0,
            match r {
                Some(text) => Some(text@),
                None => None,
            } == finished(
                old(self)@,
                task@,
                match error {
                    Some(e) => Some(e@),
                    None => None,
                },
                now,
            ).1,
    {
        self.forget_path(task.canonical_path.as_str());
        match error {
            None => None,
            Some(e) => self.handle_processing_error(task, e, now),
        }
    }

    /// Takes a path off those that are being read.
    fn forget_path(&mut self, path: &str)
        ensures
            final(self)@ == (WorkerView {
                in_flight: without_path(old(self)@.in_flight, path@),
                ..old(self)@
            }),
    {
        let ghost start = self@;
        let ghost all = texts(self.in_flight@);
        let mut kept: Vec<String> = Vec::new();
        let mut i: usize = 0;
        proof {
            assert(all.take(0) =~= Seq::empty());
            assert(texts(kept@) =~= Seq::empty());
        }
        while i < self.in_flight.len()
            invariant
                i <= self.in_flight@.len(),
                self@ == start,
                all == texts(self.in_flight@),
                texts(kept@) == without_path(all.take(i as int), path@),
            decreases self.in_flight.len() - i,
        {
            proof {
                assert(all.take(i + 1).drop_last() =~= all.take(i as int));
                assert(all.take(i + 1).last() == self.in_flight@[i as int]@);
            }
            if !str_eq(self.in_flight[i].as_str(), path) {
                let one = self.in_flight[i].clone();
                let ghost before = kept@;
                let ghost added = one;
                kept.push(one);
                proof {
                    lemma_texts_push(before, added);
                }
            }
            i += 1;
        }
        assert(all.take(all.len() as int) =~= all);
        self.in_flight = kept;
    }

    /// What becomes of a task that has failed.
    fn handle_processing_error(
        &mut self,
        task: ProcessingTask,
        error: TranscriptError,
        now: u64,
    ) -> (r: Option<String>)
        requires
            task.retry_count < u32::MAX,
            now <= u64::MAX - LONGEST_DELAY_MS,
        ensures
            final(self)@ == failed(old(self)@, task@, error@, now).0,
            match r {
                Some(text) => Some(text@),
                None => None,
            } == failed(old(self)@, task@, error@, now).1,
    {
        match error {
            TranscriptError::Transient { message, retry_after_secs: _ } => {
                let retry_count: u32 = task.retry_count + 1;
                if retry_count >= MAX_TRIES {
                    return Some(concat("max retries: ", message.as_str()));
                }
                let delay: u64 = match retry_count {
                    1 => 5_000,
                    2 => 30_000,
                    _ => 300_000,
                };
                let again = ProcessingTask {
                    priority: task.priority,
                    session_id: task.session_id,
                    tool: task.tool,
                    canonical_path: task.canonical_path,
                    retry_count,
                    next_retry_at: Some(now + delay),
                };
                let ghost before = self.queue@;
                let ghost added = again;
                self.queue.push(again);
                proof {
                    lemma_views_push(before, added);
                }
                None
            },
            TranscriptError::Parse { line, message } => {
                let mut text = concat("parse line ", decimal(line as u64).as_str());
                text.append(": ");
                text.append(message.as_str());
                Some(text)
            },
            TranscriptError::Fatal { message } => Some(concat("fatal: ", message.as_str())),
        }
    }

    /// Empties the queue at shutdown: the urgent tasks come back, to be tried
    /// once more, also those that were waiting for their time.
    pub fn drain_immediate_tasks(&mut self) -> (r: Vec<ProcessingTask>)
        ensures
            final(self)@ == (WorkerView {
                queue: Seq::empty(),
                delayed: drained_delayed(
                    old(self)@.delayed,
                    drained_queue(old(self)@.queue, Seq::empty()),
                    0,
                ).0,
                ..old(self)@
            }),
            views(r@) == drained_delayed(
                old(self)@.delayed,
                drained_queue(old(self)@.queue, Seq::empty()),
                0,
            ).1,
    {
        let ghost start = self@;
        let mut out: Vec<ProcessingTask> = Vec::new();
        assert(views(out@) =~= Seq::empty());
        while self.queue.len() > 0
            invariant
                self@.delayed == start.delayed,
                self@.in_flight == start.in_flight,
                drained_queue(start.queue, Seq::empty()) == drained_queue(
                    self@.queue,
                    views(out@),
                ),
            decreases self.queue@.len(),
        {
            proof {
                lemma_next(self@.queue);
            }
            let task = pop_next(&mut self.queue);
            if task.priority == Priority::Immediate {
                let ghost before = out@;
                let ghost added = task;
                out.push(task);
                proof {
                    lemma_views_push(before, added);
                }
            }
        }
        assert(self@.queue =~= Seq::empty());
        let ghost first = views(out@);
        let mut i: usize = 0;
        while i < self.delayed.len()
            invariant
                i <= self.delayed@.len(),
                self@.in_flight == start.in_flight,
                self@.queue == Seq::<TaskView>::empty(),
                drained_delayed(start.delayed, first, 0) == drained_delayed(
                    self@.delayed,
                    views(out@),
                    i as int,
                ),
            decreases self.delayed.len() - i,
        {
            let ghost before = self.delayed@;
            if self.delayed[i].priority == Priority::Immediate {
                let task = self.delayed.swap_remove(i);
                let ghost sofar = out@;
                let ghost added = task;
                out.push(task);
                proof {
                    lemma_views_push(sofar, added);
                    assert(views(self.delayed@) =~= swapped_out(views(before), i as int));
                }
            } else {
                i += 1;
            }
        }
        out
    }
}

/// Whether a reader has to wait before its next batch: the buffer of events
/// is full, and it has not waited too often.
pub fn must_wait(buffered: usize, waits: usize) -> (r: bool)
    ensures
        r == (buffered >= BACKPRESSURE_THRESHOLD && waits < BACKPRESSURE_MAX_WAITS),
{
    buffered >= BACKPRESSURE_THRESHOLD && waits < BACKPRESSURE_MAX_WAITS
}

/// The error of a session that is not on record.
pub fn session_not_found(session_id: &str) -> (r: TranscriptError)
    ensures
        r@ == (TranscriptErrorView::Fatal { message: "session not found: "@ + session_id@ }),
{
    TranscriptError::Fatal { message: concat("session not found: ", session_id) }
}

/// The error of a tool that no agent stands for.
pub fn unknown_agent(tool: &str) -> (r: TranscriptError)
    ensures
        r@ == (TranscriptErrorView::Fatal { message: "unknown agent type: "@ + tool@ }),
{
    TranscriptError::Fatal { message: concat("unknown agent type: ", tool) }
}

/// The error of a task that broke off.
pub fn task_panicked(cause: &str) -> (r: TranscriptError)
    ensures
        r@ == (TranscriptErrorView::Fatal { message: "task panicked: "@ + cause@ }),
{
    TranscriptError::Fatal { message: concat("task panicked: ", cause) }
}

proof fn lemma_released(delayed: Seq<TaskView>, queue: Seq<TaskView>, i: int, now: u64)
    requires
        0 <= i <= delayed.len(),
        forall|j: int| 0 <= j < i ==> !is_ready(#[trigger] delayed[j], now),
    ensures
        released(delayed, queue, i, now).1.to_multiset().add(
            released(delayed, queue, i, now).0.to_multiset(),
        ) == queue.to_multiset().add(delayed.to_multiset()),
        forall|j: int|
            0 <= j < released(delayed, queue, i, now).0.len() ==> !is_ready(
                #[trigger] released(delayed, queue, i, now).0[j],
                now,
            ),
    decreases delayed.len() - i,
{
    if i < delayed.len() {
        if is_ready(delayed[i], now) {
            let rest = swapped_out(delayed, i);
            lemma_released(rest, queue.push(delayed[i]), i, now);
            lemma_swapped_out(delayed, i);
            vstd::seq_lib::to_multiset_build(queue, delayed[i]);
            assert(queue.push(delayed[i]).to_multiset().add(rest.to_multiset())
                =~= queue.to_multiset().add(delayed.to_multiset()));
        } else {
            lemma_released(delayed, queue, i + 1, now);
        }
    }
}

proof fn lemma_swapped_out(s: Seq<TaskView>, i: int)
    requires
        0 <= i < s.len(),
    ensures
        swapped_out(s, i).to_multiset() == s.to_multiset().remove(s[i]),
        s.to_multiset().contains(s[i]),
{
    broadcast use vstd::seq_lib::group_to_multiset_ensures;
    broadcast use vstd::multiset::group_multiset_axioms;

    let u = s.update(i, s.last());
    assert(u.drop_last() =~= u.remove(u.len() - 1));
    assert(u.to_multiset() == s.to_multiset().insert(s.last()).remove(s[i]));
    assert(u[u.len() - 1] == s.last());
    assert(s.contains(s[i]));
    assert(s.contains(s.last()));
    assert(u.to_multiset().remove(s.last()) =~= s.to_multiset().remove(s[i]));
}

/// Taking a task loses none: what was waiting before is what is waiting
/// afterwards, together with the task that was taken.
pub proof fn law_no_task_is_lost(w: WorkerView, now: u64)
    ensures
        ({
            let (after, task) = taken(w, now);
            let waiting = after.queue.to_multiset().add(after.delayed.to_multiset());
            w.queue.to_multiset().add(w.delayed.to_multiset()) == match task {
                Some(t) => waiting.insert(t),
                None => waiting,
            }
        }),
{
    broadcast use vstd::seq_lib::group_to_multiset_ensures;
    broadcast use vstd::multiset::group_multiset_axioms;

    lemma_released(w.delayed, w.queue, 0, now);
    let (delayed, queue) = released(w.delayed, w.queue, 0, now);
    if queue.len() > 0 {
        lemma_next(queue);
        let k = next_of(queue);
        let task = queue[k];
        let rest = queue.remove(k);
        assert(queue.contains(task));
        assert(rest.to_multiset() == queue.to_multiset().remove(task));
        if is_ready(task, now) {
            assert(rest.to_multiset().add(delayed.to_multiset()).insert(task)
                =~= queue.to_multiset().add(delayed.to_multiset()));
        } else {
            assert(rest.to_multiset().add(delayed.push(task).to_multiset())
                =~= queue.to_multiset().add(delayed.to_multiset()));
        }
    }
}

/// A task that is taken may be tried now, and no task that waits for its turn
/// goes before it. So no sweep's task is taken while a checkpoint's task
/// waits for its turn.
pub proof fn law_urgent_tasks_first(w: WorkerView, now: u64)
    ensures
        taken(w, now).1 matches Some(task) ==> {
            &&& is_ready(task, now)
            &&& taken(w, now).0.in_flight.contains(task.canonical_path)
            &&& forall|i: int|
                0 <= i < taken(w, now).0.queue.len() ==> !goes_before(
                    #[trigger] taken(w, now).0.queue[i],
                    task,
                )
            &&& task.priority == Priority::Low ==> forall|i: int|
                0 <= i < taken(w, now).0.queue.len() ==> (
                #[trigger] taken(w, now).0.queue[i]).priority == Priority::Low
        },
{
    let (delayed, queue) = released(w.delayed, w.queue, 0, now);
    if queue.len() > 0 {
        lemma_next(queue);
        let k = next_of(queue);
        let task = queue[k];
        let rest = queue.remove(k);
        assert forall|i: int| 0 <= i < rest.len() implies !goes_before(#[trigger] rest[i], task) by {
            assert(rest[i] == queue[if i < k {
                i
            } else {
                i + 1
            }]);
        }
        if is_ready(task, now) && !w.in_flight.contains(task.canonical_path) {
            assert(w.in_flight.push(task.canonical_path).last() == task.canonical_path);
            assert(with_path(w.in_flight, task.canonical_path)[w.in_flight.len() as int]
                == task.canonical_path);
        }
    }
}

/// A task whose tries are below the limit stays below it however it fails,
/// and is tried again later than now; at the last try it is dropped with a
/// record. Only errors that may pass lead to another try.
pub proof fn law_tries_are_bounded(
    w: WorkerView,
    task: TaskView,
    error: Option<TranscriptErrorView>,
    now: u64,
)
    requires
        tries_bounded(w.queue),
        task.retry_count < MAX_TRIES,
        now <= u64::MAX - LONGEST_DELAY_MS,
    ensures
        tries_bounded(finished(w, task, error, now).0.queue),
        finished(w, task, error, now).0.queue.len() > w.queue.len() ==> {
            let again = finished(w, task, error, now).0.queue.last();
            &&& error matches Some(TranscriptErrorView::Transient { .. })
            &&& again.retry_count == task.retry_count + 1
            &&& again.next_retry_at matches Some(at)
            &&& at > now
        },
        error is Some && finished(w, task, error, now).0.queue.len() == w.queue.len()
            ==> finished(w, task, error, now).1 is Some,
{
}

proof fn lemma_drained_queue(queue: Seq<TaskView>, out: Seq<TaskView>)
    ensures
        forall|i: int|
            out.len() <= i < drained_queue(queue, out).len() ==> (
            #[trigger] drained_queue(queue, out)[i]).priority == Priority::Immediate,
        out.len() <= drained_queue(queue, out).len(),
        drained_queue(queue, out).take(out.len() as int) == out,
        forall|i: int|
            0 <= i < queue.len() && (#[trigger] queue[i]).priority == Priority::Immediate
                ==> drained_queue(queue, out).contains(queue[i]),
    decreases queue.len(),
{
    if queue.len() > 0 {
        lemma_next(queue);
        let k = next_of(queue);
        let rest = queue.remove(k);
        let next = if queue[k].priority == Priority::Immediate {
            out.push(queue[k])
        } else {
            out
        };
        lemma_drained_queue(rest, next);
        let r = drained_queue(queue, out);
        assert(r == drained_queue(rest, next));
        assert(r.take(out.len() as int) =~= r.take(next.len() as int).take(out.len() as int));
        assert(next.take(out.len() as int) =~= out);
        if next.len() > out.len() {
            assert(r[out.len() as int] == r.take(next.len() as int)[out.len() as int]);
        }
        assert forall|i: int|
            0 <= i < queue.len() && (#[trigger] queue[i]).priority
                == Priority::Immediate implies r.contains(queue[i]) by {
            if i < k {
                assert(rest[i] == queue[i]);
            } else if i > k {
                assert(rest[i - 1] == queue[i]);
            }
        }
    } else {
        assert(out.take(out.len() as int) =~= out);
    }
}

proof fn lemma_drained_delayed(delayed: Seq<TaskView>, out: Seq<TaskView>, i: int)
    requires
        0 <= i <= delayed.len(),
        forall|j: int| 0 <= j < i ==> (#[trigger] delayed[j]).priority == Priority::Low,
    ensures
        ({
            let (left, r) = drained_delayed(delayed, out, i);
            &&& forall|j: int|
                0 <= j < left.len() ==> (#[trigger] left[j]).priority == Priority::Low
            &&& out.len() <= r.len()
            &&& r.take(out.len() as int) == out
            &&& forall|j: int|
                out.len() <= j < r.len() ==> (#[trigger] r[j]).priority == Priority::Immediate
            &&& forall|j: int|
                i <= j < delayed.len() && (#[trigger] delayed[j]).priority == Priority::Immediate
                    ==> r.contains(delayed[j])
        }),
    decreases delayed.len() - i,
{
    if i < delayed.len() {
        if delayed[i].priority == Priority::Immediate {
            let rest = swapped_out(delayed, i);
            let next = out.push(delayed[i]);
            lemma_drained_delayed(rest, next, i);
            let r = drained_delayed(delayed, out, i).1;
            assert(r.take(out.len() as int) =~= r.take(next.len() as int).take(out.len() as int));
            assert(next.take(out.len() as int) =~= out);
            assert(r[out.len() as int] == r.take(next.len() as int)[out.len() as int]);
            assert forall|j: int|
                i <= j < delayed.len() && (#[trigger] delayed[j]).priority
                    == Priority::Immediate implies r.contains(delayed[j]) by {
                if j > i {
                    if j == delayed.len() - 1 {
                        assert(rest[i] == delayed[j]);
                    } else {
                        assert(rest[j] == delayed[j]);
                    }
                }
            }
        } else {
            lemma_drained_delayed(delayed, out, i + 1);
        }
    } else {
        assert(out.take(out.len() as int) =~= out);
    }
}

/// The tasks that are drained are the urgent ones, all of them, and none of
/// them is left behind.
pub proof fn law_drain_takes_the_urgent(w: WorkerView)
    ensures
        ({
            let (left, out) = drained_delayed(
                w.delayed,
                drained_queue(w.queue, Seq::empty()),
                0,
            );
            &&& forall|j: int|
                0 <= j < left.len() ==> (#[trigger] left[j]).priority == Priority::Low
            &&& forall|j: int|
                0 <= j < out.len() ==> (#[trigger] out[j]).priority == Priority::Immediate
            &&& forall|j: int|
                0 <= j < w.queue.len() && (#[trigger] w.queue[j]).priority == Priority::Immediate
                    ==> out.contains(w.queue[j])
            &&& forall|j: int|
                0 <= j < w.delayed.len() && (#[trigger] w.delayed[j]).priority
                    == Priority::Immediate ==> out.contains(w.delayed[j])
        }),
{
    let first = drained_queue(w.queue, Seq::empty());
    lemma_drained_queue(w.queue, Seq::empty());
    lemma_drained_delayed(w.delayed, first, 0);
    let out = drained_delayed(w.delayed, first, 0).1;
    assert forall|j: int| 0 <= j < out.len() implies (#[trigger] out[j]).priority
        == Priority::Immediate by {
        if j < first.len() {
            assert(out[j] == out.take(first.len() as int)[j]);
        }
    }
    assert forall|j: int|
        0 <= j < w.queue.len() && (#[trigger] w.queue[j]).priority
            == Priority::Immediate implies out.contains(w.queue[j]) by {
        assert(first.contains(w.queue[j]));
        let k = choose|k: int| 0 <= k < first.len() && first[k] == w.queue[j];
        assert(out[k] == out.take(first.len() as int)[k]);
    }
}

/// A session that is being read is not queued again, neither by a sweep nor,
/// as the contract of the notification says, by a checkpoint.
pub proof fn law_sweep_skips_sessions_in_flight(
    queue: Seq<TaskView>,
    in_flight: Seq<Seq<char>>,
    found: Seq<SessionToProcessView>,
)
    ensures
        with_swept(queue, in_flight, found).len() >= queue.len(),
        with_swept(queue, in_flight, found).take(queue.len() as int) == queue,
        forall|i: int|
            queue.len() <= i < with_swept(queue, in_flight, found).len() ==> {
                &&& !in_flight.contains(
                    (#[trigger] with_swept(queue, in_flight, found)[i]).canonical_path,
                )
                &&& with_swept(queue, in_flight, found)[i].priority == Priority::Low
            },
    decreases found.len(),
{
    if found.len() == 0 {
        assert(queue.take(queue.len() as int) =~= queue);
    } else {
        law_sweep_skips_sessions_in_flight(queue, in_flight, found.drop_last());
        let before = with_swept(queue, in_flight, found.drop_last());
        let after = with_swept(queue, in_flight, found);
        assert(after.take(queue.len() as int) =~= before.take(queue.len() as int));
        assert forall|i: int| queue.len() <= i < after.len() implies {
            &&& !in_flight.contains((#[trigger] after[i]).canonical_path)
            &&& after[i].priority == Priority::Low
        } by {
            if i < before.len() {
                assert(after[i] == before[i]);
            }
        }
    }
}

} // verus!
