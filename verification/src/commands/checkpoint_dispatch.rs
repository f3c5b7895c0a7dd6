//! How a checkpoint is handed to the background service, and taken here where the
//! service fails.
//!
//! The dispatch is a state machine: each phase asks for one action, and what came of
//! the action leads to the next phase.

use crate::model::opt_view;
use crate::text::{concat, decimal, decimal_of};
use vstd::prelude::*;
use vstd::string::*;

verus! {

/// The status with which the command that takes a checkpoint ends, whatever went wrong: a
/// hook that takes one never stops the agent that runs it.
pub const CHECKPOINT_EXIT_CODE: i32 = 0;

/// What is known of a checkpoint before it is dispatched.
pub struct DispatchInput {
    /// Whether checkpoints are handed to the background service.
    pub delegate: bool,
    /// The repository's working directory, where it has one.
    pub workdir: Option<String>,
    /// The checkpoint that was captured before, where there is one.
    pub capture_id: Option<String>,
    /// Whether the files to be captured are known.
    pub explicit_targets: bool,
    /// The number of files that the checkpoint is taken to cover.
    pub estimated_files: usize,
}

/// The texts of what is known of a checkpoint.
pub struct InputView {
    pub delegate: bool,
    pub has_workdir: bool,
    pub workdir: Seq<char>,
    pub capture_id: Option<Seq<char>>,
    pub explicit_targets: bool,
    pub estimated_files: nat,
}

impl View for DispatchInput {
    type V = InputView;

    open spec fn view(&self) -> InputView {
        InputView {
            delegate: self.delegate,
            has_workdir: self.workdir is Some,
            workdir: match self.workdir {
                Some(s) => s@,
                None => ""@,
            },
            capture_id: opt_view(self.capture_id),
            explicit_targets: self.explicit_targets,
            estimated_files: self.estimated_files as nat,
        }
    }
}

/// What came of a checkpoint.
#[derive(Clone, Copy, PartialEq, Eq, Debug)]
pub struct CheckpointDispatchOutcome {
    pub stats: (usize, usize, usize),
    pub queued: bool,
}

/// What the dispatch waits for.
pub enum Phase {
    /// The service is to be started, where it does not run.
    Starting,
    /// A checkpoint that was captured before is to be sent.
    SendingEarlier { capture_id: String },
    /// A checkpoint that was captured before is to be deleted.
    DeletingEarlier { capture_id: String, rejected: bool, message: String },
    /// The files are to be captured.
    Capturing,
    /// The captured files are to be sent.
    SendingCapture { workdir: String, capture_id: String, file_count: usize },
    /// The captured files are to be deleted.
    DeletingCapture { capture_id: String, rejected: bool, message: String },
    /// The service is to take the checkpoint from the working tree.
    SendingLive,
    /// The checkpoint is to be taken here.
    Local,
    /// The checkpoint was taken.
    Done(CheckpointDispatchOutcome),
    /// The checkpoint could not be taken.
    Failed(String),
}

/// The texts of what the dispatch waits for.
pub enum PhaseView {
    Starting,
    SendingEarlier(Seq<char>),
    DeletingEarlier(Seq<char>, bool, Seq<char>),
    Capturing,
    SendingCapture(Seq<char>, Seq<char>, nat),
    DeletingCapture(Seq<char>, bool, Seq<char>),
    SendingLive,
    Local,
    Done((nat, nat, nat), bool),
    Failed(Seq<char>),
}

impl View for Phase {
    type V = PhaseView;

    open spec fn view(&self) -> PhaseView {
        match self {
            Phase::Starting => PhaseView::Starting,
            Phase::SendingEarlier { capture_id } => PhaseView::SendingEarlier(capture_id@),
            Phase::DeletingEarlier {
                capture_id,
                rejected,
                message,
            } => PhaseView::DeletingEarlier(capture_id@, *rejected, message@),
            Phase::Capturing => PhaseView::Capturing,
            Phase::SendingCapture {
                workdir,
                capture_id,
                file_count,
            } => PhaseView::SendingCapture(workdir@, capture_id@, *file_count as nat),
            Phase::DeletingCapture {
                capture_id,
                rejected,
                message,
            } => PhaseView::DeletingCapture(capture_id@, *rejected, message@),
            Phase::SendingLive => PhaseView::SendingLive,
            Phase::Local => PhaseView::Local,
            Phase::Done(o) => PhaseView::Done(
                (o.stats.0 as nat, o.stats.1 as nat, o.stats.2 as nat),
                o.queued,
            ),
            Phase::Failed(m) => PhaseView::Failed(m@),
        }
    }
}

/// What the service answers to a request.
pub enum Reply {
    Accepted,
    /// It refuses, and may say why.
    Rejected(Option<String>),
    /// It cannot be reached.
    Unreachable(String),
}

/// Files that were captured for a checkpoint.
pub struct Capture {
    pub workdir: String,
    pub capture_id: String,
    pub file_count: usize,
}

/// What came of the action that a phase asks for.
pub enum Event {
    Started(Result<(), String>),
    Sent(Reply),
    /// The capture was deleted, or the error.
    Deleted(Option<String>),
    /// The files were captured, there are none, or the error.
    Captured(Result<Option<Capture>, String>),
    Ran(Result<(usize, usize, usize), String>),
}

/// The texts of what came of an action.
pub enum EventView {
    Started(Option<Seq<char>>),
    Accepted,
    Rejected(Seq<char>),
    Unreachable(Seq<char>),
    Deleted(Option<Seq<char>>),
    Captured(Option<(Seq<char>, Seq<char>, nat)>),
    CaptureFailed(Seq<char>),
    Ran(nat, nat, nat),
    RunFailed(Seq<char>),
}

impl View for Event {
    type V = EventView;

    open spec fn view(&self) -> EventView {
        match self {
            Event::Started(Ok(_)) => EventView::Started(None),
            Event::Started(Err(e)) => EventView::Started(Some(e@)),
            Event::Sent(Reply::Accepted) => EventView::Accepted,
            Event::Sent(Reply::Rejected(Some(m))) => EventView::Rejected(m@),
            Event::Sent(Reply::Rejected(None)) => EventView::Rejected("unknown error"@),
            Event::Sent(Reply::Unreachable(e)) => EventView::Unreachable(e@),
            Event::Deleted(e) => EventView::Deleted(opt_view(*e)),
            Event::Captured(Ok(Some(c))) => EventView::Captured(
                Some((c.workdir@, c.capture_id@, c.file_count as nat)),
            ),
            Event::Captured(Ok(None)) => EventView::Captured(None),
            Event::Captured(Err(e)) => EventView::CaptureFailed(e@),
            Event::Ran(Ok(stats)) => EventView::Ran(
                stats.0 as nat,
                stats.1 as nat,
                stats.2 as nat,
            ),
            Event::Ran(Err(e)) => EventView::RunFailed(e@),
        }
    }
}

/// A failure of the service, to be logged: where it failed, and how.
pub struct DelegateFailure {
    pub phase: String,
    pub message: String,
}

impl View for DelegateFailure {
    type V = (Seq<char>, Seq<char>);

    open spec fn view(&self) -> (Seq<char>, Seq<char>) {
        (self.phase@, self.message@)
    }
}

/// The failures to be logged, in order.
pub open spec fn failures_of(v: Seq<DelegateFailure>) -> Seq<(Seq<char>, Seq<char>)> {
    Seq::new(v.len(), |i: int| v[i]@)
}

/// Where a dispatch begins: at the service, where checkpoints are handed to it and
/// the repository has a working directory, else here.
pub open spec fn first_phase_of(input: InputView) -> PhaseView {
    if input.delegate && input.has_workdir {
        PhaseView::Starting
    } else {
        PhaseView::Local
    }
}

/// Where a dispatch goes on once a checkpoint that was captured before is out of the
/// way.
pub open spec fn capture_phase_of(input: InputView) -> PhaseView {
    if input.explicit_targets {
        PhaseView::Capturing
    } else {
        PhaseView::SendingLive
    }
}

/// The failures that follow on the deletion of a capture: the deletion's own, where it
/// failed, and that of the request.
pub open spec fn deletion_failures(
    deleted: Option<Seq<char>>,
    capture_id: Seq<char>,
    cleanup_phase: Seq<char>,
    phase: Seq<char>,
    message: Seq<char>,
) -> Seq<(Seq<char>, Seq<char>)> {
    match deleted {
        Some(e) => seq![
            (cleanup_phase, "failed cleaning up captured checkpoint "@ + capture_id + ": "@ + e),
            (phase, message),
        ],
        None => seq![(phase, message)],
    }
}

/// The failures to be logged and the next phase, once an action came out as it did.
/// What does not answer to the phase changes nothing.
pub open spec fn step_of(input: InputView, phase: PhaseView, event: EventView) -> (Seq<
    (Seq<char>, Seq<char>),
>, PhaseView) {
    let quiet = Seq::<(Seq<char>, Seq<char>)>::empty();
    match (phase, event) {
        (PhaseView::Starting, EventView::Started(None)) => (
            quiet,
            match input.capture_id {
                Some(id) => PhaseView::SendingEarlier(id),
                None => capture_phase_of(input),
            },
        ),
        (PhaseView::Starting, EventView::Started(Some(e))) => (
            seq![("startup_failed"@, e)],
            PhaseView::Local,
        ),
        (PhaseView::SendingEarlier(id), EventView::Accepted) => (
            quiet,
            PhaseView::Done((0, input.estimated_files, 0), true),
        ),
        (PhaseView::SendingEarlier(id), EventView::Rejected(m)) => (
            quiet,
            PhaseView::DeletingEarlier(id, true, m),
        ),
        (PhaseView::SendingEarlier(id), EventView::Unreachable(m)) => (
            quiet,
            PhaseView::DeletingEarlier(id, false, m),
        ),
        (PhaseView::DeletingEarlier(id, rejected, m), EventView::Deleted(e)) => (
            if rejected {
                deletion_failures(
                    e,
                    id,
                    "bash_captured_request_cleanup_failed"@,
                    "bash_captured_request_rejected"@,
                    m,
                )
            } else {
                deletion_failures(
                    e,
                    id,
                    "bash_captured_connect_cleanup_failed"@,
                    "bash_captured_connect_failed"@,
                    m,
                )
            },
            capture_phase_of(input),
        ),
        (PhaseView::Capturing, EventView::Captured(Some(c))) => (
            quiet,
            PhaseView::SendingCapture(c.0, c.1, c.2),
        ),
        (PhaseView::Capturing, EventView::Captured(None)) => (
            quiet,
            PhaseView::Done((0, 0, 0), false),
        ),
        (PhaseView::Capturing, EventView::CaptureFailed(e)) => (
            seq![("capture_prepare_failed"@, e)],
            PhaseView::SendingLive,
        ),
        (PhaseView::SendingCapture(dir, id, n), EventView::Accepted) => (
            quiet,
            PhaseView::Done((0, n, 0), true),
        ),
        (PhaseView::SendingCapture(dir, id, n), EventView::Rejected(m)) => (
            quiet,
            PhaseView::DeletingCapture(id, true, m),
        ),
        (PhaseView::SendingCapture(dir, id, n), EventView::Unreachable(m)) => (
            quiet,
            PhaseView::DeletingCapture(id, false, m),
        ),
        (PhaseView::DeletingCapture(id, rejected, m), EventView::Deleted(e)) => (
            if rejected {
                deletion_failures(
                    e,
                    id,
                    "captured_request_cleanup_failed"@,
                    "captured_request_rejected"@,
                    m,
                )
            } else {
                deletion_failures(
                    e,
                    id,
                    "captured_connect_cleanup_failed"@,
                    "captured_connect_failed"@,
                    m,
                )
            },
            PhaseView::SendingLive,
        ),
        (PhaseView::SendingLive, EventView::Accepted) => (
            quiet,
            PhaseView::Done((0, input.estimated_files, 0), false),
        ),
        (PhaseView::SendingLive, EventView::Rejected(m)) => (
            seq![("request_rejected"@, m)],
            PhaseView::Local,
        ),
        (PhaseView::SendingLive, EventView::Unreachable(m)) => (
            seq![("connect_failed"@, m)],
            PhaseView::Local,
        ),
        (PhaseView::Local, EventView::Ran(a, b, c)) => (quiet, PhaseView::Done((a, b, c), false)),
        (PhaseView::Local, EventView::RunFailed(e)) => (quiet, PhaseView::Failed(e)),
        _ => (quiet, phase),
    }
}

/// Where a dispatch begins.
pub fn first_phase(input: &DispatchInput) -> (r: Phase)
    ensures
        r@ == first_phase_of(input@),
{
    if input.delegate && input.workdir.is_some() {
        Phase::Starting
    } else {
        Phase::Local
    }
}

/// The seconds that the service may take to start.
pub fn startup_timeout_secs(slow: bool) -> (r: u64)
    ensures
        r == if slow {
            10u64
        } else {
            5u64
        },
{
    if slow {
        10
    } else {
        5
    }
}

fn capture_phase(input: &DispatchInput) -> (r: Phase)
    ensures
        r@ == capture_phase_of(input@),
{
    if input.explicit_targets {
        Phase::Capturing
    } else {
        Phase::SendingLive
    }
}

fn one_failure(phase: &str, message: String) -> (r: Vec<DelegateFailure>)
    ensures
        failures_of(r@) == seq![(phase@, message@)],
{
    let mut v: Vec<DelegateFailure> = Vec::new();
    v.push(DelegateFailure { phase: phase.to_owned(), message });
    proof {
        assert(failures_of(v@) =~= seq![(phase@, message@)]);
    }
    v
}

fn after_deletion(
    deleted: Option<String>,
    capture_id: &str,
    cleanup_phase: &str,
    phase: &str,
    message: String,
) -> (r: Vec<DelegateFailure>)
    ensures
        failures_of(r@) == deletion_failures(
            opt_view(deleted),
            capture_id@,
            cleanup_phase@,
            phase@,
            message@,
        ),
{
    let mut v: Vec<DelegateFailure> = Vec::new();
    if let Some(e) = deleted {
        let mut m = concat("failed cleaning up captured checkpoint ", capture_id);
        m.append(": ");
        m.append(e.as_str());
        v.push(DelegateFailure { phase: cleanup_phase.to_owned(), message: m });
    }
    v.push(DelegateFailure { phase: phase.to_owned(), message });
    proof {
        assert(failures_of(v@) =~= deletion_failures(
            opt_view(deleted),
            capture_id@,
            cleanup_phase@,
            phase@,
            message@,
        ));
    }
    v
}

fn no_failures() -> (r: Vec<DelegateFailure>)
    ensures
        failures_of(r@) == Seq::<(Seq<char>, Seq<char>)>::empty(),
{
    let v: Vec<DelegateFailure> = Vec::new();
    proof {
        assert(failures_of(v@) =~= Seq::empty());
    }
    v
}

/// The failures to be logged and the next phase, once the action of a phase came out
/// as it did.
pub fn next_phase(input: &DispatchInput, phase: Phase, event: Event) -> (r: (
    Vec<DelegateFailure>,
    Phase,
))
    ensures
        (failures_of(r.0@), r.1@) == step_of(input@, phase@, event@),
{
    match (phase, event) {
        (Phase::Starting, Event::Started(Ok(_))) => {
            let next = match &input.capture_id {
                Some(id) => Phase::SendingEarlier { capture_id: id.clone() },
                None => capture_phase(input),
            };
            (no_failures(), next)
        },
        (Phase::Starting, Event::Started(Err(e))) => (
            one_failure("startup_failed", e),
            Phase::Local,
        ),
        (Phase::SendingEarlier { capture_id }, Event::Sent(reply)) => match reply {
            Reply::Accepted => (
                no_failures(),
                Phase::Done(
                    CheckpointDispatchOutcome {
                        stats: (0, input.estimated_files, 0),
                        queued: true,
                    },
                ),
            ),
            Reply::Rejected(Some(message)) => (
                no_failures(),
                Phase::DeletingEarlier { capture_id, rejected: true, message },
            ),
            Reply::Rejected(None) => (
                no_failures(),
                Phase::DeletingEarlier {
                    capture_id,
                    rejected: true,
                    message: "unknown error".to_owned(),
                },
            ),
            Reply::Unreachable(message) => (
                no_failures(),
                Phase::DeletingEarlier { capture_id, rejected: false, message },
            ),
        },
        (Phase::DeletingEarlier { capture_id, rejected, message }, Event::Deleted(e)) => {
            let failures = if rejected {
                after_deletion(
                    e,
                    capture_id.as_str(),
                    "bash_captured_request_cleanup_failed",
                    "bash_captured_request_rejected",
                    message,
                )
            } else {
                after_deletion(
                    e,
                    capture_id.as_str(),
                    "bash_captured_connect_cleanup_failed",
                    "bash_captured_connect_failed",
                    message,
                )
            };
            (failures, capture_phase(input))
        },
        (Phase::Capturing, Event::Captured(Ok(Some(capture)))) => (
            no_failures(),
            Phase::SendingCapture {
                workdir: capture.workdir,
                capture_id: capture.capture_id,
                file_count: capture.file_count,
            },
        ),
        (Phase::Capturing, Event::Captured(Ok(None))) => (
            no_failures(),
            Phase::Done(CheckpointDispatchOutcome { stats: (0, 0, 0), queued: false }),
        ),
        (Phase::Capturing, Event::Captured(Err(e))) => (
            one_failure("capture_prepare_failed", e),
            Phase::SendingLive,
        ),
        (Phase::SendingCapture { workdir, capture_id, file_count }, Event::Sent(
            reply,
        )) => match reply {
            Reply::Accepted => (
                no_failures(),
                Phase::Done(
                    CheckpointDispatchOutcome { stats: (0, file_count, 0), queued: true },
                ),
            ),
            Reply::Rejected(Some(message)) => (
                no_failures(),
                Phase::DeletingCapture { capture_id, rejected: true, message },
            ),
            Reply::Rejected(None) => (
                no_failures(),
                Phase::DeletingCapture {
                    capture_id,
                    rejected: true,
                    message: "unknown error".to_owned(),
                },
            ),
            Reply::Unreachable(message) => (
                no_failures(),
                Phase::DeletingCapture { capture_id, rejected: false, message },
            ),
        },
        (Phase::DeletingCapture { capture_id, rejected, message }, Event::Deleted(e)) => {
            let failures = if rejected {
                after_deletion(
                    e,
                    capture_id.as_str(),
                    "captured_request_cleanup_failed",
                    "captured_request_rejected",
                    message,
                )
            } else {
                after_deletion(
                    e,
                    capture_id.as_str(),
                    "captured_connect_cleanup_failed",
                    "captured_connect_failed",
                    message,
                )
            };
            (failures, Phase::SendingLive)
        },
        (Phase::SendingLive, Event::Sent(reply)) => match reply {
            Reply::Accepted => (
                no_failures(),
                Phase::Done(
                    CheckpointDispatchOutcome {
                        stats: (0, input.estimated_files, 0),
                        queued: false,
                    },
                ),
            ),
            Reply::Rejected(Some(message)) => (
                one_failure("request_rejected", message),
                Phase::Local,
            ),
            Reply::Rejected(None) => (
                one_failure("request_rejected", "unknown error".to_owned()),
                Phase::Local,
            ),
            Reply::Unreachable(message) => (one_failure("connect_failed", message), Phase::Local),
        },
        (Phase::Local, Event::Ran(Ok(stats))) => (
            no_failures(),
            Phase::Done(CheckpointDispatchOutcome { stats, queued: false }),
        ),
        (Phase::Local, Event::Ran(Err(e))) => (no_failures(), Phase::Failed(e)),
        (phase, _) => (no_failures(), phase),
    }
}

/// How far a phase is from the end of the dispatch, at most.
pub open spec fn steps_left(phase: PhaseView) -> nat {
    match phase {
        PhaseView::Starting => 7,
        PhaseView::SendingEarlier(_) => 6,
        PhaseView::DeletingEarlier(_, _, _) => 5,
        PhaseView::Capturing => 4,
        PhaseView::SendingCapture(_, _, _) => 3,
        PhaseView::DeletingCapture(_, _, _) => 2,
        PhaseView::SendingLive => 1,
        PhaseView::Local => 0,
        PhaseView::Done(_, _) => 0,
        PhaseView::Failed(_) => 0,
    }
}

/// Whether an event answers to the action that a phase asks for.
pub open spec fn answers(phase: PhaseView, event: EventView) -> bool {
    match phase {
        PhaseView::Starting => event is Started,
        PhaseView::SendingEarlier(_) => event is Accepted || event is Rejected
            || event is Unreachable,
        PhaseView::DeletingEarlier(_, _, _) => event is Deleted,
        PhaseView::Capturing => event is Captured || event is CaptureFailed,
        PhaseView::SendingCapture(_, _, _) => event is Accepted || event is Rejected
            || event is Unreachable,
        PhaseView::DeletingCapture(_, _, _) => event is Deleted,
        PhaseView::SendingLive => event is Accepted || event is Rejected || event is Unreachable,
        PhaseView::Local => event is Ran || event is RunFailed,
        PhaseView::Done(_, _) => false,
        PhaseView::Failed(_) => false,
    }
}

/// A dispatch ends: every answer leads closer to the end.
pub proof fn law_dispatch_ends(input: InputView, phase: PhaseView, event: EventView)
    requires
        answers(phase, event),
    ensures
        ({
            let next = step_of(input, phase, event).1;
            ||| next is Done
            ||| next is Failed
            ||| steps_left(next) < steps_left(phase)
        }),
{
}

/// No failure of the background service fails a checkpoint: only taking it here can.
pub proof fn law_service_never_fails_a_checkpoint(
    input: InputView,
    phase: PhaseView,
    event: EventView,
)
    requires
        !(phase is Failed),
        step_of(input, phase, event).1 is Failed,
    ensures
        phase is Local,
        event is RunFailed,
{
}

/// Where the service was asked in vain, a failure is logged before the checkpoint is
/// taken here.
pub proof fn law_fallback_is_logged(input: InputView, phase: PhaseView, event: EventView)
    requires
        !(phase is Local),
        step_of(input, phase, event).1 is Local,
    ensures
        step_of(input, phase, event).0.len() > 0,
{
}

/// A captured checkpoint that the service did not take is deleted before anything else
/// is tried.
pub proof fn law_refused_capture_is_deleted(input: InputView, phase: PhaseView, event: EventView)
    requires
        event is Rejected || event is Unreachable,
    ensures
        phase matches PhaseView::SendingEarlier(id) ==> (step_of(
            input,
            phase,
            event,
        ).1 matches PhaseView::DeletingEarlier(deleted, _, _) && deleted == id),
        phase matches PhaseView::SendingCapture(dir, id, n) ==> (step_of(
            input,
            phase,
            event,
        ).1 matches PhaseView::DeletingCapture(deleted, _, _) && deleted == id),
{
}

// ------------------------------------------------------------------------ messages

/// What is said of a failure of the service.
pub fn failure_message(failure: &DelegateFailure) -> (r: String)
    ensures
        r@ == "[git-ai] checkpoint delegate "@ + failure@.0 + ": "@ + failure@.1
            + "; falling back to local checkpoint"@,
{
    let mut m = concat("[git-ai] checkpoint delegate ", failure.phase.as_str());
    m.append(": ");
    m.append(failure.message.as_str());
    m.append("; falling back to local checkpoint");
    m
}

/// What is logged of a failure of the service.
pub fn failure_log(failure: &DelegateFailure) -> (r: String)
    ensures
        r@ == "daemon checkpoint delegate "@ + failure@.0 + ": "@ + failure@.1,
{
    let mut m = concat("daemon checkpoint delegate ", failure.phase.as_str());
    m.append(": ");
    m.append(failure.message.as_str());
    m
}

/// What is said of the checkpoint of one of several repositories. The label stands
/// before the repository's name.
pub fn repository_message(label: &str, workdir: &str, outcome: CheckpointDispatchOutcome) -> (r:
    String)
    ensures
        r@ == label@ + " for "@ + workdir@ + if outcome.queued {
            " queued ("@
        } else {
            " completed ("@
        } + decimal_of(outcome.stats.1 as nat) + " files)"@,
{
    let mut m = concat(label, " for ");
    m.append(workdir);
    if outcome.queued {
        m.append(" queued (");
    } else {
        m.append(" completed (");
    }
    m.append(decimal(outcome.stats.1 as u64).as_str());
    m.append(" files)");
    m
}

/// What came of a checkpoint over the repositories of a workspace.
pub struct WorkspaceTally {
    /// Whether more than one repository holds edits.
    pub multi: bool,
    pub processed: usize,
    pub queued: usize,
    pub files: usize,
}

/// What is said at the end of a checkpoint over the repositories of a workspace.
pub open spec fn workspace_summary_of(
    multi: bool,
    processed: nat,
    queued: nat,
    files: nat,
    elapsed: Seq<char>,
) -> Seq<char> {
    if multi {
        if queued == processed && queued > 0 {
            "Checkpoint queued in "@ + elapsed + " ("@ + decimal_of(processed) + " repositories, "@
                + decimal_of(files) + " total files)"@
        } else if queued == 0 {
            "Checkpoint completed in "@ + elapsed + " ("@ + decimal_of(processed)
                + " repositories, "@ + decimal_of(files) + " total files)"@
        } else {
            "Checkpoint dispatched in "@ + elapsed + " ("@ + decimal_of(queued) + " queued, "@
                + decimal_of(
                if processed >= queued {
                    (processed - queued) as nat
                } else {
                    0
                },
            ) + " completed, "@ + decimal_of(files) + " total files)"@
        }
    } else if queued > 0 {
        "Checkpoint queued in "@ + elapsed
    } else {
        "Checkpoint completed in "@ + elapsed
    }
}

/// What is said at the end of a checkpoint over the repositories of a workspace.
pub fn workspace_summary(tally: &WorkspaceTally, elapsed: &str) -> (r: String)
    ensures
        r@ == workspace_summary_of(
            tally.multi,
            tally.processed as nat,
            tally.queued as nat,
            tally.files as nat,
            elapsed@,
        ),
{
    if !tally.multi {
        return if tally.queued > 0 {
            concat("Checkpoint queued in ", elapsed)
        } else {
            concat("Checkpoint completed in ", elapsed)
        };
    }
    if tally.queued == tally.processed && tally.queued > 0 || tally.queued == 0 {
        let mut m = if tally.queued == 0 {
            concat("Checkpoint completed in ", elapsed)
        } else {
            concat("Checkpoint queued in ", elapsed)
        };
        m.append(" (");
        m.append(decimal(tally.processed as u64).as_str());
        m.append(" repositories, ");
        m.append(decimal(tally.files as u64).as_str());
        m.append(" total files)");
        return m;
    }
    let rest: usize = if tally.processed >= tally.queued {
        tally.processed - tally.queued
    } else {
        0
    };
    let mut m = concat("Checkpoint dispatched in ", elapsed);
    m.append(" (");
    m.append(decimal(tally.queued as u64).as_str());
    m.append(" queued, ");
    m.append(decimal(rest as u64).as_str());
    m.append(" completed, ");
    m.append(decimal(tally.files as u64).as_str());
    m.append(" total files)");
    m
}

impl WorkspaceTally {
    /// The tally once one more repository was worked on: what came of it, or none
    /// where it failed.
    pub fn record(&mut self, outcome: Option<CheckpointDispatchOutcome>)
        requires
            old(self).processed < usize::MAX,
            old(self).queued <= old(self).processed,
            outcome matches Some(o) ==> old(self).files + o.stats.1 <= usize::MAX,
        ensures
            final(self).multi == old(self).multi,
            final(self).processed == old(self).processed + 1,
            final(self).queued == old(self).queued + if outcome matches Some(o) && o.queued {
                1int
            } else {
                0int
            },
            final(self).files == old(self).files + match outcome {
                Some(o) => o.stats.1 as int,
                None => 0int,
            },
            final(self).queued <= final(self).processed,
    {
        self.processed += 1;
        if let Some(o) = outcome {
            self.files += o.stats.1;
            if o.queued {
                self.queued += 1;
            }
        }
    }
}

} // verus!
