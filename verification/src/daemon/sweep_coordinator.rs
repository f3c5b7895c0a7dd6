//! Sweeps: which of the transcripts that the agents keep have to be read.

use crate::model::{lemma_views_push, opt_view, views};
use crate::text::{clone_option, concat, str_eq};
use vstd::prelude::*;

verus! {

/// Why a transcript could not be read.
pub enum TranscriptError {
    /// It may work later.
    Transient { message: String, retry_after_secs: u64 },
    /// A line makes no sense.
    Parse { line: usize, message: String },
    /// It never will work.
    Fatal { message: String },
}

/// The texts and numbers of a transcript error.
pub enum TranscriptErrorView {
    Transient { message: Seq<char>, retry_after_secs: u64 },
    Parse { line: usize, message: Seq<char> },
    Fatal { message: Seq<char> },
}

impl View for TranscriptError {
    type V = TranscriptErrorView;

    open spec fn view(&self) -> TranscriptErrorView {
        match self {
            TranscriptError::Transient { message, retry_after_secs } => {
                TranscriptErrorView::Transient {
                    message: message@,
                    retry_after_secs: *retry_after_secs,
                }
            },
            TranscriptError::Parse { line, message } => TranscriptErrorView::Parse {
                line: *line,
                message: message@,
            },
            TranscriptError::Fatal { message } => TranscriptErrorView::Fatal { message: message@ },
        }
    }
}

/// How a file stands on disk: its size, and when it was last changed.
#[derive(Clone, Copy)]
pub struct FileFacts {
    pub size: u64,
    pub modified: Option<i64>,
}

/// A session that an agent has on disk.
pub struct DiscoveredSession {
    pub session_id: String,
    pub tool: String,
    /// The transcript's path, with links resolved.
    pub canonical_path: String,
    pub external_session_id: String,
    pub external_parent_session_id: Option<String>,
    /// The transcript's file, or why it could not be looked at.
    pub file: Result<FileFacts, String>,
}

/// The texts of a session on disk.
pub struct DiscoveredSessionView {
    pub session_id: Seq<char>,
    pub tool: Seq<char>,
    pub canonical_path: Seq<char>,
    pub external_session_id: Seq<char>,
    pub external_parent_session_id: Option<Seq<char>>,
    pub file: Result<FileFacts, Seq<char>>,
}

impl View for DiscoveredSession {
    type V = DiscoveredSessionView;

    open spec fn view(&self) -> DiscoveredSessionView {
        DiscoveredSessionView {
            session_id: self.session_id@,
            tool: self.tool@,
            canonical_path: self.canonical_path@,
            external_session_id: self.external_session_id@,
            external_parent_session_id: opt_view(self.external_parent_session_id),
            file: match self.file {
                Ok(facts) => Ok(facts),
                Err(cause) => Err(cause@),
            },
        }
    }
}

/// What one agent has to tell a sweep.
pub struct AgentSweep {
    pub agent_type: String,
    /// Whether the agent's sessions are found by periodic sweeps.
    pub periodic: bool,
    /// The agent's sessions; nothing where they could not be listed.
    pub sessions: Option<Vec<DiscoveredSession>>,
}

/// The model of what one agent tells.
pub struct AgentSweepView {
    pub agent_type: Seq<char>,
    pub periodic: bool,
    pub sessions: Option<Seq<DiscoveredSessionView>>,
}

impl View for AgentSweep {
    type V = AgentSweepView;

    open spec fn view(&self) -> AgentSweepView {
        AgentSweepView {
            agent_type: self.agent_type@,
            periodic: self.periodic,
            sessions: match self.sessions {
                Some(found) => Some(views(found@)),
                None => None,
            },
        }
    }
}

/// What is on record of a session that was read before.
pub struct SessionRecord {
    pub session_id: String,
    pub transcript_path: String,
    pub last_known_size: i64,
    pub last_modified: Option<i64>,
}

/// The model of a session on record.
pub struct SessionRecordView {
    pub session_id: Seq<char>,
    pub transcript_path: Seq<char>,
    pub last_known_size: i64,
    pub last_modified: Option<i64>,
}

impl View for SessionRecord {
    type V = SessionRecordView;

    open spec fn view(&self) -> SessionRecordView {
        SessionRecordView {
            session_id: self.session_id@,
            transcript_path: self.transcript_path@,
            last_known_size: self.last_known_size,
            last_modified: self.last_modified,
        }
    }
}

/// A session that has to be read.
pub struct SessionToProcess {
    pub session_id: String,
    pub tool: String,
    pub canonical_path: String,
    pub external_session_id: String,
    pub external_parent_session_id: Option<String>,
}

/// The texts of a session that has to be read.
pub struct SessionToProcessView {
    pub session_id: Seq<char>,
    pub tool: Seq<char>,
    pub canonical_path: Seq<char>,
    pub external_session_id: Seq<char>,
    pub external_parent_session_id: Option<Seq<char>>,
}

impl View for SessionToProcess {
    type V = SessionToProcessView;

    open spec fn view(&self) -> SessionToProcessView {
        SessionToProcessView {
            session_id: self.session_id@,
            tool: self.tool@,
            canonical_path: self.canonical_path@,
            external_session_id: self.external_session_id@,
            external_parent_session_id: opt_view(self.external_parent_session_id),
        }
    }
}

/// The work that a session on disk gives.
pub open spec fn work_of(found: DiscoveredSessionView) -> SessionToProcessView {
    SessionToProcessView {
        session_id: found.session_id,
        tool: found.tool,
        canonical_path: found.canonical_path,
        external_session_id: found.external_session_id,
        external_parent_session_id: found.external_parent_session_id,
    }
}

/// The record of a session, from a place in the list on.
pub open spec fn record_from(
    known: Seq<SessionRecordView>,
    session_id: Seq<char>,
    path: Seq<char>,
    i: int,
) -> Option<SessionRecordView>
    decreases known.len() - i,
{
    if i < 0 || i >= known.len() {
        None
    } else if known[i].session_id == session_id && known[i].transcript_path == path {
        Some(known[i])
    } else {
        record_from(known, session_id, path, i + 1)
    }
}

/// Whether a file has changed since a session was recorded: its size is
/// another one, or the time of its last change is known and another one.
pub open spec fn is_behind(file: FileFacts, record: SessionRecordView) -> bool {
    file.size as i64 != record.last_known_size || (file.modified is Some && file.modified
        != record.last_modified)
}

/// The error of a file that could not be looked at.
pub open spec fn stat_error(cause: Seq<char>) -> TranscriptErrorView {
    TranscriptErrorView::Transient {
        message: "failed to stat file: "@ + cause,
        retry_after_secs: 5,
    }
}

/// Whether a session on disk has to be read: it is not on record, or its
/// file has changed since. The file matters only where there is a record.
pub open spec fn needs_work(
    known: Seq<SessionRecordView>,
    found: DiscoveredSessionView,
) -> Result<bool, TranscriptErrorView> {
    match record_from(known, found.session_id, found.canonical_path, 0) {
        None => Ok(true),
        Some(record) => match found.file {
            Ok(file) => Ok(is_behind(file, record)),
            Err(cause) => Err(stat_error(cause)),
        },
    }
}

/// The work that an agent's sessions add from one of them on.
pub open spec fn swept_sessions(
    known: Seq<SessionRecordView>,
    found: Seq<DiscoveredSessionView>,
    i: int,
    out: Seq<SessionToProcessView>,
) -> Result<Seq<SessionToProcessView>, TranscriptErrorView>
    decreases found.len() - i,
{
    if i < 0 || i >= found.len() {
        Ok(out)
    } else {
        match needs_work(known, found[i]) {
            Err(e) => Err(e),
            Ok(true) => swept_sessions(known, found, i + 1, out.push(work_of(found[i]))),
            Ok(false) => swept_sessions(known, found, i + 1, out),
        }
    }
}

/// The work that the agents add from one of them on. Those without periodic
/// sweeps are passed over, and those whose sessions could not be listed.
pub open spec fn swept_agents(
    known: Seq<SessionRecordView>,
    agents: Seq<AgentSweepView>,
    i: int,
    out: Seq<SessionToProcessView>,
) -> Result<Seq<SessionToProcessView>, TranscriptErrorView>
    decreases agents.len() - i,
{
    if i < 0 || i >= agents.len() {
        Ok(out)
    } else if !agents[i].periodic || agents[i].sessions is None {
        swept_agents(known, agents, i + 1, out)
    } else {
        match swept_sessions(known, agents[i].sessions->0, 0, out) {
            Err(e) => Err(e),
            Ok(more) => swept_agents(known, agents, i + 1, more),
        }
    }
}

/// A result by its model.
pub open spec fn sweep_view(
    r: Result<Vec<SessionToProcess>, TranscriptError>,
) -> Result<Seq<SessionToProcessView>, TranscriptErrorView> {
    match r {
        Ok(out) => Ok(views(out@)),
        Err(e) => Err(e@),
    }
}

/// Sweeps over the agents, against the sessions on record.
pub struct SweepCoordinator {
    pub sessions: Vec<SessionRecord>,
}

impl SweepCoordinator {
    /// A coordinator that knows the given sessions.
    pub fn new(sessions: Vec<SessionRecord>) -> (r: Self)
        ensures
            r.sessions == sessions,
    {
        SweepCoordinator { sessions }
    }

    /// The sessions of all agents that have to be read: the new ones, and
    /// those whose file has changed.
    pub fn run_sweep(&self, agents: &Vec<AgentSweep>) -> (r: Result<
        Vec<SessionToProcess>,
        TranscriptError,
    >)
        ensures
            sweep_view(r) == swept_agents(views(self.sessions@), views(agents@), 0, Seq::empty()),
    {
        let ghost known = views(self.sessions@);
        let ghost all = views(agents@);
        let mut out: Vec<SessionToProcess> = Vec::new();
        let mut i: usize = 0;
        assert(views(out@) =~= Seq::empty());
        while i < agents.len()
            invariant
                i <= agents@.len(),
                known == views(self.sessions@),
                all == views(agents@),
                swept_agents(known, all, 0, Seq::empty()) == swept_agents(
                    known,
                    all,
                    i as int,
                    views(out@),
                ),
            decreases agents.len() - i,
        {
            let agent = &agents[i];
            assert(all[i as int] == agent@);
            if agent.periodic {
                if let Some(found) = &agent.sessions {
                    let r = self.sweep_agent(found, out);
                    match r {
                        Ok(more) => {
                            out = more;
                        },
                        Err(e) => {
                            return Err(e);
                        },
                    }
                }
            }
            i += 1;
        }
        Ok(out)
    }

    /// The work of one agent's sessions behind what is there already.
    fn sweep_agent(&self, found: &Vec<DiscoveredSession>, done: Vec<SessionToProcess>) -> (r: Result<
        Vec<SessionToProcess>,
        TranscriptError,
    >)
        ensures
            sweep_view(r) == swept_sessions(
                views(self.sessions@),
                views(found@),
                0,
                views(done@),
            ),
    {
        let ghost known = views(self.sessions@);
        let ghost all = views(found@);
        let ghost start = views(done@);
        let mut out = done;
        let mut i: usize = 0;
        while i < found.len()
            invariant
                i <= found@.len(),
                known == views(self.sessions@),
                all == views(found@),
                start == views(done@),
                swept_sessions(known, all, 0, start) == swept_sessions(
                    known,
                    all,
                    i as int,
                    views(out@),
                ),
            decreases found.len() - i,
        {
            let session = &found[i];
            assert(all[i as int] == session@);
            match self.session_needs_work(session) {
                Err(e) => {
                    return Err(e);
                },
                Ok(true) => {
                    let work = SessionToProcess {
                        session_id: session.session_id.clone(),
                        tool: session.tool.clone(),
                        canonical_path: session.canonical_path.clone(),
                        external_session_id: session.external_session_id.clone(),
                        external_parent_session_id: clone_option(
                            &session.external_parent_session_id,
                        ),
                    };
                    let ghost before = out@;
                    let ghost added = work;
                    out.push(work);
                    proof {
                        lemma_views_push(before, added);
                    }
                },
                Ok(false) => {},
            }
            i += 1;
        }
        Ok(out)
    }

    /// Whether a session on disk has to be read.
    fn session_needs_work(&self, session: &DiscoveredSession) -> (r: Result<bool, TranscriptError>)
        ensures
            match r {
                Ok(b) => needs_work(views(self.sessions@), session@) == Ok::<
                    bool,
                    TranscriptErrorView,
                >(b),
                Err(e) => needs_work(views(self.sessions@), session@) == Err::<
                    bool,
                    TranscriptErrorView,
                >(e@),
            },
    {
        let ghost known = views(self.sessions@);
        let mut i: usize = 0;
        while i < self.sessions.len()
            invariant
                i <= self.sessions@.len(),
                known == views(self.sessions@),
                record_from(known, session@.session_id, session@.canonical_path, 0) == record_from(
                    known,
                    session@.session_id,
                    session@.canonical_path,
                    i as int,
                ),
            decreases self.sessions.len() - i,
        {
            let record = &self.sessions[i];
            assert(known[i as int] == record@);
            if str_eq(record.session_id.as_str(), session.session_id.as_str()) && str_eq(
                record.transcript_path.as_str(),
                session.canonical_path.as_str(),
            ) {
                return match &session.file {
                    Ok(file) => Ok(self.is_session_behind(*file, record)),
                    Err(cause) => Err(
                        TranscriptError::Transient {
                            message: concat("failed to stat file: ", cause.as_str()),
                            retry_after_secs: 5,
                        },
                    ),
                };
            }
            i += 1;
        }
        Ok(true)
    }

    /// Whether a file has changed since a session was recorded.
    fn is_session_behind(&self, file: FileFacts, record: &SessionRecord) -> (r: bool)
        ensures
            r == is_behind(file, record@),
    {
        if file.size as i64 != record.last_known_size {
            return true;
        }
        match (file.modified, record.last_modified) {
            (Some(now), Some(before)) => now != before,
            (Some(_), None) => true,
            (None, _) => false,
        }
    }
}

/// A sweep that ends well has found all the work and nothing else: a session
/// of an agent with periodic sweeps is in the result exactly as it needs to
/// be read, and every entry of the result is such a session.
pub proof fn law_sweep_finds_the_work(known: Seq<SessionRecordView>, agents: Seq<AgentSweepView>)
    ensures
        match swept_agents(known, agents, 0, Seq::empty()) {
            Err(_) => true,
            Ok(out) => {
                &&& forall|a: int, s: int| #[trigger]
                    is_session(agents, a, s) && needs_work(known, agents[a].sessions->0[s]) == Ok::<
                        bool,
                        TranscriptErrorView,
                    >(true) ==> out.contains(work_of(agents[a].sessions->0[s]))
                &&& forall|k: int|
                    0 <= k < out.len() ==> is_work_of(known, agents, #[trigger] out[k])
            },
        },
{
    lemma_swept_agents(known, agents, 0, Seq::empty());
    if let Ok(out) = swept_agents(known, agents, 0, Seq::empty()) {
        assert forall|a: int, s: int| #[trigger]
            is_session(agents, a, s) && needs_work(known, agents[a].sessions->0[s]) == Ok::<
                bool,
                TranscriptErrorView,
            >(true) implies out.contains(work_of(agents[a].sessions->0[s])) by {}
    }
}

/// Whether the numbers of an agent and of a session lead to a session of an
/// agent with periodic sweeps whose sessions could be listed.
pub open spec fn is_session(agents: Seq<AgentSweepView>, a: int, s: int) -> bool {
    0 <= a < agents.len() && agents[a].periodic && agents[a].sessions is Some && 0 <= s
        < agents[a].sessions->0.len()
}

/// Whether some session that the agents have gives this work.
pub open spec fn is_work_of(
    known: Seq<SessionRecordView>,
    agents: Seq<AgentSweepView>,
    work: SessionToProcessView,
) -> bool {
    exists|a: int, s: int| #[trigger]
        is_session(agents, a, s) && work == work_of(agents[a].sessions->0[s]) && needs_work(
            known,
            agents[a].sessions->0[s],
        ) == Ok::<bool, TranscriptErrorView>(true)
}

proof fn lemma_swept_sessions(
    known: Seq<SessionRecordView>,
    found: Seq<DiscoveredSessionView>,
    i: int,
    out: Seq<SessionToProcessView>,
)
    requires
        0 <= i <= found.len(),
    ensures
        match swept_sessions(known, found, i, out) {
            Err(_) => true,
            Ok(r) => {
                &&& out.len() <= r.len()
                &&& r.take(out.len() as int) == out
                &&& forall|s: int|
                    i <= s < found.len() && needs_work(known, #[trigger] found[s]) == Ok::<
                        bool,
                        TranscriptErrorView,
                    >(true) ==> r.contains(work_of(found[s]))
                &&& forall|k: int|
                    out.len() <= k < r.len() ==> exists|s: int|
                        i <= s < found.len() && #[trigger] r[k] == work_of(#[trigger] found[s])
                            && needs_work(known, found[s]) == Ok::<bool, TranscriptErrorView>(true)
            },
        },
    decreases found.len() - i,
{
    if i < found.len() {
        let next = match needs_work(known, found[i]) {
            Ok(true) => out.push(work_of(found[i])),
            _ => out,
        };
        lemma_swept_sessions(known, found, i + 1, next);
        if let Ok(r) = swept_sessions(known, found, i, out) {
            assert(r.take(out.len() as int) =~= r.take(next.len() as int).take(out.len() as int));
            assert(next.take(out.len() as int) =~= out);
            if next.len() > out.len() {
                assert(r[out.len() as int] == r.take(next.len() as int)[out.len() as int]);
                assert(r[out.len() as int] == work_of(found[i]));
            }
        }
    } else {
        assert(out.take(out.len() as int) =~= out);
    }
}

proof fn lemma_swept_agents(
    known: Seq<SessionRecordView>,
    agents: Seq<AgentSweepView>,
    i: int,
    out: Seq<SessionToProcessView>,
)
    requires
        0 <= i <= agents.len(),
    ensures
        match swept_agents(known, agents, i, out) {
            Err(_) => true,
            Ok(r) => {
                &&& out.len() <= r.len()
                &&& r.take(out.len() as int) == out
                &&& forall|a: int, s: int|
                    i <= a && #[trigger] is_session(agents, a, s) && needs_work(
                        known,
                        agents[a].sessions->0[s],
                    ) == Ok::<bool, TranscriptErrorView>(true) ==> r.contains(
                        work_of(agents[a].sessions->0[s]),
                    )
                &&& forall|k: int|
                    out.len() <= k < r.len() ==> is_work_of(known, agents, #[trigger] r[k])
            },
        },
    decreases agents.len() - i,
{
    if i < agents.len() {
        if !agents[i].periodic || agents[i].sessions is None {
            lemma_swept_agents(known, agents, i + 1, out);
        } else {
            let found = agents[i].sessions->0;
            lemma_swept_sessions(known, found, 0, out);
            if let Ok(more) = swept_sessions(known, found, 0, out) {
                lemma_swept_agents(known, agents, i + 1, more);
                if let Ok(r) = swept_agents(known, agents, i, out) {
                    assert(r.take(out.len() as int) =~= r.take(more.len() as int).take(
                        out.len() as int,
                    ));
                    assert forall|a: int, s: int|
                        i <= a && #[trigger] is_session(agents, a, s) && needs_work(
                            known,
                            agents[a].sessions->0[s],
                        ) == Ok::<bool, TranscriptErrorView>(true) implies r.contains(
                        work_of(agents[a].sessions->0[s]),
                    ) by {
                        if a == i {
                            assert(more.contains(work_of(found[s])));
                            let k = choose|k: int|
                                0 <= k < more.len() && more[k] == work_of(found[s]);
                            assert(r[k] == r.take(more.len() as int)[k]);
                        }
                    }
                    assert forall|k: int| out.len() <= k < r.len() implies is_work_of(
                        known,
                        agents,
                        #[trigger] r[k],
                    ) by {
                        if k < more.len() {
                            assert(r[k] == r.take(more.len() as int)[k]);
                            assert(more[k] == r[k]);
                            let s = choose|s: int|
                                0 <= s < found.len() && more[k] == work_of(#[trigger] found[s])
                                    && needs_work(known, found[s]) == Ok::<
                                    bool,
                                    TranscriptErrorView,
                                >(true);
                            assert(is_session(agents, i, s));
                        }
                    }
                }
            }
        }
    } else {
        assert(out.take(out.len() as int) =~= out);
    }
}

} // verus!
