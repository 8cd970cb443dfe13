//! The pipeline executor: sessions running an execution plan stage by
//! stage, their life cycle, and the tokens a request generates.
//!
//! A request runs a prefill pass over the input tokens, which appends them
//! again to the context, then decodes one token per step: the last token of
//! the context plus one, modulo 1000. Decoding stops after the requested
//! number of tokens, or right after token 2, the end-of-sequence token.

use vstd::prelude::*;
use crate::kvmap::{keys_unique, seq_to_map, lemma_map_absent, lemma_map_lookup, lemma_map_push, lemma_unique_push, lemma_map_update, lemma_map_remove, lemma_map_len};
use crate::types::{NodeId, SessionId, ExecutionPlan, Timestamp, now_millis};

verus! {

/// Session status.
#[derive(Debug, Clone, PartialEq)]
pub enum SessionStatus {
    Initializing,
    Running,
    Paused,
    Completed,
    Failed(String),
}

/// Stage status.
#[derive(Debug, Clone, PartialEq)]
pub enum StageStatus {
    Idle,
    Ready,
    Executing,
    Completed,
    Failed(String),
}

/// Pipeline execution errors.
#[derive(Debug, Clone, PartialEq)]
pub enum PipelineError {
    SessionNotFound(SessionId),
    SessionNotReady(String),
    StageExecutionFailed(String),
    TensorTransferFailed(String),
    InvalidPlan(String),
    Internal(String),
}

/// What running a request produced: the session and the decoded tokens.
#[derive(Debug, Clone)]
pub struct ExecutionResult {
    pub session_id: SessionId,
    pub tokens: Vec<u32>,
}

/// Executor statistics.
#[derive(Debug, Clone, Copy)]
pub struct ExecutorStats {
    pub total_sessions: usize,
    pub running_sessions: usize,
    pub paused_sessions: usize,
}

/// Execution request for a session; the sampling temperature is carried as
/// the bit pattern of its `f32` value.
#[derive(Debug, Clone)]
pub struct ExecutionRequest {
    pub session_id: SessionId,
    pub input_tokens: Vec<u32>,
    pub max_tokens: u32,
    pub temperature_bits: u32,
}

/// State of one stage of a session.
#[derive(Debug)]
pub struct StageState {
    pub stage_id: u32,
    pub node_id: NodeId,
    pub status: StageStatus,
    pub input_tensors: Vec<String>,
    pub output_tensors: Vec<String>,
    pub last_execution: Option<Timestamp>,
}

/// State of a session.
#[derive(Debug)]
pub struct SessionState {
    pub session_id: SessionId,
    pub plan: ExecutionPlan,
    pub stage_states: Vec<StageState>,
    pub tensor_buffer: Vec<(String, Vec<u8>)>,
    pub status: SessionStatus,
    pub created_at: Timestamp,
}

/// What a session status says.
pub enum StatusView {
    Initializing,
    Running,
    Paused,
    Completed,
    Failed(Seq<char>),
}

/// What a stage status says.
pub enum StageStatusView {
    Idle,
    Ready,
    Executing,
    Completed,
    Failed(Seq<char>),
}

pub open spec fn status_view(s: SessionStatus) -> StatusView {
    match s {
        SessionStatus::Initializing => StatusView::Initializing,
        SessionStatus::Running => StatusView::Running,
        SessionStatus::Paused => StatusView::Paused,
        SessionStatus::Completed => StatusView::Completed,
        SessionStatus::Failed(m) => StatusView::Failed(m@),
    }
}

pub open spec fn stage_status_view(s: StageStatus) -> StageStatusView {
    match s {
        StageStatus::Idle => StageStatusView::Idle,
        StageStatus::Ready => StageStatusView::Ready,
        StageStatus::Executing => StageStatusView::Executing,
        StageStatus::Completed => StageStatusView::Completed,
        StageStatus::Failed(m) => StageStatusView::Failed(m@),
    }
}

/// What a stage's state says.
pub struct StageView {
    pub stage_id: u32,
    pub node_id: NodeId,
    pub status: StageStatusView,
    pub last_execution: Option<Timestamp>,
}

/// What a session's state says.
pub struct SessionView {
    pub status: StatusView,
    pub stages: Seq<StageView>,
    pub plan: ExecutionPlan,
}

pub open spec fn stage_view(s: StageState) -> StageView {
    StageView { stage_id: s.stage_id, node_id: s.node_id, status: stage_status_view(s.status), last_execution: s.last_execution }
}

pub open spec fn stage_views(s: Seq<StageState>) -> Seq<StageView> {
    s.map_values(|t: StageState| stage_view(t))
}

pub open spec fn session_view(s: SessionState) -> SessionView {
    SessionView { status: status_view(s.status), stages: stage_views(s.stage_states@), plan: s.plan }
}

pub open spec fn session_pairs(s: Seq<SessionState>) -> Seq<(SessionId, SessionView)> {
    s.map_values(|t: SessionState| (t.session_id, session_view(t)))
}

/// The stages of a freshly initialized session: one idle stage per plan stage.
pub open spec fn initial_stages(plan: ExecutionPlan) -> Seq<StageView> {
    plan.stages@.map_values(|p: crate::types::StagePlan| StageView { stage_id: p.id, node_id: p.node_id, status: StageStatusView::Idle, last_execution: None })
}

/// The stages after a run: each has run, and ends ready when a token was
/// decoded, completed when only the prefill ran.
pub open spec fn stages_after_run(stages: Seq<StageView>, decoded: bool, now: Timestamp) -> Seq<StageView> {
    stages.map_values(|s: StageView| StageView {
        status: if decoded { StageStatusView::Ready } else { StageStatusView::Completed },
        last_execution: Some(now),
        ..s
    })
}

/// The tokens decoded after `last`, at most `max` of them, stopping after token 2.
pub open spec fn decoded(last: int, max: nat) -> Seq<u32>
    decreases max,
{
    if max == 0 {
        Seq::empty()
    } else {
        let t = ((last + 1) % 1000) as u32;
        if t == 2 {
            seq![t]
        } else {
            seq![t] + decoded(t as int, (max - 1) as nat)
        }
    }
}

/// The last token of the context a request starts from; 0 for no input.
pub open spec fn context_last(input: Seq<u32>) -> int {
    if input.len() == 0 {
        0
    } else {
        input.last() as int
    }
}

pub open spec fn can_run(status: StatusView) -> bool {
    status == StatusView::Initializing || status == StatusView::Running
}

/// The sessions with session `id` set to `status`, its stages kept.
pub open spec fn with_status(m: Map<SessionId, SessionView>, id: SessionId, status: StatusView) -> Map<SessionId, SessionView> {
    m.insert(id, SessionView { status, ..m[id] })
}

pub open spec fn count_status(s: Seq<SessionView>, status: StatusView) -> int
    decreases s.len(),
{
    if s.len() == 0 {
        0
    } else {
        count_status(s.drop_last(), status) + if s.last().status == status { 1int } else { 0int }
    }
}

pub open spec fn session_views(s: Seq<SessionState>) -> Seq<SessionView> {
    s.map_values(|t: SessionState| session_view(t))
}

/// Milliseconds the prefill of `token_count` tokens takes on one stage: two
/// per token, at most 100.
pub open spec fn prefill_delay(token_count: int) -> int {
    if 2 * token_count <= 100 {
        2 * token_count
    } else {
        100
    }
}

/// Milliseconds one decode step takes on one stage.
pub const DECODE_DELAY_MS: u32 = 10;

/// The time the prefill of `token_count` tokens takes on one stage.
pub fn prefill_delay_ms(token_count: usize) -> (r: u32)
    requires
        (token_count as u32) * 2 <= u32::MAX,
    ensures
        r == prefill_delay((token_count as u32) as int),
{
    let n = (token_count as u32) * 2;
    if n <= 100 {
        n
    } else {
        100
    }
}

/// A clock reading in milliseconds, as chrono gives it.
pub open spec fn millis_ok(t: Timestamp) -> bool {
    -10_000_000_000_000_000 < t < 10_000_000_000_000_000
}

/// What running `request` at `now` does: an unknown session is not found,
/// one that can not run is refused with its status; otherwise the session
/// runs, its plan kept, each stage ran at `now`, and the result holds the
/// decoded tokens.
pub open spec fn execute_outcome(
    before: Map<SessionId, SessionView>,
    after: Map<SessionId, SessionView>,
    request: ExecutionRequest,
    now: Timestamp,
    r: Result<ExecutionResult, PipelineError>,
) -> bool {
    let id = request.session_id;
    if !before.contains_key(id) {
        r == Err::<ExecutionResult, PipelineError>(PipelineError::SessionNotFound(id)) && after == before
    } else if !can_run(before[id].status) {
        (r matches Err(PipelineError::SessionNotReady(m)) && m@ == "Session status: "@ + status_name(before[id].status))
            && after == before
    } else {
        let toks = decoded(context_last(request.input_tokens@), request.max_tokens as nat);
        r matches Ok(res) && {
            &&& res.session_id == id
            &&& res.tokens@ == toks
            &&& after == before.insert(id, SessionView {
                    status: StatusView::Running,
                    stages: stages_after_run(before[id].stages, toks.len() > 0, now),
                    plan: before[id].plan,
                })
        }
    }
}

/// The name of a session status.
pub open spec fn status_name(s: StatusView) -> Seq<char> {
    match s {
        StatusView::Initializing => "Initializing"@,
        StatusView::Running => "Running"@,
        StatusView::Paused => "Paused"@,
        StatusView::Completed => "Completed"@,
        StatusView::Failed(_) => "Failed"@,
    }
}

/// The name of a session status.
pub fn status_text(status: &SessionStatus) -> (r: String)
    ensures
        r@ == status_name(status_view(*status)),
{
    match status {
        SessionStatus::Initializing => String::from_str("Initializing"),
        SessionStatus::Running => String::from_str("Running"),
        SessionStatus::Paused => String::from_str("Paused"),
        SessionStatus::Completed => String::from_str("Completed"),
        SessionStatus::Failed(_) => String::from_str("Failed"),
    }
}

/// The pipeline executor.
pub struct PipelineExecutor {
    sessions: Vec<SessionState>,
}

impl View for PipelineExecutor {
    type V = Map<SessionId, SessionView>;

    closed spec fn view(&self) -> Map<SessionId, SessionView> {
        seq_to_map(session_pairs(self.sessions@))
    }
}

impl PipelineExecutor {
    /// One state per session id.
    pub closed spec fn wf(&self) -> bool {
        keys_unique(session_pairs(self.sessions@))
    }

    /// The sessions, each once.
    pub closed spec fn entries(&self) -> Seq<SessionView> {
        session_views(self.sessions@)
    }

    pub fn new() -> (r: Self)
        ensures
            r.wf(),
            r@ == Map::<SessionId, SessionView>::empty(),
    {
        let r = PipelineExecutor { sessions: Vec::new() };
        assert(session_pairs(r.sessions@) =~= Seq::empty());
        r
    }

    fn find(&self, id: SessionId) -> (r: Option<usize>)
        ensures
            match r {
                Some(i) => i < self.sessions@.len() && self.sessions@[i as int].session_id == id,
                None => forall|i: int| 0 <= i < self.sessions@.len() ==> self.sessions@[i].session_id != id,
            },
    {
        let mut i: usize = 0;
        while i < self.sessions.len()
            invariant
                i <= self.sessions@.len(),
                forall|j: int| 0 <= j < i ==> self.sessions@[j].session_id != id,
            decreases self.sessions@.len() - i,
        {
            if self.sessions[i].session_id == id {
                return Some(i);
            }
            i = i + 1;
        }
        None
    }

    /// Starts a session on a plan: one idle stage per plan stage. A session
    /// with the same id is replaced.
    pub fn initialize_session(&mut self, session_id: SessionId, plan: ExecutionPlan) -> (r: Result<(), PipelineError>)
        requires
            old(self).wf(),
        ensures
            final(self).wf(),
            r is Ok,
            final(self)@ == old(self)@.insert(session_id, SessionView {
                status: StatusView::Initializing,
                stages: initial_stages(plan),
                plan,
            }),
    {
        let mut stage_states: Vec<StageState> = Vec::new();
        let mut i: usize = 0;
        while i < plan.stages.len()
            invariant
                i <= plan.stages@.len(),
                stage_views(stage_states@) == initial_stages(plan).take(i as int),
            decreases plan.stages@.len() - i,
        {
            let st = StageState {
                stage_id: plan.stages[i].id,
                node_id: plan.stages[i].node_id,
                status: StageStatus::Idle,
                input_tensors: Vec::new(),
                output_tensors: Vec::new(),
                last_execution: None,
            };
            let ghost before = stage_states@;
            let ghost sv = stage_view(st);
            assert(sv == initial_stages(plan)[i as int]);
            stage_states.push(st);
            assert(stage_views(stage_states@) =~= stage_views(before).push(sv));
            assert(initial_stages(plan).take(i + 1) =~= initial_stages(plan).take(i as int).push(sv));
            i = i + 1;
        }
        assert(initial_stages(plan).take(i as int) =~= initial_stages(plan));
        let state = SessionState {
            session_id,
            plan,
            stage_states,
            tensor_buffer: Vec::new(),
            status: SessionStatus::Initializing,
            created_at: now_millis(),
        };
        self.store(state);
        Ok(())
    }

    /// Stores a session state, replacing one with the same id.
    fn store(&mut self, s: SessionState)
        requires
            old(self).wf(),
        ensures
            final(self).wf(),
            final(self)@ == old(self)@.insert(s.session_id, session_view(s)),
    {
        let ghost ps = session_pairs(self.sessions@);
        let ghost sv = session_view(s);
        let id = s.session_id;
        match self.find(id) {
            Some(i) => {
                proof {
                    lemma_map_update(ps, i as int, sv);
                }
                self.sessions.set(i, s);
                assert(session_pairs(self.sessions@) =~= ps.update(i as int, (ps[i as int].0, sv)));
            },
            None => {
                proof {
                    lemma_unique_push(ps, id, sv);
                    lemma_map_push(ps, id, sv);
                }
                self.sessions.push(s);
                assert(session_pairs(self.sessions@) =~= ps.push((id, sv)));
            },
        }
    }

    /// Sets the status of the session at `i`, keeping the rest.
    fn set_status(&mut self, i: usize, status: SessionStatus)
        requires
            old(self).wf(),
            i < old(self).sessions@.len(),
        ensures
            final(self).wf(),
            final(self).sessions@.len() == old(self).sessions@.len(),
            final(self)@ == old(self)@.insert(old(self).sessions@[i as int].session_id, SessionView {
                status: status_view(status),
                ..session_view(old(self).sessions@[i as int])
            }),
    {
        let ghost ps = session_pairs(self.sessions@);
        let ghost sv = SessionView { status: status_view(status), ..session_view(self.sessions@[i as int]) };
        proof {
            lemma_map_update(ps, i as int, sv);
        }
        let mut st = self.sessions.remove(i);
        st.status = status;
        self.sessions.insert(i, st);
        assert(session_pairs(self.sessions@) =~= ps.update(i as int, (ps[i as int].0, sv)));
    }

    /// Runs a request now; see `execute_at`.
    pub fn execute(&mut self, request: &ExecutionRequest) -> (r: Result<ExecutionResult, PipelineError>)
        requires
            old(self).wf(),
            context_last(request.input_tokens@) < u32::MAX,
        ensures
            final(self).wf(),
            exists|now: Timestamp| millis_ok(now) && execute_outcome(old(self)@, final(self)@, *request, now, r),
    {
        let now = now_millis();
        let r = self.execute_at(request, now);
        assert(millis_ok(now) && execute_outcome(old(self)@, self@, *request, now, r));
        r
    }

    /// Runs a request at `now`: the session must be initializing or
    /// running; it is then running, each stage ran at `now`, and the result
    /// holds the decoded tokens.
    pub fn execute_at(&mut self, request: &ExecutionRequest, now: Timestamp) -> (r: Result<ExecutionResult, PipelineError>)
        requires
            old(self).wf(),
            context_last(request.input_tokens@) < u32::MAX,
        ensures
            final(self).wf(),
            execute_outcome(old(self)@, final(self)@, *request, now, r),
    {
        let ghost ps = session_pairs(self.sessions@);
        let i = match self.find(request.session_id) {
            Some(i) => i,
            None => {
                proof {
                    lemma_map_absent(ps, request.session_id);
                }
                return Err(PipelineError::SessionNotFound(request.session_id));
            },
        };
        proof {
            lemma_map_lookup(ps, i as int);
        }
        let ready = match &self.sessions[i].status {
            SessionStatus::Initializing => true,
            SessionStatus::Running => true,
            _ => false,
        };
        if !ready {
            let mut msg = String::from_str("Session status: ");
            let text = status_text(&self.sessions[i].status);
            msg.append(text.as_str());
            return Err(PipelineError::SessionNotReady(msg));
        }
        let tokens = Self::decode_tokens(request);
        let decoded_any = tokens.len() > 0;
        let ghost sv = SessionView {
            status: StatusView::Running,
            stages: stages_after_run(session_view(self.sessions@[i as int]).stages, decoded_any, now),
            plan: self.sessions@[i as int].plan,
        };
        let ghost old_sessions = self.sessions@;
        let mut state = self.sessions.remove(i);
        let ghost sid = state.session_id;
        assert(sid == ps[i as int].0);
        let ghost old_stages = stage_views(state.stage_states@);
        let ghost old_plan = state.plan;
        let mut k: usize = 0;
        while k < state.stage_states.len()
            invariant
                k <= state.stage_states@.len(),
                state.session_id == sid,
                state.plan == old_plan,
                old_stages.len() == state.stage_states@.len(),
                forall|j: int| 0 <= j < k ==> #[trigger] stage_views(state.stage_states@)[j] == stages_after_run(old_stages, decoded_any, now)[j],
                forall|j: int| k <= j < state.stage_states@.len() ==> #[trigger] stage_views(state.stage_states@)[j] == old_stages[j],
            decreases state.stage_states@.len() - k,
        {
            let ghost before = stage_views(state.stage_states@);
            assert(before[k as int] == old_stages[k as int]);
            let mut st = state.stage_states.remove(k);
            assert(stage_view(st) == before[k as int]);
            st.status = if decoded_any { StageStatus::Ready } else { StageStatus::Completed };
            st.last_execution = Some(now);
            let ghost nv = stage_view(st);
            assert(nv == stages_after_run(old_stages, decoded_any, now)[k as int]);
            state.stage_states.insert(k, st);
            assert(stage_views(state.stage_states@)[k as int] == nv);
            assert forall|j: int| 0 <= j < state.stage_states@.len() && j != k implies #[trigger] stage_views(state.stage_states@)[j] == before[j] by {
            }
            k = k + 1;
        }
        assert(stage_views(state.stage_states@) =~= stages_after_run(old_stages, decoded_any, now));
        state.status = SessionStatus::Running;
        assert(session_view(state) == sv);
        let ghost new_state = state;
        self.sessions.insert(i, state);
        proof {
            assert(new_state.session_id == sid);
            assert(self.sessions@ =~= old_sessions.update(i as int, new_state));
            lemma_map_update(ps, i as int, sv);
            assert(session_pairs(self.sessions@) =~= ps.update(i as int, (ps[i as int].0, sv)));
        }
        Ok(ExecutionResult { session_id: request.session_id, tokens })
    }

    /// The tokens a request decodes.
    fn decode_tokens(request: &ExecutionRequest) -> (r: Vec<u32>)
        requires
            context_last(request.input_tokens@) < u32::MAX,
        ensures
            r@ == decoded(context_last(request.input_tokens@), request.max_tokens as nat),
    {
        let n = request.input_tokens.len();
        let mut last: u32 = if n == 0 { 0 } else { request.input_tokens[n - 1] };
        let mut out: Vec<u32> = Vec::new();
        let mut k: u32 = 0;
        while k < request.max_tokens
            invariant_except_break
                k <= request.max_tokens,
                last < u32::MAX,
                out@ + decoded(last as int, (request.max_tokens - k) as nat) == decoded(context_last(request.input_tokens@), request.max_tokens as nat),
            ensures
                out@ == decoded(context_last(request.input_tokens@), request.max_tokens as nat),
            decreases request.max_tokens - k,
        {
            let t = (last + 1) % 1000;
            let ghost rest = decoded(t as int, (request.max_tokens - k - 1) as nat);
            let ghost before = out@;
            out.push(t);
            k = k + 1;
            if t == 2 {
                assert(out@ =~= before + decoded(last as int, (request.max_tokens - k + 1) as nat));
                break;
            }
            assert(before + decoded(last as int, (request.max_tokens - k + 1) as nat) =~= out@ + rest);
            last = t;
        }
        proof {
            if k == request.max_tokens {
                assert(out@ + Seq::<u32>::empty() =~= out@);
            }
        }
        out
    }

    /// Pauses a session, whatever its status.
    pub fn pause_session(&mut self, session_id: SessionId) -> (r: Result<(), PipelineError>)
        requires
            old(self).wf(),
        ensures
            final(self).wf(),
            !old(self)@.contains_key(session_id) ==> r == Err::<(), PipelineError>(PipelineError::SessionNotFound(session_id))
                && final(self)@ == old(self)@,
            old(self)@.contains_key(session_id) ==> r is Ok && final(self)@ == with_status(old(self)@, session_id, StatusView::Paused),
    {
        let ghost ps = session_pairs(self.sessions@);
        match self.find(session_id) {
            Some(i) => {
                proof {
                    lemma_map_lookup(ps, i as int);
                }
                self.set_status(i, SessionStatus::Paused);
                Ok(())
            },
            None => {
                proof {
                    lemma_map_absent(ps, session_id);
                }
                Err(PipelineError::SessionNotFound(session_id))
            },
        }
    }

    /// Resumes a paused session; a session in another status is refused.
    pub fn resume_session(&mut self, session_id: SessionId) -> (r: Result<(), PipelineError>)
        requires
            old(self).wf(),
        ensures
            final(self).wf(),
            !old(self)@.contains_key(session_id) ==> r == Err::<(), PipelineError>(PipelineError::SessionNotFound(session_id))
                && final(self)@ == old(self)@,
            old(self)@.contains_key(session_id) && old(self)@[session_id].status != StatusView::Paused ==>
                (r matches Err(PipelineError::SessionNotReady(m))
                    && m@ == "Cannot resume session in status: "@ + status_name(old(self)@[session_id].status))
                && final(self)@ == old(self)@,
            old(self)@.contains_key(session_id) && old(self)@[session_id].status == StatusView::Paused ==>
                r is Ok && final(self)@ == with_status(old(self)@, session_id, StatusView::Running),
    {
        let ghost ps = session_pairs(self.sessions@);
        match self.find(session_id) {
            Some(i) => {
                proof {
                    lemma_map_lookup(ps, i as int);
                }
                let paused = match &self.sessions[i].status {
                    SessionStatus::Paused => true,
                    _ => false,
                };
                if paused {
                    self.set_status(i, SessionStatus::Running);
                    Ok(())
                } else {
                    let mut msg = String::from_str("Cannot resume session in status: ");
                    let text = status_text(&self.sessions[i].status);
                    msg.append(text.as_str());
                    Err(PipelineError::SessionNotReady(msg))
                }
            },
            None => {
                proof {
                    lemma_map_absent(ps, session_id);
                }
                Err(PipelineError::SessionNotFound(session_id))
            },
        }
    }

    /// Ends a session and drops its state.
    pub fn cancel_session(&mut self, session_id: SessionId) -> (r: Result<(), PipelineError>)
        requires
            old(self).wf(),
        ensures
            final(self).wf(),
            !old(self)@.contains_key(session_id) ==> r == Err::<(), PipelineError>(PipelineError::SessionNotFound(session_id))
                && final(self)@ == old(self)@,
            old(self)@.contains_key(session_id) ==> r is Ok && final(self)@ == old(self)@.remove(session_id),
    {
        let ghost ps = session_pairs(self.sessions@);
        match self.find(session_id) {
            Some(i) => {
                proof {
                    lemma_map_lookup(ps, i as int);
                    lemma_map_remove(ps, i as int);
                }
                self.sessions.remove(i);
                assert(session_pairs(self.sessions@) =~= ps.remove(i as int));
                Ok(())
            },
            None => {
                proof {
                    lemma_map_absent(ps, session_id);
                }
                Err(PipelineError::SessionNotFound(session_id))
            },
        }
    }

    /// The status of a session.
    pub fn get_session_status(&self, session_id: SessionId) -> (r: Result<SessionStatus, PipelineError>)
        requires
            self.wf(),
        ensures
            !self@.contains_key(session_id) ==> r == Err::<SessionStatus, PipelineError>(PipelineError::SessionNotFound(session_id)),
            self@.contains_key(session_id) ==> (r matches Ok(st) && status_view(st) == self@[session_id].status),
    {
        let ghost ps = session_pairs(self.sessions@);
        match self.find(session_id) {
            Some(i) => {
                proof {
                    lemma_map_lookup(ps, i as int);
                }
                Ok(clone_status(&self.sessions[i].status))
            },
            None => {
                proof {
                    lemma_map_absent(ps, session_id);
                }
                Err(PipelineError::SessionNotFound(session_id))
            },
        }
    }

    /// The number of stages of a session; 0 for an unknown session.
    pub fn stage_count(&self, session_id: SessionId) -> (r: usize)
        requires
            self.wf(),
        ensures
            self@.contains_key(session_id) ==> r == self@[session_id].stages.len(),
            !self@.contains_key(session_id) ==> r == 0,
    {
        let ghost ps = session_pairs(self.sessions@);
        match self.find(session_id) {
            Some(i) => {
                proof {
                    lemma_map_lookup(ps, i as int);
                }
                self.sessions[i].stage_states.len()
            },
            None => {
                proof {
                    lemma_map_absent(ps, session_id);
                }
                0
            },
        }
    }

    /// The number of sessions, and of those running and paused.
    pub fn get_stats(&self) -> (r: ExecutorStats)
        requires
            self.wf(),
        ensures
            r.total_sessions == self@.len(),
            r.running_sessions == count_status(self.entries(), StatusView::Running),
            r.paused_sessions == count_status(self.entries(), StatusView::Paused),
            r.running_sessions + r.paused_sessions <= r.total_sessions,
    {
        proof {
            lemma_map_len(session_pairs(self.sessions@));
        }
        let ghost es = session_views(self.sessions@);
        let mut running: usize = 0;
        let mut paused: usize = 0;
        let mut i: usize = 0;
        while i < self.sessions.len()
            invariant
                i <= self.sessions@.len(),
                es == session_views(self.sessions@),
                running == count_status(es.take(i as int), StatusView::Running),
                paused == count_status(es.take(i as int), StatusView::Paused),
                running + paused <= i,
            decreases self.sessions@.len() - i,
        {
            assert(es.take(i + 1).drop_last() =~= es.take(i as int));
            match &self.sessions[i].status {
                SessionStatus::Running => {
                    running = running + 1;
                },
                SessionStatus::Paused => {
                    paused = paused + 1;
                },
                _ => {},
            }
            i = i + 1;
        }
        assert(es.take(i as int) =~= es);
        ExecutorStats { total_sessions: self.sessions.len(), running_sessions: running, paused_sessions: paused }
    }
}

/// A copy of a status.
pub fn clone_status(s: &SessionStatus) -> (r: SessionStatus)
    ensures
        status_view(r) == status_view(*s),
{
    match s {
        SessionStatus::Initializing => SessionStatus::Initializing,
        SessionStatus::Running => SessionStatus::Running,
        SessionStatus::Paused => SessionStatus::Paused,
        SessionStatus::Completed => SessionStatus::Completed,
        SessionStatus::Failed(m) => SessionStatus::Failed(m.clone()),
    }
}

/// A paused session cannot run, and resuming it lets it run again with its
/// stages as they were; pausing and resuming a running session gives it back
/// unchanged.
pub proof fn law_pause_then_resume(m: Map<SessionId, SessionView>, id: SessionId)
    requires
        m.contains_key(id),
    ensures
        !can_run(with_status(m, id, StatusView::Paused)[id].status),
        with_status(with_status(m, id, StatusView::Paused), id, StatusView::Running)[id].stages == m[id].stages,
        can_run(with_status(with_status(m, id, StatusView::Paused), id, StatusView::Running)[id].status),
        m[id].status == StatusView::Running ==> with_status(with_status(m, id, StatusView::Paused), id, StatusView::Running) == m,
{
    if m[id].status == StatusView::Running {
        assert(with_status(with_status(m, id, StatusView::Paused), id, StatusView::Running) =~= m);
    }
}

/// A cancelled session is gone: every later request on it is answered that
/// the session is not found.
pub proof fn law_cancel_removes(m: Map<SessionId, SessionView>, id: SessionId)
    ensures
        !m.remove(id).contains_key(id),
        forall|other: SessionId| other != id ==> (#[trigger] m.remove(id).contains_key(other) == m.contains_key(other)),
{
}


/// The statistics count a status only where a session has it: when no
/// live session is in status `st` (for instance, every session has just
/// been initialized and `st` is running or paused), its count is zero.
pub proof fn law_count_only_present(ex: PipelineExecutor, st: StatusView)
    requires
        ex.wf(),
        forall|id: SessionId| #[trigger] ex@.contains_key(id) ==> ex@[id].status != st,
    ensures
        count_status(ex.entries(), st) == 0,
{
    let ps = session_pairs(ex.sessions@);
    assert forall|i: int| 0 <= i < ex.entries().len() implies #[trigger] ex.entries()[i].status != st by {
        lemma_map_lookup(ps, i);
        assert(ex@.contains_key(ps[i].0));
    }
    lemma_count_absent(ex.entries(), st);
}

proof fn lemma_count_absent(s: Seq<SessionView>, st: StatusView)
    requires
        forall|i: int| 0 <= i < s.len() ==> #[trigger] s[i].status != st,
    ensures
        count_status(s, st) == 0,
    decreases s.len(),
{
    if s.len() > 0 {
        assert forall|i: int| 0 <= i < s.drop_last().len() implies #[trigger] s.drop_last()[i].status != st by {
            assert(s.drop_last()[i] == s[i]);
        }
        lemma_count_absent(s.drop_last(), st);
        assert(s[s.len() - 1].status != st);
    }
}

} // verus!

