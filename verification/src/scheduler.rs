//! The scheduler: admission of sessions, choice of nodes, and the
//! reservation and release of each node's resources.
//!
//! A session runs on at most three healthy nodes, the best scored first;
//! on each it takes 30% of the CPU, 4 GiB of RAM and 2 GiB of VRAM. A node
//! never has more than 100% of its CPU reserved.

use vstd::prelude::*;
use crate::kvmap::{keys_unique, seq_to_map, lemma_map_absent, lemma_map_lookup, lemma_map_domain, lemma_map_push, lemma_unique_push, lemma_map_update, lemma_map_remove, lemma_map_len};
use crate::types::{NodeId, SessionId, ModelId, NodeStatus, LogicalCluster, PhysicalNode, Timestamp, now_millis};

verus! {

/// Most nodes a session runs on.
pub const MAX_SESSION_NODES: usize = 3;

/// CPU share a session takes on each of its nodes, in percent.
pub const CPU_SHARE: u32 = 30;

/// RAM a session takes on each of its nodes.
pub const RAM_SHARE: u64 = 4 * 1024 * 1024 * 1024;

/// VRAM a session takes on each of its nodes.
pub const VRAM_SHARE: u64 = 2 * 1024 * 1024 * 1024;

/// A candidate node and its score key: the bit pattern of its non-negative
/// `f32` score, which orders as the score does.
pub type Candidate = (NodeId, u32);

/// `c[i]` comes before `c[j]` when sorted by descending score, ties kept in order.
pub open spec fn before(c: Seq<Candidate>, i: int, j: int) -> bool {
    c[i].1 > c[j].1 || (c[i].1 == c[j].1 && i < j)
}

/// The healthy nodes among the first `n`, each with its score key.
pub open spec fn candidates(nodes: Seq<PhysicalNode>, scores: Seq<u32>, n: int) -> Seq<Candidate>
    decreases n,
{
    if n <= 0 {
        Seq::empty()
    } else {
        let r = candidates(nodes, scores, n - 1);
        if nodes[n - 1].status == NodeStatus::Healthy {
            r.push((nodes[n - 1].id, scores[n - 1]))
        } else {
            r
        }
    }
}

pub open spec fn min_len(k: int, n: int) -> int {
    if k <= n {
        k
    } else {
        n
    }
}

/// `idx` picks the first `k` of `c` in the order of a stable sort by
/// descending score: in that order, and every index left out comes after
/// all picked ones.
pub open spec fn is_top(c: Seq<Candidate>, idx: Seq<int>, k: int) -> bool {
    &&& idx.len() == min_len(k, c.len() as int)
    &&& forall|p: int| 0 <= p < idx.len() ==> 0 <= #[trigger] idx[p] < c.len()
    &&& forall|p: int, q: int| 0 <= p < q < idx.len() ==> before(c, #[trigger] idx[p], #[trigger] idx[q])
    &&& forall|j: int| 0 <= j < c.len() && !idx.contains(j) ==> forall|p: int| 0 <= p < idx.len() ==> before(c, #[trigger] idx[p], j)
}

pub open spec fn ids_of(c: Seq<Candidate>, idx: Seq<int>) -> Seq<NodeId> {
    idx.map_values(|i: int| c[i].0)
}

/// The ids of the best `k` candidates, best first.
pub open spec fn top_ids(c: Seq<Candidate>, ids: Seq<NodeId>, k: int) -> bool {
    exists|idx: Seq<int>| is_top(c, idx, k) && ids == ids_of(c, idx)
}

pub open spec fn usize_ints(s: Seq<usize>) -> Seq<int> {
    s.map_values(|i: usize| i as int)
}

/// Picks the best three of `c`, best first: one pass, keeping the best
/// seen so far in order.
fn best_three(c: &Vec<Candidate>) -> (r: Vec<usize>)
    ensures
        is_top(c@, usize_ints(r@), MAX_SESSION_NODES as int),
{
    let mut top: Vec<usize> = Vec::new();
    let mut j: usize = 0;
    while j < c.len()
        invariant
            j <= c@.len(),
            top@.len() == min_len(3, j as int),
            forall|p: int| 0 <= p < top@.len() ==> #[trigger] top@[p] < j,
            forall|p: int, q: int| 0 <= p < q < top@.len() ==> before(c@, #[trigger] top@[p] as int, #[trigger] top@[q] as int),
            forall|i: int| 0 <= i < j ==> usize_ints(top@).contains(i) || (top@.len() == 3 && before(c@, top@[2] as int, i)),
        decreases c@.len() - j,
    {
        let ghost old = top@;
        let mut pos: usize = 0;
        while pos < top.len() && c[top[pos]].1 >= c[j].1
            invariant
                top@ == old,
                pos <= old.len(),
                old.len() <= 3,
                j < c@.len(),
                forall|p: int| 0 <= p < old.len() ==> #[trigger] old[p] < j,
                forall|p: int| 0 <= p < pos ==> c@[#[trigger] old[p] as int].1 >= c@[j as int].1,
            decreases old.len() - pos,
        {
            pos = pos + 1;
        }
        proof {
            // Past `pos` the scores are lower than `j`'s: the list is sorted.
            assert forall|q: int| pos <= q < old.len() implies c@[#[trigger] old[q] as int].1 < c@[j as int].1 by {
                if q > pos {
                    assert(before(c@, old[pos as int] as int, old[q] as int));
                }
            }
        }
        if pos < 3 {
            top.insert(pos, j);
            let ghost ins = top@;
            assert(ins == old.insert(pos as int, j));
            if top.len() > 3 {
                top.pop();
            }
            proof {
                let t = top@;
                assert(t.len() <= ins.len());
                assert forall|p: int| 0 <= p < t.len() implies t[p] == ins[p] by {
                }
                assert forall|p: int, q: int| 0 <= p < q < ins.len() implies before(c@, #[trigger] ins[p] as int, #[trigger] ins[q] as int) by {
                    if q < pos {
                    } else if q == pos {
                        assert(ins[p] == old[p]);
                    } else if p < pos {
                        assert(ins[q] == old[q - 1]);
                        assert(before(c@, old[p] as int, old[q - 1] as int));
                    } else if p == pos {
                        assert(ins[q] == old[q - 1]);
                    } else {
                        assert(ins[p] == old[p - 1]);
                        assert(ins[q] == old[q - 1]);
                    }
                }
                assert forall|i: int| 0 <= i < j + 1 implies usize_ints(t).contains(i) || (t.len() == 3 && before(c@, t[2] as int, i)) by {
                    if i == j {
                        assert(ins[pos as int] == j);
                        if (pos as int) < t.len() {
                            assert(usize_ints(t)[pos as int] == i);
                        } else {
                            assert(before(c@, ins[2] as int, ins[3] as int));
                        }
                    } else if usize_ints(old).contains(i) {
                        let k = choose|k: int| 0 <= k < old.len() && usize_ints(old)[k] == i;
                        let k2 = if k < pos { k } else { k + 1 };
                        assert(ins[k2] == old[k]);
                        if k2 < t.len() {
                            assert(usize_ints(t)[k2] == i);
                        } else {
                            assert(k2 == 3);
                            assert(before(c@, ins[2] as int, ins[3] as int));
                        }
                    } else {
                        assert(old.len() == 3 && before(c@, old[2] as int, i));
                        assert(ins.len() == 4);
                        if pos <= 2 {
                            assert(before(c@, ins[2] as int, ins[3] as int));
                            assert(ins[3] == old[2]);
                        }
                    }
                }
            }
        } else {
            proof {
                assert forall|i: int| 0 <= i < j + 1 implies usize_ints(top@).contains(i) || (top@.len() == 3 && before(c@, top@[2] as int, i)) by {
                    if i == j {
                        assert(c@[old[2] as int].1 >= c@[j as int].1);
                    }
                }
            }
        }
        j = j + 1;
    }
    proof {
        let idx = usize_ints(top@);
        assert forall|i: int| 0 <= i < c@.len() && !idx.contains(i) implies forall|p: int| 0 <= p < idx.len() ==> before(c@, #[trigger] idx[p], i) by {
            assert(top@.len() == 3 && before(c@, top@[2] as int, i));
            assert forall|p: int| 0 <= p < idx.len() implies before(c@, #[trigger] idx[p], i) by {
                if p < 2 {
                    assert(before(c@, top@[p] as int, top@[2] as int));
                }
            }
        }
    }
    top
}

/// Request priority, lowest first.
#[derive(Debug, Clone, Copy, PartialEq, Eq, Structural)]
pub enum RequestPriority {
    Low,
    Normal,
    High,
    Interactive,
}

/// Session scheduling request.
#[derive(Debug, Clone)]
pub struct ScheduleRequest {
    pub session_id: SessionId,
    pub model_id: ModelId,
    pub context_length: u32,
    pub batch_size: u32,
    pub priority: RequestPriority,
}

/// Resources a session holds on one node; the CPU share is in percent.
#[derive(Debug, Clone, Copy, PartialEq, Eq, Structural)]
pub struct ResourceAllocation {
    pub node_id: NodeId,
    pub cpu_percent: u32,
    pub ram_bytes: u64,
    pub vram_bytes: u64,
}

/// A scheduled session; the throughput estimate is carried as the bit
/// pattern of its `f32` value.
#[derive(Debug)]
pub struct ScheduledSession {
    pub session_id: SessionId,
    pub model_id: ModelId,
    pub assigned_nodes: Vec<NodeId>,
    pub allocated_resources: Vec<ResourceAllocation>,
    pub priority: RequestPriority,
    pub scheduled_at: Timestamp,
    pub estimated_tokens_per_second_bits: u32,
}

/// What is reserved on one node, and for which sessions.
#[derive(Debug)]
pub struct NodeAllocation {
    pub allocated_cpu_percent: u32,
    pub allocated_ram_bytes: u64,
    pub allocated_vram_bytes: u64,
    pub active_sessions: Vec<SessionId>,
}

/// Scheduler statistics; the CPU total is in percent.
#[derive(Debug, Clone, Copy)]
pub struct SchedulerStats {
    pub active_sessions: usize,
    pub total_allocated_cpu: u64,
    pub total_allocated_ram: u64,
    pub total_allocated_vram: u64,
}

/// Scheduling errors.
#[derive(Debug, Clone, PartialEq, Eq)]
pub enum ScheduleError {
    AdmissionRejected,
    NoAvailableNodes,
    InsufficientResources(NodeId),
    SessionNotFound,
    Internal(String),
}

/// What is reserved on a node.
pub struct NodeLoad {
    pub cpu: u32,
    pub ram: u64,
    pub vram: u64,
    pub sessions: Seq<SessionId>,
}

/// Where a session runs and what it holds.
pub struct Placement {
    pub model_id: Seq<char>,
    pub nodes: Seq<NodeId>,
    pub allocations: Seq<ResourceAllocation>,
    pub priority: RequestPriority,
    pub scheduled_at: Timestamp,
    pub estimate_bits: u32,
}

/// What the scheduler holds: the sessions, and the load of each node.
pub struct SchedulerView {
    pub sessions: Map<SessionId, Placement>,
    pub loads: Map<NodeId, NodeLoad>,
}

pub open spec fn load_view(a: NodeAllocation) -> NodeLoad {
    NodeLoad { cpu: a.allocated_cpu_percent, ram: a.allocated_ram_bytes, vram: a.allocated_vram_bytes, sessions: a.active_sessions@ }
}

pub open spec fn placement_view(s: ScheduledSession) -> Placement {
    Placement {
        model_id: s.model_id@,
        nodes: s.assigned_nodes@,
        allocations: s.allocated_resources@,
        priority: s.priority,
        scheduled_at: s.scheduled_at,
        estimate_bits: s.estimated_tokens_per_second_bits,
    }
}

pub open spec fn load_pairs(s: Seq<(NodeId, NodeAllocation)>) -> Seq<(NodeId, NodeLoad)> {
    s.map_values(|p: (NodeId, NodeAllocation)| (p.0, load_view(p.1)))
}

pub open spec fn session_pairs(s: Seq<ScheduledSession>) -> Seq<(SessionId, Placement)> {
    s.map_values(|t: ScheduledSession| (t.session_id, placement_view(t)))
}

pub open spec fn placements(s: Seq<ScheduledSession>) -> Seq<Placement> {
    s.map_values(|t: ScheduledSession| placement_view(t))
}

/// The share a session takes on node `n`.
pub open spec fn share(n: NodeId) -> ResourceAllocation {
    ResourceAllocation { node_id: n, cpu_percent: CPU_SHARE, ram_bytes: RAM_SHARE, vram_bytes: VRAM_SHARE }
}

pub open spec fn shares(ns: Seq<NodeId>) -> Seq<ResourceAllocation> {
    ns.map_values(|n: NodeId| share(n))
}

pub open spec fn empty_load() -> NodeLoad {
    NodeLoad { cpu: 0, ram: 0, vram: 0, sessions: Seq::empty() }
}

pub open spec fn load_or_empty(m: Map<NodeId, NodeLoad>, n: NodeId) -> NodeLoad {
    if m.contains_key(n) {
        m[n]
    } else {
        empty_load()
    }
}

/// The load after one more session share.
pub open spec fn bumped(e: NodeLoad, sid: SessionId) -> NodeLoad {
    NodeLoad {
        cpu: (e.cpu + CPU_SHARE) as u32,
        ram: (e.ram + RAM_SHARE) as u64,
        vram: (e.vram + VRAM_SHARE) as u64,
        sessions: e.sessions.push(sid),
    }
}

/// Reserving a share on each node of `ns` in turn: a node without a load
/// gets an empty one first; the first node whose CPU would go above 100%
/// stops the reservation, and is returned; the shares reserved before stay.
pub open spec fn reserve_fold(m: Map<NodeId, NodeLoad>, sid: SessionId, ns: Seq<NodeId>) -> (Map<NodeId, NodeLoad>, Option<NodeId>)
    decreases ns.len(),
{
    if ns.len() == 0 {
        (m, None)
    } else {
        let e = load_or_empty(m, ns[0]);
        if e.cpu + CPU_SHARE > 100 {
            (m.insert(ns[0], e), Some(ns[0]))
        } else {
            reserve_fold(m.insert(ns[0], bumped(e, sid)), sid, ns.drop_first())
        }
    }
}

/// `s` without the session `sid`, order kept.
pub open spec fn without_session(s: Seq<SessionId>, sid: SessionId) -> Seq<SessionId>
    decreases s.len(),
{
    if s.len() == 0 {
        Seq::empty()
    } else {
        let r = without_session(s.drop_last(), sid);
        if s.last() == sid {
            r
        } else {
            r.push(s.last())
        }
    }
}

/// Giving back each allocation in turn to its node, when the node has a load.
pub open spec fn release_fold(m: Map<NodeId, NodeLoad>, sid: SessionId, allocs: Seq<ResourceAllocation>) -> Map<NodeId, NodeLoad>
    decreases allocs.len(),
{
    if allocs.len() == 0 {
        m
    } else {
        let a = allocs[0];
        let m1 = if m.contains_key(a.node_id) {
            let e = m[a.node_id];
            m.insert(a.node_id, NodeLoad {
                cpu: (e.cpu - a.cpu_percent) as u32,
                ram: (e.ram - a.ram_bytes) as u64,
                vram: (e.vram - a.vram_bytes) as u64,
                sessions: without_session(e.sessions, sid),
            })
        } else {
            m
        };
        release_fold(m1, sid, allocs.drop_first())
    }
}

/// The cluster has more memory than the request's context asks for: 1 KiB of
/// RAM and 512 bytes of VRAM per token.
pub open spec fn admits(request: ScheduleRequest, cluster: LogicalCluster) -> bool {
    &&& cluster.logical_resources.host_memory_bytes > request.context_length as int * 1024
    &&& cluster.logical_resources.device_memory_bytes > request.context_length as int * 512
}

/// What `schedule` does, from the view `v0` of a scheduler over `cluster`
/// to the view `v1`, answering `r`: a request the cluster cannot admit, or
/// one for which no node is a candidate, is refused and changes nothing;
/// otherwise the best candidates `ids` (at most three) get a share each in
/// turn, and either one of them lacks the CPU, or the session is placed on
/// all of them.
pub open spec fn schedule_outcome(
    v0: SchedulerView,
    cluster: LogicalCluster,
    request: ScheduleRequest,
    scores: Seq<u32>,
    estimate_bits: u32,
    v1: SchedulerView,
    r: Result<ScheduledSession, ScheduleError>,
) -> bool {
    &&& (!admits(request, cluster) ==> r == Err::<ScheduledSession, ScheduleError>(ScheduleError::AdmissionRejected)
        && v1 == v0)
    &&& (admits(request, cluster) && candidates(cluster.nodes@, scores, scores.len() as int).len() == 0 ==>
        r == Err::<ScheduledSession, ScheduleError>(ScheduleError::NoAvailableNodes) && v1 == v0)
    &&& (admits(request, cluster) && candidates(cluster.nodes@, scores, scores.len() as int).len() > 0 ==>
        exists|ids: Seq<NodeId>| #[trigger] top_ids(candidates(cluster.nodes@, scores, scores.len() as int), ids, MAX_SESSION_NODES as int) && {
            let (m, fail) = reserve_fold(v0.loads, request.session_id, ids);
            &&& v1.loads == m
            &&& match fail {
                Some(n) => r == Err::<ScheduledSession, ScheduleError>(ScheduleError::InsufficientResources(n))
                    && v1.sessions == v0.sessions,
                None => r matches Ok(s) && s.session_id == request.session_id && placement_view(s) == (Placement {
                        model_id: request.model_id@,
                        nodes: ids,
                        allocations: shares(ids),
                        priority: request.priority,
                        scheduled_at: placement_view(s).scheduled_at,
                        estimate_bits,
                    })
                    && v1.sessions == v0.sessions.insert(request.session_id, placement_view(s)),
            }
        })
}

/// What `release_session` does, from the view `v0` to `v1`, answering `r`:
/// an unknown session is refused and changes nothing; a known one is
/// removed and its shares are given back to its nodes.
pub open spec fn release_outcome(v0: SchedulerView, v1: SchedulerView, session_id: SessionId, r: Result<(), ScheduleError>) -> bool {
    &&& !v0.sessions.contains_key(session_id) ==> r == Err::<(), ScheduleError>(ScheduleError::SessionNotFound) && v1 == v0
    &&& v0.sessions.contains_key(session_id) ==> r is Ok
        && v1.sessions == v0.sessions.remove(session_id)
        && v1.loads == release_fold(v0.loads, session_id, v0.sessions[session_id].allocations)
}

/// The number of sessions running on node `n`.
pub open spec fn count_on(ps: Seq<Placement>, n: NodeId) -> int
    decreases ps.len(),
{
    if ps.len() == 0 {
        0
    } else {
        count_on(ps.drop_last(), n) + if ps.last().nodes.contains(n) { 1int } else { 0int }
    }
}

/// The reservations of a node are whole session shares, at most three.
pub open spec fn whole_shares(l: NodeLoad) -> bool {
    &&& l.cpu % CPU_SHARE == 0
    &&& l.cpu <= 90
    &&& l.ram == (l.cpu / CPU_SHARE) as int * RAM_SHARE
    &&& l.vram == (l.cpu / CPU_SHARE) as int * VRAM_SHARE
}

pub open spec fn node_ids_unique(nodes: Seq<PhysicalNode>) -> bool {
    forall|i: int, j: int| 0 <= i < nodes.len() && 0 <= j < nodes.len() && i != j ==> nodes[i].id != nodes[j].id
}

pub open spec fn distinct_ids(s: Seq<NodeId>) -> bool {
    forall|i: int, j: int| 0 <= i < s.len() && 0 <= j < s.len() && i != j ==> s[i] != s[j]
}

pub open spec fn cpu_sum(s: Seq<NodeLoad>) -> int
    decreases s.len(),
{
    if s.len() == 0 {
        0
    } else {
        cpu_sum(s.drop_last()) + s.last().cpu
    }
}

pub open spec fn ram_sum(s: Seq<NodeLoad>) -> int
    decreases s.len(),
{
    if s.len() == 0 {
        0
    } else {
        ram_sum(s.drop_last()) + s.last().ram
    }
}

pub open spec fn vram_sum(s: Seq<NodeLoad>) -> int
    decreases s.len(),
{
    if s.len() == 0 {
        0
    } else {
        vram_sum(s.drop_last()) + s.last().vram
    }
}

pub open spec fn loads_of(s: Seq<(NodeId, NodeAllocation)>) -> Seq<NodeLoad> {
    s.map_values(|p: (NodeId, NodeAllocation)| load_view(p.1))
}

/// Each node's reservations are whole shares, covering the sessions on it.
pub open spec fn loads_ok(loads: Map<NodeId, NodeLoad>, ps: Seq<Placement>) -> bool {
    forall|n: NodeId| #[trigger] loads.contains_key(n) ==> whole_shares(loads[n])
        && loads[n].cpu >= CPU_SHARE * count_on(ps, n)
}

/// A session holds one share on each of its nodes, which are distinct and have a load.
pub open spec fn session_ok(p: Placement, loads: Map<NodeId, NodeLoad>) -> bool {
    &&& p.allocations == shares(p.nodes)
    &&& distinct_ids(p.nodes)
    &&& forall|k: int| 0 <= k < p.nodes.len() ==> loads.contains_key(#[trigger] p.nodes[k])
}

pub open spec fn sessions_ok(s: Seq<ScheduledSession>, loads: Map<NodeId, NodeLoad>) -> bool {
    forall|i: int| 0 <= i < s.len() ==> session_ok(#[trigger] placement_view(s[i]), loads)
}

/// The scheduler.
pub struct Scheduler {
    cluster: LogicalCluster,
    sessions: Vec<ScheduledSession>,
    loads: Vec<(NodeId, NodeAllocation)>,
}

impl View for Scheduler {
    type V = SchedulerView;

    closed spec fn view(&self) -> SchedulerView {
        SchedulerView { sessions: seq_to_map(session_pairs(self.sessions@)), loads: seq_to_map(load_pairs(self.loads@)) }
    }
}

proof fn lemma_count_on_push(ps: Seq<Placement>, x: Placement, n: NodeId)
    ensures
        count_on(ps.push(x), n) == count_on(ps, n) + if x.nodes.contains(n) { 1int } else { 0int },
{
    assert(ps.push(x).drop_last() =~= ps);
}

proof fn lemma_count_on_nonneg(ps: Seq<Placement>, n: NodeId)
    ensures
        count_on(ps, n) >= 0,
    decreases ps.len(),
{
    if ps.len() > 0 {
        lemma_count_on_nonneg(ps.drop_last(), n);
    }
}

proof fn lemma_count_on_update(ps: Seq<Placement>, i: int, x: Placement, n: NodeId)
    requires
        0 <= i < ps.len(),
    ensures
        count_on(ps.update(i, x), n) == count_on(ps, n)
            - (if ps[i].nodes.contains(n) { 1int } else { 0int })
            + (if x.nodes.contains(n) { 1int } else { 0int }),
    decreases ps.len(),
{
    let t = ps.update(i, x);
    if i == ps.len() - 1 {
        assert(t.drop_last() =~= ps.drop_last());
    } else {
        assert(t.drop_last() =~= ps.drop_last().update(i, x));
        lemma_count_on_update(ps.drop_last(), i, x, n);
    }
}

proof fn lemma_count_on_remove(ps: Seq<Placement>, i: int, n: NodeId)
    requires
        0 <= i < ps.len(),
    ensures
        count_on(ps.remove(i), n) == count_on(ps, n) - (if ps[i].nodes.contains(n) { 1int } else { 0int }),
    decreases ps.len(),
{
    let t = ps.remove(i);
    if i == ps.len() - 1 {
        assert(t =~= ps.drop_last());
    } else {
        assert(t.drop_last() =~= ps.drop_last().remove(i));
        assert(t.last() == ps.last());
        lemma_count_on_remove(ps.drop_last(), i, n);
    }
}

/// A node no session runs on has no sessions counted.
proof fn lemma_count_on_absent(ps: Seq<Placement>, n: NodeId)
    requires
        forall|i: int| 0 <= i < ps.len() ==> !ps[i].nodes.contains(n),
    ensures
        count_on(ps, n) == 0,
    decreases ps.len(),
{
    if ps.len() > 0 {
        lemma_count_on_absent(ps.drop_last(), n);
    }
}

/// A node some session runs on has that session counted.
proof fn lemma_count_on_present(ps: Seq<Placement>, i: int, n: NodeId)
    requires
        0 <= i < ps.len(),
        ps[i].nodes.contains(n),
    ensures
        count_on(ps, n) >= 1,
    decreases ps.len(),
{
    lemma_count_on_nonneg(ps.drop_last(), n);
    if i < ps.len() - 1 {
        lemma_count_on_present(ps.drop_last(), i, n);
    }
}

impl Scheduler {
    /// The cluster the scheduler places sessions on.
    pub closed spec fn cluster(&self) -> LogicalCluster {
        self.cluster
    }

    /// The sessions, each once.
    pub closed spec fn session_list(&self) -> Seq<Placement> {
        placements(self.sessions@)
    }

    /// The node loads, each once.
    pub closed spec fn load_list(&self) -> Seq<NodeLoad> {
        loads_of(self.loads@)
    }

    /// One entry per session and per node; each node's reservations are
    /// whole shares covering the sessions on it; each session holds one
    /// share on each of its nodes, which are distinct and have a load.
    pub closed spec fn wf(&self) -> bool {
        &&& keys_unique(session_pairs(self.sessions@))
        &&& keys_unique(load_pairs(self.loads@))
        &&& node_ids_unique(self.cluster.nodes@)
        &&& loads_ok(self@.loads, self.session_list())
        &&& sessions_ok(self.sessions@, self@.loads)
    }

    /// The cluster the scheduler places sessions on.
    pub fn cluster_ref(&self) -> (r: &LogicalCluster)
        ensures
            *r == self.cluster(),
    {
        &self.cluster
    }

    /// A scheduler with nothing reserved, for a cluster whose node ids are distinct.
    pub fn new(cluster: LogicalCluster) -> (r: Self)
        requires
            node_ids_unique(cluster.nodes@),
        ensures
            r.wf(),
            r.cluster() == cluster,
            r@.sessions == Map::<SessionId, Placement>::empty(),
            r@.loads == Map::<NodeId, NodeLoad>::empty(),
    {
        let r = Scheduler { cluster, sessions: Vec::new(), loads: Vec::new() };
        assert(session_pairs(r.sessions@) =~= Seq::empty());
        assert(load_pairs(r.loads@) =~= Seq::empty());
        r
    }

    /// Whether the cluster has more memory than the request's context asks for.
    pub fn check_admission(&self, request: &ScheduleRequest) -> (r: bool)
        ensures
            r == admits(*request, self.cluster()),
    {
        let ctx = request.context_length as u64;
        let required_ram = ctx * 1024;
        let required_vram = ctx * 512;
        self.cluster.logical_resources.host_memory_bytes > required_ram
            && self.cluster.logical_resources.device_memory_bytes > required_vram
    }

    /// The healthy nodes with their score keys, in cluster order, and where
    /// each came from.
    fn candidate_list(&self, scores: &Vec<u32>) -> (r: (Vec<Candidate>, Ghost<Seq<int>>))
        requires
            scores@.len() == self.cluster.nodes@.len(),
        ensures
            r.0@ == candidates(self.cluster.nodes@, scores@, scores@.len() as int),
            r.1@.len() == r.0@.len(),
            forall|k: int| 0 <= k < r.0@.len() ==> 0 <= #[trigger] r.1@[k] < self.cluster.nodes@.len()
                && r.0@[k].0 == self.cluster.nodes@[r.1@[k]].id,
            forall|k: int, q: int| 0 <= k < q < r.0@.len() ==> #[trigger] r.1@[k] < #[trigger] r.1@[q],
    {
        let nodes = &self.cluster.nodes;
        let mut c: Vec<Candidate> = Vec::new();
        let ghost mut origin: Seq<int> = Seq::empty();
        let mut i: usize = 0;
        while i < nodes.len()
            invariant
                i <= nodes@.len(),
                scores@.len() == nodes@.len(),
                c@ == candidates(nodes@, scores@, i as int),
                origin.len() == c@.len(),
                forall|k: int| 0 <= k < c@.len() ==> 0 <= #[trigger] origin[k] < i && c@[k].0 == nodes@[origin[k]].id,
                forall|k: int, q: int| 0 <= k < q < c@.len() ==> #[trigger] origin[k] < #[trigger] origin[q],
            decreases nodes@.len() - i,
        {
            if nodes[i].status == NodeStatus::Healthy {
                c.push((nodes[i].id, scores[i]));
                proof {
                    origin = origin.push(i as int);
                }
            }
            i = i + 1;
        }
        (c, Ghost(origin))
    }

    /// The best three healthy nodes by score, best first, ties in cluster
    /// order; `scores` holds each node's score key.
    pub fn select_nodes(&self, scores: &Vec<u32>) -> (r: Vec<NodeId>)
        requires
            self.wf(),
            scores@.len() == self.cluster().nodes@.len(),
        ensures
            top_ids(candidates(self.cluster().nodes@, scores@, scores@.len() as int), r@, MAX_SESSION_NODES as int),
            distinct_ids(r@),
    {
        let (c, Ghost(origin)) = self.candidate_list(scores);
        let top = best_three(&c);
        let mut ids: Vec<NodeId> = Vec::new();
        let mut k: usize = 0;
        let ghost idx = usize_ints(top@);
        while k < top.len()
            invariant
                k <= top@.len(),
                idx == usize_ints(top@),
                is_top(c@, idx, MAX_SESSION_NODES as int),
                ids@ == ids_of(c@, idx.take(k as int)),
            decreases top@.len() - k,
        {
            assert(idx[k as int] == top@[k as int] as int);
            assert(0 <= idx[k as int] < c@.len());
            ids.push(c[top[k]].0);
            assert(ids_of(c@, idx.take(k + 1)) =~= ids_of(c@, idx.take(k as int)).push(c@[idx[k as int]].0));
            k = k + 1;
        }
        assert(idx.take(k as int) =~= idx);
        proof {
            assert forall|a: int, b: int| 0 <= a < ids@.len() && 0 <= b < ids@.len() && a != b implies ids@[a] != ids@[b] by {
                let (x, y) = if a < b { (a, b) } else { (b, a) };
                assert(before(c@, idx[x], idx[y]));
                assert(idx[x] != idx[y]);
                if origin[idx[x]] < origin[idx[y]] || origin[idx[y]] < origin[idx[x]] {
                } else {
                    if idx[x] < idx[y] {
                        assert(origin[idx[x]] < origin[idx[y]]);
                    } else {
                        assert(origin[idx[y]] < origin[idx[x]]);
                    }
                }
            }
        }
        ids
    }

    /// One share per node.
    pub fn calculate_allocations(&self, nodes: &Vec<NodeId>) -> (r: Vec<ResourceAllocation>)
        ensures
            r@ == shares(nodes@),
    {
        let mut r: Vec<ResourceAllocation> = Vec::new();
        let mut i: usize = 0;
        while i < nodes.len()
            invariant
                i <= nodes@.len(),
                r@ == shares(nodes@.take(i as int)),
            decreases nodes@.len() - i,
        {
            r.push(ResourceAllocation { node_id: nodes[i], cpu_percent: CPU_SHARE, ram_bytes: RAM_SHARE, vram_bytes: VRAM_SHARE });
            assert(shares(nodes@.take(i + 1)) =~= shares(nodes@.take(i as int)).push(share(nodes@[i as int])));
            i = i + 1;
        }
        assert(nodes@.take(i as int) =~= nodes@);
        r
    }
}

impl Scheduler {
    fn find_load(&self, n: NodeId) -> (r: Option<usize>)
        ensures
            match r {
                Some(i) => i < self.loads@.len() && self.loads@[i as int].0 == n,
                None => forall|i: int| 0 <= i < self.loads@.len() ==> self.loads@[i].0 != n,
            },
    {
        let mut i: usize = 0;
        while i < self.loads.len()
            invariant
                i <= self.loads@.len(),
                forall|j: int| 0 <= j < i ==> self.loads@[j].0 != n,
            decreases self.loads@.len() - i,
        {
            if self.loads[i].0 == n {
                return Some(i);
            }
            i = i + 1;
        }
        None
    }

    fn find_session(&self, sid: SessionId) -> (r: Option<usize>)
        ensures
            match r {
                Some(i) => i < self.sessions@.len() && self.sessions@[i as int].session_id == sid,
                None => forall|i: int| 0 <= i < self.sessions@.len() ==> self.sessions@[i].session_id != sid,
            },
    {
        let mut i: usize = 0;
        while i < self.sessions.len()
            invariant
                i <= self.sessions@.len(),
                forall|j: int| 0 <= j < i ==> self.sessions@[j].session_id != sid,
            decreases self.sessions@.len() - i,
        {
            if self.sessions[i].session_id == sid {
                return Some(i);
            }
            i = i + 1;
        }
        None
    }

    /// The index of the load of node `n`, made empty first when there is none.
    fn load_entry(&mut self, n: NodeId) -> (r: usize)
        requires
            keys_unique(load_pairs(old(self).loads@)),
        ensures
            keys_unique(load_pairs(final(self).loads@)),
            r < final(self).loads@.len(),
            final(self).loads@[r as int].0 == n,
            final(self).sessions == old(self).sessions,
            final(self).cluster == old(self).cluster,
            final(self)@.loads == old(self)@.loads.insert(n, load_or_empty(old(self)@.loads, n)),
    {
        let ghost ps = load_pairs(self.loads@);
        match self.find_load(n) {
            Some(k) => {
                proof {
                    lemma_map_lookup(ps, k as int);
                    assert(seq_to_map(ps).insert(n, seq_to_map(ps)[n]) =~= seq_to_map(ps));
                }
                k
            },
            None => {
                proof {
                    lemma_map_absent(ps, n);
                    lemma_unique_push(ps, n, empty_load());
                    lemma_map_push(ps, n, empty_load());
                }
                let fresh = NodeAllocation {
                    allocated_cpu_percent: 0,
                    allocated_ram_bytes: 0,
                    allocated_vram_bytes: 0,
                    active_sessions: Vec::new(),
                };
                assert(load_view(fresh) =~= empty_load());
                self.loads.push((n, fresh));
                assert(load_pairs(self.loads@) =~= ps.push((n, empty_load())));
                self.loads.len() - 1
            },
        }
    }

    /// Sets the load at `k`, keeping the rest.
    fn set_load(&mut self, k: usize, a: NodeAllocation)
        requires
            keys_unique(load_pairs(old(self).loads@)),
            k < old(self).loads@.len(),
        ensures
            keys_unique(load_pairs(final(self).loads@)),
            final(self).loads@.len() == old(self).loads@.len(),
            final(self).loads@[k as int].0 == old(self).loads@[k as int].0,
            final(self).sessions == old(self).sessions,
            final(self).cluster == old(self).cluster,
            final(self)@.loads == old(self)@.loads.insert(old(self).loads@[k as int].0, load_view(a)),
    {
        let ghost ps = load_pairs(self.loads@);
        let ghost lv = load_view(a);
        proof {
            lemma_map_update(ps, k as int, lv);
        }
        let n = self.loads[k].0;
        self.loads.set(k, (n, a));
        assert(load_pairs(self.loads@) =~= ps.update(k as int, (ps[k as int].0, lv)));
    }

    /// Reserves a share for `session_id` on each node of `ns` in turn, as
    /// `reserve_fold` says; on success each node's CPU went up by one share.
    fn reserve_resources(&mut self, session_id: SessionId, ns: &Vec<NodeId>) -> (r: Result<(), ScheduleError>)
        requires
            keys_unique(load_pairs(old(self).loads@)),
            distinct_ids(ns@),
            forall|n: NodeId| #[trigger] old(self)@.loads.contains_key(n) ==> whole_shares(old(self)@.loads[n]),
        ensures
            keys_unique(load_pairs(final(self).loads@)),
            final(self).sessions == old(self).sessions,
            final(self).cluster == old(self).cluster,
            ({
                let (m, fail) = reserve_fold(old(self)@.loads, session_id, ns@);
                &&& final(self)@.loads == m
                &&& match fail {
                    Some(n) => r == Err::<(), ScheduleError>(ScheduleError::InsufficientResources(n)),
                    None => r is Ok,
                }
            }),
            forall|n: NodeId| #[trigger] final(self)@.loads.contains_key(n) ==> whole_shares(final(self)@.loads[n])
                && final(self)@.loads[n].cpu >= load_or_empty(old(self)@.loads, n).cpu,
            forall|n: NodeId| old(self)@.loads.contains_key(n) ==> #[trigger] final(self)@.loads.contains_key(n),
            r is Ok ==> forall|n: NodeId| #[trigger] final(self)@.loads.contains_key(n) ==>
                final(self)@.loads[n].cpu == load_or_empty(old(self)@.loads, n).cpu + (if ns@.contains(n) { CPU_SHARE as int } else { 0int }),
            r is Ok ==> forall|k: int| 0 <= k < ns@.len() ==> final(self)@.loads.contains_key(#[trigger] ns@[k]),
    {
        let ghost m0 = self@.loads;
        let mut i: usize = 0;
        assert(ns@.skip(0) =~= ns@);
        while i < ns.len()
            invariant
                i <= ns@.len(),
                distinct_ids(ns@),
                keys_unique(load_pairs(self.loads@)),
                self.sessions == old(self).sessions,
                self.cluster == old(self).cluster,
                m0 == old(self)@.loads,
                reserve_fold(m0, session_id, ns@) == reserve_fold(self@.loads, session_id, ns@.skip(i as int)),
                forall|n: NodeId| #[trigger] self@.loads.contains_key(n) ==> whole_shares(self@.loads[n])
                    && self@.loads[n].cpu == load_or_empty(m0, n).cpu + (if ns@.take(i as int).contains(n) { CPU_SHARE as int } else { 0int }),
                forall|n: NodeId| m0.contains_key(n) ==> #[trigger] self@.loads.contains_key(n),
                forall|k: int| 0 <= k < i ==> self@.loads.contains_key(#[trigger] ns@[k]),
            decreases ns@.len() - i,
        {
            let n = ns[i];
            let ghost cur = self@.loads;
            assert(ns@.skip(i as int)[0] == n);
            assert(ns@.skip(i as int).drop_first() =~= ns@.skip(i + 1));
            assert(!ns@.take(i as int).contains(n)) by {
                if ns@.take(i as int).contains(n) {
                    let q = choose|q: int| 0 <= q < i && ns@.take(i as int)[q] == n;
                    assert(ns@[q] == ns@[i as int]);
                }
            }
            assert(ns@.take(i + 1) =~= ns@.take(i as int).push(n));
            let k = self.load_entry(n);
            assert(self@.loads.contains_key(n));
            assert(self@.loads[n] == load_or_empty(cur, n));
            proof {
                lemma_map_lookup(load_pairs(self.loads@), k as int);
            }
            let cpu = self.loads[k].1.allocated_cpu_percent;
            if cpu + CPU_SHARE > 100 {
                proof {
                    assert forall|m: NodeId| #[trigger] self@.loads.contains_key(m) implies whole_shares(self@.loads[m])
                        && self@.loads[m].cpu >= load_or_empty(m0, m).cpu by {
                        if m != n {
                            assert(cur.contains_key(m));
                        } else if !cur.contains_key(n) {
                            assert(!m0.contains_key(n));
                        }
                    }
                }
                return Err(ScheduleError::InsufficientResources(n));
            }
            let ghost e = load_or_empty(cur, n);
            let old_entry = &self.loads[k].1;
            let mut active: Vec<SessionId> = Vec::new();
            let mut j: usize = 0;
            while j < old_entry.active_sessions.len()
                invariant
                    j <= old_entry.active_sessions@.len(),
                    active@ == old_entry.active_sessions@.take(j as int),
                decreases old_entry.active_sessions@.len() - j,
            {
                active.push(old_entry.active_sessions[j]);
                assert(old_entry.active_sessions@.take(j + 1) =~= old_entry.active_sessions@.take(j as int).push(old_entry.active_sessions@[j as int]));
                j = j + 1;
            }
            assert(old_entry.active_sessions@.take(j as int) =~= old_entry.active_sessions@);
            active.push(session_id);
            let updated = NodeAllocation {
                allocated_cpu_percent: old_entry.allocated_cpu_percent + CPU_SHARE,
                allocated_ram_bytes: old_entry.allocated_ram_bytes + RAM_SHARE,
                allocated_vram_bytes: old_entry.allocated_vram_bytes + VRAM_SHARE,
                active_sessions: active,
            };
            assert(load_view(updated) == bumped(e, session_id));
            self.set_load(k, updated);
            proof {
                assert(self@.loads =~= cur.insert(n, bumped(e, session_id)));
                assert(ns@.take(i + 1)[i as int] == n);
                assert forall|m: NodeId| #[trigger] self@.loads.contains_key(m) implies whole_shares(self@.loads[m])
                    && self@.loads[m].cpu == load_or_empty(m0, m).cpu + (if ns@.take(i + 1).contains(m) { CPU_SHARE as int } else { 0int }) by {
                    if m != n {
                        assert(cur.contains_key(m));
                        assert(ns@.take(i + 1).contains(m) == ns@.take(i as int).contains(m));
                    } else {
                        assert(ns@.take(i + 1).contains(n));
                        if !cur.contains_key(n) {
                            assert(!m0.contains_key(n));
                        }
                    }
                }
            }
            i = i + 1;
        }
        proof {
            assert(ns@.skip(i as int) =~= Seq::<NodeId>::empty());
            assert(ns@.take(i as int) =~= ns@);
            assert forall|n: NodeId| #[trigger] self@.loads.contains_key(n) implies whole_shares(self@.loads[n])
                && self@.loads[n].cpu >= load_or_empty(m0, n).cpu by {
            }
        }
        Ok(())
    }
}

impl Clone for ScheduledSession {
    fn clone(&self) -> (r: Self)
        ensures
            r.session_id == self.session_id,
            placement_view(r) == placement_view(*self),
    {
        let nodes = self.assigned_nodes.clone();
        let allocs = self.allocated_resources.clone();
        assert(nodes@ =~= self.assigned_nodes@);
        assert(allocs@ =~= self.allocated_resources@);
        ScheduledSession {
            session_id: self.session_id,
            model_id: self.model_id.clone(),
            assigned_nodes: nodes,
            allocated_resources: allocs,
            priority: self.priority,
            scheduled_at: self.scheduled_at,
            estimated_tokens_per_second_bits: self.estimated_tokens_per_second_bits,
        }
    }
}

impl Scheduler {
    /// Stores a session, replacing one with the same id.
    fn store_session(&mut self, s: ScheduledSession)
        requires
            keys_unique(session_pairs(old(self).sessions@)),
            sessions_ok(old(self).sessions@, old(self)@.loads),
            session_ok(placement_view(s), old(self)@.loads),
        ensures
            keys_unique(session_pairs(final(self).sessions@)),
            sessions_ok(final(self).sessions@, final(self)@.loads),
            final(self).loads == old(self).loads,
            final(self).cluster == old(self).cluster,
            final(self)@.sessions == old(self)@.sessions.insert(s.session_id, placement_view(s)),
            forall|n: NodeId| #[trigger] count_on(final(self).session_list(), n) <= count_on(old(self).session_list(), n)
                + (if placement_view(s).nodes.contains(n) { 1int } else { 0int }),
    {
        let ghost ps = session_pairs(self.sessions@);
        let ghost pl = placements(self.sessions@);
        let ghost pv = placement_view(s);
        let sid = s.session_id;
        match self.find_session(sid) {
            Some(i) => {
                proof {
                    lemma_map_update(ps, i as int, pv);
                }
                self.sessions.set(i, s);
                proof {
                    assert(session_pairs(self.sessions@) =~= ps.update(i as int, (ps[i as int].0, pv)));
                    assert(placements(self.sessions@) =~= pl.update(i as int, pv));
                    assert forall|n: NodeId| #[trigger] count_on(self.session_list(), n) <= count_on(pl, n)
                        + (if pv.nodes.contains(n) { 1int } else { 0int }) by {
                        lemma_count_on_update(pl, i as int, pv, n);
                    }
                }
            },
            None => {
                proof {
                    lemma_unique_push(ps, sid, pv);
                    lemma_map_push(ps, sid, pv);
                }
                self.sessions.push(s);
                proof {
                    assert(session_pairs(self.sessions@) =~= ps.push((sid, pv)));
                    assert(placements(self.sessions@) =~= pl.push(pv));
                    assert forall|n: NodeId| #[trigger] count_on(self.session_list(), n) <= count_on(pl, n)
                        + (if pv.nodes.contains(n) { 1int } else { 0int }) by {
                        lemma_count_on_push(pl, pv, n);
                    }
                }
            },
        }
    }

    /// Schedules a session: admission, then the best three healthy nodes
    /// (`scores` holds each node's score key), then a share reserved on each,
    /// in order. `estimate_bits` is the session's throughput estimate.
    pub fn schedule(&mut self, request: ScheduleRequest, scores: &Vec<u32>, estimate_bits: u32) -> (r: Result<ScheduledSession, ScheduleError>)
        requires
            old(self).wf(),
            scores@.len() == old(self).cluster().nodes@.len(),
        ensures
            final(self).wf(),
            final(self).cluster() == old(self).cluster(),
            schedule_outcome(old(self)@, old(self).cluster(), request, scores@, estimate_bits, final(self)@, r),
    {
        if !self.check_admission(&request) {
            return Err(ScheduleError::AdmissionRejected);
        }
        let selected = self.select_nodes(scores);
        let ghost c = candidates(self.cluster.nodes@, scores@, scores@.len() as int);
        if selected.len() == 0 {
            return Err(ScheduleError::NoAvailableNodes);
        }
        let allocations = self.calculate_allocations(&selected);
        let ghost before = *self;
        let ghost pl = self.session_list();
        let reserved = self.reserve_resources(request.session_id, &selected);
        proof {
            // Every session's nodes still have a load, and each load still covers its sessions.
            assert forall|i: int| 0 <= i < self.sessions@.len() implies session_ok(#[trigger] placement_view(self.sessions@[i]), self@.loads) by {
                assert(session_ok(placement_view(before.sessions@[i]), before@.loads));
            }
            assert forall|n: NodeId| #[trigger] self@.loads.contains_key(n) implies whole_shares(self@.loads[n])
                && self@.loads[n].cpu >= CPU_SHARE * count_on(self.session_list(), n) by {
                if !before@.loads.contains_key(n) {
                    assert forall|i: int| 0 <= i < pl.len() implies !pl[i].nodes.contains(n) by {
                        assert(session_ok(placement_view(before.sessions@[i]), before@.loads));
                        if pl[i].nodes.contains(n) {
                            let k = choose|k: int| 0 <= k < pl[i].nodes.len() && pl[i].nodes[k] == n;
                            assert(before@.loads.contains_key(pl[i].nodes[k]));
                        }
                    }
                    lemma_count_on_absent(pl, n);
                }
            }
        }
        match reserved {
            Err(e) => {
                return Err(e);
            },
            Ok(()) => {},
        }
        let ghost ids = selected@;
        let session = ScheduledSession {
            session_id: request.session_id,
            model_id: request.model_id,
            assigned_nodes: selected,
            allocated_resources: allocations,
            priority: request.priority,
            scheduled_at: now_millis(),
            estimated_tokens_per_second_bits: estimate_bits,
        };
        let out = session.clone();
        let ghost pv = placement_view(session);
        let ghost mid = *self;
        self.store_session(session);
        proof {
            assert forall|n: NodeId| #[trigger] self@.loads.contains_key(n) implies whole_shares(self@.loads[n])
                && self@.loads[n].cpu >= CPU_SHARE * count_on(self.session_list(), n) by {
                assert(self@.loads[n].cpu == load_or_empty(before@.loads, n).cpu + (if ids.contains(n) { CPU_SHARE as int } else { 0int }));
                assert(count_on(self.session_list(), n) <= count_on(pl, n) + (if pv.nodes.contains(n) { 1int } else { 0int }));
                if before@.loads.contains_key(n) {
                    assert(before@.loads[n].cpu >= CPU_SHARE * count_on(pl, n));
                } else {
                    assert forall|i: int| 0 <= i < pl.len() implies !pl[i].nodes.contains(n) by {
                        assert(session_ok(placement_view(before.sessions@[i]), before@.loads));
                        if pl[i].nodes.contains(n) {
                            let k = choose|k: int| 0 <= k < pl[i].nodes.len() && pl[i].nodes[k] == n;
                            assert(before@.loads.contains_key(pl[i].nodes[k]));
                        }
                    }
                    lemma_count_on_absent(pl, n);
                }
            }
        }
        Ok(out)
    }
}

impl Scheduler {
    /// Ends a session and gives its shares back to its nodes.
    pub fn release_session(&mut self, session_id: SessionId) -> (r: Result<(), ScheduleError>)
        requires
            old(self).wf(),
        ensures
            final(self).wf(),
            final(self).cluster() == old(self).cluster(),
            release_outcome(old(self)@, final(self)@, session_id, r),
    {
        let ghost ps = session_pairs(self.sessions@);
        let ghost pl = self.session_list();
        let ghost m0 = self@.loads;
        let i = match self.find_session(session_id) {
            Some(i) => i,
            None => {
                proof {
                    lemma_map_absent(ps, session_id);
                }
                return Err(ScheduleError::SessionNotFound);
            },
        };
        proof {
            lemma_map_lookup(ps, i as int);
            lemma_map_remove(ps, i as int);
        }
        let ghost old_sessions = self.sessions@;
        let s = self.sessions.remove(i);
        let ghost p = placement_view(s);
        proof {
            assert(session_pairs(self.sessions@) =~= ps.remove(i as int));
            assert(placements(self.sessions@) =~= pl.remove(i as int));
            assert(session_ok(placement_view(old_sessions[i as int]), m0));
            assert forall|k: int| 0 <= k < self.sessions@.len() implies session_ok(#[trigger] placement_view(self.sessions@[k]), m0) by {
                let k2 = if k < i { k } else { k + 1 };
                assert(self.sessions@[k] == old_sessions[k2]);
                assert(session_ok(placement_view(old_sessions[k2]), m0));
            }
        }
        let allocs = &s.allocated_resources;
        let ghost ns = p.nodes;
        proof {
            assert(pl[i as int] == p);
            assert forall|k: int| 0 <= k < ns.len() implies count_on(pl, #[trigger] ns[k]) >= 1 by {
                assert(pl[i as int].nodes[k] == ns[k]);
                lemma_count_on_present(pl, i as int, ns[k]);
            }
        }
        let mut j: usize = 0;
        assert(allocs@.skip(0) =~= allocs@);
        while j < allocs.len()
            invariant
                j <= allocs@.len(),
                allocs@ == shares(ns),
                distinct_ids(ns),
                forall|k: int| 0 <= k < ns.len() ==> m0.contains_key(#[trigger] ns[k]),
                keys_unique(load_pairs(self.loads@)),
                keys_unique(session_pairs(self.sessions@)),
                self.cluster == old(self).cluster,
                self.sessions@ == old_sessions.remove(i as int),
                release_fold(m0, session_id, allocs@) == release_fold(self@.loads, session_id, allocs@.skip(j as int)),
                self@.loads.dom() == m0.dom(),
                forall|n: NodeId| #[trigger] self@.loads.contains_key(n) ==> whole_shares(self@.loads[n])
                    && self@.loads[n].cpu == m0[n].cpu - (if ns.take(j as int).contains(n) { CPU_SHARE as int } else { 0int }),
                forall|n: NodeId| #[trigger] m0.contains_key(n) ==> whole_shares(m0[n]) && m0[n].cpu >= CPU_SHARE * count_on(pl, n),
                forall|k: int| 0 <= k < ns.len() ==> count_on(pl, #[trigger] ns[k]) >= 1,
            decreases allocs@.len() - j,
        {
            let a = allocs[j];
            let n = a.node_id;
            let ghost cur = self@.loads;
            assert(a == share(ns[j as int]));
            assert(allocs@.skip(j as int)[0] == a);
            assert(allocs@.skip(j as int).drop_first() =~= allocs@.skip(j + 1));
            assert(!ns.take(j as int).contains(n)) by {
                if ns.take(j as int).contains(n) {
                    let q = choose|q: int| 0 <= q < j && ns.take(j as int)[q] == n;
                    assert(ns[q] == ns[j as int]);
                }
            }
            assert(ns.take(j + 1) =~= ns.take(j as int).push(n));
            assert(ns.take(j + 1)[j as int] == n);
            assert(m0.contains_key(ns[j as int]));
            assert(count_on(pl, ns[j as int]) >= 1);
            match self.find_load(n) {
                Some(k) => {
                    proof {
                        lemma_map_lookup(load_pairs(self.loads@), k as int);
                    }
                    let entry = &self.loads[k].1;
                    assert(load_view(*entry) == cur[n]);
                    assert(cur[n].cpu == m0[n].cpu);
                    let mut kept: Vec<SessionId> = Vec::new();
                    let mut q: usize = 0;
                    while q < entry.active_sessions.len()
                        invariant
                            q <= entry.active_sessions@.len(),
                            kept@ == without_session(entry.active_sessions@.take(q as int), session_id),
                        decreases entry.active_sessions@.len() - q,
                    {
                        assert(entry.active_sessions@.take(q + 1).drop_last() =~= entry.active_sessions@.take(q as int));
                        if entry.active_sessions[q] != session_id {
                            kept.push(entry.active_sessions[q]);
                        }
                        q = q + 1;
                    }
                    assert(entry.active_sessions@.take(q as int) =~= entry.active_sessions@);
                    let updated = NodeAllocation {
                        allocated_cpu_percent: entry.allocated_cpu_percent - a.cpu_percent,
                        allocated_ram_bytes: entry.allocated_ram_bytes - a.ram_bytes,
                        allocated_vram_bytes: entry.allocated_vram_bytes - a.vram_bytes,
                        active_sessions: kept,
                    };
                    self.set_load(k, updated);
                    proof {
                        let e = cur[n];
                        assert(self@.loads =~= cur.insert(n, NodeLoad {
                            cpu: (e.cpu - a.cpu_percent) as u32,
                            ram: (e.ram - a.ram_bytes) as u64,
                            vram: (e.vram - a.vram_bytes) as u64,
                            sessions: without_session(e.sessions, session_id),
                        }));
                        assert forall|m: NodeId| #[trigger] self@.loads.contains_key(m) implies whole_shares(self@.loads[m])
                            && self@.loads[m].cpu == m0[m].cpu - (if ns.take(j + 1).contains(m) { CPU_SHARE as int } else { 0int }) by {
                            if m != n {
                                assert(ns.take(j + 1).contains(m) == ns.take(j as int).contains(m));
                            } else {
                                assert((e.cpu as int - 30) / 30 == (e.cpu as int) / 30 - 1);
                            }
                        }
                    }
                },
                None => {
                    proof {
                        lemma_map_absent(load_pairs(self.loads@), n);
                    }
                    assert(false);
                },
            }
            j = j + 1;
        }
        proof {
            assert(allocs@.skip(j as int) =~= Seq::<ResourceAllocation>::empty());
            assert(ns.take(j as int) =~= ns);
            assert forall|n: NodeId| #[trigger] self@.loads.contains_key(n) implies whole_shares(self@.loads[n])
                && self@.loads[n].cpu >= CPU_SHARE * count_on(self.session_list(), n) by {
                lemma_count_on_remove(pl, i as int, n);
            }
            assert forall|k: int| 0 <= k < self.sessions@.len() implies session_ok(#[trigger] placement_view(self.sessions@[k]), self@.loads) by {
                let pk = placement_view(self.sessions@[k]);
                assert(session_ok(pk, m0));
                assert forall|q: int| 0 <= q < pk.nodes.len() implies self@.loads.contains_key(#[trigger] pk.nodes[q]) by {
                    assert(m0.contains_key(pk.nodes[q]));
                }
            }
        }
        Ok(())
    }

    /// The number of sessions, and the CPU (in percent), RAM and VRAM
    /// reserved over all nodes.
    pub fn get_stats(&self) -> (r: SchedulerStats)
        requires
            self.wf(),
            self@.loads.len() * MAX_LOAD_RAM <= u64::MAX,
        ensures
            r.active_sessions == self@.sessions.len(),
            r.total_allocated_cpu <= self@.loads.len() * MAX_LOAD_CPU,
            r.total_allocated_ram <= self@.loads.len() * MAX_LOAD_RAM,
            r.total_allocated_vram <= self@.loads.len() * MAX_LOAD_VRAM,
            r.total_allocated_cpu == cpu_total(self@.loads),
            r.total_allocated_ram == ram_total(self@.loads),
            r.total_allocated_vram == vram_total(self@.loads),
            r.total_allocated_cpu == cpu_sum(self.load_list()),
            r.total_allocated_ram == ram_sum(self.load_list()),
            r.total_allocated_vram == vram_sum(self.load_list()),
    {
        proof {
            lemma_map_len(session_pairs(self.sessions@));
            lemma_map_len(load_pairs(self.loads@));
            let ps = load_pairs(self.loads@);
            assert forall|i: int| 0 <= i < self.load_list().len() implies whole_shares(#[trigger] self.load_list()[i]) by {
                lemma_map_lookup(ps, i);
                assert(self@.loads.contains_key(ps[i].0));
            }
            lemma_load_sums_bound(self.load_list());
            assert(ps.map_values(|p: (NodeId, NodeLoad)| p.1) =~= self.load_list());
            lemma_field_sum_is_total(ps, sel_cpu());
            lemma_field_sum_is_total(ps, sel_ram());
            lemma_field_sum_is_total(ps, sel_vram());
            lemma_sums_are_field_sums(self.load_list());
            let n = self.load_list().len();
            assert(n * MAX_LOAD_CPU <= n * MAX_LOAD_RAM) by (nonlinear_arith) requires n >= 0;
            assert(n * MAX_LOAD_VRAM <= n * MAX_LOAD_RAM) by (nonlinear_arith) requires n >= 0;
        }
        let ghost ls = self.load_list();
        let mut cpu: u64 = 0;
        let mut ram: u64 = 0;
        let mut vram: u64 = 0;
        let mut i: usize = 0;
        while i < self.loads.len()
            invariant
                i <= self.loads@.len(),
                ls == loads_of(self.loads@),
                cpu_sum(ls) <= ls.len() * MAX_LOAD_CPU,
                ram_sum(ls) <= ls.len() * MAX_LOAD_RAM,
                vram_sum(ls) <= ls.len() * MAX_LOAD_VRAM,
                ls.len() * MAX_LOAD_RAM <= u64::MAX,
                cpu_sum(ls) <= u64::MAX,
                ram_sum(ls) <= u64::MAX,
                vram_sum(ls) <= u64::MAX,
                cpu == cpu_sum(ls.take(i as int)),
                ram == ram_sum(ls.take(i as int)),
                vram == vram_sum(ls.take(i as int)),
            decreases self.loads@.len() - i,
        {
            assert(ls.take(i + 1).drop_last() =~= ls.take(i as int));
            proof {
                lemma_load_sums_prefix(ls, i + 1);
            }
            cpu = cpu + self.loads[i].1.allocated_cpu_percent as u64;
            ram = ram + self.loads[i].1.allocated_ram_bytes;
            vram = vram + self.loads[i].1.allocated_vram_bytes;
            i = i + 1;
        }
        assert(ls.take(i as int) =~= ls);
        SchedulerStats { active_sessions: self.sessions.len(), total_allocated_cpu: cpu, total_allocated_ram: ram, total_allocated_vram: vram }
    }
}

/// The most one node can hold reserved: three shares.
pub const MAX_LOAD_CPU: u64 = 90;
pub const MAX_LOAD_RAM: u64 = 3 * 4 * 1024 * 1024 * 1024;
pub const MAX_LOAD_VRAM: u64 = 3 * 2 * 1024 * 1024 * 1024;

proof fn lemma_load_sums_bound(s: Seq<NodeLoad>)
    requires
        forall|i: int| 0 <= i < s.len() ==> whole_shares(#[trigger] s[i]),
    ensures
        cpu_sum(s) <= s.len() * MAX_LOAD_CPU,
        ram_sum(s) <= s.len() * MAX_LOAD_RAM,
        vram_sum(s) <= s.len() * MAX_LOAD_VRAM,
    decreases s.len(),
{
    if s.len() > 0 {
        let l = s.last();
        assert(whole_shares(s[s.len() - 1]));
        assert forall|i: int| 0 <= i < s.drop_last().len() implies whole_shares(#[trigger] s.drop_last()[i]) by {
            assert(s.drop_last()[i] == s[i]);
        }
        lemma_load_sums_bound(s.drop_last());
        assert(l.cpu / CPU_SHARE <= 3);
        assert(l.ram <= MAX_LOAD_RAM) by (nonlinear_arith)
            requires l.ram == (l.cpu / CPU_SHARE) as int * RAM_SHARE, 0 <= l.cpu / CPU_SHARE <= 3;
        assert(l.vram <= MAX_LOAD_VRAM) by (nonlinear_arith)
            requires l.vram == (l.cpu / CPU_SHARE) as int * VRAM_SHARE, 0 <= l.cpu / CPU_SHARE <= 3;
        assert(s.len() * MAX_LOAD_RAM == (s.len() - 1) * MAX_LOAD_RAM + MAX_LOAD_RAM) by (nonlinear_arith);
        assert(s.len() * MAX_LOAD_VRAM == (s.len() - 1) * MAX_LOAD_VRAM + MAX_LOAD_VRAM) by (nonlinear_arith);
        assert(s.len() * MAX_LOAD_CPU == (s.len() - 1) * MAX_LOAD_CPU + MAX_LOAD_CPU) by (nonlinear_arith);
    }
}


// ----- totals over the nodes' loads -----

/// The sum of `w` over a finite set of nodes.
pub open spec fn weight_sum(s: Set<NodeId>, w: spec_fn(NodeId) -> int) -> int {
    s.fold(0int, |acc: int, k: NodeId| acc + w(k))
}

pub open spec fn sel_cpu() -> spec_fn(NodeLoad) -> int {
    |l: NodeLoad| l.cpu as int
}

pub open spec fn sel_ram() -> spec_fn(NodeLoad) -> int {
    |l: NodeLoad| l.ram as int
}

pub open spec fn sel_vram() -> spec_fn(NodeLoad) -> int {
    |l: NodeLoad| l.vram as int
}

/// The sum of one measure of the loads over the nodes that have one.
pub open spec fn load_total(m: Map<NodeId, NodeLoad>, sel: spec_fn(NodeLoad) -> int) -> int {
    weight_sum(m.dom(), |k: NodeId| sel(load_or_empty(m, k)))
}

/// The CPU reserved over all nodes, in percent.
pub open spec fn cpu_total(m: Map<NodeId, NodeLoad>) -> int {
    load_total(m, sel_cpu())
}

/// The RAM reserved over all nodes.
pub open spec fn ram_total(m: Map<NodeId, NodeLoad>) -> int {
    load_total(m, sel_ram())
}

/// The VRAM reserved over all nodes.
pub open spec fn vram_total(m: Map<NodeId, NodeLoad>) -> int {
    load_total(m, sel_vram())
}

pub open spec fn field_sum(s: Seq<NodeLoad>, sel: spec_fn(NodeLoad) -> int) -> int
    decreases s.len(),
{
    if s.len() == 0 {
        0
    } else {
        field_sum(s.drop_last(), sel) + sel(s.last())
    }
}

proof fn lemma_weight_sum_insert(s: Set<NodeId>, w: spec_fn(NodeId) -> int, a: NodeId)
    requires
        s.finite(),
        !s.contains(a),
    ensures
        weight_sum(s.insert(a), w) == weight_sum(s, w) + w(a),
{
    let f = |acc: int, k: NodeId| acc + w(k);
    assert(vstd::set::fold::is_fun_commutative(f)) by {
        assert forall|a1: NodeId, a2: NodeId, b: int| #[trigger] f(f(b, a2), a1) == f(f(b, a1), a2) by {}
    }
    vstd::set::fold::lemma_fold_insert(s, 0int, f, a);
}

/// Nodes of `t` outside `s` whose weight is zero add nothing.
proof fn lemma_weight_sum_extra_zero(s: Set<NodeId>, t: Set<NodeId>, w: spec_fn(NodeId) -> int)
    requires
        t.finite(),
        s.subset_of(t),
        forall|k: NodeId| t.contains(k) && !s.contains(k) ==> w(k) == 0,
    ensures
        weight_sum(t, w) == weight_sum(s, w),
    decreases t.len(),
{
    if t.subset_of(s) {
        assert(t =~= s);
    } else {
        let a = choose|a: NodeId| t.contains(a) && !s.contains(a);
        let t2 = t.remove(a);
        assert(t2.len() < t.len());
        lemma_weight_sum_extra_zero(s, t2, w);
        lemma_weight_sum_insert(t2, w, a);
        assert(t2.insert(a) =~= t);
    }
}

/// The sum of a measure over a key-unique list of loads is its total over
/// the map the list stands for.
proof fn lemma_field_sum_is_total(ps: Seq<(NodeId, NodeLoad)>, sel: spec_fn(NodeLoad) -> int)
    requires
        keys_unique(ps),
    ensures
        field_sum(ps.map_values(|p: (NodeId, NodeLoad)| p.1), sel) == load_total(seq_to_map(ps), sel),
    decreases ps.len(),
{
    let m = seq_to_map(ps);
    let w = |k: NodeId| sel(load_or_empty(m, k));
    lemma_map_len(ps);
    if ps.len() == 0 {
        vstd::set::fold::lemma_fold_empty(0int, |acc: int, k: NodeId| acc + w(k));
        assert(m.dom() =~= Set::<NodeId>::empty());
    } else {
        let q = ps.drop_last();
        let last = ps.last();
        let mq = seq_to_map(q);
        assert(keys_unique(q)) by {
            assert forall|i: int, j: int| 0 <= i < q.len() && 0 <= j < q.len() && i != j implies q[i].0 != q[j].0 by {
                assert(q[i] == ps[i] && q[j] == ps[j]);
            }
        }
        lemma_field_sum_is_total(q, sel);
        lemma_map_len(q);
        assert(!mq.contains_key(last.0)) by {
            lemma_map_domain(q, last.0);
            if mq.contains_key(last.0) {
                let i = choose|i: int| 0 <= i < q.len() && q[i].0 == last.0;
                assert(ps[i].0 == ps[ps.len() - 1].0);
            }
        }
        assert(ps.map_values(|p: (NodeId, NodeLoad)| p.1).drop_last() =~= q.map_values(|p: (NodeId, NodeLoad)| p.1));
        let wq = |k: NodeId| sel(load_or_empty(mq, k));
        assert(m.dom() =~= mq.dom().insert(last.0));
        lemma_weight_sum_insert(mq.dom(), w, last.0);
        lemma_weight_sum_extra_zero(mq.dom(), mq.dom(), w);
        // On the nodes of `q`, the two maps give the same loads.
        assert forall|k: NodeId| mq.dom().contains(k) implies #[trigger] w(k) == wq(k) by {
            assert(k != last.0);
        }
        lemma_weight_sum_agree(mq.dom(), w, wq);
    }
}

proof fn lemma_sums_are_field_sums(s: Seq<NodeLoad>)
    ensures
        cpu_sum(s) == field_sum(s, sel_cpu()),
        ram_sum(s) == field_sum(s, sel_ram()),
        vram_sum(s) == field_sum(s, sel_vram()),
    decreases s.len(),
{
    if s.len() > 0 {
        lemma_sums_are_field_sums(s.drop_last());
    }
}

/// Weights that agree on a finite set give the same sum over it.
proof fn lemma_weight_sum_agree(s: Set<NodeId>, w1: spec_fn(NodeId) -> int, w2: spec_fn(NodeId) -> int)
    requires
        s.finite(),
        forall|k: NodeId| s.contains(k) ==> #[trigger] w1(k) == w2(k),
    ensures
        weight_sum(s, w1) == weight_sum(s, w2),
    decreases s.len(),
{
    if s.len() == 0 {
        assert(s =~= Set::<NodeId>::empty());
        vstd::set::fold::lemma_fold_empty(0int, |acc: int, k: NodeId| acc + w1(k));
        vstd::set::fold::lemma_fold_empty(0int, |acc: int, k: NodeId| acc + w2(k));
    } else {
        let a = s.choose();
        let s2 = s.remove(a);
        lemma_weight_sum_agree(s2, w1, w2);
        lemma_weight_sum_insert(s2, w1, a);
        lemma_weight_sum_insert(s2, w2, a);
        assert(s2.insert(a) =~= s);
    }
}

proof fn lemma_load_sums_prefix(s: Seq<NodeLoad>, k: int)
    requires
        0 <= k <= s.len(),
    ensures
        0 <= cpu_sum(s.take(k)) <= cpu_sum(s),
        0 <= ram_sum(s.take(k)) <= ram_sum(s),
        0 <= vram_sum(s.take(k)) <= vram_sum(s),
    decreases s.len() - k,
{
    if k < s.len() {
        lemma_load_sums_prefix(s, k + 1);
        assert(s.take(k + 1).drop_last() =~= s.take(k));
    } else {
        assert(s.take(k) =~= s);
    }
    lemma_load_sums_nonneg(s.take(k));
}

proof fn lemma_load_sums_nonneg(s: Seq<NodeLoad>)
    ensures
        cpu_sum(s) >= 0,
        ram_sum(s) >= 0,
        vram_sum(s) >= 0,
    decreases s.len(),
{
    if s.len() > 0 {
        lemma_load_sums_nonneg(s.drop_last());
    }
}

/// No node occurs twice in `ns`.
pub open spec fn distinct_nodes(ns: Seq<NodeId>) -> bool {
    forall|i: int, j: int| 0 <= i < j < ns.len() ==> ns[i] != ns[j]
}

/// A load with one session share given back.
pub open spec fn released(e: NodeLoad, sid: SessionId) -> NodeLoad {
    NodeLoad {
        cpu: (e.cpu - CPU_SHARE) as u32,
        ram: (e.ram - RAM_SHARE) as u64,
        vram: (e.vram - VRAM_SHARE) as u64,
        sessions: without_session(e.sessions, sid),
    }
}

proof fn lemma_without_absent(s: Seq<SessionId>, sid: SessionId)
    requires
        !s.contains(sid),
    ensures
        without_session(s, sid) == s,
    decreases s.len(),
{
    if s.len() > 0 {
        assert(!s.drop_last().contains(sid)) by {
            if s.drop_last().contains(sid) {
                let j = choose|j: int| 0 <= j < s.drop_last().len() && s.drop_last()[j] == sid;
                assert(s[j] == sid);
            }
        }
        lemma_without_absent(s.drop_last(), sid);
        assert(s[s.len() - 1] != sid);
        assert(s.drop_last().push(s.last()) =~= s);
    }
}

/// A successful reservation on distinct nodes bumps each of them once and
/// leaves the other nodes alone.
proof fn lemma_reserve_pointwise(m: Map<NodeId, NodeLoad>, sid: SessionId, ns: Seq<NodeId>, k: NodeId)
    requires
        distinct_nodes(ns),
        reserve_fold(m, sid, ns).1 is None,
    ensures
        ns.contains(k) ==> reserve_fold(m, sid, ns).0.contains_key(k)
            && reserve_fold(m, sid, ns).0[k] == bumped(load_or_empty(m, k), sid)
            && load_or_empty(m, k).cpu + CPU_SHARE <= 100,
        !ns.contains(k) ==> load_or_empty(reserve_fold(m, sid, ns).0, k) == load_or_empty(m, k)
            && (reserve_fold(m, sid, ns).0.contains_key(k) == m.contains_key(k)),
    decreases ns.len(),
{
    if ns.len() > 0 {
        let e = load_or_empty(m, ns[0]);
        let m1 = m.insert(ns[0], bumped(e, sid));
        let rest = ns.drop_first();
        assert(distinct_nodes(rest)) by {
            assert forall|i: int, j: int| 0 <= i < j < rest.len() implies rest[i] != rest[j] by {
                assert(ns[i + 1] != ns[j + 1]);
            }
        }
        lemma_reserve_pointwise(m1, sid, rest, k);
        if k == ns[0] {
            assert(!rest.contains(k)) by {
                if rest.contains(k) {
                    let j = choose|j: int| 0 <= j < rest.len() && rest[j] == k;
                    assert(ns[j + 1] == ns[0]);
                }
            }
        } else {
            if ns.contains(k) {
                let j = choose|j: int| 0 <= j < ns.len() && ns[j] == k;
                assert(rest[j - 1] == k);
            }
            if rest.contains(k) {
                let j = choose|j: int| 0 <= j < rest.len() && rest[j] == k;
                assert(ns[j + 1] == k);
            }
        }
    }
}

/// Giving back the shares of distinct nodes takes one share from each of
/// them that has a load, and leaves the other nodes alone.
proof fn lemma_release_pointwise(m: Map<NodeId, NodeLoad>, sid: SessionId, ns: Seq<NodeId>, k: NodeId)
    requires
        distinct_nodes(ns),
    ensures
        ns.contains(k) && m.contains_key(k) ==> release_fold(m, sid, shares(ns)).contains_key(k)
            && release_fold(m, sid, shares(ns))[k] == released(m[k], sid),
        !(ns.contains(k) && m.contains_key(k)) ==> load_or_empty(release_fold(m, sid, shares(ns)), k) == load_or_empty(m, k)
            && (release_fold(m, sid, shares(ns)).contains_key(k) == m.contains_key(k)),
    decreases ns.len(),
{
    if ns.len() > 0 {
        let a = shares(ns)[0];
        let rest = ns.drop_first();
        assert(shares(ns).drop_first() =~= shares(rest));
        let m1 = if m.contains_key(a.node_id) {
            let e = m[a.node_id];
            m.insert(a.node_id, NodeLoad {
                cpu: (e.cpu - a.cpu_percent) as u32,
                ram: (e.ram - a.ram_bytes) as u64,
                vram: (e.vram - a.vram_bytes) as u64,
                sessions: without_session(e.sessions, sid),
            })
        } else {
            m
        };
        assert(release_fold(m, sid, shares(ns)) == release_fold(m1, sid, shares(rest)));
        assert(distinct_nodes(rest)) by {
            assert forall|i: int, j: int| 0 <= i < j < rest.len() implies rest[i] != rest[j] by {
                assert(ns[i + 1] != ns[j + 1]);
            }
        }
        lemma_release_pointwise(m1, sid, rest, k);
        if k == ns[0] {
            assert(!rest.contains(k)) by {
                if rest.contains(k) {
                    let j = choose|j: int| 0 <= j < rest.len() && rest[j] == k;
                    assert(ns[j + 1] == ns[0]);
                }
            }
        } else {
            if ns.contains(k) {
                let j = choose|j: int| 0 <= j < ns.len() && ns[j] == k;
                assert(rest[j - 1] == k);
            }
            if rest.contains(k) {
                let j = choose|j: int| 0 <= j < rest.len() && rest[j] == k;
                assert(ns[j + 1] == k);
            }
        }
    }
}

/// Releasing a session gives back exactly what scheduling it reserved:
/// after a successful reservation of a new session on distinct nodes, and
/// the release of its shares, every node carries the load it had before
/// (a node that had none is left with an empty load).
pub proof fn law_release_undoes_reserve(m: Map<NodeId, NodeLoad>, sid: SessionId, ns: Seq<NodeId>, k: NodeId)
    requires
        distinct_nodes(ns),
        reserve_fold(m, sid, ns).1 is None,
        forall|n: NodeId| #[trigger] m.contains_key(n) ==> !m[n].sessions.contains(sid)
            && m[n].ram + RAM_SHARE <= u64::MAX && m[n].vram + VRAM_SHARE <= u64::MAX,
    ensures
        load_or_empty(release_fold(reserve_fold(m, sid, ns).0, sid, shares(ns)), k) == load_or_empty(m, k),
{
    let big = reserve_fold(m, sid, ns).0;
    lemma_reserve_pointwise(m, sid, ns, k);
    lemma_release_pointwise(big, sid, ns, k);
    if ns.contains(k) {
        let e = load_or_empty(m, k);
        assert(!e.sessions.contains(sid));
        lemma_without_absent(e.sessions, sid);
        assert(e.sessions.push(sid).drop_last() =~= e.sessions);
        assert(without_session(e.sessions.push(sid), sid) == without_session(e.sessions, sid));
        assert(released(bumped(e, sid), sid) == e);
    }
}


/// A successful reservation on distinct nodes, given back, leaves every
/// node's CPU, RAM and VRAM as they were (a node that had no load is left
/// with an empty one).
proof fn lemma_release_undoes_reserve_amounts(m: Map<NodeId, NodeLoad>, sid: SessionId, ns: Seq<NodeId>, k: NodeId)
    requires
        distinct_nodes(ns),
        reserve_fold(m, sid, ns).1 is None,
        forall|n: NodeId| #[trigger] m.contains_key(n) ==> m[n].ram + RAM_SHARE <= u64::MAX && m[n].vram + VRAM_SHARE <= u64::MAX,
    ensures
        load_or_empty(release_fold(reserve_fold(m, sid, ns).0, sid, shares(ns)), k).cpu == load_or_empty(m, k).cpu,
        load_or_empty(release_fold(reserve_fold(m, sid, ns).0, sid, shares(ns)), k).ram == load_or_empty(m, k).ram,
        load_or_empty(release_fold(reserve_fold(m, sid, ns).0, sid, shares(ns)), k).vram == load_or_empty(m, k).vram,
{
    let big = reserve_fold(m, sid, ns).0;
    lemma_reserve_pointwise(m, sid, ns, k);
    lemma_release_pointwise(big, sid, ns, k);
}

/// Scheduling a new session and releasing it leaves the scheduler's totals
/// as they were: the CPU, RAM and VRAM reserved over all nodes return to
/// their earlier sums (the nodes that gained an empty load add nothing).
pub proof fn law_release_restores_totals(m: Map<NodeId, NodeLoad>, sid: SessionId, ns: Seq<NodeId>)
    requires
        m.dom().finite(),
        distinct_nodes(ns),
        reserve_fold(m, sid, ns).1 is None,
        forall|n: NodeId| #[trigger] m.contains_key(n) ==> m[n].ram + RAM_SHARE <= u64::MAX && m[n].vram + VRAM_SHARE <= u64::MAX,
    ensures
        cpu_total(release_fold(reserve_fold(m, sid, ns).0, sid, shares(ns))) == cpu_total(m),
        ram_total(release_fold(reserve_fold(m, sid, ns).0, sid, shares(ns))) == ram_total(m),
        vram_total(release_fold(reserve_fold(m, sid, ns).0, sid, shares(ns))) == vram_total(m),
{
    let big = reserve_fold(m, sid, ns).0;
    let m2 = release_fold(big, sid, shares(ns));
    assert forall|k: NodeId|
        #![trigger load_or_empty(m2, k)]
        load_or_empty(m2, k).cpu == load_or_empty(m, k).cpu
            && load_or_empty(m2, k).ram == load_or_empty(m, k).ram
            && load_or_empty(m2, k).vram == load_or_empty(m, k).vram by {
        lemma_release_undoes_reserve_amounts(m, sid, ns, k);
    }
    assert forall|k: NodeId| #[trigger] m2.dom().contains(k) == (m.dom().contains(k) || ns.to_set().contains(k)) by {
        lemma_reserve_pointwise(m, sid, ns, k);
        lemma_release_pointwise(big, sid, ns, k);
    }
    assert(m2.dom() =~= m.dom().union(ns.to_set()));
    vstd::seq_lib::seq_to_set_is_finite(ns);
    assert(m2.dom().finite());
    lemma_totals_extend(m, m2, sel_cpu());
    lemma_totals_extend(m, m2, sel_ram());
    lemma_totals_extend(m, m2, sel_vram());
}

/// Releasing a session that was just scheduled gives the scheduler back
/// what it had: if a session not running before is scheduled, releasing it
/// succeeds, leaves the same sessions and the same CPU, RAM and VRAM
/// totals (so the same statistics) as before it was scheduled, and a
/// second release of it is refused with `SessionNotFound`, changing nothing.
pub proof fn law_schedule_then_release(
    s0: Scheduler,
    s1: Scheduler,
    request: ScheduleRequest,
    scores: Seq<u32>,
    estimate_bits: u32,
    r1: Result<ScheduledSession, ScheduleError>,
    v2: SchedulerView,
    r2: Result<(), ScheduleError>,
)
    requires
        s0.wf(),
        s1.wf(),
        !s0@.sessions.contains_key(request.session_id),
        schedule_outcome(s0@, s0.cluster(), request, scores, estimate_bits, s1@, r1),
        r1 is Ok,
        release_outcome(s1@, v2, request.session_id, r2),
    ensures
        r2 is Ok,
        v2.sessions == s0@.sessions,
        cpu_total(v2.loads) == cpu_total(s0@.loads),
        ram_total(v2.loads) == ram_total(s0@.loads),
        vram_total(v2.loads) == vram_total(s0@.loads),
        forall|v3: SchedulerView, r3: Result<(), ScheduleError>| #[trigger] release_outcome(v2, v3, request.session_id, r3)
            ==> r3 == Err::<(), ScheduleError>(ScheduleError::SessionNotFound) && v3 == v2,
{
    let sid = request.session_id;
    let c = candidates(s0.cluster().nodes@, scores, scores.len() as int);
    let ids = choose|ids: Seq<NodeId>| #[trigger] top_ids(c, ids, MAX_SESSION_NODES as int) && {
        let (m, fail) = reserve_fold(s0@.loads, sid, ids);
        &&& s1@.loads == m
        &&& match fail {
            Some(n) => r1 == Err::<ScheduledSession, ScheduleError>(ScheduleError::InsufficientResources(n))
                && s1@.sessions == s0@.sessions,
            None => r1 matches Ok(s) && s.session_id == sid && placement_view(s) == (Placement {
                    model_id: request.model_id@,
                    nodes: ids,
                    allocations: shares(ids),
                    priority: request.priority,
                    scheduled_at: placement_view(s).scheduled_at,
                    estimate_bits,
                })
                && s1@.sessions == s0@.sessions.insert(sid, placement_view(s)),
        }
    };
    let m0 = s0@.loads;
    assert(reserve_fold(m0, sid, ids).1 is None);
    let p = s1@.sessions[sid];
    assert(p.nodes == ids && p.allocations == shares(ids));
    assert(s1@.sessions.remove(sid) =~= s0@.sessions);
    // The new session's nodes are distinct: each session of a well-formed scheduler has distinct nodes.
    let sp = session_pairs(s1.sessions@);
    lemma_map_domain(sp, sid);
    let i = choose|i: int| 0 <= i < sp.len() && sp[i].0 == sid;
    lemma_map_lookup(sp, i);
    assert(session_ok(placement_view(s1.sessions@[i]), s1@.loads));
    assert(distinct_nodes(ids)) by {
        assert forall|a: int, b: int| 0 <= a < b < ids.len() implies ids[a] != ids[b] by {
            assert(distinct_ids(p.nodes));
        }
    }
    // Every load of a well-formed scheduler is at most three shares.
    assert forall|n: NodeId| #[trigger] m0.contains_key(n) implies m0[n].ram + RAM_SHARE <= u64::MAX
        && m0[n].vram + VRAM_SHARE <= u64::MAX by {
        assert(whole_shares(m0[n]));
    }
    lemma_map_len(load_pairs(s0.loads@));
    law_release_restores_totals(m0, sid, ids);
}

/// A map that keeps another's loads and adds only empty ones has the same totals.
proof fn lemma_totals_extend(m: Map<NodeId, NodeLoad>, m2: Map<NodeId, NodeLoad>, sel: spec_fn(NodeLoad) -> int)
    requires
        m2.dom().finite(),
        m.dom().subset_of(m2.dom()),
        forall|k: NodeId| sel(#[trigger] load_or_empty(m2, k)) == sel(load_or_empty(m, k)),
        sel(empty_load()) == 0,
    ensures
        load_total(m2, sel) == load_total(m, sel),
{
    let w = |k: NodeId| sel(load_or_empty(m, k));
    let w2 = |k: NodeId| sel(load_or_empty(m2, k));
    assert(w2 =~= w) by {
        assert forall|k: NodeId| #[trigger] w2(k) == w(k) by {
            assert(sel(load_or_empty(m2, k)) == sel(load_or_empty(m, k)));
        }
    }
    lemma_weight_sum_extra_zero(m.dom(), m2.dom(), w);
}

/// Admission asks for memory in proportion to the context: a request is
/// admitted exactly when the cluster has more than 1 KiB of host memory and
/// more than 512 bytes of device memory per context token. A request short
/// of either is refused with `AdmissionRejected`, and scheduling it changes
/// nothing.
pub proof fn law_admission_needs_memory_per_token(
    v0: SchedulerView,
    cluster: LogicalCluster,
    request: ScheduleRequest,
    scores: Seq<u32>,
    estimate_bits: u32,
    v1: SchedulerView,
    r: Result<ScheduledSession, ScheduleError>,
)
    ensures
        cluster.logical_resources.device_memory_bytes <= request.context_length * 512 ==> !admits(request, cluster),
        cluster.logical_resources.host_memory_bytes <= request.context_length * 1024 ==> !admits(request, cluster),
        cluster.logical_resources.device_memory_bytes > request.context_length * 512
            && cluster.logical_resources.host_memory_bytes > request.context_length * 1024 ==> admits(request, cluster),
        (cluster.logical_resources.device_memory_bytes <= request.context_length * 512
            || cluster.logical_resources.host_memory_bytes <= request.context_length * 1024)
            && schedule_outcome(v0, cluster, request, scores, estimate_bits, v1, r)
            ==> r == Err::<ScheduledSession, ScheduleError>(ScheduleError::AdmissionRejected) && v1 == v0,
{
}

} // verus!

